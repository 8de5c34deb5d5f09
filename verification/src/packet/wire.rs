//! What packets look like on the wire, byte by byte.
use vstd::prelude::*;
use super::checksum::{
    be16, be32, checksum_of, folded, lemma_folded, lemma_word_sum_put, put16, tcp_checksum, word_sum,
};
use super::fragments::{
    datagram, datagram_of, key_number, law_datagrams_are_told_apart, remembered, resolved,
    seen_after, ResolvedL4,
};
use super::reject::{
    bytes16, bytes32, plain_header, prohibited_message, quoted, reject_reply, reset_reply,
    reset_segment, sequence_length, unreachable_reply,
};
use super::{
    destination4, read, source4, total_len, Fragmentation, IpHeader, Packet, ParseError, TcpFlags,
    Transport, TCP_ACK, TCP_FIN, TCP_RST, TCP_SYN,
};
use crate::policy::{protocol_of, Protocol};

verus! {

/// Which protocol an IP protocol number stands for: 1 is ICMP, 6 TCP, 17 UDP,
/// 58 ICMP for IPv6. Every protocol that a packet can have keeps its number.
pub proof fn law_protocol_numbers(n: u8)
    ensures
        n == 1 <==> protocol_of(n) == Protocol::Icmp,
        n == 6 <==> protocol_of(n) == Protocol::Tcp,
        n == 17 <==> protocol_of(n) == Protocol::Udp,
        n == 58 <==> protocol_of(n) == Protocol::Icmpv6,
        protocol_of(n) != Protocol::Any,
        protocol_of(n).number() == Some(n),
        Protocol::Any.number() is None,
        protocol_of(n).icmp() <==> n == 1 || n == 58,
{
}

/// What is read from the header of an IPv4 packet, and where it stands there.
/// `h` is the length of the header and `t` that of the packet, as the header
/// says.
pub proof fn law_ipv4_header_fields(s: Seq<u8>, h: int, t: int)
    requires
        s.len() >= 20,
        s[0] / 16 == 4,
        h == (s[0] % 16) * 4,
        t == s[2] * 256 + s[3],
    ensures
        h < 20 || t < h ==> read(s) == Err::<
            (IpHeader, Protocol, u16, Fragmentation, Transport),
            ParseError,
        >(ParseError::BadLength),
        20 <= h <= t && s.len() < t ==> read(s) == Err::<
            (IpHeader, Protocol, u16, Fragmentation, Transport),
            ParseError,
        >(ParseError::Truncated),
        read(s) matches Ok((ip, protocol, identification, fragmentation, transport)) ==> {
            &&& 20 <= h <= t <= s.len()
            &&& ip is V4
            &&& ip->src == s[12] * 0x100_0000 + s[13] * 0x1_0000 + s[14] * 0x100 + s[15]
            &&& ip->dst == s[16] * 0x100_0000 + s[17] * 0x1_0000 + s[18] * 0x100 + s[19]
            &&& ip->header_len == h
            &&& ip->total_len == t
            &&& protocol == protocol_of(s[9])
            &&& identification == s[4] * 256 + s[5]
            &&& fragmentation is Later <==> (s[6] % 32) * 256 + s[7] != 0
            &&& fragmentation is First <==> (s[6] % 32) * 256 + s[7] == 0 && (s[6] / 32) % 2 == 1
            &&& fragmentation is Later ==> transport is Other
        },
{
}

/// What is read from a TCP header, and where it stands there. `h` is the length
/// of the IPv4 header before it and `t` that of the whole packet.
pub proof fn law_tcp_header_fields(s: Seq<u8>, h: int, t: int)
    requires
        s.len() >= 20,
        s[0] / 16 == 4,
        h == (s[0] % 16) * 4,
        t == s[2] * 256 + s[3],
        20 <= h <= t <= s.len(),
        (s[6] % 32) * 256 + s[7] == 0,
        s[9] == 6,
    ensures
        read(s) is Ok <==> t - h >= 20 && 20 <= (s[h + 12] / 16) * 4 <= t - h,
        t - h >= 20 && (s[h + 12] / 16) * 4 < 20 ==> read(s)->Err_0 == ParseError::BadLength,
        t - h < 20 || t - h < (s[h + 12] / 16) * 4 ==> read(s)->Err_0 == ParseError::Truncated,
        read(s) matches Ok((ip, protocol, identification, fragmentation, transport)) ==> {
            &&& transport is Tcp
            &&& transport->Tcp_src_port == s[h] * 256 + s[h + 1]
            &&& transport->Tcp_dst_port == s[h + 2] * 256 + s[h + 3]
            &&& transport->header_len == (s[h + 12] / 16) * 4
            &&& transport->flags.0 == s[h + 13]
        },
{
}

/// What is read from a UDP header, and where it stands there.
pub proof fn law_udp_header_fields(s: Seq<u8>, h: int, t: int)
    requires
        s.len() >= 20,
        s[0] / 16 == 4,
        h == (s[0] % 16) * 4,
        t == s[2] * 256 + s[3],
        20 <= h <= t <= s.len(),
        (s[6] % 32) * 256 + s[7] == 0,
        s[9] == 17,
    ensures
        read(s) is Ok <==> t - h >= 8,
        t - h < 8 ==> read(s)->Err_0 == ParseError::Truncated,
        read(s) matches Ok((ip, protocol, identification, fragmentation, transport)) ==> {
            &&& transport is Udp
            &&& transport->Udp_src_port == s[h] * 256 + s[h + 1]
            &&& transport->Udp_dst_port == s[h + 2] * 256 + s[h + 3]
        },
{
}

/// What is read from an ICMP header: its type, and for an echo or the answer to
/// one the identifier.
pub proof fn law_icmp_header_fields(s: Seq<u8>, h: int, t: int)
    requires
        s.len() >= 20,
        s[0] / 16 == 4,
        h == (s[0] % 16) * 4,
        t == s[2] * 256 + s[3],
        20 <= h <= t <= s.len(),
        (s[6] % 32) * 256 + s[7] == 0,
        s[9] == 1,
    ensures
        read(s) is Ok <==> t - h >= 8,
        t - h < 8 ==> read(s)->Err_0 == ParseError::Truncated,
        read(s) matches Ok((ip, protocol, identification, fragmentation, transport)) ==> {
            &&& transport is Icmp
            &&& transport->icmp_type == s[h]
            &&& transport->icmp_id is Some <==> s[h] == 0 || s[h] == 8
            &&& transport->icmp_id is Some ==> transport->icmp_id->0 == s[h + 4] * 256 + s[h + 5]
        },
{
}

/// A packet without a transport header that policy knows is read all the same:
/// any other protocol, and every fragment but the first.
pub proof fn law_other_packets_are_read(s: Seq<u8>, h: int, t: int)
    requires
        s.len() >= 20,
        s[0] / 16 == 4,
        h == (s[0] % 16) * 4,
        t == s[2] * 256 + s[3],
        20 <= h <= t <= s.len(),
        (s[6] % 32) * 256 + s[7] != 0 || (s[9] != 6 && s[9] != 17 && s[9] != 1),
    ensures
        read(s) is Ok,
        read(s)->Ok_0.4 is Other,
{
}

/// What is neither IPv4 nor IPv6 is no packet; of IPv6 the header is enough, and
/// its seventh byte is the protocol.
pub proof fn law_other_versions(s: Seq<u8>)
    requires
        s.len() == 0 || s[0] / 16 != 4,
    ensures
        s.len() == 0 || s[0] / 16 != 6 ==> read(s) == Err::<
            (IpHeader, Protocol, u16, Fragmentation, Transport),
            ParseError,
        >(ParseError::NotIp),
        s.len() > 0 && s[0] / 16 == 6 && s.len() < 40 ==> read(s) == Err::<
            (IpHeader, Protocol, u16, Fragmentation, Transport),
            ParseError,
        >(ParseError::Truncated),
        s.len() >= 40 && s[0] / 16 == 6 ==> read(s) == Ok::<
            (IpHeader, Protocol, u16, Fragmentation, Transport),
            ParseError,
        >((IpHeader::V6, protocol_of(s[6]), 0, Fragmentation::Whole, Transport::Other)),
{
}

/// What a packet that is no later fragment is known by: its own protocol, ports,
/// ICMP type and identifier, and control bits.
pub proof fn law_packet_speaks_for_itself(seen: Map<u128, ResolvedL4>, pkt: Packet<'_>)
    requires
        !(pkt.fragmentation is Later),
    ensures
        resolved(seen, pkt) matches Some(l4) && {
            &&& l4.protocol == pkt.protocol
            &&& match pkt.transport {
                Transport::Tcp { src_port, dst_port, flags, .. } => l4.src_port == Some(src_port)
                    && l4.dst_port == Some(dst_port) && l4.tcp_flags == Some(flags) && l4.icmp_type
                    is None && l4.icmp_id is None,
                Transport::Udp { src_port, dst_port } => l4.src_port == Some(src_port)
                    && l4.dst_port == Some(dst_port) && l4.tcp_flags is None && l4.icmp_type is None
                    && l4.icmp_id is None,
                Transport::Icmp { icmp_type, icmp_id } => l4.src_port is None && l4.dst_port is None
                    && l4.tcp_flags is None && l4.icmp_type == Some(icmp_type) && l4.icmp_id
                    == icmp_id,
                Transport::Other => l4.src_port is None && l4.dst_port is None && l4.tcp_flags
                    is None && l4.icmp_type is None && l4.icmp_id is None,
            }
        },
        pkt.fragmentation is Whole ==> seen_after(seen, pkt) == seen,
{
}

/// Two packets are of one datagram exactly if they are IPv4 with the same
/// addresses, identification and protocol.
pub proof fn law_fragments_of_one_datagram(a: Packet<'_>, b: Packet<'_>)
    requires
        a.wf() && b.wf(),
    ensures
        datagram_of(a) is Some <==> a.ip is V4,
        datagram_of(a) is Some ==> (datagram_of(a) == datagram_of(b) <==> (b.ip is V4 && a.ip->src
            == b.ip->src && a.ip->dst == b.ip->dst && a.identification == b.identification
            && a.protocol == b.protocol)),
{
    let m = lemma_protocol_has_its_number(a);
    let n = lemma_protocol_has_its_number(b);
    if a.ip is V4 && b.ip is V4 {
        lemma_one_number_for_one_datagram(
            a.ip->src,
            a.ip->dst,
            a.identification,
            m,
            b.ip->src,
            b.ip->dst,
            b.identification,
            n,
        );
    }
}

proof fn lemma_protocol_has_its_number(p: Packet<'_>) -> (n: u8)
    requires
        p.wf(),
    ensures
        p.protocol == protocol_of(n),
        p.protocol.number() == Some(n),
{
    let n = if p.ip is V4 {
        p.bytes@[9]
    } else {
        p.bytes@[6]
    };
    law_protocol_numbers(n);
    n
}

proof fn lemma_one_number_for_one_datagram(
    src: u32,
    dst: u32,
    id: u16,
    proto: u8,
    src2: u32,
    dst2: u32,
    id2: u16,
    proto2: u8,
)
    ensures
        key_number(src, dst, id, proto) == key_number(src2, dst2, id2, proto2) <==> (src == src2
            && dst == dst2 && id == id2 && proto == proto2),
{
    if key_number(src, dst, id, proto) == key_number(src2, dst2, id2, proto2) {
        assert(datagram(src, dst, id, proto) < 0x100_0000_0000_0000_0000_0000);
        assert(datagram(src2, dst2, id2, proto2) < 0x100_0000_0000_0000_0000_0000);
        law_datagrams_are_told_apart(src, dst, id, proto, src2, dst2, id2, proto2);
    }
}

/// A later fragment is known by the first fragment of its own datagram and by
/// no other: any other packet that came before leaves it as it was.
pub proof fn law_later_fragment_is_known_by_its_own_first(
    seen: Map<u128, ResolvedL4>,
    before: Packet<'_>,
    later: Packet<'_>,
)
    requires
        before.wf() && later.wf(),
        later.ip is V4,
        later.fragmentation is Later,
    ensures
        ({
            let known = resolved(seen_after(seen, before), later);
            let own = before.ip is V4 && before.ip->src == later.ip->src && before.ip->dst
                == later.ip->dst && before.identification == later.identification && before.protocol
                == later.protocol;
            &&& before.fragmentation is First && own ==> known == resolved(seen, before)
            &&& !(before.fragmentation is First) ==> known == resolved(seen, later)
            &&& before.fragmentation is First && !own && seen.len() < 4096 ==> known == resolved(
                seen,
                later,
            )
            &&& resolved(Map::empty(), later) is None
        }),
{
    law_fragments_of_one_datagram(before, later);
    law_fragments_of_one_datagram(later, before);
}

/// How the words of a message add up: two bytes make a word, the first counting
/// 256 fold, and a last single byte is the first of its word.
pub proof fn law_words_add_up(a: u8, b: u8, rest: Seq<u8>)
    ensures
        word_sum(Seq::empty()) == 0,
        word_sum(seq![a]) == a * 256,
        word_sum(seq![a, b] + rest) == a * 256 + b + word_sum(rest),
{
    assert((seq![a, b] + rest).skip(2) =~= rest);
}

/// A checksum makes the sum that it is taken of a multiple of 65535 when it is
/// added to it.
pub proof fn law_checksum_completes_the_sum(n: nat)
    ensures
        checksum_of(n) <= 65535,
        (n + checksum_of(n)) % 65535 == 0,
        n + checksum_of(n) > 0,
        n > 0 ==> checksum_of(n) < 65535,
{
    lemma_folded(n);
    let c = checksum_of(n);
    assert((n + c) % 65535 == 0) by (nonlinear_arith)
        requires
            n % 65535 == folded(n) % 65535,
            c == 65535 - folded(n),
    ;
}

/// A TCP checksum makes the sum over the addresses, the protocol, the length and
/// the segment a multiple of 65535.
pub proof fn law_tcp_checksum_covers_all(src: u32, dst: u32, segment: Seq<u8>)
    requires
        segment.len() >= 20,
    ensures
        (src / 65536 + src % 65536 + dst / 65536 + dst % 65536 + 6 + segment.len() + word_sum(
            put16(segment, 16, tcp_checksum(src, dst, segment)),
        )) % 65535 == 0,
        tcp_checksum(src, dst, segment) < 65535,
{
    let zero = put16(segment, 16, 0);
    let n = (src / 65536 + src % 65536 + dst / 65536 + dst % 65536 + 6 + segment.len() + word_sum(
        zero,
    )) as nat;
    let c = tcp_checksum(src, dst, segment);
    law_checksum_completes_the_sum(n);
    assert(put16(segment, 16, c) =~= put16(zero, 16, c));
    lemma_word_sum_put(zero, 16, c);
    assert(be16(zero, 16) == 0);
}

/// Which packets are answered when they are refused, and with what: TCP that is
/// no reset with a TCP segment, an echo request and all that is neither TCP nor
/// ICMP with a control message.
pub proof fn law_what_answers_a_refusal(pkt: Packet<'_>)
    requires
        pkt.wf(),
    ensures
        pkt.ip is V6 || pkt.fragmentation is Later ==> reject_reply(pkt) is None,
        pkt.ip is V4 && !(pkt.fragmentation is Later) ==> match pkt.transport {
            Transport::Tcp { flags, .. } => if flags.0 & 4 != 0 {
                reject_reply(pkt) is None
            } else {
                reject_reply(pkt) == Some(reset_reply(pkt.bytes@))
            },
            Transport::Icmp { icmp_type, .. } => if icmp_type == 8 {
                reject_reply(pkt) == Some(unreachable_reply(pkt.bytes@))
            } else {
                reject_reply(pkt) is None
            },
            _ => reject_reply(pkt) == Some(unreachable_reply(pkt.bytes@)),
        },
{
}

/// The header of every reply: version 4 without options, not fragmented, 64 hops
/// to live, with its length, protocol and addresses, and with a checksum that a
/// receiver finds right.
pub proof fn law_reply_header(src: u32, dst: u32, proto: u8, total: u16)
    ensures
        ({
            let h = plain_header(src, dst, proto, total as nat);
            &&& h.len() == 20
            &&& h[0] == 0x45 && h[1] == 0
            &&& h[2] * 256 + h[3] == total
            &&& h[4] == 0 && h[5] == 0 && h[6] == 0 && h[7] == 0
            &&& h[8] == 64
            &&& h[9] == proto
            &&& h[12] * 0x100_0000 + h[13] * 0x1_0000 + h[14] * 0x100 + h[15] == src
            &&& h[16] * 0x100_0000 + h[17] * 0x1_0000 + h[18] * 0x100 + h[19] == dst
            &&& word_sum(h) % 65535 == 0
        }),
{
    let p = seq![0x45u8, 0u8] + bytes16(total as nat) + seq![0u8, 0u8, 0u8, 0u8, 64u8, proto, 0u8, 0u8]
        + bytes32(src as nat) + bytes32(dst as nat);
    let n = word_sum(p);
    let h = plain_header(src, dst, proto, total as nat);
    law_checksum_completes_the_sum(n);
    lemma_word_sum_put(p, 10, checksum_of(n));
    assert(be16(p, 10) == 0);
    assert(h == put16(p, 10, checksum_of(n)));
    assert(h[12] == bytes32(src as nat)[0] && h[13] == bytes32(src as nat)[1]);
    assert(h[14] == bytes32(src as nat)[2] && h[15] == bytes32(src as nat)[3]);
    assert(h[16] == bytes32(dst as nat)[0] && h[17] == bytes32(dst as nat)[1]);
    assert(h[18] == bytes32(dst as nat)[2] && h[19] == bytes32(dst as nat)[3]);
}

/// A reset that the sender of a segment will accept. Where the segment carries an
/// acknowledgment number, the reset has that as its sequence number and
/// acknowledges nothing. Else its sequence number is zero and it acknowledges
/// the segment: its sequence number, its data, and one each for SYN and FIN.
pub proof fn law_reset_is_acceptable(src: u32, dst: u32, seg: Seq<u8>)
    requires
        20 <= (seg[12] / 16) * 4 <= seg.len(),
    ensures
        ({
            let r = reset_segment(src, dst, seg);
            let sequence = r[4] * 0x100_0000 + r[5] * 0x1_0000 + r[6] * 0x100 + r[7];
            let acknowledged = r[8] * 0x100_0000 + r[9] * 0x1_0000 + r[10] * 0x100 + r[11];
            let theirs = seg[4] * 0x100_0000 + seg[5] * 0x1_0000 + seg[6] * 0x100 + seg[7];
            let syn: int = if seg[13] & 2 != 0 {
                1
            } else {
                0
            };
            let fin: int = if seg[13] & 1 != 0 {
                1
            } else {
                0
            };
            &&& r.len() == 20
            &&& r[0] == seg[2] && r[1] == seg[3] && r[2] == seg[0] && r[3] == seg[1]
            &&& r[12] == 0x50 && r[14] == 0 && r[15] == 0 && r[18] == 0 && r[19] == 0
            &&& if seg[13] & 16 != 0 {
                &&& sequence == seg[8] * 0x100_0000 + seg[9] * 0x1_0000 + seg[10] * 0x100 + seg[11]
                &&& acknowledged == 0
                &&& r[13] == 4
            } else {
                &&& sequence == 0
                &&& acknowledged == (theirs + (seg.len() - (seg[12] / 16) * 4) + syn + fin)
                    % 0x1_0000_0000
                &&& r[13] == 20
            }
        }),
{
    let acked = seg[13] & 16 != 0;
    let sequence: nat = if acked {
        be32(seg, 8)
    } else {
        0
    };
    let acknowledged: nat = if acked {
        0
    } else {
        (be32(seg, 4) + sequence_length(seg)) % 0x1_0000_0000
    };
    let r = reset_segment(src, dst, seg);
    assert(r[0] == bytes16(be16(seg, 2))[0] && r[1] == bytes16(be16(seg, 2))[1]);
    assert(r[2] == bytes16(be16(seg, 0))[0] && r[3] == bytes16(be16(seg, 0))[1]);
    assert(r[4] == bytes32(sequence)[0] && r[5] == bytes32(sequence)[1]);
    assert(r[6] == bytes32(sequence)[2] && r[7] == bytes32(sequence)[3]);
    assert(r[8] == bytes32(acknowledged)[0] && r[9] == bytes32(acknowledged)[1]);
    assert(r[10] == bytes32(acknowledged)[2] && r[11] == bytes32(acknowledged)[3]);
}

proof fn lemma_message_quotes(s: Seq<u8>)
    requires
        s.len() >= total_len(s),
    ensures
        ({
            let m = prohibited_message(s);
            &&& m.len() == 8 + quoted(s).len()
            &&& m.skip(8) == quoted(s)
            &&& m[0] == 3 && m[1] == 13
            &&& m[4] == 0 && m[5] == 0 && m[6] == 0 && m[7] == 0
            &&& word_sum(m) % 65535 == 0
        }),
{
    let q = quoted(s);
    let plain = seq![3u8, 13u8, 0u8, 0u8, 0u8, 0u8, 0u8, 0u8] + q;
    let n = word_sum(plain);
    let m = prohibited_message(s);
    law_checksum_completes_the_sum(n);
    lemma_word_sum_put(plain, 2, checksum_of(n));
    assert(be16(plain, 2) == 0);
    assert(m.skip(8) =~= q);
}

/// The unreachable message that answers a packet: a control message from the
/// packet's destination to its source, type 3 with code 13, that quotes the
/// packet's header and the eight bytes after it, or as many as there are, and
/// whose checksum a receiver finds right.
pub proof fn law_unreachable_quotes_the_packet(s: Seq<u8>, h: int, t: int)
    requires
        s.len() >= 20,
        s[0] / 16 == 4,
        h == (s[0] % 16) * 4,
        t == s[2] * 256 + s[3],
        20 <= h <= t <= s.len(),
    ensures
        ({
            let r = unreachable_reply(s);
            let n: int = if t < h + 8 {
                t
            } else {
                h + 8
            };
            &&& r.len() == 28 + n
            &&& r[9] == 1
            &&& r[2] * 256 + r[3] == 28 + n
            &&& r[12] * 0x100_0000 + r[13] * 0x1_0000 + r[14] * 0x100 + r[15] == s[16] * 0x100_0000
                + s[17] * 0x1_0000 + s[18] * 0x100 + s[19]
            &&& r[16] * 0x100_0000 + r[17] * 0x1_0000 + r[18] * 0x100 + r[19] == s[12] * 0x100_0000
                + s[13] * 0x1_0000 + s[14] * 0x100 + s[15]
            &&& r[20] == 3 && r[21] == 13
            &&& r[24] == 0 && r[25] == 0 && r[26] == 0 && r[27] == 0
            &&& r.skip(28) == s.take(n)
            &&& word_sum(r.skip(20)) % 65535 == 0
        }),
{
    let r = unreachable_reply(s);
    let q = quoted(s);
    let m = prohibited_message(s);
    let head = plain_header(destination4(s), source4(s), 1, 28 + q.len());
    lemma_message_quotes(s);
    assert(q.len() <= 68);
    assert(28 + q.len() == ((28 + q.len()) as u16) as nat);
    law_reply_header(destination4(s), source4(s), 1, (28 + q.len()) as u16);
    assert(forall|i: int| 0 <= i < 20 ==> r[i] == head[i]);
    assert(r.skip(20) =~= m);
    assert(r.skip(28) =~= m.skip(8));
    assert(r[20] == m[0] && r[21] == m[1] && r[24] == m[4] && r[25] == m[5]);
    assert(r[26] == m[6] && r[27] == m[7]);
}

/// Which parts of its headers a packet is asked for: addresses of IPv4 alone, the
/// length of the network header, ports of TCP and UDP, and control bits of TCP.
pub proof fn law_parts_of_headers(ip: IpHeader, transport: Transport)
    ensures
        match ip {
            IpHeader::V4 { src, dst, header_len, .. } => ip.source() == Some(src)
                && ip.destination() == Some(dst) && ip.size() == header_len,
            IpHeader::V6 => ip.source() is None && ip.destination() is None && ip.size() == 40,
        },
        match transport {
            Transport::Tcp { src_port, dst_port, flags, .. } => transport.source_port() == Some(
                src_port,
            ) && transport.destination_port() == Some(dst_port) && transport.control_bits() == Some(
                flags,
            ),
            Transport::Udp { src_port, dst_port } => transport.source_port() == Some(src_port)
                && transport.destination_port() == Some(dst_port) && transport.control_bits() is None,
            _ => transport.source_port() is None && transport.destination_port() is None
                && transport.control_bits() is None,
        },
{
}

/// The control bits of a TCP header: FIN is the lowest, then SYN and RST, and ACK
/// is the fifth.
pub proof fn law_control_bits(f: TcpFlags)
    ensures
        f.has(TCP_FIN) <==> f.0 & 1 != 0,
        f.has(TCP_SYN) <==> f.0 & 2 != 0,
        f.has(TCP_RST) <==> f.0 & 4 != 0,
        f.has(TCP_ACK) <==> f.0 & 16 != 0,
{
}

/// A full table of first fragments is emptied before one more is remembered; in a
/// table that is not full the others stay.
pub proof fn law_full_table_starts_again(
    seen: Map<u128, ResolvedL4>,
    key: u128,
    l4: ResolvedL4,
    other: u128,
)
    requires
        other != key,
    ensures
        remembered(seen, key, l4).contains_key(key),
        remembered(seen, key, l4)[key] == l4,
        seen.len() >= 4096 ==> !remembered(seen, key, l4).contains_key(other),
        seen.len() < 4096 ==> remembered(seen, key, l4).contains_key(other) == seen.contains_key(
            other,
        ),
        seen.len() < 4096 && seen.contains_key(other) ==> remembered(seen, key, l4)[other]
            == seen[other],
{
}

} // verus!
