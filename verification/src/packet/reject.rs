//! Replies that tell a sender its packet was refused.
use vstd::prelude::*;
use vstd::slice::slice_subrange;
use super::checksum::{
    be16, be32, checksum_of, complement, lemma_folded, put16, read16, read32, sum_words,
    tcp_checksum, tcp_segment_checksum, tcp_sum, word_sum,
};
use super::{
    destination4, ihl, ip_version, is_tcp4, lemma_checksum_is_short, right_checksum, source4,
    tcp_header_len, total_len, v4_fault, v4_fragmentation, v4_payload, IpHeader, Packet, TcpFlags,
    Transport, TCP_ACK, TCP_FIN, TCP_RST, TCP_SYN,
};

verus! {

/// The two bytes of a 16-bit number, most significant first.
pub open spec fn bytes16(n: nat) -> Seq<u8> {
    seq![(n / 256) as u8, (n % 256) as u8]
}

/// The four bytes of a 32-bit number, most significant first.
pub open spec fn bytes32(n: nat) -> Seq<u8> {
    bytes16(n / 65536) + bytes16(n % 65536)
}

/// An IPv4 header without options: not fragmented, 64 hops to live.
pub open spec fn plain_header(src: u32, dst: u32, proto: u8, total: nat) -> Seq<u8> {
    let h = seq![0x45u8, 0u8] + bytes16(total) + seq![0u8, 0u8, 0u8, 0u8, 64u8, proto, 0u8, 0u8]
        + bytes32(src as nat) + bytes32(dst as nat);
    put16(h, 10, checksum_of(word_sum(h)))
}

/// How many sequence numbers the segment takes: its data, and one each for SYN and FIN.
pub open spec fn sequence_length(seg: Seq<u8>) -> nat {
    (seg.len() - tcp_header_len(seg) + (if TcpFlags(seg[13]).has(TCP_SYN) {
        1int
    } else {
        0
    }) + (if TcpFlags(seg[13]).has(TCP_FIN) {
        1int
    } else {
        0
    })) as nat
}

/// The segment that resets a connection in answer to `seg`. It continues where
/// an acknowledgment says, else it acknowledges all of `seg`.
pub open spec fn reset_segment(src: u32, dst: u32, seg: Seq<u8>) -> Seq<u8> {
    let acked = TcpFlags(seg[13]).has(TCP_ACK);
    let sequence: nat = if acked {
        be32(seg, 8)
    } else {
        0
    };
    let acknowledged: nat = if acked {
        0
    } else {
        (be32(seg, 4) + sequence_length(seg)) % 0x1_0000_0000
    };
    let flags: u8 = if acked {
        4
    } else {
        20
    };
    let r = bytes16(be16(seg, 2)) + bytes16(be16(seg, 0)) + bytes32(sequence) + bytes32(
        acknowledged,
    ) + seq![0x50u8, flags, 0u8, 0u8, 0u8, 0u8, 0u8, 0u8];
    put16(r, 16, tcp_checksum(dst, src, r))
}

/// The TCP reset that answers the packet `s`.
pub open spec fn reset_reply(s: Seq<u8>) -> Seq<u8> {
    plain_header(destination4(s), source4(s), 6, 40) + reset_segment(
        source4(s),
        destination4(s),
        v4_payload(s),
    )
}

/// The part of a packet that an unreachable message quotes: its header and
/// the eight bytes after it.
pub open spec fn quoted(s: Seq<u8>) -> Seq<u8> {
    s.take(
        if total_len(s) < ihl(s) + 8 {
            total_len(s) as int
        } else {
            ihl(s) as int + 8
        },
    )
}

/// The message: destination unreachable, communication administratively prohibited.
pub open spec fn prohibited_message(s: Seq<u8>) -> Seq<u8> {
    let m = seq![3u8, 13u8, 0u8, 0u8, 0u8, 0u8, 0u8, 0u8] + quoted(s);
    put16(m, 2, checksum_of(word_sum(m)))
}

/// The unreachable message that answers the packet `s`.
pub open spec fn unreachable_reply(s: Seq<u8>) -> Seq<u8> {
    plain_header(destination4(s), source4(s), 1, 28 + quoted(s).len()) + prohibited_message(s)
}

/// How a refused packet is answered: TCP with a reset, anything else with an
/// unreachable message. Nothing answers IPv6, a later fragment, a reset, or a
/// control message other than an echo request.
pub open spec fn reject_reply(pkt: Packet<'_>) -> Option<Seq<u8>> {
    if pkt.ip is V6 || pkt.fragmentation is Later {
        None
    } else {
        match pkt.transport {
            Transport::Tcp { flags, .. } => if flags.has(TCP_RST) {
                None
            } else {
                Some(reset_reply(pkt.bytes@))
            },
            Transport::Icmp { icmp_type, .. } => if icmp_type == 8 {
                Some(unreachable_reply(pkt.bytes@))
            } else {
                None
            },
            _ => Some(unreachable_reply(pkt.bytes@)),
        }
    }
}

fn push16(v: &mut Vec<u8>, n: u16)
    ensures
        final(v)@ == old(v)@ + bytes16(n as nat),
{
    v.push((n / 256) as u8);
    v.push((n % 256) as u8);
    assert(v@ =~= old(v)@ + bytes16(n as nat));
}

fn push32(v: &mut Vec<u8>, n: u32)
    ensures
        final(v)@ == old(v)@ + bytes32(n as nat),
{
    push16(v, (n / 65536) as u16);
    push16(v, (n % 65536) as u16);
    assert(v@ =~= old(v)@ + bytes32(n as nat));
}

fn push_zeros(v: &mut Vec<u8>, count: usize)
    ensures
        final(v)@ == old(v)@ + Seq::new(count as nat, |i: int| 0u8),
{
    let mut i: usize = 0;
    assert(v@ =~= old(v)@ + Seq::new(0, |i: int| 0u8));
    while i < count
        invariant
            i <= count,
            v@ == old(v)@ + Seq::new(i as nat, |i: int| 0u8),
        decreases count - i,
    {
        v.push(0);
        i = i + 1;
        assert(v@ =~= old(v)@ + Seq::new(i as nat, |i: int| 0u8));
    }
}

/// Writes the checksum of all bytes of `v` at `at`.
fn seal(v: &mut Vec<u8>, at: usize)
    requires
        at + 2 <= old(v).len() <= 65535,
    ensures
        final(v)@ == put16(old(v)@, at as int, checksum_of(word_sum(old(v)@))),
{
    let n = v.len();
    let sum = sum_words(v.as_slice(), 0, n);
    assert(v@.subrange(0, n as int) =~= v@);
    proof {
        lemma_folded(sum as nat);
    }
    let c = complement(sum);
    v[at] = (c / 256) as u8;
    v[at + 1] = (c % 256) as u8;
}

fn build_header(src: u32, dst: u32, proto: u8, total: u16) -> (r: Vec<u8>)
    ensures
        r@ == plain_header(src, dst, proto, total as nat),
        r@.len() == 20,
{
    let mut h: Vec<u8> = Vec::new();
    h.push(0x45);
    h.push(0);
    push16(&mut h, total);
    push_zeros(&mut h, 4);
    h.push(64);
    h.push(proto);
    push_zeros(&mut h, 2);
    push32(&mut h, src);
    push32(&mut h, dst);
    assert(h@ =~= seq![0x45u8, 0u8] + bytes16(total as nat)
        + seq![0u8, 0u8, 0u8, 0u8, 64u8, proto, 0u8, 0u8] + bytes32(src as nat) + bytes32(
        dst as nat,
    ));
    seal(&mut h, 10);
    h
}

fn build_reset(seg: &[u8], src: u32, dst: u32) -> (r: Vec<u8>)
    requires
        20 <= tcp_header_len(seg@) <= seg.len() <= 65535,
    ensures
        r@ == reset_segment(src, dst, seg@),
        r@.len() == 20,
{
    let flags = TcpFlags(seg[13]);
    let acked = flags.ack();
    let sequence = if acked {
        read32(seg, 8)
    } else {
        0
    };
    let mut length = (seg.len() - super::data_offset(seg)) as u64;
    if flags.syn() {
        length = length + 1;
    }
    if flags.fin() {
        length = length + 1;
    }
    let acknowledged = if acked {
        0
    } else {
        ((read32(seg, 4) as u64 + length) % 0x1_0000_0000) as u32
    };
    let answer: u8 = if acked {
        4
    } else {
        20
    };
    let mut v: Vec<u8> = Vec::new();
    push16(&mut v, read16(seg, 2));
    push16(&mut v, read16(seg, 0));
    push32(&mut v, sequence);
    push32(&mut v, acknowledged);
    v.push(0x50);
    v.push(answer);
    push_zeros(&mut v, 6);
    let ghost plain = bytes16(be16(seg@, 2)) + bytes16(be16(seg@, 0)) + bytes32(sequence as nat)
        + bytes32(acknowledged as nat) + seq![0x50u8, answer, 0u8, 0u8, 0u8, 0u8, 0u8, 0u8];
    assert(v@ =~= plain);
    let c = tcp_segment_checksum(v.as_slice(), 0, 20, dst, src);
    assert(v@.subrange(0, 20) =~= v@);
    v[16] = (c / 256) as u8;
    v[17] = (c % 256) as u8;
    v
}

fn append(a: &mut Vec<u8>, b: &[u8])
    ensures
        final(a)@ == old(a)@ + b@,
{
    let mut i: usize = 0;
    assert(a@ =~= old(a)@ + b@.take(0));
    while i < b.len()
        invariant
            i <= b@.len(),
            a@ == old(a)@ + b@.take(i as int),
        decreases b@.len() - i,
    {
        a.push(b[i]);
        i = i + 1;
        assert(a@ =~= old(a)@ + b@.take(i as int));
    }
    assert(b@.take(b@.len() as int) =~= b@);
}

fn build_unreachable(bytes: &[u8], src: u32, dst: u32, header_len: usize, total: usize) -> (r: Vec<
    u8,
>)
    requires
        src == source4(bytes@),
        dst == destination4(bytes@),
        header_len == ihl(bytes@),
        total == total_len(bytes@),
        20 <= header_len <= 60,
        header_len <= total <= bytes.len(),
    ensures
        r@ == unreachable_reply(bytes@),
{
    let end: usize = if total < header_len + 8 {
        total
    } else {
        header_len + 8
    };
    let part = slice_subrange(bytes, 0, end);
    assert(part@ =~= quoted(bytes@));
    let mut m: Vec<u8> = Vec::new();
    m.push(3);
    m.push(13);
    push_zeros(&mut m, 6);
    append(&mut m, part);
    assert(m@ =~= seq![3u8, 13u8, 0u8, 0u8, 0u8, 0u8, 0u8, 0u8] + quoted(bytes@));
    seal(&mut m, 2);
    let mut r = build_header(dst, src, 1, (28 + end) as u16);
    append(&mut r, m.as_slice());
    r
}

/// How a refused packet is answered, if it is answered at all.
pub fn synthesize_reject(pkt: &Packet<'_>) -> (r: Option<Vec<u8>>)
    requires
        pkt.wf(),
    ensures
        match r {
            Some(v) => reject_reply(*pkt) == Some(v@),
            None => reject_reply(*pkt) is None,
        },
{
    if pkt.fragmentation.is_later() {
        return None;
    }
    let (src, dst, header_len, total) = match pkt.ip {
        IpHeader::V4 { src, dst, header_len, total_len } => (src, dst, header_len, total_len),
        IpHeader::V6 => {
            return None;
        },
    };
    match pkt.transport {
        Transport::Tcp { flags, .. } => {
            if flags.rst() {
                return None;
            }
            let seg = slice_subrange(pkt.bytes, header_len, total);
            let mut r = build_header(dst, src, 6, 40);
            let reset = build_reset(seg, src, dst);
            append(&mut r, reset.as_slice());
            Some(r)
        },
        Transport::Icmp { icmp_type, .. } => {
            if icmp_type == 8 {
                Some(build_unreachable(pkt.bytes, src, dst, header_len, total))
            } else {
                None
            }
        },
        _ => Some(build_unreachable(pkt.bytes, src, dst, header_len, total)),
    }
}

proof fn lemma_plain_header(src: u32, dst: u32, proto: u8, total: nat, rest: Seq<u8>)
    requires
        total <= 65535,
        total == 20 + rest.len(),
    ensures
        plain_header(src, dst, proto, total).len() == 20,
        ip_version(plain_header(src, dst, proto, total) + rest) == 4,
        v4_fault(plain_header(src, dst, proto, total) + rest) is None,
        v4_fragmentation(plain_header(src, dst, proto, total) + rest) is Whole,
        (plain_header(src, dst, proto, total) + rest)[9] == proto,
        source4(plain_header(src, dst, proto, total) + rest) == src,
        destination4(plain_header(src, dst, proto, total) + rest) == dst,
        v4_payload(plain_header(src, dst, proto, total) + rest) == rest,
{
    let h = plain_header(src, dst, proto, total);
    let s = h + rest;
    assert(s[0] == 0x45 && s[2] == (total / 256) as u8 && s[3] == (total % 256) as u8);
    assert(s[6] == 0 && s[7] == 0 && s[9] == proto);
    assert(s[12] == bytes32(src as nat)[0] && s[13] == bytes32(src as nat)[1]);
    assert(s[14] == bytes32(src as nat)[2] && s[15] == bytes32(src as nat)[3]);
    assert(s[16] == bytes32(dst as nat)[0] && s[17] == bytes32(dst as nat)[1]);
    assert(s[18] == bytes32(dst as nat)[2] && s[19] == bytes32(dst as nat)[3]);
    assert(v4_payload(s) =~= rest);
}

/// The reply to a refused TCP packet is a well-formed reset from the packet's
/// destination to its source, with the ports swapped and the right checksum.
pub proof fn law_reset_goes_back(s: Seq<u8>)
    requires
        is_tcp4(s),
    ensures
        is_tcp4(reset_reply(s)),
        source4(reset_reply(s)) == destination4(s),
        destination4(reset_reply(s)) == source4(s),
        be16(v4_payload(reset_reply(s)), 0) == be16(v4_payload(s), 2),
        be16(v4_payload(reset_reply(s)), 2) == be16(v4_payload(s), 0),
        TcpFlags(v4_payload(reset_reply(s))[13]).has(TCP_RST),
        be16(v4_payload(reset_reply(s)), 16) == right_checksum(reset_reply(s)),
{
    let seg = v4_payload(s);
    let r = reset_segment(source4(s), destination4(s), seg);
    let t = reset_reply(s);
    assert(r.len() == 20);
    lemma_plain_header(destination4(s), source4(s), 6, 40, r);
    assert(r[0] == bytes16(be16(seg, 2))[0] && r[1] == bytes16(be16(seg, 2))[1]);
    assert(r[2] == bytes16(be16(seg, 0))[0] && r[3] == bytes16(be16(seg, 0))[1]);
    assert(r[12] == 0x50 && (r[13] == 4 || r[13] == 20));
    assert(4u8 & 4u8 != 0 && 20u8 & 4u8 != 0) by (bit_vector);
    reveal(right_checksum);
    lemma_checksum_is_short(t);
    let acked = TcpFlags(seg[13]).has(TCP_ACK);
    let plain = put16(r, 16, 0);
    assert(tcp_checksum(destination4(s), source4(s), r) == be16(r, 16)) by {
        let sequence: nat = if acked { be32(seg, 8) } else { 0 };
        let acknowledged: nat = if acked {
            0
        } else {
            (be32(seg, 4) + sequence_length(seg)) % 0x1_0000_0000
        };
        let flags: u8 = if acked { 4 } else { 20 };
        let q = bytes16(be16(seg, 2)) + bytes16(be16(seg, 0)) + bytes32(sequence) + bytes32(
            acknowledged,
        ) + seq![0x50u8, flags, 0u8, 0u8, 0u8, 0u8, 0u8, 0u8];
        assert(put16(q, 16, 0) =~= plain);
        lemma_folded(tcp_sum(destination4(s), source4(s), plain));
    }
}

} // verus!
