//! Transparent TCP port NAT for the embedded SSH server: port 22 outside, the
//! internal listen port inside.
//!
//! Only TCP packets that carry their header (unfragmented, or a first
//! fragment) are rewritten, and their checksum is recomputed.
use vstd::prelude::*;
use crate::packet::{
    destination4, field16, ihl, is_tcp4, lemma_checksum_is_short, lemma_put_in_tcp, parse,
    put_in_tcp, read, right_checksum, set_tcp_ipv4_checksum, source4, v4_payload, wire,
    with_right_checksum, Packet, Transport,
};
use crate::packet::checksum::{be16, put16, tcp_checksum, word_sum, write16};

verus! {

pub const SSH_EXTERNAL_PORT: u16 = 22;

pub const SSH_INTERNAL_PORT: u16 = 30022;

pub open spec fn tcp_source(s: Seq<u8>) -> u16 {
    field16(v4_payload(s), 0)
}

pub open spec fn tcp_destination(s: Seq<u8>) -> u16 {
    field16(v4_payload(s), 2)
}

/// The packet is on its way to the SSH port.
pub open spec fn to_external(s: Seq<u8>) -> bool {
    is_tcp4(s) && tcp_destination(s) == SSH_EXTERNAL_PORT
}

/// The packet is a reply of the internal listener.
pub open spec fn from_internal(s: Seq<u8>) -> bool {
    is_tcp4(s) && tcp_source(s) == SSH_INTERNAL_PORT
}

/// The packet is one that a rewrite in this direction is for.
pub open spec fn concerned(s: Seq<u8>, inbound: bool) -> bool {
    if inbound {
        to_external(s)
    } else {
        from_internal(s)
    }
}

/// `s` with another port at `k` in its TCP header, and the checksum to match.
pub open spec fn with_port(s: Seq<u8>, k: int, port: u16) -> Seq<u8> {
    with_right_checksum(put_in_tcp(s, k, port as nat))
}

/// `s` as it goes on after an inbound rewrite.
pub open spec fn internal_form(s: Seq<u8>) -> Seq<u8> {
    with_port(s, 2, SSH_INTERNAL_PORT)
}

/// `s` as it goes on after an outbound rewrite.
pub open spec fn external_form(s: Seq<u8>) -> Seq<u8> {
    with_port(s, 0, SSH_EXTERNAL_PORT)
}

pub open spec fn rewritten(s: Seq<u8>, inbound: bool) -> Seq<u8> {
    if inbound {
        internal_form(s)
    } else {
        external_form(s)
    }
}

/// Where in the packet the new port goes, and which it is; none if the packet
/// is no concern of this direction.
pub fn eligible(pkt: &Packet<'_>, inbound: bool) -> (r: Option<(usize, usize)>)
    requires
        pkt.wf(),
    ensures
        r is Some <==> concerned(pkt.bytes@, inbound),
        r matches Some((at, port)) ==> if inbound {
            at == ihl(pkt.bytes@) + 2 && port == SSH_INTERNAL_PORT
        } else {
            at == ihl(pkt.bytes@) && port == SSH_EXTERNAL_PORT
        },
{
    if pkt.fragmentation.is_later() {
        return None;
    }
    let (src_port, dst_port, header_len) = match pkt.transport {
        Transport::Tcp { src_port, dst_port, header_len, .. } => (src_port, dst_port, header_len),
        _ => {
            return None;
        },
    };
    if header_len < 18 {
        return None;
    }
    let ip_len = pkt.ip.header_len();
    if inbound {
        if dst_port != SSH_EXTERNAL_PORT {
            return None;
        }
        Some((ip_len + 2, SSH_INTERNAL_PORT as usize))
    } else {
        if src_port != SSH_INTERNAL_PORT {
            return None;
        }
        Some((ip_len, SSH_EXTERNAL_PORT as usize))
    }
}

/// Writes `port` at `at` in the TCP header of a packet and recomputes the checksum.
pub fn apply_port(packet: &mut [u8], ip_len: usize, at: usize, port: u16) -> (r: bool)
    requires
        is_tcp4(old(packet)@),
        ip_len == ihl(old(packet)@),
        at == ip_len || at == ip_len + 2,
    ensures
        r,
        final(packet)@ == with_port(old(packet)@, at - ip_len, port),
{
    proof {
        lemma_put_in_tcp(packet@, at - ip_len, port as nat);
    }
    write16(packet, at, port);
    set_tcp_ipv4_checksum(packet, ip_len)
}

fn rewrite(packet: &mut [u8], inbound: bool) -> (r: bool)
    ensures
        r == concerned(old(packet)@, inbound),
        r ==> final(packet)@ == rewritten(old(packet)@, inbound),
        !r ==> final(packet)@ == old(packet)@,
{
    let pkt = match parse(packet) {
        Ok(p) => p,
        Err(_) => {
            return false;
        },
    };
    let (offset, new_port) = match eligible(&pkt, inbound) {
        Some(t) => t,
        None => {
            return false;
        },
    };
    let ip_len = pkt.ip.header_len();
    apply_port(packet, ip_len, offset, new_port as u16)
}

/// Whether an inbound rewrite would change this packet.
pub fn needs_inbound_rewrite(packet: &[u8]) -> (r: bool)
    ensures
        r == to_external(packet@),
{
    match parse(packet) {
        Ok(pkt) => eligible(&pkt, true).is_some(),
        Err(_) => false,
    }
}

/// Sends a packet for port 22 to the internal listener. Any other packet is
/// left alone, and the answer is no.
pub fn rewrite_inbound(packet: &mut [u8]) -> (r: bool)
    ensures
        r == to_external(old(packet)@),
        r ==> final(packet)@ == internal_form(old(packet)@),
        !r ==> final(packet)@ == old(packet)@,
{
    rewrite(packet, true)
}

/// Lets a reply of the internal listener come from port 22. Any other packet is
/// left alone, and the answer is no.
pub fn rewrite_outbound(packet: &mut [u8]) -> (r: bool)
    ensures
        r == from_internal(old(packet)@),
        r ==> final(packet)@ == external_form(old(packet)@),
        !r ==> final(packet)@ == old(packet)@,
{
    rewrite(packet, false)
}

proof fn lemma_checksum_ignores_its_field(s: Seq<u8>, c: nat)
    requires
        is_tcp4(s),
        c <= 65535,
    ensures
        right_checksum(put_in_tcp(s, 16, c)) == right_checksum(s),
{
    reveal(right_checksum);
    lemma_put_in_tcp(s, 16, c);
    assert(put16(v4_payload(put_in_tcp(s, 16, c)), 16, 0) =~= put16(v4_payload(s), 16, 0));
}

proof fn lemma_with_port(s: Seq<u8>, k: int, port: u16)
    requires
        is_tcp4(s),
        k == 0 || k == 2,
    ensures
        is_tcp4(with_port(s, k, port)),
        with_port(s, k, port) == put_in_tcp(
            put_in_tcp(s, k, port as nat),
            16,
            right_checksum(put_in_tcp(s, k, port as nat)),
        ),
        field16(v4_payload(with_port(s, k, port)), k) == port,
        right_checksum(with_port(s, k, port)) == right_checksum(put_in_tcp(s, k, port as nat)),
        ihl(with_port(s, k, port)) == ihl(s),
{
    let t = put_in_tcp(s, k, port as nat);
    let c = right_checksum(t);
    lemma_put_in_tcp(s, k, port as nat);
    lemma_checksum_is_short(t);
    lemma_put_in_tcp(t, 16, c);
    lemma_checksum_ignores_its_field(t, c);
    let u = with_port(s, k, port);
    assert(v4_payload(u)[k] == v4_payload(t)[k]);
    assert(v4_payload(u)[k + 1] == v4_payload(t)[k + 1]);
}

/// A rewrite touches the port and the checksum, and no other byte.
pub proof fn law_rest_is_untouched(s: Seq<u8>, inbound: bool)
    requires
        concerned(s, inbound),
    ensures
        rewritten(s, inbound).len() == s.len(),
        forall|i: int|
            0 <= i < s.len() && !(i == ihl(s) + (if inbound {
                2int
            } else {
                0
            })) && !(i == ihl(s) + (if inbound {
                3int
            } else {
                1
            })) && !(i == ihl(s) + 16) && !(i == ihl(s) + 17) ==> rewritten(s, inbound)[i] == s[i],
{
    let k: int = if inbound {
        2
    } else {
        0
    };
    lemma_with_port(
        s,
        k,
        if inbound {
            SSH_INTERNAL_PORT
        } else {
            SSH_EXTERNAL_PORT
        },
    );
    lemma_put_in_tcp(
        s,
        k,
        (if inbound {
            SSH_INTERNAL_PORT
        } else {
            SSH_EXTERNAL_PORT
        }) as nat,
    );
}

/// A rewritten packet reads as before but for the port, and holds the right checksum.
pub proof fn law_rewrite_only_moves_the_port(s: Seq<u8>, inbound: bool)
    requires
        concerned(s, inbound),
    ensures
        is_tcp4(rewritten(s, inbound)),
        tcp_source(rewritten(s, inbound)) == if inbound {
            tcp_source(s)
        } else {
            SSH_EXTERNAL_PORT
        },
        tcp_destination(rewritten(s, inbound)) == if inbound {
            SSH_INTERNAL_PORT
        } else {
            tcp_destination(s)
        },
        be16(v4_payload(rewritten(s, inbound)), 16) == right_checksum(rewritten(s, inbound)),
        read(rewritten(s, inbound)) matches Ok(after) && read(s) matches Ok(before) && {
            &&& after.0 == before.0
            &&& after.1 == before.1
            &&& after.2 == before.2
            &&& after.3 == before.3
            &&& after.4.control_bits() == before.4.control_bits()
        },
{
    let k: int = if inbound {
        2
    } else {
        0
    };
    let port = if inbound {
        SSH_INTERNAL_PORT
    } else {
        SSH_EXTERNAL_PORT
    };
    let t = put_in_tcp(s, k, port as nat);
    let u = rewritten(s, inbound);
    lemma_with_port(s, k, port);
    lemma_put_in_tcp(s, k, port as nat);
    lemma_checksum_is_short(t);
    lemma_put_in_tcp(t, 16, right_checksum(t));
    let p = v4_payload(s);
    let q = v4_payload(u);
    assert(q == put16(put16(p, k, port as nat), 16, right_checksum(t)));
    assert(q[12] == p[12] && q[13] == p[13]);
    assert(inbound ==> q[0] == p[0] && q[1] == p[1]);
    assert(!inbound ==> q[2] == p[2] && q[3] == p[3]);
}

/// A packet that went through an inbound rewrite needs none any more.
pub proof fn law_inbound_settles(s: Seq<u8>)
    requires
        to_external(s),
    ensures
        !to_external(internal_form(s)),
{
    lemma_with_port(s, 2, SSH_INTERNAL_PORT);
}

proof fn lemma_puts(s: Seq<u8>, i: int, j: int, a: nat, c: nat)
    requires
        0 <= i,
        i + 2 <= j,
        j + 2 <= s.len(),
    ensures
        put16(put16(put16(s, i, a), j, c), i, be16(s, i)) == put16(s, j, c),
        put16(put16(s, j, c), j, be16(s, j)) == s,
{
    assert(put16(put16(put16(s, i, a), j, c), i, be16(s, i)) =~= put16(s, j, c));
    assert(put16(put16(s, j, c), j, be16(s, j)) =~= s);
}

proof fn lemma_port_back(s: Seq<u8>, k: int, port: u16, back: u16)
    requires
        is_tcp4(s),
        k == 0 || k == 2,
        be16(v4_payload(s), k) == back,
        be16(v4_payload(s), 16) == right_checksum(s),
    ensures
        with_port(with_port(s, k, port), k, back) == s,
{
    let h = ihl(s) as int;
    let t = put_in_tcp(s, k, port as nat);
    let c = right_checksum(t);
    let u = with_port(s, k, port);
    let v = put_in_tcp(u, k, back as nat);
    lemma_with_port(s, k, port);
    lemma_put_in_tcp(s, k, port as nat);
    lemma_checksum_is_short(t);
    lemma_checksum_ignores_its_field(s, c);
    lemma_puts(s, h + k, h + 16, port as nat, c);
    assert(u == put16(t, h + 16, c));
    assert(v == put16(s, h + 16, c));
    assert(with_port(u, k, back) == put16(v, h + 16, right_checksum(v)));
}

/// Writing the old port back undoes a rewrite, where the checksum was right before.
pub proof fn law_rewrite_can_be_undone(s: Seq<u8>, inbound: bool)
    requires
        concerned(s, inbound),
        be16(v4_payload(s), 16) == right_checksum(s),
    ensures
        inbound ==> with_port(internal_form(s), 2, SSH_EXTERNAL_PORT) == s,
        !inbound ==> with_port(external_form(s), 0, SSH_INTERNAL_PORT) == s,
{
    if inbound {
        lemma_port_back(s, 2, SSH_INTERNAL_PORT, SSH_EXTERNAL_PORT);
    } else {
        lemma_port_back(s, 0, SSH_EXTERNAL_PORT, SSH_INTERNAL_PORT);
    }
}

/// A packet is a concern of the NAT exactly if it reads as IPv4 with a TCP header
/// and, on its way in, is for port 22, or, on its way out, comes from port 30022.
pub proof fn law_which_packets_are_rewritten(s: Seq<u8>)
    ensures
        concerned(s, true) <==> (read(s) is Ok && read(s)->Ok_0.0 is V4 && read(s)->Ok_0.4 is Tcp
            && read(s)->Ok_0.4->Tcp_dst_port == 22),
        concerned(s, false) <==> (read(s) is Ok && read(s)->Ok_0.0 is V4 && read(s)->Ok_0.4 is Tcp
            && read(s)->Ok_0.4->Tcp_src_port == 30022),
{
}

/// What a rewritten packet reads as: the same packet, with port 30022 in place of
/// the destination port on its way in, and port 22 in place of the source port on
/// its way out.
pub proof fn law_rewritten_packet_reads_as(s: Seq<u8>, inbound: bool)
    requires
        concerned(s, inbound),
    ensures
        ({
            let before = read(s)->Ok_0;
            let after = read(rewritten(s, inbound))->Ok_0;
            &&& read(rewritten(s, inbound)) is Ok
            &&& after.0 == before.0 && after.1 == before.1
            &&& after.2 == before.2 && after.3 == before.3
            &&& after.4 is Tcp
            &&& after.4->header_len == before.4->header_len
            &&& after.4->flags == before.4->flags
            &&& inbound ==> after.4->Tcp_dst_port == 30022 && after.4->Tcp_src_port
                == before.4->Tcp_src_port
            &&& !inbound ==> after.4->Tcp_src_port == 22 && after.4->Tcp_dst_port
                == before.4->Tcp_dst_port
        }),
{
    law_rewrite_only_moves_the_port(s, inbound);
    law_rest_is_untouched(s, inbound);
    let h = ihl(s) as int;
    assert(v4_payload(s)[12] == s[h + 12]);
    assert(v4_payload(rewritten(s, inbound))[12] == rewritten(s, inbound)[h + 12]);
}

/// Whoever receives a TCP packet that holds the right checksum finds it right: the
/// sum over the addresses, the protocol, the length and the segment is a multiple
/// of 65535. A rewritten packet is one.
pub proof fn law_right_checksum_verifies(t: Seq<u8>)
    requires
        is_tcp4(t),
        be16(v4_payload(t), 16) == right_checksum(t),
    ensures
        ({
            let seg = v4_payload(t);
            let src = source4(t);
            let dst = destination4(t);
            (src / 65536 + src % 65536 + dst / 65536 + dst % 65536 + 6 + seg.len() + word_sum(seg))
                % 65535 == 0
        }),
{
    let seg = v4_payload(t);
    assert(seg.len() >= 20);
    assert(right_checksum(t) == tcp_checksum(source4(t), destination4(t), seg)) by {
        reveal(right_checksum);
    }
    wire::law_tcp_checksum_covers_all(source4(t), destination4(t), seg);
    assert(put16(seg, 16, be16(seg, 16)) =~= seg);
}

/// The checksum of a rewritten packet is right.
pub proof fn law_rewritten_packet_verifies(s: Seq<u8>, inbound: bool)
    requires
        concerned(s, inbound),
    ensures
        ({
            let t = rewritten(s, inbound);
            let seg = v4_payload(t);
            let src = source4(t);
            let dst = destination4(t);
            (src / 65536 + src % 65536 + dst / 65536 + dst % 65536 + 6 + seg.len() + word_sum(seg))
                % 65535 == 0
        }),
{
    law_rewrite_only_moves_the_port(s, inbound);
    law_right_checksum_verifies(rewritten(s, inbound));
}

} // verus!
