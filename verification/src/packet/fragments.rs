//! The transport header that each packet belongs to, across fragments.
use std::collections::HashMap;
use vstd::prelude::*;
use super::{Fragmentation, IpHeader, Packet, TcpFlags, Transport};
use crate::policy::Protocol;

verus! {

broadcast use vstd::std_specs::hash::group_hash_axioms;

/// What policy knows of the transport layer of a packet.
#[derive(Debug, Clone, Copy, PartialEq, Eq, Structural)]
pub struct ResolvedL4 {
    pub protocol: Protocol,
    pub src_port: Option<u16>,
    pub dst_port: Option<u16>,
    pub icmp_type: Option<u8>,
    pub icmp_id: Option<u16>,
    pub tcp_flags: Option<TcpFlags>,
}

/// What a packet says itself of its transport layer.
pub open spec fn own_l4(protocol: Protocol, transport: Transport) -> ResolvedL4 {
    ResolvedL4 {
        protocol,
        src_port: transport.source_port(),
        dst_port: transport.destination_port(),
        icmp_type: match transport {
            Transport::Icmp { icmp_type, .. } => Some(icmp_type),
            _ => None,
        },
        icmp_id: match transport {
            Transport::Icmp { icmp_id, .. } => icmp_id,
            _ => None,
        },
        tcp_flags: transport.control_bits(),
    }
}

/// How many first fragments are remembered at a time.
pub const FRAGMENT_LIMIT: usize = 4096;

/// One number for what the fragments of a datagram have in common: addresses,
/// identification and protocol.
pub open spec fn datagram(src: u32, dst: u32, identification: u16, proto: u8) -> nat {
    (((src as nat * 0x1_0000_0000 + dst as nat) * 0x1_0000 + identification as nat) * 0x100
        + proto as nat) as nat
}

/// Fragments of different datagrams have different numbers.
pub proof fn law_datagrams_are_told_apart(
    src: u32,
    dst: u32,
    id: u16,
    proto: u8,
    src2: u32,
    dst2: u32,
    id2: u16,
    proto2: u8,
)
    requires
        datagram(src, dst, id, proto) == datagram(src2, dst2, id2, proto2),
    ensures
        src == src2 && dst == dst2 && id == id2 && proto == proto2,
{
}

fn datagram_key(src: u32, dst: u32, identification: u16, proto: u8) -> (r: u128)
    ensures
        r == datagram(src, dst, identification, proto),
{
    ((src as u128 * 0x1_0000_0000 + dst as u128) * 0x1_0000 + identification as u128) * 0x100
        + proto as u128
}

/// The number of the datagram that a packet belongs to; none for IPv6, whose
/// fragments are not tracked.
pub open spec fn datagram_of(pkt: Packet<'_>) -> Option<u128> {
    match (pkt.ip, pkt.protocol.number()) {
        (IpHeader::V4 { src, dst, .. }, Some(proto)) => Some(
            key_number(src, dst, pkt.identification, proto),
        ),
        _ => None,
    }
}

pub open spec fn key_number(src: u32, dst: u32, identification: u16, proto: u8) -> u128 {
    datagram(src, dst, identification, proto) as u128
}

/// The transport headers of first fragments, by datagram.
pub struct FragmentTable {
    seen: HashMap<u128, ResolvedL4>,
}

impl View for FragmentTable {
    type V = Map<u128, ResolvedL4>;

    closed spec fn view(&self) -> Map<u128, ResolvedL4> {
        self.seen@
    }
}

/// `seen` with one more first fragment. A full table is emptied first.
pub open spec fn remembered(
    seen: Map<u128, ResolvedL4>,
    key: u128,
    l4: ResolvedL4,
) -> Map<u128, ResolvedL4> {
    if seen.len() >= FRAGMENT_LIMIT {
        Map::empty().insert(key, l4)
    } else {
        seen.insert(key, l4)
    }
}

/// What is known of a packet, given the first fragments seen so far. A later
/// fragment is known by its first fragment alone.
pub open spec fn resolved(seen: Map<u128, ResolvedL4>, pkt: Packet<'_>) -> Option<ResolvedL4> {
    if pkt.fragmentation is Later {
        match datagram_of(pkt) {
            Some(key) => if seen.contains_key(key) {
                Some(seen[key])
            } else {
                None
            },
            None => None,
        }
    } else {
        Some(own_l4(pkt.protocol, pkt.transport))
    }
}

/// The first fragments seen after a packet.
pub open spec fn seen_after(seen: Map<u128, ResolvedL4>, pkt: Packet<'_>) -> Map<
    u128,
    ResolvedL4,
> {
    match datagram_of(pkt) {
        Some(key) => if pkt.fragmentation is First {
            remembered(seen, key, own_l4(pkt.protocol, pkt.transport))
        } else {
            seen
        },
        None => seen,
    }
}

fn l4_of(pkt: &Packet<'_>) -> (r: ResolvedL4)
    ensures
        r == own_l4(pkt.protocol, pkt.transport),
{
    let (icmp_type, icmp_id) = match pkt.transport {
        Transport::Icmp { icmp_type, icmp_id } => (Some(icmp_type), icmp_id),
        _ => (None, None),
    };
    ResolvedL4 {
        protocol: pkt.protocol,
        src_port: pkt.transport.src_port(),
        dst_port: pkt.transport.dst_port(),
        icmp_type,
        icmp_id,
        tcp_flags: pkt.transport.tcp_flags(),
    }
}

fn key_of(pkt: &Packet<'_>) -> (r: Option<u128>)
    ensures
        r == datagram_of(*pkt),
{
    match (pkt.ip, pkt.protocol.ip_number()) {
        (IpHeader::V4 { src, dst, .. }, Some(proto)) => Some(
            datagram_key(src, dst, pkt.identification, proto),
        ),
        _ => None,
    }
}

/// A later fragment of a datagram whose first fragment was the last packet has
/// the transport layer of that first fragment: no rule tells the two apart.
pub proof fn law_later_fragments_follow_the_first(
    seen: Map<u128, ResolvedL4>,
    first: Packet<'_>,
    later: Packet<'_>,
)
    requires
        first.fragmentation is First,
        later.fragmentation is Later,
        datagram_of(first) is Some,
        datagram_of(later) == datagram_of(first),
    ensures
        resolved(seen_after(seen, first), later) == resolved(seen, first),
        resolved(seen, first) == Some(own_l4(first.protocol, first.transport)),
{
}

impl FragmentTable {
    /// Never more than the limit.
    #[verifier::type_invariant]
    spec fn bounded(self) -> bool {
        self.seen@.len() <= FRAGMENT_LIMIT
    }

    pub fn new() -> (r: Self)
        ensures
            r@ == Map::<u128, ResolvedL4>::empty(),
    {
        FragmentTable { seen: HashMap::new() }
    }

    /// Forgets everything.
    pub fn clear(&mut self)
        ensures
            final(self)@ == Map::<u128, ResolvedL4>::empty(),
    {
        self.seen = HashMap::new();
    }

    /// The transport layer of a packet: its own, or for a later fragment that
    /// of its first fragment if it has been seen. First fragments are remembered.
    pub fn resolve(&mut self, pkt: &Packet<'_>) -> (r: Option<ResolvedL4>)
        ensures
            r == resolved(old(self)@, *pkt),
            final(self)@ == seen_after(old(self)@, *pkt),
    {
        match pkt.fragmentation {
            Fragmentation::Later => {
                match key_of(pkt) {
                    Some(key) => match self.seen.get(&key) {
                        Some(l4) => Some(*l4),
                        None => None,
                    },
                    None => None,
                }
            },
            Fragmentation::Whole => Some(l4_of(pkt)),
            Fragmentation::First => {
                let l4 = l4_of(pkt);
                if let Some(key) = key_of(pkt) {
                    let mut seen: HashMap<u128, ResolvedL4> = HashMap::new();
                    if self.seen.len() < FRAGMENT_LIMIT {
                        core::mem::swap(&mut seen, &mut self.seen);
                    }
                    seen.insert(key, l4);
                    self.seen = seen;
                }
                Some(l4)
            },
        }
    }

    /// The table never holds more than the limit.
    pub fn len(&self) -> (r: usize)
        ensures
            r == self@.len(),
            r <= FRAGMENT_LIMIT,
    {
        proof {
            use_type_invariant(self);
        }
        self.seen.len()
    }
}

} // verus!
