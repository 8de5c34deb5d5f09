//! Mesh-local TCP/22 interception for the embedded SSH listener.
//!
//! Only packets whose IPv4 address is an active embedded-SSH binding are
//! rewritten. Routed destinations and networks with SSH disabled are left
//! alone, so that a native sshd can own ordinary TCP/22.
use std::collections::HashSet;
use vstd::prelude::*;
use crate::packet::{destination4, ihl, parse, read, source4, Packet};
use crate::ssh_nat;
use crate::ssh_nat::{concerned, external_form, from_internal, internal_form, rewritten, to_external};

verus! {

broadcast use vstd::std_specs::hash::group_hash_axioms;

/// The addresses at which the embedded SSH service is enabled.
pub struct SshIntercept {
    addrs: HashSet<u32>,
}

impl View for SshIntercept {
    type V = Set<u32>;

    closed spec fn view(&self) -> Set<u32> {
        self.addrs@
    }
}

impl SshIntercept {
    /// No address.
    pub fn new() -> (r: Self)
        ensures
            r@ == Set::<u32>::empty(),
    {
        SshIntercept { addrs: HashSet::new() }
    }

    /// Replaces the addresses.
    pub fn set(&mut self, addrs: HashSet<u32>)
        ensures
            final(self)@ == addrs@,
    {
        self.addrs = addrs;
    }

    /// Whether the service is enabled at `ip`.
    pub fn contains(&self, ip: u32) -> (r: bool)
        ensures
            r == self@.contains(ip),
    {
        self.addrs.contains(&ip)
    }
}

impl Default for SshIntercept {
    fn default() -> (r: Self)
        ensures
            r@ == Set::<u32>::empty(),
    {
        SshIntercept::new()
    }
}

/// The packet goes to, or comes from, one of the addresses and is a concern of
/// the NAT in this direction.
pub open spec fn intercepted(s: Seq<u8>, inbound: bool, addrs: Set<u32>) -> bool {
    &&& concerned(s, inbound)
    &&& addrs.contains(
        if inbound {
            destination4(s)
        } else {
            source4(s)
        },
    )
}

/// Where in the packet the new port goes, and which it is; none if the packet
/// is not intercepted.
pub fn eligible(pkt: &Packet<'_>, inbound: bool, intercept: &SshIntercept) -> (r: Option<
    (usize, usize),
>)
    requires
        pkt.wf(),
    ensures
        r is Some <==> intercepted(pkt.bytes@, inbound, intercept@),
        r matches Some((at, port)) ==> if inbound {
            at == ihl(pkt.bytes@) + 2 && port == ssh_nat::SSH_INTERNAL_PORT
        } else {
            at == ihl(pkt.bytes@) && port == ssh_nat::SSH_EXTERNAL_PORT
        },
{
    let target = match ssh_nat::eligible(pkt, inbound) {
        Some(t) => t,
        None => {
            return None;
        },
    };
    let address = if inbound {
        pkt.ip.v4_dst()
    } else {
        pkt.ip.v4_src()
    };
    match address {
        Some(ip) => {
            if intercept.contains(ip) {
                Some(target)
            } else {
                None
            }
        },
        None => None,
    }
}

fn rewrite(packet: &mut [u8], inbound: bool, intercept: &SshIntercept) -> (r: bool)
    ensures
        r == intercepted(old(packet)@, inbound, intercept@),
        r ==> final(packet)@ == rewritten(old(packet)@, inbound),
        !r ==> final(packet)@ == old(packet)@,
{
    let pkt = match parse(packet) {
        Ok(p) => p,
        Err(_) => {
            return false;
        },
    };
    let (offset, new_port) = match eligible(&pkt, inbound, intercept) {
        Some(t) => t,
        None => {
            return false;
        },
    };
    let ip_len = pkt.ip.header_len();
    ssh_nat::apply_port(packet, ip_len, offset, new_port as u16)
}

/// Whether an inbound rewrite would change this packet.
pub fn rewrite_inbound_needed(packet: &[u8], intercept: &SshIntercept) -> (r: bool)
    ensures
        r == (to_external(packet@) && intercept@.contains(destination4(packet@))),
{
    match parse(packet) {
        Ok(pkt) => eligible(&pkt, true, intercept).is_some(),
        Err(_) => false,
    }
}

/// Sends a packet for port 22 of an enabled address to the internal listener.
/// Any other packet is left alone, and the answer is no.
pub fn rewrite_inbound(packet: &mut [u8], intercept: &SshIntercept) -> (r: bool)
    ensures
        r == (to_external(old(packet)@) && intercept@.contains(destination4(old(packet)@))),
        r ==> final(packet)@ == internal_form(old(packet)@),
        !r ==> final(packet)@ == old(packet)@,
{
    rewrite(packet, true, intercept)
}

/// Lets a reply of the internal listener at an enabled address come from port
/// 22. Any other packet is left alone, and the answer is no.
pub fn rewrite_outbound(packet: &mut [u8], intercept: &SshIntercept) -> (r: bool)
    ensures
        r == (from_internal(old(packet)@) && intercept@.contains(source4(old(packet)@))),
        r ==> final(packet)@ == external_form(old(packet)@),
        !r ==> final(packet)@ == old(packet)@,
{
    rewrite(packet, false, intercept)
}

/// A packet for an address where SSH is not enabled is never intercepted,
/// whatever else it holds, nor is a reply from such an address.
pub proof fn law_other_addresses_are_left_alone(s: Seq<u8>, addrs: Set<u32>)
    ensures
        !addrs.contains(destination4(s)) ==> !intercepted(s, true, addrs),
        !addrs.contains(source4(s)) ==> !intercepted(s, false, addrs),
{
}

/// A packet is intercepted exactly if it is TCP over IPv4 and either for port 22
/// of an address where SSH is enabled, or from port 30022 of one.
pub proof fn law_which_packets_are_intercepted(s: Seq<u8>, addrs: Set<u32>)
    ensures
        intercepted(s, true, addrs) <==> (read(s) is Ok && read(s)->Ok_0.0 is V4
            && read(s)->Ok_0.4 is Tcp && read(s)->Ok_0.4->Tcp_dst_port == 22 && addrs.contains(
            read(s)->Ok_0.0->dst,
        )),
        intercepted(s, false, addrs) <==> (read(s) is Ok && read(s)->Ok_0.0 is V4
            && read(s)->Ok_0.4 is Tcp && read(s)->Ok_0.4->Tcp_src_port == 30022 && addrs.contains(
            read(s)->Ok_0.0->src,
        )),
{
    ssh_nat::law_which_packets_are_rewritten(s);
}

} // verus!
