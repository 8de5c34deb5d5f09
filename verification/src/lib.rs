//! Decisions of the Tunnet agent: the Direct-mode firewall, the embedded SSH
//! service and the daemon's file layout.
//!
//! Everything here computes on plain values. Addresses are `u32` in network
//! order, network and session identifiers are the 128-bit value of a UUID,
//! times are nanoseconds on a monotonic clock.
use vstd::prelude::*;

pub mod firewall;
pub mod ids;
pub mod names;
pub mod packet;
pub mod paths;
pub mod platform;
pub mod policy;
pub mod routes;
pub mod ssh;
pub mod ssh_nat;
pub mod ssh_registry;
pub mod text;

verus! {

} // verus!
