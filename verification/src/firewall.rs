//! Userspace stateful firewall for Direct mode.
//!
//! Defaults for authenticated mesh peers:
//! - outbound: allow all (opens a flow);
//! - inbound from a known mesh peer: allow all;
//! - inbound without a peer identity: ICMP echo only, TCP and UDP are denied.
//!
//! Local rules restrict this further.
pub mod config;
pub mod conntrack;
pub mod engine;
pub mod laws;
pub mod purpose;
