use std::collections::HashSet;

use etherparse::PacketBuilder;
use tunnet::packet::{parse, tcp_ipv4_checksum_of};
use tunnet::ssh::intercept;
use tunnet::ssh::intercept::SshIntercept;
use tunnet::ssh_nat::{
    needs_inbound_rewrite, rewrite_inbound, rewrite_outbound, SSH_EXTERNAL_PORT, SSH_INTERNAL_PORT,
};

fn ip(a: u8, b: u8, c: u8, d: u8) -> u32 {
    u32::from_be_bytes([a, b, c, d])
}

fn sample_tcp(src: u32, dst: u32, sport: u16, dport: u16, payload: &[u8]) -> Vec<u8> {
    let b = PacketBuilder::ipv4(src.to_be_bytes(), dst.to_be_bytes(), 64).tcp(sport, dport, 1, 1000);
    let mut out = Vec::new();
    b.write(&mut out, payload).unwrap();
    out
}

fn table(addrs: &[u32]) -> SshIntercept {
    let mut table = SshIntercept::new();
    table.set(addrs.iter().copied().collect::<HashSet<u32>>());
    table
}

#[test]
fn inbound_rewrites_22_to_internal() {
    let self_ip = ip(100, 64, 0, 1);
    let peer = ip(100, 64, 0, 2);
    let mut p = sample_tcp(peer, self_ip, 45678, 22, b"hello");
    let before_payload = p[40..].to_vec();
    assert!(rewrite_inbound(&mut p));
    let pkt = parse(&p).unwrap();
    assert_eq!(pkt.transport.dst_port(), Some(SSH_INTERNAL_PORT));
    assert_eq!(&p[40..], before_payload.as_slice());
    assert_eq!(u16::from_be_bytes([p[36], p[37]]), tcp_ipv4_checksum_of(&p).unwrap());
}

#[test]
fn inbound_rewrites_every_mesh_destination_address() {
    let peer = ip(100, 64, 0, 9);
    for local in [ip(100, 64, 0, 1), ip(100, 65, 0, 1)] {
        let mut packet = sample_tcp(peer, local, 45678, SSH_EXTERNAL_PORT, &[]);
        assert!(rewrite_inbound(&mut packet));
        assert_eq!(parse(&packet).unwrap().transport.dst_port(), Some(SSH_INTERNAL_PORT));
    }
}

#[test]
fn outbound_rewrites_internal_to_22() {
    let self_ip = ip(100, 64, 0, 1);
    let peer = ip(100, 64, 0, 2);
    let mut p = sample_tcp(self_ip, peer, SSH_INTERNAL_PORT, 45678, &[]);
    assert!(rewrite_outbound(&mut p));
    let pkt = parse(&p).unwrap();
    assert_eq!(pkt.transport.src_port(), Some(22));
    assert_eq!(u16::from_be_bytes([p[36], p[37]]), tcp_ipv4_checksum_of(&p).unwrap());
}

#[test]
fn ignores_other_ports_and_fragments() {
    let self_ip = ip(100, 64, 0, 1);
    let peer = ip(100, 64, 0, 2);
    let mut p = sample_tcp(peer, self_ip, 45678, 443, &[]);
    assert!(!rewrite_inbound(&mut p));

    let mut later = sample_tcp(peer, self_ip, 45678, 22, &[]);
    later[6] = 0;
    later[7] = 8;
    assert!(!needs_inbound_rewrite(&later));
    assert!(!rewrite_inbound(&mut later));
}

#[test]
fn rewritten_packet_is_what_the_builder_makes() {
    let a = ip(100, 64, 0, 2);
    let b = ip(100, 64, 0, 1);
    let mut p = sample_tcp(a, b, 45678, SSH_EXTERNAL_PORT, b"odd");
    assert!(needs_inbound_rewrite(&p));
    assert!(rewrite_inbound(&mut p));
    assert_eq!(p, sample_tcp(a, b, 45678, SSH_INTERNAL_PORT, b"odd"));
    assert!(!rewrite_inbound(&mut p));
}

#[test]
fn garbage_is_left_alone() {
    let mut p = vec![0u8; 7];
    assert!(!rewrite_inbound(&mut p));
    assert!(!rewrite_outbound(&mut p));
    assert_eq!(p, vec![0u8; 7]);
}

#[test]
fn inbound_rewrites_enabled_local_address() {
    let self_ip = ip(100, 64, 0, 1);
    let peer = ip(100, 64, 0, 2);
    let table = table(&[self_ip]);
    let mut p = sample_tcp(peer, self_ip, 45678, 22, &[]);
    assert!(intercept::rewrite_inbound(&mut p, &table));
    assert_eq!(parse(&p).unwrap().transport.dst_port(), Some(SSH_INTERNAL_PORT));
    assert_eq!(u16::from_be_bytes([p[36], p[37]]), tcp_ipv4_checksum_of(&p).unwrap());
}

#[test]
fn inbound_skips_disabled_local_address() {
    let local = ip(10, 110, 66, 150);
    let other = ip(10, 110, 67, 1);
    let peer = ip(10, 110, 66, 95);
    let table = table(&[other]);
    let mut p = sample_tcp(peer, local, 45678, 22, &[]);
    assert!(!intercept::rewrite_inbound(&mut p, &table));
    assert_eq!(parse(&p).unwrap().transport.dst_port(), Some(22));
}

#[test]
fn inbound_never_rewrites_routed_subnet_destination() {
    let local = ip(10, 110, 66, 150);
    let routed = ip(192, 168, 1, 10);
    let peer = ip(10, 110, 66, 95);
    let table = table(&[local]);
    let mut p = sample_tcp(peer, routed, 45678, 22, &[]);
    assert!(!intercept::rewrite_inbound(&mut p, &table));
}

#[test]
fn outbound_rewrites_only_embedded_listener_replies() {
    let self_ip = ip(100, 64, 0, 1);
    let peer = ip(100, 64, 0, 2);
    let table = table(&[self_ip]);
    let mut p = sample_tcp(self_ip, peer, SSH_INTERNAL_PORT, 45678, &[]);
    assert!(intercept::rewrite_outbound(&mut p, &table));
    assert_eq!(parse(&p).unwrap().transport.src_port(), Some(22));

    let mut unrelated = sample_tcp(ip(10, 0, 0, 9), peer, SSH_INTERNAL_PORT, 45678, &[]);
    assert!(!intercept::rewrite_outbound(&mut unrelated, &table));
}

#[test]
fn contains_tracks_enabled_addresses() {
    let ip = ip(10, 110, 66, 1);
    let table = table(&[ip]);
    assert!(table.contains(ip));
}

#[test]
fn interception_is_asked_before_it_is_done() {
    let local = ip(10, 110, 66, 150);
    let p = sample_tcp(ip(10, 1, 1, 1), local, 45678, 22, &[]);
    assert!(intercept::rewrite_inbound_needed(&p, &table(&[local])));
    assert!(!intercept::rewrite_inbound_needed(&p, &SshIntercept::default()));
}
