use etherparse::PacketBuilder;
use tunnet::firewall::config::{
    action_display, default_firewall, direction_display, parse_peer_filter, parse_port_spec,
    peer_filter_display, FirewallAction, FirewallConfig, FirewallDirection, FirewallRule,
    PeerFilter, PortSpecError, RuleError,
};
use tunnet::firewall::conntrack::PacketDirection;
use tunnet::firewall::engine::{EvalResult, FirewallEngine};
use tunnet::packet::checksum::tcp_segment_checksum;
use tunnet::packet::fragments::{FragmentTable, FRAGMENT_LIMIT};
use tunnet::packet::reject::synthesize_reject;
use tunnet::packet::{parse, Fragmentation, ParseError, Transport};
use tunnet::policy::{PortRange, Protocol};

const SEC: u128 = 1_000_000_000;

fn ip(a: u8, b: u8, c: u8, d: u8) -> u32 {
    u32::from_be_bytes([a, b, c, d])
}

fn engine() -> FirewallEngine {
    FirewallEngine::from_config(&default_firewall(), ip(100, 64, 0, 1), "aa".repeat(32))
}

fn tcp_syn(src: u32, dst: u32, sport: u16, dport: u16) -> Vec<u8> {
    let b = PacketBuilder::ipv4(src.to_be_bytes(), dst.to_be_bytes(), 64)
        .tcp(sport, dport, 1, 1000)
        .syn();
    let mut out = Vec::new();
    b.write(&mut out, &[]).unwrap();
    out
}

fn tcp_ack(src: u32, dst: u32, sport: u16, dport: u16) -> Vec<u8> {
    let b = PacketBuilder::ipv4(src.to_be_bytes(), dst.to_be_bytes(), 64)
        .tcp(sport, dport, 1, 1000)
        .ack(1);
    let mut out = Vec::new();
    b.write(&mut out, &[]).unwrap();
    out
}

fn tcp_fin(src: u32, dst: u32, sport: u16, dport: u16) -> Vec<u8> {
    let b = PacketBuilder::ipv4(src.to_be_bytes(), dst.to_be_bytes(), 64)
        .tcp(sport, dport, 1, 1000)
        .fin()
        .ack(1);
    let mut out = Vec::new();
    b.write(&mut out, &[]).unwrap();
    out
}

fn udp(src: u32, dst: u32, sport: u16, dport: u16) -> Vec<u8> {
    let b = PacketBuilder::ipv4(src.to_be_bytes(), dst.to_be_bytes(), 64).udp(sport, dport);
    let mut out = Vec::new();
    b.write(&mut out, b"data").unwrap();
    out
}

fn echo_request(src: u32, dst: u32, id: u16) -> Vec<u8> {
    let b = PacketBuilder::ipv4(src.to_be_bytes(), dst.to_be_bytes(), 64)
        .icmpv4_echo_request(id, 1);
    let mut out = Vec::new();
    b.write(&mut out, &[]).unwrap();
    out
}

fn echo_reply(src: u32, dst: u32, id: u16) -> Vec<u8> {
    let b = PacketBuilder::ipv4(src.to_be_bytes(), dst.to_be_bytes(), 64).icmpv4_echo_reply(id, 1);
    let mut out = Vec::new();
    b.write(&mut out, &[]).unwrap();
    out
}

fn eval(
    e: &mut FirewallEngine,
    dir: PacketDirection,
    raw: &[u8],
    peer: Option<&str>,
) -> EvalResult {
    let pkt = parse(raw).unwrap();
    e.evaluate(dir, &pkt, peer, None, None)
}

fn eval_at(e: &mut FirewallEngine, now: u128, dir: PacketDirection, raw: &[u8]) -> EvalResult {
    let pkt = parse(raw).unwrap();
    e.evaluate_at(now, dir, &pkt, None, None, None)
}

fn rule(
    direction: FirewallDirection,
    action: FirewallAction,
    protocol: Protocol,
    ports: Vec<PortRange>,
    peer: PeerFilter,
) -> FirewallRule {
    FirewallRule { direction, action, protocol, ports, peer }
}

fn one_rule(rule: FirewallRule) -> FirewallConfig {
    FirewallConfig { enabled: true, version: 2, rules: vec![rule] }
}

fn deny_out_443() -> FirewallConfig {
    one_rule(rule(
        FirewallDirection::Out,
        FirewallAction::Deny,
        Protocol::Tcp,
        vec![PortRange { start: 443, end: 443 }],
        PeerFilter::Any,
    ))
}

#[test]
fn parse_tcp() {
    let src = ip(100, 64, 0, 1);
    let dst = ip(100, 64, 0, 2);
    let p = tcp_syn(src, dst, 12345, 80);
    let v = parse(&p).unwrap();
    assert_eq!(v.policy_protocol(), Protocol::Tcp);
    assert_eq!(v.transport.src_port(), Some(12345));
    assert_eq!(v.transport.dst_port(), Some(80));
    assert!(v.transport.tcp_flags().unwrap().syn());
}

#[test]
fn outbound_allowed_by_default() {
    let mut e = engine();
    let p = tcp_syn(ip(100, 64, 0, 1), ip(100, 64, 0, 2), 12345, 443);
    assert!(matches!(
        eval(&mut e, PacketDirection::Outbound, &p, Some("peer")),
        EvalResult::Allow
    ));
}

#[test]
fn inbound_tcp_allowed_from_authenticated_peer() {
    let mut e = engine();
    let p = tcp_syn(ip(100, 64, 0, 2), ip(100, 64, 0, 1), 443, 12345);
    assert!(matches!(
        eval(&mut e, PacketDirection::Inbound, &p, Some("peer")),
        EvalResult::Allow
    ));
}

#[test]
fn inbound_tcp_denied_without_peer_identity() {
    let mut e = engine();
    let p = tcp_syn(ip(100, 64, 0, 2), ip(100, 64, 0, 1), 443, 12345);
    assert!(matches!(
        eval(&mut e, PacketDirection::Inbound, &p, None),
        EvalResult::Deny
    ));
}

#[test]
fn return_traffic_allowed_via_conntrack() {
    let mut e = engine();
    let out = tcp_syn(ip(100, 64, 0, 1), ip(100, 64, 0, 2), 12345, 443);
    assert!(matches!(
        eval(&mut e, PacketDirection::Outbound, &out, Some("peer")),
        EvalResult::Allow
    ));
    let ret = tcp_ack(ip(100, 64, 0, 2), ip(100, 64, 0, 1), 443, 12345);
    assert!(matches!(
        eval(&mut e, PacketDirection::Inbound, &ret, Some("peer")),
        EvalResult::Allow
    ));
}

#[test]
fn local_deny_outbound() {
    let mut e = engine();
    e.reload_local(&deny_out_443());
    let p = tcp_syn(ip(100, 64, 0, 1), ip(100, 64, 0, 2), 12345, 443);
    assert!(matches!(
        eval(&mut e, PacketDirection::Outbound, &p, Some("peer")),
        EvalResult::Deny
    ));
}

#[test]
fn later_fragment_cannot_bypass_port_deny() {
    let mut e = engine();
    e.reload_local(&deny_out_443());
    let mut later = tcp_syn(ip(100, 64, 0, 1), ip(100, 64, 0, 2), 12345, 443);
    later[6] = 0;
    later[7] = 8;
    assert!(matches!(
        eval(&mut e, PacketDirection::Outbound, &later, Some("peer")),
        EvalResult::Deny
    ));
}

#[test]
fn reject_synthesizes_rst() {
    let src = ip(100, 64, 0, 2);
    let dst = ip(100, 64, 0, 1);
    let p = tcp_syn(src, dst, 9999, 22);
    let v = parse(&p).unwrap();
    let reply = synthesize_reject(&v).unwrap();
    assert!(reply.len() >= 40);
    assert_eq!(reply[9], 6);
    let parsed = parse(&reply).unwrap();
    assert!(parsed.transport.tcp_flags().unwrap().rst());
}

#[test]
fn reply_without_identity_is_allowed_in_its_flow_only() {
    let mut e = engine();
    let me = ip(100, 64, 0, 1);
    let peer = ip(100, 64, 0, 2);
    let out = tcp_syn(me, peer, 12345, 443);
    let back = tcp_ack(peer, me, 443, 12345);
    let other = tcp_ack(peer, me, 443, 12346);
    assert!(matches!(eval_at(&mut e, 0, PacketDirection::Inbound, &back), EvalResult::Deny));
    assert!(matches!(eval_at(&mut e, 0, PacketDirection::Outbound, &out), EvalResult::Allow));
    assert!(matches!(eval_at(&mut e, SEC, PacketDirection::Inbound, &back), EvalResult::Allow));
    assert!(matches!(eval_at(&mut e, SEC, PacketDirection::Inbound, &other), EvalResult::Deny));
}

#[test]
fn idle_flows_expire() {
    let me = ip(100, 64, 0, 1);
    let peer = ip(100, 64, 0, 2);
    let cases = [
        (tcp_syn(me, peer, 1, 2), tcp_ack(peer, me, 2, 1), 300u128),
        (tcp_fin(me, peer, 1, 2), tcp_ack(peer, me, 2, 1), 10),
        (udp(me, peer, 1, 2), udp(peer, me, 2, 1), 30),
    ];
    for (out, back, secs) in cases {
        let mut e = engine();
        assert!(matches!(eval_at(&mut e, SEC, PacketDirection::Outbound, &out), EvalResult::Allow));
        let late = SEC + secs * SEC + 1;
        assert!(matches!(eval_at(&mut e, late, PacketDirection::Inbound, &back), EvalResult::Deny));
        assert_eq!(e.stats().conntrack_entries, 0);

        let mut e = engine();
        assert!(matches!(eval_at(&mut e, SEC, PacketDirection::Outbound, &out), EvalResult::Allow));
        let last = SEC + secs * SEC;
        assert!(matches!(eval_at(&mut e, last, PacketDirection::Inbound, &back), EvalResult::Allow));
    }
}

#[test]
fn closing_shortens_a_flow() {
    let mut e = engine();
    let me = ip(100, 64, 0, 1);
    let peer = ip(100, 64, 0, 2);
    eval_at(&mut e, 0, PacketDirection::Outbound, &tcp_syn(me, peer, 1, 2));
    eval_at(&mut e, SEC, PacketDirection::Inbound, &tcp_ack(peer, me, 2, 1));
    eval_at(&mut e, 2 * SEC, PacketDirection::Inbound, &tcp_fin(peer, me, 2, 1));
    let back = tcp_ack(peer, me, 2, 1);
    assert!(matches!(eval_at(&mut e, 13 * SEC, PacketDirection::Inbound, &back), EvalResult::Deny));
}

#[test]
fn expired_flows_are_collected() {
    let mut e = engine();
    let me = ip(100, 64, 0, 1);
    let peer = ip(100, 64, 0, 2);
    eval_at(&mut e, 0, PacketDirection::Outbound, &udp(me, peer, 1, 2));
    eval_at(&mut e, 20 * SEC, PacketDirection::Outbound, &udp(me, peer, 3, 4));
    assert_eq!(e.stats().conntrack_entries, 2);
    e.collect_expired_at(31 * SEC);
    assert_eq!(e.stats().conntrack_entries, 1);
    e.flush_conntrack();
    assert_eq!(e.stats().conntrack_entries, 0);
}

#[test]
fn clock_driven_collection_keeps_fresh_flows() {
    let mut e = engine();
    let p = udp(ip(100, 64, 0, 1), ip(100, 64, 0, 2), 1, 2);
    eval(&mut e, PacketDirection::Outbound, &p, None);
    e.collect_expired();
    assert_eq!(e.stats().conntrack_entries, 1);
}

#[test]
fn echo_needs_no_identity_and_has_one_flow() {
    let mut e = engine();
    let me = ip(100, 64, 0, 1);
    let peer = ip(100, 64, 0, 2);
    let request = echo_request(peer, me, 7);
    let reply = echo_reply(me, peer, 7);
    assert!(matches!(eval_at(&mut e, 0, PacketDirection::Inbound, &request), EvalResult::Allow));
    assert!(matches!(eval_at(&mut e, 1, PacketDirection::Outbound, &reply), EvalResult::Allow));
    assert_eq!(e.stats().conntrack_entries, 1);
}

#[test]
fn a_flow_is_tracked_from_one_end() {
    let mut e = engine();
    let me = ip(100, 64, 0, 1);
    let peer = ip(100, 64, 0, 2);
    eval_at(&mut e, 0, PacketDirection::Outbound, &udp(me, peer, 1, 2));
    eval_at(&mut e, 1, PacketDirection::Inbound, &udp(peer, me, 2, 1));
    eval_at(&mut e, 2, PacketDirection::Outbound, &udp(me, peer, 1, 2));
    assert_eq!(e.stats().conntrack_entries, 1);
}

#[test]
fn refused_packets_track_nothing() {
    let mut e = engine();
    let me = ip(100, 64, 0, 1);
    let peer = ip(100, 64, 0, 2);
    e.reload_local(&deny_out_443());
    eval_at(&mut e, 0, PacketDirection::Outbound, &tcp_syn(me, peer, 1, 443));
    eval_at(&mut e, 0, PacketDirection::Inbound, &tcp_syn(peer, me, 1, 2));
    assert_eq!((e.stats().conntrack_entries, e.stats().packets_denied), (0, 2));
    eval_at(&mut e, 0, PacketDirection::Outbound, &tcp_syn(me, peer, 1, 80));
    assert_eq!((e.stats().conntrack_entries, e.stats().packets_allowed), (1, 1));
}

#[test]
fn off_allows_and_counts() {
    let mut e = engine();
    e.reload_local(&FirewallConfig { enabled: false, rules: vec![], version: 9 });
    let p = tcp_syn(ip(100, 64, 0, 2), ip(100, 64, 0, 1), 443, 12345);
    assert!(matches!(eval(&mut e, PacketDirection::Inbound, &p, None), EvalResult::Allow));
    let s = e.stats();
    assert_eq!((s.packets_allowed, s.packets_denied, s.packets_rejected), (1, 0, 0));
    assert_eq!((s.enabled, s.version, s.conntrack_entries), (false, 9, 0));
}

#[test]
fn local_rules_come_before_suggested_ones() {
    let mut e = engine();
    let p = tcp_syn(ip(100, 64, 0, 1), ip(100, 64, 0, 2), 1, 80);
    let reject = rule(
        FirewallDirection::Out,
        FirewallAction::Reject,
        Protocol::Any,
        vec![],
        PeerFilter::Any,
    );
    e.set_suggested(vec![reject]);
    assert_eq!(e.stats().suggested_rules, 1);
    assert!(matches!(
        eval(&mut e, PacketDirection::Outbound, &p, None),
        EvalResult::Reject { .. }
    ));
    e.reload_local(&one_rule(rule(
        FirewallDirection::Out,
        FirewallAction::Allow,
        Protocol::Tcp,
        vec![],
        PeerFilter::Any,
    )));
    assert!(matches!(eval(&mut e, PacketDirection::Outbound, &p, None), EvalResult::Allow));
    assert_eq!(e.local_rules_snapshot().len(), 1);
    assert_eq!(e.suggested_rules_snapshot()[0].action, FirewallAction::Reject);
    e.clear_suggested();
    assert_eq!(e.suggested_rules_snapshot().len(), 0);
    e.set_self_ip(ip(100, 64, 0, 9));
    let s = e.stats();
    assert_eq!((s.packets_allowed, s.packets_denied, s.packets_rejected), (1, 0, 1));
}

#[test]
fn peer_filters_select() {
    let network = 0x0123_4567_89ab_cdef_0123_4567_89ab_cdefu128;
    let text = "01234567-89AB-CDEF-0123-456789abcdef";
    let cases = [
        (PeerFilter::Endpoint("AbC".into()), Some("aBc"), None, None, true),
        (PeerFilter::Endpoint("abc".into()), Some("abd"), None, None, false),
        (PeerFilter::Endpoint("abc".into()), None, Some("abc"), None, false),
        (PeerFilter::Hostname("Host".into()), None, Some("hOST"), None, true),
        (PeerFilter::Hostname("host".into()), None, None, None, false),
        (PeerFilter::NetworkId(text.into()), None, None, Some(network), true),
        (PeerFilter::NetworkId(format!("{{{text}}}")), None, None, Some(network), true),
        (PeerFilter::NetworkId(text.replace('-', "")), None, None, Some(network), true),
        (PeerFilter::NetworkId(text.into()), None, None, Some(network + 1), false),
        (PeerFilter::NetworkId("nonsense".into()), None, None, Some(network), false),
        (PeerFilter::NetworkId(text.into()), None, None, None, false),
    ];
    let p = tcp_syn(ip(100, 64, 0, 1), ip(100, 64, 0, 2), 1, 80);
    for (peer, hex, host, net, matched) in cases {
        let mut e = engine();
        e.reload_local(&one_rule(rule(
            FirewallDirection::Out,
            FirewallAction::Deny,
            Protocol::Any,
            vec![],
            peer,
        )));
        let pkt = parse(&p).unwrap();
        let r = e.evaluate_at(0, PacketDirection::Outbound, &pkt, hex, host, net);
        assert_eq!(matches!(r, EvalResult::Deny), matched);
    }
}

#[test]
fn port_rules_do_not_apply_to_echo() {
    let mut e = engine();
    e.reload_local(&one_rule(rule(
        FirewallDirection::Out,
        FirewallAction::Deny,
        Protocol::Any,
        vec![PortRange { start: 1, end: 2 }],
        PeerFilter::Any,
    )));
    let p = echo_request(ip(100, 64, 0, 1), ip(100, 64, 0, 2), 3);
    assert!(matches!(eval_at(&mut e, 0, PacketDirection::Outbound, &p), EvalResult::Deny));
}

#[test]
fn first_fragment_lends_its_ports() {
    let mut e = engine();
    e.reload_local(&deny_out_443());
    let mut first = tcp_syn(ip(100, 64, 0, 1), ip(100, 64, 0, 2), 12345, 80);
    first[6] = 0x20;
    first[7] = 0;
    let mut later = first.clone();
    later[6] = 0;
    later[7] = 8;
    assert!(matches!(eval_at(&mut e, 0, PacketDirection::Outbound, &later), EvalResult::Deny));
    assert!(matches!(eval_at(&mut e, 0, PacketDirection::Outbound, &first), EvalResult::Allow));
    assert!(matches!(eval_at(&mut e, 0, PacketDirection::Outbound, &later), EvalResult::Allow));
}

#[test]
fn fragment_table_starts_again_when_full() {
    let mut t = FragmentTable::new();
    let mut first = udp(ip(10, 0, 0, 1), ip(10, 0, 0, 2), 5, 6);
    first[6] = 0x20;
    for i in 0..FRAGMENT_LIMIT {
        first[4..6].copy_from_slice(&(i as u16).to_be_bytes());
        assert!(t.resolve(&parse(&first).unwrap()).is_some());
    }
    assert_eq!(t.len(), FRAGMENT_LIMIT);
    first[4..6].copy_from_slice(&60000u16.to_be_bytes());
    let l4 = t.resolve(&parse(&first).unwrap()).unwrap();
    assert_eq!((l4.src_port, l4.dst_port), (Some(5), Some(6)));
    assert_eq!(t.len(), 1);
    t.clear();
    assert_eq!(t.len(), 0);
}

#[test]
fn ipv6_is_denied() {
    let mut e = engine();
    let b = PacketBuilder::ipv6([1; 16], [2; 16], 64).udp(1, 2);
    let mut raw = Vec::new();
    b.write(&mut raw, &[]).unwrap();
    assert!(matches!(eval_at(&mut e, 0, PacketDirection::Outbound, &raw), EvalResult::Deny));
    assert_eq!(e.stats().packets_denied, 1);
}

#[test]
fn reset_answers_a_syn_exactly() {
    let src = ip(100, 64, 0, 2);
    let dst = ip(100, 64, 0, 1);
    let p = tcp_syn(src, dst, 9999, 22);
    let reply = synthesize_reject(&parse(&p).unwrap()).unwrap();
    assert_eq!(reply.len(), 40);
    let back = parse(&reply).unwrap();
    assert_eq!(back.ip.v4_src(), Some(dst));
    assert_eq!(back.ip.v4_dst(), Some(src));
    assert_eq!(back.transport.src_port(), Some(22));
    assert_eq!(back.transport.dst_port(), Some(9999));
    assert_eq!(&reply[24..28], &[0, 0, 0, 0]);
    assert_eq!(&reply[28..32], &[0, 0, 0, 2]);
    assert!(back.transport.tcp_flags().unwrap().ack());
    assert_eq!(tunnet::packet::tcp_ipv4_checksum_of(&reply).unwrap().to_be_bytes(), reply[36..38]);
    let mut segment = reply[20..].to_vec();
    segment[16] = 0;
    segment[17] = 0;
    assert_eq!(tcp_segment_checksum(&segment, 0, 20, dst, src).to_be_bytes(), reply[36..38]);
}

#[test]
fn unreachable_answers_a_datagram() {
    let p = udp(ip(10, 0, 0, 1), ip(10, 0, 0, 2), 5, 6);
    let reply = synthesize_reject(&parse(&p).unwrap()).unwrap();
    let back = parse(&reply).unwrap();
    assert_eq!(back.policy_protocol(), Protocol::Icmp);
    assert_eq!((reply[20], reply[21]), (3, 13));
    assert_eq!(&reply[28..], &p[..28]);
    let b = PacketBuilder::ipv4([10, 0, 0, 2], [10, 0, 0, 1], 64)
        .icmpv4_raw(3, 13, [0; 4]);
    let mut same = Vec::new();
    b.write(&mut same, &p[..28]).unwrap();
    assert_eq!(&reply[20..], &same[20..]);
}

#[test]
fn bad_packets_are_told_apart() {
    assert_eq!(parse(&[]).unwrap_err(), ParseError::NotIp);
    assert_eq!(parse(&[0x50; 20]).unwrap_err(), ParseError::NotIp);
    assert_eq!(parse(&[0x45; 19]).unwrap_err(), ParseError::Truncated);
    let mut p = udp(1, 2, 3, 4);
    p[0] = 0x44;
    assert_eq!(parse(&p).unwrap_err(), ParseError::BadLength);
    let mut p = udp(1, 2, 3, 4);
    p[6] = 0x20;
    assert_eq!(parse(&p).unwrap().fragmentation, Fragmentation::First);
    assert_eq!(parse(&p).unwrap().transport, Transport::Udp { src_port: 3, dst_port: 4 });
}

#[test]
fn rules_are_added_and_removed() {
    let mut cfg = default_firewall();
    assert!(cfg.enabled);
    assert_eq!(cfg.version, 1);
    cfg.add_rule(rule(
        FirewallDirection::In,
        FirewallAction::Deny,
        Protocol::Udp,
        vec![],
        PeerFilter::default(),
    ));
    assert_eq!((cfg.rules.len(), cfg.version), (1, 2));
    assert_eq!(cfg.remove_at(1), Err(RuleError::OutOfRange));
    assert_eq!((cfg.rules.len(), cfg.version), (1, 2));
    assert_eq!(cfg.remove_at(0), Ok(()));
    assert_eq!((cfg.rules.len(), cfg.version), (0, 3));
    cfg.reset();
    assert_eq!(cfg.version, 1);
}

#[test]
fn port_specs() {
    let ports = parse_port_spec(" 80 ,8000-8080,+7").unwrap();
    assert_eq!(
        ports,
        vec![
            PortRange { start: 80, end: 80 },
            PortRange { start: 8000, end: 8080 },
            PortRange { start: 7, end: 7 },
        ]
    );
    assert!(parse_port_spec("").unwrap().is_empty());
    assert!(parse_port_spec("*").unwrap().is_empty());
    assert_eq!(parse_port_spec("x-2"), Err(PortSpecError::RangeStart));
    assert_eq!(parse_port_spec("1-65536"), Err(PortSpecError::RangeEnd));
    assert_eq!(parse_port_spec("80,"), Err(PortSpecError::Port));
    assert_eq!(parse_port_spec("1 - 2"), Err(PortSpecError::RangeStart));
}

#[test]
fn peer_filters_are_read_and_shown() {
    let hex = "0123456789abcdefABCDEF0123456789".repeat(2);
    let cases = [
        (None, None),
        (Some("  "), None),
        (Some("*"), None),
        (Some("ANY"), None),
        (Some("endpoint:ab"), Some("endpoint:ab".to_string())),
        (Some("host:h"), Some("host:h".to_string())),
        (Some("hostname:h"), Some("host:h".to_string())),
        (Some("network:n"), Some("network:n".to_string())),
        (Some(hex.as_str()), Some(format!("endpoint:{hex}"))),
        (Some(" box "), Some("host:box".to_string())),
    ];
    for (given, shown) in cases {
        let filter = parse_peer_filter(given).unwrap();
        let text = peer_filter_display(&filter);
        assert_eq!(text, shown);
        let again = parse_peer_filter(text.as_deref()).unwrap();
        assert_eq!(peer_filter_display(&again), shown);
    }
}

#[test]
fn names_of_actions_and_directions() {
    assert_eq!(action_display(FirewallAction::Allow), "allow");
    assert_eq!(action_display(FirewallAction::Deny), "deny");
    assert_eq!(action_display(FirewallAction::Reject), "reject");
    assert_eq!(direction_display(FirewallDirection::In), "in");
    assert_eq!(direction_display(FirewallDirection::Out), "out");
}
