//! What the firewall is for, said of packets as they are on the wire: by their
//! addresses, ports, protocols and control bits.
use vstd::prelude::*;
use super::config::{ConfigView, FirewallAction, PeerFilterView, RuleView};
use super::conntrack;
use super::conntrack::PacketDirection;
use super::engine;
use super::engine::{EngineView, EvalView, PeerView};
use crate::ids;
use crate::packet::fragments;
use crate::packet::reject;
use crate::packet::{Packet, Transport};
use crate::policy::Protocol;
use crate::text;

verus! {

proof fn lemma_skipping_a_rule(
    rules: Seq<RuleView>,
    i: int,
    direction: PacketDirection,
    l4: fragments::ResolvedL4,
    peer: PeerView,
)
    requires
        0 <= i < rules.len(),
        !engine::rule_meets(rules[i], direction, l4, peer),
    ensures
        engine::first_match(rules.remove(i), direction, l4, peer) == engine::first_match(
            rules,
            direction,
            l4,
            peer,
        ),
    decreases rules.len(),
{
    let less = rules.remove(i);
    if i == 0 {
        assert(less =~= rules.drop_first());
    } else {
        assert(less[0] == rules[0]);
        assert(less.drop_first() =~= rules.drop_first().remove(i - 1));
        assert(rules.drop_first()[i - 1] == rules[i]);
        lemma_skipping_a_rule(rules.drop_first(), i - 1, direction, l4, peer);
    }
}

/// A rule that is not for a packet never decides it: taking the rule away
/// changes neither the verdict nor the flows. A rule is not for a packet that
/// goes the other way, that has another protocol, whose destination port is in
/// none of the rule's ranges or that has no such port, or that comes from
/// another peer than the rule names. `i` is the place of the rule in the local
/// rules or in the suggested ones, as `local` says.
pub proof fn law_a_rule_for_others_never_decides(
    e: EngineView,
    local: bool,
    i: int,
    rule: RuleView,
    direction: PacketDirection,
    pkt: Packet<'_>,
    peer: PeerView,
    now: u128,
)
    requires
        !(pkt.fragmentation is Later),
        local ==> 0 <= i < e.local.len() && rule == e.local[i],
        !local ==> 0 <= i < e.suggested.len() && rule == e.suggested[i],
        ({
            ||| rule.direction is In && direction is Outbound
            ||| rule.direction is Out && direction is Inbound
            ||| !(rule.protocol is Any) && rule.protocol != pkt.protocol
            ||| {
                &&& rule.ports.len() > 0
                &&& !(pkt.protocol is Icmp) && !(pkt.protocol is Icmpv6)
                &&& match pkt.transport {
                    Transport::Tcp { dst_port, .. } => forall|k: int|
                        0 <= k < rule.ports.len() ==> dst_port < (#[trigger] rule.ports[k]).start
                            || rule.ports[k].end < dst_port,
                    Transport::Udp { dst_port, .. } => forall|k: int|
                        0 <= k < rule.ports.len() ==> dst_port < (#[trigger] rule.ports[k]).start
                            || rule.ports[k].end < dst_port,
                    _ => true,
                }
            }
            ||| match rule.peer {
                PeerFilterView::Any => false,
                PeerFilterView::Endpoint(id) => peer.endpoint is None
                    || !text::same_ignoring_case(peer.endpoint->0, id),
                PeerFilterView::Hostname(name) => peer.hostname is None
                    || !text::same_ignoring_case(peer.hostname->0, name),
                PeerFilterView::NetworkId(n) => peer.network is None || (
                !text::same_ignoring_case(ids::uuid_text(peer.network->0), n)
                    && ids::uuid_value(n) != peer.network),
            }
        }),
    ensures
        ({
            let less = if local {
                EngineView { local: e.local.remove(i), ..e }
            } else {
                EngineView { suggested: e.suggested.remove(i), ..e }
            };
            &&& engine::judged(less, direction, pkt, peer, now).0 == engine::judged(
                e,
                direction,
                pkt,
                peer,
                now,
            ).0
            &&& engine::judged(less, direction, pkt, peer, now).1.flows == engine::judged(
                e,
                direction,
                pkt,
                peer,
                now,
            ).1.flows
        }),
{
    let l4 = fragments::own_l4(pkt.protocol, pkt.transport);
    if local {
        lemma_skipping_a_rule(e.local, i, direction, l4, peer);
    } else {
        lemma_skipping_a_rule(e.suggested, i, direction, l4, peer);
    }
}

/// A rule that is for a packet decides it, where no rule stands before it and no
/// flow is open: one for its way, for any protocol or the packet's, for any port
/// or one of a range that holds its destination port (ICMP has no ports), and
/// for any peer or this one. `local` says which list the rule is the first of.
pub proof fn law_a_rule_for_the_packet_decides(
    e: EngineView,
    local: bool,
    rule: RuleView,
    k: int,
    direction: PacketDirection,
    pkt: Packet<'_>,
    peer: PeerView,
    now: u128,
)
    requires
        e.enabled,
        e.flows == Map::<conntrack::FlowId, conntrack::FlowState>::empty(),
        pkt.ip is V4,
        !(pkt.fragmentation is Later),
        local ==> e.local.len() > 0 && rule == e.local[0],
        !local ==> e.local.len() == 0 && e.suggested.len() > 0 && rule == e.suggested[0],
        ({
            &&& match direction {
                PacketDirection::Inbound => rule.direction is In,
                PacketDirection::Outbound => rule.direction is Out,
            }
            &&& rule.protocol is Any || rule.protocol == pkt.protocol
            &&& {
                ||| rule.ports.len() == 0
                ||| pkt.protocol is Icmp
                ||| pkt.protocol is Icmpv6
                ||| 0 <= k < rule.ports.len() && match pkt.transport {
                    Transport::Tcp { dst_port, .. } => rule.ports[k].start <= dst_port
                        <= rule.ports[k].end,
                    Transport::Udp { dst_port, .. } => rule.ports[k].start <= dst_port
                        <= rule.ports[k].end,
                    _ => false,
                }
            }
            &&& match rule.peer {
                PeerFilterView::Any => true,
                PeerFilterView::Endpoint(id) => peer.endpoint is Some && text::same_ignoring_case(
                    peer.endpoint->0,
                    id,
                ),
                PeerFilterView::Hostname(name) => peer.hostname is Some
                    && text::same_ignoring_case(peer.hostname->0, name),
                PeerFilterView::NetworkId(n) => peer.network is Some && (text::same_ignoring_case(
                    ids::uuid_text(peer.network->0),
                    n,
                ) || ids::uuid_value(n) == peer.network),
            }
        }),
    ensures
        ({
            match (rule.action, engine::judged(e, direction, pkt, peer, now).0) {
                (FirewallAction::Allow, EvalView::Allow) => true,
                (FirewallAction::Deny, EvalView::Deny) => true,
                (FirewallAction::Reject, EvalView::Reject { reply }) => match reject::reject_reply(
                    pkt,
                ) {
                    Some(answer) => reply == answer,
                    None => reply.len() == 0,
                },
                _ => false,
            }
        }),
{
    if rule.ports.len() > 0 && !(pkt.protocol is Icmp) && !(pkt.protocol is Icmpv6) {
        let port = match pkt.transport {
            Transport::Tcp { dst_port, .. } => dst_port,
            Transport::Udp { dst_port, .. } => dst_port,
            _ => 0,
        };
        assert(rule.ports[k].holds(port));
    }
}

/// Where no rule and no flow speaks of a packet, it is allowed exactly if it
/// goes out, comes from a peer with an identity, or is ICMP echo, asked or
/// answered; else it is denied.
pub proof fn law_default_policy(
    e: EngineView,
    direction: PacketDirection,
    pkt: Packet<'_>,
    peer: PeerView,
    now: u128,
)
    requires
        e.enabled,
        e.local.len() == 0,
        e.suggested.len() == 0,
        e.flows == Map::<conntrack::FlowId, conntrack::FlowState>::empty(),
        pkt.ip is V4,
        !(pkt.fragmentation is Later),
    ensures
        ({
            let verdict = engine::judged(e, direction, pkt, peer, now).0;
            if direction is Outbound || peer.endpoint is Some || (pkt.protocol == Protocol::Icmp
                && match pkt.transport {
                Transport::Icmp { icmp_type, .. } => icmp_type == 0 || icmp_type == 8,
                _ => false,
            }) {
                verdict is Allow
            } else {
                verdict is Deny
            }
        }),
{
}

/// IPv6 is denied, unless the firewall is off.
pub proof fn law_ipv6_is_denied(
    e: EngineView,
    direction: PacketDirection,
    pkt: Packet<'_>,
    peer: PeerView,
    now: u128,
)
    requires
        pkt.ip is V6,
    ensures
        e.enabled ==> engine::judged(e, direction, pkt, peer, now).0 is Deny,
        engine::judged(e, direction, pkt, peer, now).1.flows == e.flows,
{
}

/// Each counter goes up by one for each packet of its kind, from its last value
/// back to zero, and stays for every other packet.
pub proof fn law_counters_count(
    e: EngineView,
    direction: PacketDirection,
    pkt: Packet<'_>,
    peer: PeerView,
    now: u128,
)
    ensures
        ({
            let (verdict, f) = engine::judged(e, direction, pkt, peer, now);
            &&& f.allowed == if verdict is Allow {
                (e.allowed + 1) % 0x1_0000_0000_0000_0000
            } else {
                e.allowed as int
            }
            &&& f.denied == if verdict is Deny {
                (e.denied + 1) % 0x1_0000_0000_0000_0000
            } else {
                e.denied as int
            }
            &&& f.rejected == if verdict is Reject {
                (e.rejected + 1) % 0x1_0000_0000_0000_0000
            } else {
                e.rejected as int
            }
        }),
{
}

/// One UDP packet lets through what belongs to it and nothing else. Where a
/// datagram was allowed and no flow was open before, another packet is from then
/// on judged as if the first had never been, unless it is UDP between the same
/// two addresses and ports, either way round. Such a packet is allowed for 30
/// seconds.
pub proof fn law_udp_flow_is_for_its_own_packets(
    e: EngineView,
    direction: PacketDirection,
    pkt: Packet<'_>,
    peer: PeerView,
    now: u128,
    direction2: PacketDirection,
    other: Packet<'_>,
    peer2: PeerView,
    later: u128,
    sport: u16,
    dport: u16,
)
    requires
        e.enabled,
        e.flows == Map::<conntrack::FlowId, conntrack::FlowState>::empty(),
        pkt.wf(),
        pkt.ip is V4,
        pkt.fragmentation is Whole,
        pkt.transport == (Transport::Udp { src_port: sport, dst_port: dport }),
        engine::judged(e, direction, pkt, peer, now).0 is Allow,
        other.wf(),
        other.ip is V4,
        !(other.fragmentation is Later),
    ensures
        ({
            let f = engine::judged(e, direction, pkt, peer, now).1;
            let same = other.transport == (Transport::Udp { src_port: sport, dst_port: dport })
                && other.ip->src == pkt.ip->src && other.ip->dst == pkt.ip->dst;
            let back = other.transport == (Transport::Udp { src_port: dport, dst_port: sport })
                && other.ip->src == pkt.ip->dst && other.ip->dst == pkt.ip->src;
            if (same || back) && later - now <= 30_000_000_000 {
                engine::judged(f, direction2, other, peer2, later).0 is Allow
            } else {
                engine::judged(f, direction2, other, peer2, later).0 == engine::judged(
                    e,
                    direction2,
                    other,
                    peer2,
                    later,
                ).0
            }
        }),
{
    let f = engine::judged(e, direction, pkt, peer, now).1;
    let l4 = fragments::own_l4(pkt.protocol, pkt.transport);
    let m4 = fragments::own_l4(other.protocol, other.transport);
    assert(pkt.protocol is Udp);
    conntrack::law_a_flow_is_for_its_own_packets(
        pkt.ip->src,
        pkt.ip->dst,
        l4,
        now,
        other.ip->src,
        other.ip->dst,
        m4,
        later,
    );
    assert(f.flows == conntrack::opened(e.flows, pkt.ip->src, pkt.ip->dst, l4, now));
    assert(engine::ruling(f, direction2, m4, peer2) == engine::ruling(e, direction2, m4, peer2));
}

/// One TCP packet lets through what belongs to it and nothing else, as one of
/// UDP does. The time is 300 seconds, or 10 where the packet closes its
/// connection and does not open one.
pub proof fn law_tcp_flow_is_for_its_own_packets(
    e: EngineView,
    direction: PacketDirection,
    pkt: Packet<'_>,
    peer: PeerView,
    now: u128,
    direction2: PacketDirection,
    other: Packet<'_>,
    peer2: PeerView,
    later: u128,
)
    requires
        e.enabled,
        e.flows == Map::<conntrack::FlowId, conntrack::FlowState>::empty(),
        pkt.wf(),
        pkt.ip is V4,
        pkt.fragmentation is Whole,
        pkt.transport is Tcp,
        engine::judged(e, direction, pkt, peer, now).0 is Allow,
        other.wf(),
        other.ip is V4,
        !(other.fragmentation is Later),
    ensures
        ({
            let f = engine::judged(e, direction, pkt, peer, now).1;
            let bits = pkt.transport->Tcp_flags.0;
            let opens = bits & 2 != 0 && bits & 16 == 0;
            let closes = bits & 1 != 0 || bits & 4 != 0;
            let time: int = if closes && !opens {
                10_000_000_000
            } else {
                300_000_000_000
            };
            let same = other.transport is Tcp && other.transport->Tcp_src_port
                == pkt.transport->Tcp_src_port && other.transport->Tcp_dst_port
                == pkt.transport->Tcp_dst_port && other.ip->src == pkt.ip->src && other.ip->dst
                == pkt.ip->dst;
            let back = other.transport is Tcp && other.transport->Tcp_src_port
                == pkt.transport->Tcp_dst_port && other.transport->Tcp_dst_port
                == pkt.transport->Tcp_src_port && other.ip->src == pkt.ip->dst && other.ip->dst
                == pkt.ip->src;
            if (same || back) && later - now <= time {
                engine::judged(f, direction2, other, peer2, later).0 is Allow
            } else {
                engine::judged(f, direction2, other, peer2, later).0 == engine::judged(
                    e,
                    direction2,
                    other,
                    peer2,
                    later,
                ).0
            }
        }),
{
    let f = engine::judged(e, direction, pkt, peer, now).1;
    let l4 = fragments::own_l4(pkt.protocol, pkt.transport);
    let m4 = fragments::own_l4(other.protocol, other.transport);
    assert(pkt.protocol is Tcp);
    conntrack::law_a_flow_is_for_its_own_packets(
        pkt.ip->src,
        pkt.ip->dst,
        l4,
        now,
        other.ip->src,
        other.ip->dst,
        m4,
        later,
    );
    assert(f.flows == conntrack::opened(e.flows, pkt.ip->src, pkt.ip->dst, l4, now));
    assert(engine::ruling(f, direction2, m4, peer2) == engine::ruling(e, direction2, m4, peer2));
}

/// An ICMP echo that was allowed lets through echo with the same identifier
/// between the same two addresses for 10 seconds, either way round.
pub proof fn law_echo_flow_is_for_its_own_packets(
    e: EngineView,
    direction: PacketDirection,
    pkt: Packet<'_>,
    peer: PeerView,
    now: u128,
    direction2: PacketDirection,
    other: Packet<'_>,
    peer2: PeerView,
    later: u128,
    id: u16,
)
    requires
        e.enabled,
        e.flows == Map::<conntrack::FlowId, conntrack::FlowState>::empty(),
        pkt.wf(),
        pkt.ip is V4,
        pkt.fragmentation is Whole,
        pkt.transport is Icmp,
        pkt.transport->icmp_id == Some(id),
        engine::judged(e, direction, pkt, peer, now).0 is Allow,
        other.wf(),
        other.ip is V4,
        !(other.fragmentation is Later),
        other.transport is Icmp ==> other.transport->icmp_id is Some,
    ensures
        ({
            let f = engine::judged(e, direction, pkt, peer, now).1;
            let same = other.ip->src == pkt.ip->src && other.ip->dst == pkt.ip->dst;
            let back = other.ip->src == pkt.ip->dst && other.ip->dst == pkt.ip->src;
            if other.transport is Icmp && other.transport->icmp_id == Some(id) && (same || back)
                && later - now <= 10_000_000_000 {
                engine::judged(f, direction2, other, peer2, later).0 is Allow
            } else {
                engine::judged(f, direction2, other, peer2, later).0 == engine::judged(
                    e,
                    direction2,
                    other,
                    peer2,
                    later,
                ).0
            }
        }),
{
    let f = engine::judged(e, direction, pkt, peer, now).1;
    let l4 = fragments::own_l4(pkt.protocol, pkt.transport);
    let m4 = fragments::own_l4(other.protocol, other.transport);
    assert(pkt.protocol is Icmp);
    conntrack::law_an_echo_flow_is_for_its_own_packets(
        pkt.ip->src,
        pkt.ip->dst,
        l4,
        now,
        other.ip->src,
        other.ip->dst,
        m4,
        later,
    );
    assert(f.flows == conntrack::opened(e.flows, pkt.ip->src, pkt.ip->dst, l4, now));
    assert(engine::ruling(f, direction2, m4, peer2) == engine::ruling(e, direction2, m4, peer2));
}

/// A new firewall has the local rules of its configuration and no others, has seen
/// no packet and tracks nothing.
pub proof fn law_new_firewall(cfg: ConfigView, self_ip: u32)
    ensures
        ({
            let e = engine::configured(cfg, self_ip);
            &&& e.enabled == cfg.enabled && e.local == cfg.rules && e.version == cfg.version
            &&& e.suggested.len() == 0
            &&& (forall|k: conntrack::FlowId| !(#[trigger] e.flows.contains_key(k)))
            &&& (forall|k: u128| !(#[trigger] e.fragments.contains_key(k)))
            &&& e.allowed == 0 && e.denied == 0 && e.rejected == 0
            &&& e.self_ip == self_ip && e.clock == 0
        }),
{
}

/// Taking over other rules replaces those rules alone: what is tracked and counted
/// stays, and so do the rules of the other kind. A flush forgets what is tracked
/// and nothing else.
pub proof fn law_rules_and_flows_are_apart(
    e: EngineView,
    cfg: ConfigView,
    rules: Seq<RuleView>,
    k: conntrack::FlowId,
    d: u128,
)
    ensures
        ({
            let r = engine::reloaded(e, cfg);
            let s = engine::suggested(e, rules);
            let f = engine::flushed(e);
            &&& r.enabled == cfg.enabled && r.local == cfg.rules && r.version == cfg.version
            &&& r.suggested == e.suggested
            &&& s.suggested == rules
            &&& s.enabled == e.enabled && s.local == e.local && s.version == e.version
            &&& r.flows == e.flows && s.flows == e.flows && !f.flows.contains_key(k)
            &&& r.fragments == e.fragments && s.fragments == e.fragments
            &&& !f.fragments.contains_key(d)
            &&& f.enabled == e.enabled && f.local == e.local && f.version == e.version
            &&& f.suggested == e.suggested
            &&& r.allowed == e.allowed && s.allowed == e.allowed && f.allowed == e.allowed
            &&& r.denied == e.denied && s.denied == e.denied && f.denied == e.denied
            &&& r.rejected == e.rejected && s.rejected == e.rejected && f.rejected == e.rejected
            &&& r.self_ip == e.self_ip && s.self_ip == e.self_ip && f.self_ip == e.self_ip
            &&& r.clock == e.clock && s.clock == e.clock && f.clock == e.clock
        }),
{
}

} // verus!
