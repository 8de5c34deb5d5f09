//! What holds of the firewall as a whole.
use vstd::prelude::*;
use super::config::{FirewallAction, RuleView};
use super::conntrack;
use super::conntrack::{FlowId, PacketDirection};
use super::engine;
use super::engine::{EngineView, EvalView, PeerView};
use crate::packet::fragments;
use crate::packet::fragments::ResolvedL4;
use crate::packet::Packet;
use crate::policy::protocol_of;

verus! {

/// A firewall that is off allows every packet and remembers nothing of it.
pub proof fn law_off_allows_everything(
    e: EngineView,
    direction: PacketDirection,
    pkt: Packet<'_>,
    peer: PeerView,
    now: u128,
)
    requires
        !e.enabled,
    ensures
        engine::judged(e, direction, pkt, peer, now).0 is Allow,
        engine::judged(e, direction, pkt, peer, now).1.flows == e.flows,
        engine::judged(e, direction, pkt, peer, now).1.fragments == e.fragments,
{
}

/// Judging a packet changes no rule, and counts it once, under what became of it.
pub proof fn law_each_packet_is_counted_once(
    e: EngineView,
    direction: PacketDirection,
    pkt: Packet<'_>,
    peer: PeerView,
    now: u128,
)
    ensures
        ({
            let (r, f) = engine::judged(e, direction, pkt, peer, now);
            &&& f.enabled == e.enabled
            &&& f.local == e.local
            &&& f.suggested == e.suggested
            &&& f.version == e.version
            &&& f.self_ip == e.self_ip
            &&& f.clock == e.clock
            &&& f.allowed == (if r is Allow {
                engine::counted(e.allowed)
            } else {
                e.allowed
            })
            &&& f.denied == (if r is Deny {
                engine::counted(e.denied)
            } else {
                e.denied
            })
            &&& f.rejected == (if r is Reject {
                engine::counted(e.rejected)
            } else {
                e.rejected
            })
        }),
{
}

/// A packet that is not allowed never makes more flows tracked, an allowed one at
/// most one more. The table of flows stays finite; that of a new firewall, and
/// of one that was flushed, is empty, and collecting only makes it smaller.
pub proof fn law_tracked_flows_are_bounded(
    e: EngineView,
    direction: PacketDirection,
    pkt: Packet<'_>,
    peer: PeerView,
    now: u128,
)
    requires
        e.flows.dom().finite(),
    ensures
        ({
            let (r, f) = engine::judged(e, direction, pkt, peer, now);
            &&& f.flows.dom().finite()
            &&& f.flows.len() <= e.flows.len() + 1
            &&& !(r is Allow) ==> f.flows.len() <= e.flows.len()
        }),
        conntrack::unexpired(e.flows, now).dom().finite(),
        conntrack::unexpired(e.flows, now).len() <= e.flows.len(),
        conntrack::no_flows().dom().finite(),
        conntrack::no_flows().len() == 0,
{
    let kept = conntrack::unexpired(e.flows, now).dom();
    assert(kept.subset_of(e.flows.dom()));
    vstd::set_lib::lemma_len_subset(kept, e.flows.dom());
    assert(conntrack::no_flows().dom() =~= Set::empty());
    match (
        pkt.ip.source(),
        pkt.ip.destination(),
        fragments::resolved(e.fragments, pkt),
    ) {
        (Some(src), Some(dst), Some(l4)) => {
            conntrack::lemma_lookup_adds_no_flow(e.flows, direction, src, dst, l4, now);
            let seen = conntrack::looked_up(e.flows, direction, src, dst, l4, now);
            conntrack::lemma_opening_adds_one_flow(seen, src, dst, l4, now);
        },
        _ => {},
    }
}

/// The action is that of a rule that the packet meets, with no such rule
/// before it; there is none only where the packet meets no rule.
pub proof fn law_first_rule_decides(
    rules: Seq<RuleView>,
    direction: PacketDirection,
    l4: ResolvedL4,
    peer: PeerView,
)
    ensures
        match engine::first_match(rules, direction, l4, peer) {
            Some(action) => exists|i: int|
                {
                    &&& 0 <= i < rules.len()
                    &&& engine::rule_meets(#[trigger] rules[i], direction, l4, peer)
                    &&& rules[i].action == action
                    &&& forall|k: int|
                        0 <= k < i ==> !engine::rule_meets(
                            #[trigger] rules[k],
                            direction,
                            l4,
                            peer,
                        )
                },
            None => forall|k: int|
                0 <= k < rules.len() ==> !engine::rule_meets(
                    #[trigger] rules[k],
                    direction,
                    l4,
                    peer,
                ),
        },
    decreases rules.len(),
{
    if rules.len() > 0 && !engine::rule_meets(rules[0], direction, l4, peer) {
        let rest = rules.drop_first();
        law_first_rule_decides(rest, direction, l4, peer);
        if let Some(action) = engine::first_match(rest, direction, l4, peer) {
            let i = choose|i: int|
                {
                    &&& 0 <= i < rest.len()
                    &&& engine::rule_meets(#[trigger] rest[i], direction, l4, peer)
                    &&& rest[i].action == action
                    &&& forall|k: int|
                        0 <= k < i ==> !engine::rule_meets(
                            #[trigger] rest[k],
                            direction,
                            l4,
                            peer,
                        )
                };
            assert(rules[i + 1] == rest[i]);
            assert forall|k: int| 0 <= k < i + 1 implies !engine::rule_meets(
                #[trigger] rules[k],
                direction,
                l4,
                peer,
            ) by {
                if k > 0 {
                    assert(rules[k] == rest[k - 1]);
                }
            }
        } else {
            assert forall|k: int| 0 <= k < rules.len() implies !engine::rule_meets(
                #[trigger] rules[k],
                direction,
                l4,
                peer,
            ) by {
                if k > 0 {
                    assert(rules[k] == rest[k - 1]);
                }
            }
        }
    }
}

/// A packet of IPv4 that is no fragment, or whose first fragment has been seen.
pub open spec fn known(e: EngineView, pkt: Packet<'_>, src: u32, dst: u32, l4: ResolvedL4) -> bool {
    &&& e.enabled
    &&& pkt.ip.source() == Some(src)
    &&& pkt.ip.destination() == Some(dst)
    &&& fragments::resolved(e.fragments, pkt) == Some(l4)
}

/// A packet in no open flow gets what the rules say: the first local rule that
/// it meets, else the first suggested one, else the default.
pub proof fn law_rules_decide_outside_flows(
    e: EngineView,
    direction: PacketDirection,
    pkt: Packet<'_>,
    src: u32,
    dst: u32,
    l4: ResolvedL4,
    peer: PeerView,
    now: u128,
)
    requires
        known(e, pkt, src, dst, l4),
        !conntrack::in_flow(e.flows, src, dst, l4, now),
    ensures
        engine::judged(e, direction, pkt, peer, now).0 == (match engine::ruling(
            e,
            direction,
            l4,
            peer,
        ) {
            FirewallAction::Allow => EvalView::Allow,
            FirewallAction::Deny => EvalView::Deny,
            FirewallAction::Reject => EvalView::Reject { reply: engine::reply_to(pkt) },
        }),
        engine::first_match(e.local, direction, l4, peer) matches Some(a) ==> engine::ruling(
            e,
            direction,
            l4,
            peer,
        ) == a,
{
}

/// Without rules, what is in no open flow is allowed if it goes out, if it
/// comes from an authenticated peer, or if it is ICMP echo; else it is denied.
pub proof fn law_defaults(
    e: EngineView,
    direction: PacketDirection,
    pkt: Packet<'_>,
    src: u32,
    dst: u32,
    l4: ResolvedL4,
    peer: PeerView,
    now: u128,
)
    requires
        known(e, pkt, src, dst, l4),
        !conntrack::in_flow(e.flows, src, dst, l4, now),
        e.local.len() == 0,
        e.suggested.len() == 0,
    ensures
        direction is Outbound || peer.endpoint is Some || engine::is_echo(l4) ==> engine::judged(
            e,
            direction,
            pkt,
            peer,
            now,
        ).0 is Allow,
        !(direction is Outbound || peer.endpoint is Some || engine::is_echo(l4))
            ==> engine::judged(e, direction, pkt, peer, now).0 is Deny,
{
}

/// A later fragment whose first fragment was not seen is denied, whatever the rules.
pub proof fn law_stray_fragment_is_denied(
    e: EngineView,
    direction: PacketDirection,
    pkt: Packet<'_>,
    peer: PeerView,
    now: u128,
)
    requires
        e.enabled,
        pkt.fragmentation is Later,
        fragments::datagram_of(pkt) matches Some(key) ==> !e.fragments.contains_key(key),
    ensures
        engine::judged(e, direction, pkt, peer, now).0 is Deny,
{
}

/// A later fragment cannot get past what its first fragment was refused by:
/// right after a first fragment that was not allowed, a later fragment of the
/// same datagram in the same direction and for the same peer is not allowed.
pub proof fn law_later_fragment_is_refused_with_the_first(
    e: EngineView,
    direction: PacketDirection,
    first: Packet<'_>,
    later: Packet<'_>,
    peer: PeerView,
    now: u128,
    then: u128,
)
    requires
        e.enabled,
        consistent(e),
        first.wf(),
        first.fragmentation is First,
        later.fragmentation is Later,
        fragments::datagram_of(first) is Some,
        fragments::datagram_of(later) == fragments::datagram_of(first),
        later.ip.source() == first.ip.source(),
        later.ip.destination() == first.ip.destination(),
        !(engine::judged(e, direction, first, peer, now).0 is Allow),
    ensures
        ({
            let f = engine::judged(e, direction, first, peer, now).1;
            !(engine::judged(f, direction, later, peer, then).0 is Allow)
        }),
{
    let f = engine::judged(e, direction, first, peer, now).1;
    let src = first.ip.source()->0;
    let dst = first.ip.destination()->0;
    let l4 = fragments::own_l4(first.protocol, first.transport);
    fragments::law_later_fragments_follow_the_first(e.fragments, first, later);
    assert(known(f, later, src, dst, l4));
    assert(first.protocol == protocol_of(first.bytes@[9]));
    let fwd = conntrack::forward_key(src, dst, l4);
    let rev = conntrack::reverse_key(src, dst, l4);
    if fwd is Some && rev is Some {
        let a = fwd->0.as_id();
        let b = rev->0.as_id();
        assert(b == conntrack::mirror(a));
        assert(e.flows.contains_key(a) && e.flows.contains_key(b) ==> a == b);
    }
    assert(!conntrack::in_flow(f.flows, src, dst, l4, then));
    assert(engine::ruling(f, direction, l4, peer) == engine::ruling(e, direction, l4, peer));
}

/// No flow of the firewall is tracked from both ends.
pub open spec fn consistent(e: EngineView) -> bool {
    conntrack::one_sided(e.flows)
}

/// Judging a packet and collecting expired flows keep flows tracked from one
/// end only; a firewall starts that way and is that way after a flush.
pub proof fn law_stays_consistent(
    e: EngineView,
    direction: PacketDirection,
    pkt: Packet<'_>,
    peer: PeerView,
    now: u128,
)
    requires
        consistent(e),
    ensures
        consistent(engine::judged(e, direction, pkt, peer, now).1),
        conntrack::one_sided(conntrack::unexpired(e.flows, now)),
        conntrack::one_sided(conntrack::no_flows()),
{
    match (
        pkt.ip.source(),
        pkt.ip.destination(),
        fragments::resolved(e.fragments, pkt),
    ) {
        (Some(src), Some(dst), Some(l4)) => {
            conntrack::law_flows_stay_one_sided(e.flows, direction, src, dst, l4, now);
        },
        _ => {
            conntrack::law_flows_stay_one_sided(
                e.flows,
                direction,
                0,
                0,
                fragments::own_l4(pkt.protocol, pkt.transport),
                now,
            );
        },
    }
}

/// After an allowed packet of a tracked protocol its flow is open.
proof fn lemma_allowed_is_tracked(
    e: EngineView,
    direction: PacketDirection,
    pkt: Packet<'_>,
    src: u32,
    dst: u32,
    l4: ResolvedL4,
    peer: PeerView,
    now: u128,
)
    requires
        consistent(e),
        known(e, pkt, src, dst, l4),
        conntrack::opening_phase(l4) is Some,
        engine::judged(e, direction, pkt, peer, now).0 is Allow,
    ensures
        ({
            let f = engine::judged(e, direction, pkt, peer, now).1;
            let k = conntrack::tracked_key(f.flows, src, dst, l4);
            &&& k matches Some(k) && f.flows.contains_key(k) && f.flows[k].last_seen == now
        }),
{
    let f = engine::judged(e, direction, pkt, peer, now).1;
    let fwd = conntrack::forward_key(src, dst, l4)->0.as_id();
    let rev = conntrack::reverse_key(src, dst, l4)->0.as_id();
    assert(rev == conntrack::mirror(fwd));
    assert(e.flows.contains_key(fwd) && e.flows.contains_key(rev) ==> fwd == rev);
    if conntrack::in_flow(e.flows, src, dst, l4, now) {
    } else {
        assert(f.flows.contains_key(fwd));
    }
}

/// Return traffic is allowed: once a packet of TCP, UDP or ICMP was allowed,
/// a packet the other way with the ports swapped belongs to the same flow,
/// and is allowed as long as that flow has not expired, whatever the rules
/// and whoever the peer.
pub proof fn law_return_traffic_is_allowed(
    e: EngineView,
    direction: PacketDirection,
    pkt: Packet<'_>,
    src: u32,
    dst: u32,
    l4: ResolvedL4,
    peer: PeerView,
    now: u128,
    back_direction: PacketDirection,
    back: Packet<'_>,
    back_l4: ResolvedL4,
    back_peer: PeerView,
    later: u128,
)
    requires
        consistent(e),
        known(e, pkt, src, dst, l4),
        conntrack::opening_phase(l4) is Some,
        engine::judged(e, direction, pkt, peer, now).0 is Allow,
        known(engine::judged(e, direction, pkt, peer, now).1, back, dst, src, back_l4),
        conntrack::is_reply(l4, back_l4),
    ensures
        ({
            let f = engine::judged(e, direction, pkt, peer, now).1;
            let k = conntrack::tracked_key(f.flows, src, dst, l4);
            &&& k is Some
            &&& f.flows[k->0].last_seen == now
            &&& conntrack::tracked_key(f.flows, dst, src, back_l4) == k
            &&& !conntrack::expired(f.flows[k->0], later) ==> engine::judged(
                f,
                back_direction,
                back,
                back_peer,
                later,
            ).0 is Allow
        }),
{
    lemma_allowed_is_tracked(e, direction, pkt, src, dst, l4, peer, now);
    law_stays_consistent(e, direction, pkt, peer, now);
    conntrack::law_replies_share_the_flow(src, dst, l4, back_l4);
    let f = engine::judged(e, direction, pkt, peer, now).1;
    let fwd = conntrack::forward_key(src, dst, l4)->0.as_id();
    let rev = conntrack::reverse_key(src, dst, l4)->0.as_id();
    assert(rev == conntrack::mirror(fwd));
    assert(f.flows.contains_key(fwd) && f.flows.contains_key(rev) ==> fwd == rev);
}

/// A flow that has expired allows nothing: its packet gets what the rules say,
/// and unless it is allowed the flow is forgotten.
pub proof fn law_expired_flow_is_forgotten(
    e: EngineView,
    direction: PacketDirection,
    pkt: Packet<'_>,
    src: u32,
    dst: u32,
    l4: ResolvedL4,
    peer: PeerView,
    now: u128,
    k: FlowId,
)
    requires
        known(e, pkt, src, dst, l4),
        conntrack::tracked_key(e.flows, src, dst, l4) == Some(k),
        conntrack::expired(e.flows[k], now),
    ensures
        engine::judged(e, direction, pkt, peer, now).0 is Allow <==> engine::ruling(
            e,
            direction,
            l4,
            peer,
        ) is Allow,
        !(engine::ruling(e, direction, l4, peer) is Allow) ==> engine::judged(
            e,
            direction,
            pkt,
            peer,
            now,
        ).1.flows == e.flows.remove(k),
{
}

} // verus!
