//! The stateful firewall: open flows, local rules, suggested rules, defaults.
//!
//! Outbound packets and inbound packets of an authenticated mesh peer are
//! allowed by default. Of other inbound packets only ICMP echo is.
use std::time::Instant;
use vstd::prelude::*;
use super::config;
use super::config::{
    clone_rules, ConfigView, FirewallAction, FirewallConfig, FirewallDirection, FirewallRule,
    PeerFilter, PeerFilterView, RuleView,
};
use super::conntrack;
use super::conntrack::{Conntrack, FlowId, FlowState, PacketDirection};
use crate::ids;
use crate::packet::fragments;
use crate::packet::fragments::{FragmentTable, ResolvedL4};
use crate::packet::reject;
use crate::packet::Packet;
use crate::policy::{PortRange, Protocol};
use crate::text;

verus! {

/// What becomes of a packet.
#[derive(Debug)]
pub enum EvalResult {
    Allow,
    Deny,
    /// The packet is refused, and `reply` goes back to the local stack: a TCP
    /// reset or an ICMP unreachable, or nothing where neither is due.
    Reject { reply: Vec<u8> },
}

pub enum EvalView {
    Allow,
    Deny,
    Reject { reply: Seq<u8> },
}

impl View for EvalResult {
    type V = EvalView;

    open spec fn view(&self) -> EvalView {
        match *self {
            EvalResult::Allow => EvalView::Allow,
            EvalResult::Deny => EvalView::Deny,
            EvalResult::Reject { reply } => EvalView::Reject { reply: reply@ },
        }
    }
}

#[derive(Debug, Clone, Copy, PartialEq, Eq, Structural)]
pub struct FirewallStats {
    pub conntrack_entries: usize,
    pub local_rules: usize,
    pub suggested_rules: usize,
    pub enabled: bool,
    pub version: u64,
    pub packets_allowed: u64,
    pub packets_denied: u64,
    pub packets_rejected: u64,
}

/// What is known of the mesh peer at the other end.
pub struct PeerView {
    pub endpoint: Option<Seq<char>>,
    pub hostname: Option<Seq<char>>,
    pub network: Option<u128>,
}

/// The state of a firewall.
pub struct EngineView {
    pub enabled: bool,
    pub local: Seq<RuleView>,
    pub suggested: Seq<RuleView>,
    pub version: u64,
    pub flows: Map<FlowId, FlowState>,
    pub fragments: Map<u128, ResolvedL4>,
    pub allowed: u64,
    pub denied: u64,
    pub rejected: u64,
    pub self_ip: u32,
    /// The latest time that was read off the clock, in nanoseconds since the start.
    pub clock: u128,
}

/// Names are compared without regard to the case of letters; a network also
/// by the UUID that its text denotes.
pub open spec fn peer_meets(filter: PeerFilterView, peer: PeerView) -> bool {
    match filter {
        PeerFilterView::Any => true,
        PeerFilterView::Endpoint(id) => match peer.endpoint {
            Some(h) => text::same_ignoring_case(h, id),
            None => false,
        },
        PeerFilterView::Hostname(name) => match peer.hostname {
            Some(n) => text::same_ignoring_case(n, name),
            None => false,
        },
        PeerFilterView::NetworkId(n) => match peer.network {
            Some(id) => text::same_ignoring_case(ids::uuid_text(id), n) || ids::uuid_value(n)
                == Some(id),
            None => false,
        },
    }
}

/// No ports stand for any; ICMP has none; else the destination is in one of the ranges.
pub open spec fn ports_meet(ports: Seq<PortRange>, l4: ResolvedL4) -> bool {
    ||| ports.len() == 0
    ||| l4.protocol.icmp()
    ||| match l4.dst_port {
        Some(port) => exists|i: int| 0 <= i < ports.len() && (#[trigger] ports[i]).holds(port),
        None => false,
    }
}

pub open spec fn rule_direction(direction: PacketDirection) -> FirewallDirection {
    match direction {
        PacketDirection::Inbound => FirewallDirection::In,
        PacketDirection::Outbound => FirewallDirection::Out,
    }
}

pub open spec fn rule_meets(
    rule: RuleView,
    direction: PacketDirection,
    l4: ResolvedL4,
    peer: PeerView,
) -> bool {
    &&& rule.direction == rule_direction(direction)
    &&& l4.protocol.meets(Some(rule.protocol))
    &&& ports_meet(rule.ports, l4)
    &&& peer_meets(rule.peer, peer)
}

/// The action of the first rule that a packet meets.
pub open spec fn first_match(
    rules: Seq<RuleView>,
    direction: PacketDirection,
    l4: ResolvedL4,
    peer: PeerView,
) -> Option<FirewallAction>
    decreases rules.len(),
{
    if rules.len() == 0 {
        None
    } else if rule_meets(rules[0], direction, l4, peer) {
        Some(rules[0].action)
    } else {
        first_match(rules.drop_first(), direction, l4, peer)
    }
}

/// ICMP echo, asked or answered.
pub open spec fn is_echo(l4: ResolvedL4) -> bool {
    l4.protocol is Icmp && (l4.icmp_type == Some(0u8) || l4.icmp_type == Some(8u8))
}

/// What happens to a packet that no rule speaks of.
pub open spec fn default_action(
    direction: PacketDirection,
    l4: ResolvedL4,
    peer: PeerView,
) -> FirewallAction {
    if direction is Outbound || peer.endpoint is Some || is_echo(l4) {
        FirewallAction::Allow
    } else {
        FirewallAction::Deny
    }
}

/// Local rules come before suggested ones, and these before the default.
pub open spec fn ruling(
    e: EngineView,
    direction: PacketDirection,
    l4: ResolvedL4,
    peer: PeerView,
) -> FirewallAction {
    match first_match(e.local, direction, l4, peer) {
        Some(action) => action,
        None => match first_match(e.suggested, direction, l4, peer) {
            Some(action) => action,
            None => default_action(direction, l4, peer),
        },
    }
}

/// A counter that starts again at zero after its last value.
pub open spec fn counted(n: u64) -> u64 {
    if n == u64::MAX {
        0
    } else {
        (n + 1) as u64
    }
}

pub open spec fn reply_to(pkt: Packet<'_>) -> Seq<u8> {
    match reject::reject_reply(pkt) {
        Some(reply) => reply,
        None => Seq::empty(),
    }
}

/// By how much the number of tracked flows can grow with one packet: by one if
/// the packet is allowed, else not at all.
pub open spec fn newly_tracked(verdict: EvalView) -> nat {
    if verdict is Allow {
        1
    } else {
        0
    }
}

/// What becomes of a packet that is in no open flow.
pub open spec fn applied(
    e: EngineView,
    action: FirewallAction,
    pkt: Packet<'_>,
    src: u32,
    dst: u32,
    l4: ResolvedL4,
    now: u128,
) -> (EvalView, EngineView) {
    match action {
        FirewallAction::Allow => (
            EvalView::Allow,
            EngineView {
                flows: conntrack::opened(e.flows, src, dst, l4, now),
                allowed: counted(e.allowed),
                ..e
            },
        ),
        FirewallAction::Deny => (EvalView::Deny, EngineView { denied: counted(e.denied), ..e }),
        FirewallAction::Reject => (
            EvalView::Reject { reply: reply_to(pkt) },
            EngineView { rejected: counted(e.rejected), ..e },
        ),
    }
}

/// What becomes of an IPv4 packet whose transport layer is known.
pub open spec fn judged_l4(
    e: EngineView,
    direction: PacketDirection,
    pkt: Packet<'_>,
    src: u32,
    dst: u32,
    l4: ResolvedL4,
    peer: PeerView,
    now: u128,
) -> (EvalView, EngineView) {
    let seen = EngineView {
        flows: conntrack::looked_up(e.flows, direction, src, dst, l4, now),
        ..e
    };
    if conntrack::in_flow(e.flows, src, dst, l4, now) {
        (EvalView::Allow, EngineView { allowed: counted(e.allowed), ..seen })
    } else {
        applied(seen, ruling(e, direction, l4, peer), pkt, src, dst, l4, now)
    }
}

/// What becomes of a packet at a time, and of the firewall.
pub open spec fn judged(
    e: EngineView,
    direction: PacketDirection,
    pkt: Packet<'_>,
    peer: PeerView,
    now: u128,
) -> (EvalView, EngineView) {
    if !e.enabled {
        (EvalView::Allow, EngineView { allowed: counted(e.allowed), ..e })
    } else {
        match (pkt.ip.source(), pkt.ip.destination()) {
            (Some(src), Some(dst)) => {
                let resolved = EngineView {
                    fragments: fragments::seen_after(e.fragments, pkt),
                    ..e
                };
                match fragments::resolved(e.fragments, pkt) {
                    Some(l4) => judged_l4(resolved, direction, pkt, src, dst, l4, peer, now),
                    None => (
                        EvalView::Deny,
                        EngineView { denied: counted(e.denied), ..resolved },
                    ),
                }
            },
            _ => (EvalView::Deny, EngineView { denied: counted(e.denied), ..e }),
        }
    }
}

/// A firewall with the rules of a configuration and no open flow.
pub open spec fn configured(cfg: ConfigView, self_ip: u32) -> EngineView {
    EngineView {
        enabled: cfg.enabled,
        local: cfg.rules,
        suggested: Seq::empty(),
        version: cfg.version,
        flows: Map::empty(),
        fragments: Map::empty(),
        allowed: 0,
        denied: 0,
        rejected: 0,
        self_ip,
        clock: 0,
    }
}

/// A firewall with other local rules.
pub open spec fn reloaded(e: EngineView, cfg: ConfigView) -> EngineView {
    EngineView { enabled: cfg.enabled, local: cfg.rules, version: cfg.version, ..e }
}

/// A firewall with other suggested rules.
pub open spec fn suggested(e: EngineView, rules: Seq<RuleView>) -> EngineView {
    EngineView { suggested: rules, ..e }
}

/// A firewall without open flows and first fragments.
pub open spec fn flushed(e: EngineView) -> EngineView {
    EngineView { flows: Map::empty(), fragments: Map::empty(), ..e }
}

/// A point on the monotonic clock of the machine.
#[verifier::external_type_specification]
#[verifier::external_body]
pub struct ExInstant(Instant);

/// `Instant::now`: the present. Nothing is promised of which it is.
#[verifier::external_body]
fn clock_now() -> (r: Instant) {
    Instant::now()
}

/// `Instant::elapsed` in nanoseconds. Nothing is promised of how many.
#[verifier::external_body]
fn nanos_since(start: &Instant) -> (r: u128) {
    start.elapsed().as_nanos()
}

fn peer_matches(
    filter: &PeerFilter,
    peer_hex: Option<&str>,
    peer_hostname: Option<&str>,
    network_id: Option<u128>,
) -> (r: bool)
    ensures
        r == peer_meets(filter@, peer_view(peer_hex, peer_hostname, network_id)),
{
    match filter {
        PeerFilter::Any => true,
        PeerFilter::Endpoint(id) => match peer_hex {
            Some(h) => text::eq_ignore_case(h, id.as_str()),
            None => false,
        },
        PeerFilter::Hostname(name) => match peer_hostname {
            Some(n) => text::eq_ignore_case(n, name.as_str()),
            None => false,
        },
        PeerFilter::NetworkId(n) => {
            let id = match network_id {
                Some(id) => id,
                None => {
                    return false;
                },
            };
            let shown = ids::format_uuid(id);
            if text::eq_ignore_case(shown.as_str(), n.as_str()) {
                return true;
            }
            match ids::parse_uuid(n.as_str()) {
                Some(parsed) => parsed == id,
                None => false,
            }
        },
    }
}

pub open spec fn peer_view(
    peer_hex: Option<&str>,
    peer_hostname: Option<&str>,
    network_id: Option<u128>,
) -> PeerView {
    PeerView {
        endpoint: text::opt_view(peer_hex),
        hostname: text::opt_view(peer_hostname),
        network: network_id,
    }
}

fn any_range_contains(ports: &Vec<PortRange>, port: u16) -> (r: bool)
    ensures
        r == exists|i: int| 0 <= i < ports@.len() && (#[trigger] ports@[i]).holds(port),
{
    let mut i: usize = 0;
    while i < ports.len()
        invariant
            i <= ports@.len(),
            forall|k: int| 0 <= k < i ==> !(#[trigger] ports@[k]).holds(port),
        decreases ports@.len() - i,
    {
        if ports[i].contains(port) {
            assert(ports@[i as int].holds(port));
            return true;
        }
        i = i + 1;
    }
    false
}

fn ports_match(ports: &Vec<PortRange>, l4: ResolvedL4) -> (r: bool)
    ensures
        r == ports_meet(ports@, l4),
{
    if ports.len() == 0 || l4.protocol.is_icmp() {
        return true;
    }
    match l4.dst_port {
        Some(port) => any_range_contains(ports, port),
        None => false,
    }
}

fn match_rules(
    rules: &Vec<FirewallRule>,
    direction: PacketDirection,
    l4: ResolvedL4,
    peer_hex: Option<&str>,
    peer_hostname: Option<&str>,
    network_id: Option<u128>,
) -> (r: Option<FirewallAction>)
    ensures
        r == first_match(
            config::rules_view(rules@),
            direction,
            l4,
            peer_view(peer_hex, peer_hostname, network_id),
        ),
{
    let want = match direction {
        PacketDirection::Inbound => FirewallDirection::In,
        PacketDirection::Outbound => FirewallDirection::Out,
    };
    let ghost peer = peer_view(peer_hex, peer_hostname, network_id);
    let ghost all = config::rules_view(rules@);
    let mut i: usize = 0;
    assert(all.skip(0) =~= all);
    while i < rules.len()
        invariant
            i <= rules@.len(),
            all == config::rules_view(rules@),
            peer == peer_view(peer_hex, peer_hostname, network_id),
            want == rule_direction(direction),
            first_match(all, direction, l4, peer) == first_match(
                all.skip(i as int),
                direction,
                l4,
                peer,
            ),
        decreases rules@.len() - i,
    {
        let rule = &rules[i];
        assert(all.skip(i as int)[0] == rule@);
        assert(all.skip(i as int).drop_first() =~= all.skip(i + 1));
        if rule.direction == want && l4.protocol.matches_rule(Some(rule.protocol)) && ports_match(
            &rule.ports,
            l4,
        ) && peer_matches(&rule.peer, peer_hex, peer_hostname, network_id) {
            return Some(rule.action);
        }
        i = i + 1;
    }
    None
}

fn default_policy(
    direction: PacketDirection,
    l4: ResolvedL4,
    peer_endpoint_hex: Option<&str>,
) -> (r: FirewallAction)
    ensures
        r == default_action(direction, l4, peer_view(peer_endpoint_hex, None, None)),
{
    match direction {
        PacketDirection::Outbound => FirewallAction::Allow,
        PacketDirection::Inbound => {
            if peer_endpoint_hex.is_some() {
                return FirewallAction::Allow;
            }
            if l4.protocol == Protocol::Icmp && matches!(l4.icmp_type, Some(0) | Some(8)) {
                FirewallAction::Allow
            } else {
                FirewallAction::Deny
            }
        },
    }
}

fn count(n: u64) -> (r: u64)
    ensures
        r == counted(n),
{
    if n == u64::MAX {
        0
    } else {
        n + 1
    }
}

/// The firewall of one node.
pub struct FirewallEngine {
    enabled: bool,
    local_rules: Vec<FirewallRule>,
    suggested_rules: Vec<FirewallRule>,
    version: u64,
    conntrack: Conntrack,
    fragments: FragmentTable,
    allowed: u64,
    denied: u64,
    rejected: u64,
    self_ip: u32,
    started: Instant,
    clock: u128,
}

impl View for FirewallEngine {
    type V = EngineView;

    closed spec fn view(&self) -> EngineView {
        EngineView {
            enabled: self.enabled,
            local: config::rules_view(self.local_rules@),
            suggested: config::rules_view(self.suggested_rules@),
            version: self.version,
            flows: self.conntrack@,
            fragments: self.fragments@,
            allowed: self.allowed,
            denied: self.denied,
            rejected: self.rejected,
            self_ip: self.self_ip,
            clock: self.clock,
        }
    }
}

impl FirewallEngine {
    /// A firewall with the rules of `cfg` and no open flow.
    pub fn from_config(
        cfg: &FirewallConfig,
        self_ip: u32,
        _self_endpoint_hex: String,
    ) -> (r: Self)
        ensures
            r@ == (EngineView {
                enabled: cfg@.enabled,
                local: cfg@.rules,
                suggested: Seq::empty(),
                version: cfg@.version,
                flows: Map::empty(),
                fragments: Map::empty(),
                allowed: 0,
                denied: 0,
                rejected: 0,
                self_ip,
                clock: 0,
            }),
            r@ == configured(cfg@, self_ip),
    {
        let r = FirewallEngine {
            enabled: cfg.enabled,
            local_rules: clone_rules(&cfg.rules),
            suggested_rules: Vec::new(),
            version: cfg.version,
            conntrack: Conntrack::new(),
            fragments: FragmentTable::new(),
            allowed: 0,
            denied: 0,
            rejected: 0,
            self_ip,
            started: clock_now(),
            clock: 0,
        };
        assert(r@.suggested =~= Seq::empty());
        r
    }

    /// Takes over the local rules of `cfg`; open flows stay open.
    pub fn reload_local(&mut self, cfg: &FirewallConfig)
        ensures
            final(self)@ == (EngineView {
                enabled: cfg@.enabled,
                local: cfg@.rules,
                version: cfg@.version,
                ..old(self)@
            }),
            final(self)@ == reloaded(old(self)@, cfg@),
    {
        self.enabled = cfg.enabled;
        self.local_rules = clone_rules(&cfg.rules);
        self.version = cfg.version;
    }

    /// Takes over suggested rules in place of the ones before.
    pub fn set_suggested(&mut self, rules: Vec<FirewallRule>)
        ensures
            final(self)@ == (EngineView {
                suggested: config::rules_view(rules@),
                ..old(self)@
            }),
            final(self)@ == suggested(old(self)@, config::rules_view(rules@)),
    {
        self.suggested_rules = rules;
    }

    pub fn clear_suggested(&mut self)
        ensures
            final(self)@ == (EngineView { suggested: Seq::empty(), ..old(self)@ }),
            final(self)@ == suggested(old(self)@, Seq::empty()),
    {
        self.suggested_rules = Vec::new();
        assert(self@.suggested =~= Seq::empty());
    }

    /// Forgets open flows and first fragments.
    pub fn flush_conntrack(&mut self)
        ensures
            final(self)@ == (EngineView {
                flows: Map::empty(),
                fragments: Map::empty(),
                ..old(self)@
            }),
            final(self)@ == flushed(old(self)@),
    {
        self.conntrack.clear();
        self.fragments.clear();
    }

    pub fn set_self_ip(&mut self, ip: u32)
        ensures
            final(self)@ == (EngineView { self_ip: ip, ..old(self)@ }),
    {
        self.self_ip = ip;
    }

    pub fn stats(&self) -> (r: FirewallStats)
        ensures
            r.conntrack_entries == self@.flows.len(),
            r.local_rules == self@.local.len(),
            r.suggested_rules == self@.suggested.len(),
            r.enabled == self@.enabled,
            r.version == self@.version,
            r.packets_allowed == self@.allowed,
            r.packets_denied == self@.denied,
            r.packets_rejected == self@.rejected,
    {
        FirewallStats {
            conntrack_entries: self.conntrack.len(),
            local_rules: self.local_rules.len(),
            suggested_rules: self.suggested_rules.len(),
            enabled: self.enabled,
            version: self.version,
            packets_allowed: self.allowed,
            packets_denied: self.denied,
            packets_rejected: self.rejected,
        }
    }

    pub fn local_rules_snapshot(&self) -> (r: Vec<FirewallRule>)
        ensures
            config::rules_view(r@) == self@.local,
    {
        clone_rules(&self.local_rules)
    }

    pub fn suggested_rules_snapshot(&self) -> (r: Vec<FirewallRule>)
        ensures
            config::rules_view(r@) == self@.suggested,
    {
        clone_rules(&self.suggested_rules)
    }

    /// Forgets the flows that have expired at `now`.
    pub fn collect_expired_at(&mut self, now: u128)
        ensures
            final(self)@ == (EngineView {
                flows: conntrack::unexpired(old(self)@.flows, now),
                ..old(self)@
            }),
    {
        self.conntrack.collect_expired(now);
    }

    /// Reads the clock, which never goes back.
    fn read_clock(&mut self) -> (r: u128)
        ensures
            r >= old(self)@.clock,
            final(self)@ == (EngineView { clock: r, ..old(self)@ }),
    {
        let elapsed = nanos_since(&self.started);
        if elapsed > self.clock {
            self.clock = elapsed;
        }
        self.clock
    }

    /// Forgets the flows that have expired by the time that the clock shows.
    pub fn collect_expired(&mut self)
        ensures
            final(self)@.clock >= old(self)@.clock,
            final(self)@ == (EngineView {
                flows: conntrack::unexpired(old(self)@.flows, final(self)@.clock),
                clock: final(self)@.clock,
                ..old(self)@
            }),
    {
        let now = self.read_clock();
        self.collect_expired_at(now);
    }

    fn apply_action(
        &mut self,
        action: FirewallAction,
        packet: &Packet<'_>,
        src: u32,
        dst: u32,
        l4: ResolvedL4,
        now: u128,
    ) -> (r: EvalResult)
        requires
            packet.wf(),
        ensures
            (r@, final(self)@) == applied(old(self)@, action, *packet, src, dst, l4, now),
            final(self)@.flows.len() <= old(self)@.flows.len() + newly_tracked(r@),
    {
        match action {
            FirewallAction::Allow => {
                self.conntrack.open_or_refresh_flow(src, dst, l4, now);
                self.allowed = count(self.allowed);
                EvalResult::Allow
            },
            FirewallAction::Deny => {
                self.denied = count(self.denied);
                EvalResult::Deny
            },
            FirewallAction::Reject => {
                self.rejected = count(self.rejected);
                let reply = match reject::synthesize_reject(packet) {
                    Some(reply) => reply,
                    None => Vec::new(),
                };
                assert(reply@ =~= reply_to(*packet));
                EvalResult::Reject { reply }
            },
        }
    }

    /// What becomes of a packet at `now`, in nanoseconds on a monotonic clock.
    /// The remote mesh peer is known by its endpoint, its hostname and its
    /// network, as far as these are given.
    pub fn evaluate_at(
        &mut self,
        now: u128,
        direction: PacketDirection,
        packet: &Packet<'_>,
        peer_endpoint_hex: Option<&str>,
        peer_hostname: Option<&str>,
        network_id: Option<u128>,
    ) -> (r: EvalResult)
        requires
            packet.wf(),
        ensures
            (r@, final(self)@) == judged(
                old(self)@,
                direction,
                *packet,
                peer_view(peer_endpoint_hex, peer_hostname, network_id),
                now,
            ),
            final(self)@.flows.len() <= old(self)@.flows.len() + newly_tracked(r@),
    {
        if !self.enabled {
            self.allowed = count(self.allowed);
            return EvalResult::Allow;
        }
        let src = match packet.ip.v4_src() {
            Some(src) => src,
            None => {
                self.denied = count(self.denied);
                return EvalResult::Deny;
            },
        };
        let dst = match packet.ip.v4_dst() {
            Some(dst) => dst,
            None => {
                self.denied = count(self.denied);
                return EvalResult::Deny;
            },
        };
        let l4 = match self.fragments.resolve(packet) {
            Some(l4) => l4,
            None => {
                self.denied = count(self.denied);
                return EvalResult::Deny;
            },
        };
        if self.conntrack.conntrack_allows(direction, src, dst, l4, now) {
            self.allowed = count(self.allowed);
            return EvalResult::Allow;
        }
        let matched = match match_rules(
            &self.local_rules,
            direction,
            l4,
            peer_endpoint_hex,
            peer_hostname,
            network_id,
        ) {
            Some(action) => Some(action),
            None => match_rules(
                &self.suggested_rules,
                direction,
                l4,
                peer_endpoint_hex,
                peer_hostname,
                network_id,
            ),
        };
        let action = match matched {
            Some(action) => action,
            None => default_policy(direction, l4, peer_endpoint_hex),
        };
        self.apply_action(action, packet, src, dst, l4, now)
    }

    /// What becomes of a packet at the time that the clock shows.
    pub fn evaluate(
        &mut self,
        direction: PacketDirection,
        packet: &Packet<'_>,
        peer_endpoint_hex: Option<&str>,
        peer_hostname: Option<&str>,
        network_id: Option<u128>,
    ) -> (r: EvalResult)
        requires
            packet.wf(),
        ensures
            final(self)@.clock >= old(self)@.clock,
            (r@, final(self)@) == judged(
                (EngineView { clock: final(self)@.clock, ..old(self)@ }),
                direction,
                *packet,
                peer_view(peer_endpoint_hex, peer_hostname, network_id),
                final(self)@.clock,
            ),
            final(self)@.flows.len() <= old(self)@.flows.len() + newly_tracked(r@),
    {
        let now = self.read_clock();
        self.evaluate_at(now, direction, packet, peer_endpoint_hex, peer_hostname, network_id)
    }
}

/// What the firewall is told of a peer is what it knows of the peer.
pub proof fn law_peer_is_what_is_given(
    endpoint: &str,
    hostname: &str,
    network: Option<u128>,
)
    ensures
        peer_view(Some(endpoint), Some(hostname), network).endpoint == Some(endpoint@),
        peer_view(Some(endpoint), Some(hostname), network).hostname == Some(hostname@),
        peer_view(Some(endpoint), Some(hostname), network).network == network,
        peer_view(None, Some(hostname), network).endpoint is None,
        peer_view(None, Some(hostname), network).hostname == Some(hostname@),
        peer_view(Some(endpoint), None, network).hostname is None,
        peer_view(Some(endpoint), None, network).endpoint == Some(endpoint@),
{
}

/// What a verdict shows is the verdict.
pub proof fn law_verdicts_show_what_they_are(r: EvalResult)
    ensures
        match r {
            EvalResult::Allow => r@ is Allow,
            EvalResult::Deny => r@ is Deny,
            EvalResult::Reject { reply } => r@ == (EvalView::Reject { reply: reply@ }),
        },
{
}

} // verus!
