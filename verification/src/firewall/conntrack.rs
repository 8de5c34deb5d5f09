//! Connection tracking: which flows are open, and in which phase.
use dashmap::DashMap;
use vstd::prelude::*;
use crate::packet::{TcpFlags, TCP_ACK, TCP_FIN, TCP_RST, TCP_SYN};
use crate::packet::fragments::ResolvedL4;
use crate::policy::Protocol;

verus! {

/// Nanoseconds after which an idle TCP flow is forgotten.
pub const TCP_ACTIVE_TTL: u128 = 300_000_000_000;

/// Nanoseconds after which a closed TCP flow is forgotten.
pub const TCP_TIME_WAIT_TTL: u128 = 10_000_000_000;

/// Nanoseconds after which an idle UDP flow is forgotten.
pub const UDP_TTL: u128 = 30_000_000_000;

/// Nanoseconds after which an ICMP exchange is forgotten.
pub const ICMP_TTL: u128 = 10_000_000_000;

#[derive(Debug, Clone, Copy, PartialEq, Eq, Structural)]
pub enum PacketDirection {
    Inbound,
    Outbound,
}

/// A flow as its first packet showed it.
#[derive(Debug, Clone, Copy, PartialEq, Eq, Structural)]
pub struct FlowKey {
    pub proto: u8,
    pub src: u32,
    pub sport: u16,
    pub dst: u32,
    pub dport: u16,
}

/// A flow key as the table holds it: protocol, source, source port,
/// destination, destination port.
pub type FlowId = (u8, u32, u16, u32, u16);

pub open spec fn or_zero(port: Option<u16>) -> u16 {
    match port {
        Some(p) => p,
        None => 0,
    }
}

/// The key of the flow that a packet opens. ICMP exchanges have one key for
/// both directions: the smaller address first, the identifier as the port.
pub open spec fn forward_key(src: u32, dst: u32, l4: ResolvedL4) -> Option<FlowKey> {
    match l4.protocol.number() {
        None => None,
        Some(proto) => if l4.protocol.icmp() {
            Some(
                FlowKey {
                    proto,
                    src: if src <= dst {
                        src
                    } else {
                        dst
                    },
                    sport: or_zero(l4.icmp_id),
                    dst: if src <= dst {
                        dst
                    } else {
                        src
                    },
                    dport: 0,
                },
            )
        } else {
            Some(
                FlowKey {
                    proto,
                    src,
                    sport: or_zero(l4.src_port),
                    dst,
                    dport: or_zero(l4.dst_port),
                },
            )
        },
    }
}

/// The key of the flow that a packet replies to.
pub open spec fn reverse_key(src: u32, dst: u32, l4: ResolvedL4) -> Option<FlowKey> {
    if l4.protocol.icmp() {
        forward_key(src, dst, l4)
    } else {
        match l4.protocol.number() {
            None => None,
            Some(proto) => Some(
                FlowKey {
                    proto,
                    src: dst,
                    sport: or_zero(l4.dst_port),
                    dst: src,
                    dport: or_zero(l4.src_port),
                },
            ),
        }
    }
}

impl FlowKey {
    pub open spec fn as_id(self) -> FlowId {
        (self.proto, self.src, self.sport, self.dst, self.dport)
    }

    fn id(self) -> (r: FlowId)
        ensures
            r == self.as_id(),
    {
        (self.proto, self.src, self.sport, self.dst, self.dport)
    }

    /// The key of the flow that a packet opens; none without an IP protocol number.
    pub fn forward(src: u32, dst: u32, l4: ResolvedL4) -> (r: Option<FlowKey>)
        ensures
            r == forward_key(src, dst, l4),
    {
        let proto = match l4.protocol.ip_number() {
            Some(n) => n,
            None => {
                return None;
            },
        };
        if l4.protocol.is_icmp() {
            let (low, high) = if src <= dst {
                (src, dst)
            } else {
                (dst, src)
            };
            Some(
                FlowKey {
                    proto,
                    src: low,
                    sport: l4.icmp_id.unwrap_or(0),
                    dst: high,
                    dport: 0,
                },
            )
        } else {
            Some(
                FlowKey {
                    proto,
                    src,
                    sport: l4.src_port.unwrap_or(0),
                    dst,
                    dport: l4.dst_port.unwrap_or(0),
                },
            )
        }
    }

    /// The key of the flow that a packet replies to; none without an IP protocol number.
    pub fn reverse(src: u32, dst: u32, l4: ResolvedL4) -> (r: Option<FlowKey>)
        ensures
            r == reverse_key(src, dst, l4),
    {
        if l4.protocol.is_icmp() {
            FlowKey::forward(src, dst, l4)
        } else {
            match l4.protocol.ip_number() {
                Some(proto) => Some(
                    FlowKey {
                        proto,
                        src: dst,
                        sport: l4.dst_port.unwrap_or(0),
                        dst: src,
                        dport: l4.src_port.unwrap_or(0),
                    },
                ),
                None => None,
            }
        }
    }
}

#[derive(Debug, Clone, Copy, PartialEq, Eq, Structural)]
pub enum TcpPhase {
    SynSent,
    Established,
    TimeWait,
}

#[derive(Debug, Clone, Copy, PartialEq, Eq, Structural)]
pub enum FlowPhase {
    Tcp(TcpPhase),
    Udp,
    Icmp,
}

#[derive(Debug, Clone, Copy, PartialEq, Eq, Structural)]
pub struct FlowState {
    pub phase: FlowPhase,
    /// Nanoseconds on a monotonic clock.
    pub last_seen: u128,
}

/// How long a flow in this phase lives without a packet.
pub open spec fn ttl(phase: FlowPhase) -> u128 {
    match phase {
        FlowPhase::Tcp(TcpPhase::TimeWait) => TCP_TIME_WAIT_TTL,
        FlowPhase::Tcp(_) => TCP_ACTIVE_TTL,
        FlowPhase::Udp => UDP_TTL,
        FlowPhase::Icmp => ICMP_TTL,
    }
}

/// More time has passed since the last packet than the phase allows.
pub open spec fn expired(st: FlowState, now: u128) -> bool {
    now - st.last_seen > ttl(st.phase)
}

/// Whether more time has passed since the last packet than the phase allows.
pub fn is_expired(st: &FlowState, now: u128) -> (r: bool)
    ensures
        r == expired(*st, now),
{
    let limit = match st.phase {
        FlowPhase::Tcp(TcpPhase::TimeWait) => TCP_TIME_WAIT_TTL,
        FlowPhase::Tcp(_) => TCP_ACTIVE_TTL,
        FlowPhase::Udp => UDP_TTL,
        FlowPhase::Icmp => ICMP_TTL,
    };
    now > st.last_seen && now - st.last_seen > limit
}

/// The control bits of a packet; none of them where it is not TCP.
pub open spec fn flags_of(l4: ResolvedL4) -> TcpFlags {
    match l4.tcp_flags {
        Some(f) => f,
        None => TcpFlags(0),
    }
}

/// The packet closes its connection.
pub open spec fn closes(f: TcpFlags) -> bool {
    f.has(TCP_RST) || f.has(TCP_FIN)
}

/// The phase of a tracked flow after one of its packets.
pub open spec fn phase_after(
    phase: FlowPhase,
    direction: PacketDirection,
    f: TcpFlags,
) -> FlowPhase {
    match phase {
        FlowPhase::Tcp(TcpPhase::SynSent) => {
            if direction is Inbound || f.has(TCP_ACK) || f.has(TCP_RST) {
                if closes(f) {
                    FlowPhase::Tcp(TcpPhase::TimeWait)
                } else {
                    FlowPhase::Tcp(TcpPhase::Established)
                }
            } else {
                phase
            }
        },
        FlowPhase::Tcp(TcpPhase::Established) => {
            if closes(f) {
                FlowPhase::Tcp(TcpPhase::TimeWait)
            } else {
                phase
            }
        },
        _ => phase,
    }
}

/// The phase in which a packet opens a flow; none where its protocol has no flows.
pub open spec fn opening_phase(l4: ResolvedL4) -> Option<FlowPhase> {
    let f = flags_of(l4);
    match l4.protocol {
        Protocol::Tcp => if f.has(TCP_SYN) && !f.has(TCP_ACK) {
            Some(FlowPhase::Tcp(TcpPhase::SynSent))
        } else if closes(f) {
            Some(FlowPhase::Tcp(TcpPhase::TimeWait))
        } else {
            Some(FlowPhase::Tcp(TcpPhase::Established))
        },
        Protocol::Udp => Some(FlowPhase::Udp),
        Protocol::Icmp => Some(FlowPhase::Icmp),
        Protocol::Icmpv6 => Some(FlowPhase::Icmp),
        _ => None,
    }
}

/// A flow that is in the table already, after a packet that would open it as
/// `fresh`: seen now, and further on in its life if `fresh` is.
pub open spec fn refreshed(st: FlowState, fresh: FlowState) -> FlowState {
    FlowState {
        phase: if st.phase == FlowPhase::Tcp(TcpPhase::SynSent) && fresh.phase == FlowPhase::Tcp(
            TcpPhase::Established,
        ) || fresh.phase == FlowPhase::Tcp(TcpPhase::TimeWait) {
            fresh.phase
        } else {
            st.phase
        },
        last_seen: fresh.last_seen,
    }
}

impl FlowState {
    /// Whether the flow is still remembered at `now`.
    pub fn is_live(&self, now: u128) -> (r: bool)
        ensures
            r == !expired(*self, now),
    {
        !is_expired(self, now)
    }

    /// Takes over what a packet shows that would open this flow as `fresh`.
    pub fn refresh(&mut self, fresh: FlowState)
        ensures
            *final(self) == refreshed(*old(self), fresh),
    {
        self.last_seen = fresh.last_seen;
        if matches!(self.phase, FlowPhase::Tcp(TcpPhase::SynSent)) && matches!(
            fresh.phase,
            FlowPhase::Tcp(TcpPhase::Established)
        ) {
            self.phase = fresh.phase;
        }
        if matches!(fresh.phase, FlowPhase::Tcp(TcpPhase::TimeWait)) {
            self.phase = fresh.phase;
        }
    }

    fn advance(&mut self, direction: PacketDirection, f: TcpFlags)
        ensures
            final(self).phase == phase_after(old(self).phase, direction, f),
            final(self).last_seen == old(self).last_seen,
    {
        match self.phase {
            FlowPhase::Tcp(TcpPhase::SynSent) => {
                if direction == PacketDirection::Inbound || f.ack() || f.rst() {
                    if f.rst() || f.fin() {
                        self.phase = FlowPhase::Tcp(TcpPhase::TimeWait);
                    } else {
                        self.phase = FlowPhase::Tcp(TcpPhase::Established);
                    }
                }
            },
            FlowPhase::Tcp(TcpPhase::Established) => {
                if f.rst() || f.fin() {
                    self.phase = FlowPhase::Tcp(TcpPhase::TimeWait);
                }
            },
            _ => {},
        }
    }
}

/// The table type of `dashmap`: a map that is locked shard by shard. It is
/// only ever written to here through an exclusive reference.
#[verifier::external_type_specification]
#[verifier::external_body]
#[verifier::reject_recursive_types(K)]
#[verifier::reject_recursive_types(V)]
#[verifier::reject_recursive_types(S)]
pub struct ExDashMap<K, V, S>(DashMap<K, V, S>);

/// What a flow table holds.
pub uninterp spec fn flows(m: DashMap<(u8, u32, u16, u32, u16), FlowState>) -> Map<
    (u8, u32, u16, u32, u16),
    FlowState,
>;

/// No flow at all.
pub open spec fn no_flows() -> Map<FlowId, FlowState> {
    Map::empty()
}

/// `DashMap::new`: a table with nothing in it.
#[verifier::external_body]
fn table_new() -> (r: DashMap<FlowId, FlowState>)
    ensures
        flows(r) == no_flows(),
{
    DashMap::new()
}

/// `DashMap::get`, the value copied out: what the table holds for the key, if anything.
#[verifier::external_body]
fn table_get(m: &DashMap<FlowId, FlowState>, key: FlowId) -> (r: Option<FlowState>)
    ensures
        r == (if flows(*m).contains_key(key) {
            Some(flows(*m)[key])
        } else {
            None
        }),
{
    m.get(&key).map(|entry| *entry.value())
}

/// `DashMap::insert`: the key then has the value, and no other key changes. There
/// are finitely many keys.
#[verifier::external_body]
fn table_insert(m: &mut DashMap<FlowId, FlowState>, key: FlowId, st: FlowState)
    ensures
        flows(*final(m)) == flows(*old(m)).insert(key, st),
        flows(*final(m)).dom().finite(),
{
    m.insert(key, st);
}

/// `DashMap::remove`: the key is gone, and no other key changes. There are
/// finitely many keys.
#[verifier::external_body]
fn table_remove(m: &mut DashMap<FlowId, FlowState>, key: FlowId)
    ensures
        flows(*final(m)) == flows(*old(m)).remove(key),
        flows(*final(m)).dom().finite(),
{
    m.remove(&key);
}

/// `DashMap::entry` with `and_modify` and `or_insert`: a value that is there is
/// refreshed in place, else `fresh` is inserted. No other key changes. There
/// are finitely many keys.
#[verifier::external_body]
fn table_upsert(m: &mut DashMap<FlowId, FlowState>, key: FlowId, fresh: FlowState)
    ensures
        flows(*final(m)) == flows(*old(m)).insert(
            key,
            if flows(*old(m)).contains_key(key) {
                refreshed(flows(*old(m))[key], fresh)
            } else {
                fresh
            },
        ),
        flows(*final(m)).dom().finite(),
{
    m.entry(key).and_modify(|st| st.refresh(fresh)).or_insert(fresh);
}

/// The flows that are still remembered at `now`.
pub open spec fn unexpired(table: Map<FlowId, FlowState>, now: u128) -> Map<FlowId, FlowState> {
    Map::new(
        |k: FlowId| table.contains_key(k) && !expired(table[k], now),
        |k: FlowId| table[k],
    )
}

/// `DashMap::retain`: exactly the entries stay whose value is live, unchanged.
#[verifier::external_body]
fn table_retain_live(m: &mut DashMap<FlowId, FlowState>, now: u128)
    ensures
        flows(*final(m)) == unexpired(flows(*old(m)), now),
{
    m.retain(|_, st| st.is_live(now));
}

/// `DashMap::clear`: nothing is left.
#[verifier::external_body]
fn table_clear(m: &mut DashMap<FlowId, FlowState>)
    ensures
        flows(*final(m)) == no_flows(),
{
    m.clear();
}

/// `DashMap::len`: how many keys there are.
#[verifier::external_body]
fn table_len(m: &DashMap<FlowId, FlowState>) -> (r: usize)
    ensures
        r == flows(*m).len(),
{
    m.len()
}

/// The key under which a packet's flow is tracked, if it is: the one it opens
/// goes before the one it replies to.
pub open spec fn tracked_key(
    table: Map<FlowId, FlowState>,
    src: u32,
    dst: u32,
    l4: ResolvedL4,
) -> Option<FlowId> {
    match (forward_key(src, dst, l4), reverse_key(src, dst, l4)) {
        (Some(f), Some(r)) => if table.contains_key(f.as_id()) {
            Some(f.as_id())
        } else if table.contains_key(r.as_id()) {
            Some(r.as_id())
        } else {
            None
        },
        _ => None,
    }
}

/// The packet belongs to a flow that is tracked and has not expired.
pub open spec fn in_flow(
    table: Map<FlowId, FlowState>,
    src: u32,
    dst: u32,
    l4: ResolvedL4,
    now: u128,
) -> bool {
    match tracked_key(table, src, dst, l4) {
        Some(k) => !expired(table[k], now),
        None => false,
    }
}

/// The table after a packet has been looked up in it: a flow that has expired
/// is removed, any other is carried on.
pub open spec fn looked_up(
    table: Map<FlowId, FlowState>,
    direction: PacketDirection,
    src: u32,
    dst: u32,
    l4: ResolvedL4,
    now: u128,
) -> Map<FlowId, FlowState> {
    match tracked_key(table, src, dst, l4) {
        None => table,
        Some(k) => if expired(table[k], now) {
            table.remove(k)
        } else {
            table.insert(
                k,
                FlowState {
                    phase: phase_after(table[k].phase, direction, flags_of(l4)),
                    last_seen: now,
                },
            )
        },
    }
}

/// The table after an allowed packet has opened or refreshed its flow.
pub open spec fn opened(
    table: Map<FlowId, FlowState>,
    src: u32,
    dst: u32,
    l4: ResolvedL4,
    now: u128,
) -> Map<FlowId, FlowState> {
    match (forward_key(src, dst, l4), opening_phase(l4)) {
        (Some(key), Some(phase)) => {
            let fresh = FlowState { phase, last_seen: now };
            table.insert(
                key.as_id(),
                if table.contains_key(key.as_id()) {
                    refreshed(table[key.as_id()], fresh)
                } else {
                    fresh
                },
            )
        },
        _ => table,
    }
}

/// A table that is finite after a change at one key was finite before.
proof fn lemma_finite_before(
    table: Map<FlowId, FlowState>,
    after: Map<FlowId, FlowState>,
    key: FlowId,
)
    requires
        after.dom().finite(),
        forall|k: FlowId| k != key && #[trigger] table.contains_key(k) ==> after.contains_key(k),
    ensures
        table.dom().finite(),
{
    assert(table.dom().subset_of(after.dom().insert(key)));
    vstd::set_lib::lemma_len_subset(table.dom(), after.dom().insert(key));
}

/// Looking a packet up tracks no further flow.
pub proof fn lemma_lookup_adds_no_flow(
    table: Map<FlowId, FlowState>,
    direction: PacketDirection,
    src: u32,
    dst: u32,
    l4: ResolvedL4,
    now: u128,
)
    requires
        table.dom().finite(),
    ensures
        looked_up(table, direction, src, dst, l4, now).dom().finite(),
        looked_up(table, direction, src, dst, l4, now).len() <= table.len(),
{
    let after = looked_up(table, direction, src, dst, l4, now);
    assert(after.dom().subset_of(table.dom()));
    vstd::set_lib::lemma_len_subset(after.dom(), table.dom());
}

/// Opening a flow tracks at most one more.
pub proof fn lemma_opening_adds_one_flow(
    table: Map<FlowId, FlowState>,
    src: u32,
    dst: u32,
    l4: ResolvedL4,
    now: u128,
)
    requires
        table.dom().finite(),
    ensures
        opened(table, src, dst, l4, now).dom().finite(),
        opened(table, src, dst, l4, now).len() <= table.len() + 1,
{
    let after = opened(table, src, dst, l4, now);
    match (forward_key(src, dst, l4), opening_phase(l4)) {
        (Some(key), Some(_)) => {
            assert(after.dom() =~= table.dom().insert(key.as_id()));
        },
        _ => {},
    }
}

/// The open flows.
pub struct Conntrack {
    table: DashMap<FlowId, FlowState>,
}

impl View for Conntrack {
    type V = Map<FlowId, FlowState>;

    closed spec fn view(&self) -> Map<FlowId, FlowState> {
        flows(self.table)
    }
}

impl Conntrack {
    /// No flow.
    pub fn new() -> (r: Self)
        ensures
            r@ == no_flows(),
    {
        Conntrack { table: table_new() }
    }

    /// Whether a packet belongs to an open flow, which is carried on if so. A
    /// flow that has expired is forgotten.
    pub fn conntrack_allows(
        &mut self,
        direction: PacketDirection,
        src: u32,
        dst: u32,
        l4: ResolvedL4,
        now: u128,
    ) -> (r: bool)
        ensures
            r == in_flow(old(self)@, src, dst, l4, now),
            final(self)@ == looked_up(old(self)@, direction, src, dst, l4, now),
            final(self)@.len() <= old(self)@.len(),
    {
        let fwd = match FlowKey::forward(src, dst, l4) {
            Some(k) => k.id(),
            None => {
                return false;
            },
        };
        let rev = match FlowKey::reverse(src, dst, l4) {
            Some(k) => k.id(),
            None => {
                return false;
            },
        };
        let (key, entry) = match table_get(&self.table, fwd) {
            Some(st) => (fwd, st),
            None => match table_get(&self.table, rev) {
                Some(st) => (rev, st),
                None => {
                    return false;
                },
            },
        };
        if is_expired(&entry, now) {
            table_remove(&mut self.table, key);
            proof {
                lemma_finite_before(old(self)@, self@, key);
                lemma_lookup_adds_no_flow(old(self)@, direction, src, dst, l4, now);
            }
            return false;
        }
        let f = match l4.tcp_flags {
            Some(f) => f,
            None => TcpFlags(0),
        };
        let mut st = entry;
        st.advance(direction, f);
        st.last_seen = now;
        table_insert(&mut self.table, key, st);
        proof {
            lemma_finite_before(old(self)@, self@, key);
            lemma_lookup_adds_no_flow(old(self)@, direction, src, dst, l4, now);
        }
        true
    }

    /// Opens the flow of an allowed packet, or refreshes it.
    pub fn open_or_refresh_flow(&mut self, src: u32, dst: u32, l4: ResolvedL4, now: u128)
        ensures
            final(self)@ == opened(old(self)@, src, dst, l4, now),
            final(self)@.len() <= old(self)@.len() + 1,
    {
        let key = match FlowKey::forward(src, dst, l4) {
            Some(k) => k.id(),
            None => {
                return;
            },
        };
        let f = match l4.tcp_flags {
            Some(f) => f,
            None => TcpFlags(0),
        };
        let phase = match l4.protocol {
            Protocol::Tcp => {
                if f.syn() && !f.ack() {
                    FlowPhase::Tcp(TcpPhase::SynSent)
                } else if f.fin() || f.rst() {
                    FlowPhase::Tcp(TcpPhase::TimeWait)
                } else {
                    FlowPhase::Tcp(TcpPhase::Established)
                }
            },
            Protocol::Udp => FlowPhase::Udp,
            Protocol::Icmp | Protocol::Icmpv6 => FlowPhase::Icmp,
            Protocol::Any | Protocol::Other(_) => {
                return;
            },
        };
        table_upsert(&mut self.table, key, FlowState { phase, last_seen: now });
        proof {
            lemma_finite_before(old(self)@, self@, key);
            lemma_opening_adds_one_flow(old(self)@, src, dst, l4, now);
        }
    }

    /// Forgets the flows that have expired.
    pub fn collect_expired(&mut self, now: u128)
        ensures
            final(self)@ == unexpired(old(self)@, now),
    {
        table_retain_live(&mut self.table, now);
    }

    /// Forgets all flows.
    pub fn clear(&mut self)
        ensures
            final(self)@ == no_flows(),
    {
        table_clear(&mut self.table);
    }

    pub fn len(&self) -> (r: usize)
        ensures
            r == self@.len(),
    {
        table_len(&self.table)
    }
}

/// What a packet of the opposite direction shows: the ports swapped.
pub open spec fn is_reply(l4: ResolvedL4, back: ResolvedL4) -> bool {
    &&& back.protocol == l4.protocol
    &&& or_zero(back.src_port) == or_zero(l4.dst_port)
    &&& or_zero(back.dst_port) == or_zero(l4.src_port)
    &&& or_zero(back.icmp_id) == or_zero(l4.icmp_id)
}

/// A reply looks for the flow that the packet it answers has opened, and the
/// other way round.
pub proof fn law_replies_share_the_flow(src: u32, dst: u32, l4: ResolvedL4, back: ResolvedL4)
    requires
        is_reply(l4, back),
    ensures
        reverse_key(dst, src, back) == forward_key(src, dst, l4),
        forward_key(dst, src, back) == reverse_key(src, dst, l4),
{
}

pub open spec fn phase_rank(phase: FlowPhase) -> nat {
    match phase {
        FlowPhase::Tcp(TcpPhase::SynSent) => 0,
        FlowPhase::Tcp(TcpPhase::Established) => 1,
        FlowPhase::Tcp(TcpPhase::TimeWait) => 2,
        _ => 0,
    }
}

/// A TCP flow never goes back: not when a packet carries it on, nor when one
/// refreshes it.
pub proof fn law_phases_only_advance(
    st: FlowState,
    direction: PacketDirection,
    f: TcpFlags,
    fresh: FlowState,
)
    ensures
        phase_rank(phase_after(st.phase, direction, f)) >= phase_rank(st.phase),
        st.phase is Tcp ==> phase_after(st.phase, direction, f) is Tcp,
        phase_rank(refreshed(st, fresh).phase) >= phase_rank(st.phase),
{
}

/// The key of the same flow seen from the other end.
pub open spec fn mirror(k: FlowId) -> FlowId {
    if k.0 == 1 || k.0 == 58 {
        k
    } else {
        (k.0, k.3, k.4, k.1, k.2)
    }
}

/// No flow is tracked twice, once from each end.
pub open spec fn one_sided(table: Map<FlowId, FlowState>) -> bool {
    forall|k: FlowId|
        #![trigger table.contains_key(k)]
        table.contains_key(k) && table.contains_key(mirror(k)) ==> k == mirror(k)
}

/// Looking a packet up and, where it is in no flow, opening one keeps every
/// flow tracked from one end only.
pub proof fn law_flows_stay_one_sided(
    table: Map<FlowId, FlowState>,
    direction: PacketDirection,
    src: u32,
    dst: u32,
    l4: ResolvedL4,
    now: u128,
)
    requires
        one_sided(table),
    ensures
        one_sided(looked_up(table, direction, src, dst, l4, now)),
        !in_flow(table, src, dst, l4, now) ==> one_sided(
            opened(looked_up(table, direction, src, dst, l4, now), src, dst, l4, now),
        ),
        one_sided(unexpired(table, now)),
{
    let t1 = looked_up(table, direction, src, dst, l4, now);
    assert(forall|k: FlowId| #[trigger] t1.contains_key(k) ==> table.contains_key(k));
    assert(one_sided(t1)) by {
        assert forall|k: FlowId| #[trigger]
            t1.contains_key(k) && t1.contains_key(mirror(k)) implies k == mirror(k) by {
            assert(table.contains_key(k) && table.contains_key(mirror(k)));
        }
    }
    let t3 = unexpired(table, now);
    assert forall|k: FlowId| #[trigger]
        t3.contains_key(k) && t3.contains_key(mirror(k)) implies k == mirror(k) by {
        assert(table.contains_key(k) && table.contains_key(mirror(k)));
    }
    if !in_flow(table, src, dst, l4, now) && opening_phase(l4) is Some {
        let f = forward_key(src, dst, l4)->0.as_id();
        let r = reverse_key(src, dst, l4)->0.as_id();
        assert(r == mirror(f) && f == mirror(r));
        assert(!t1.contains_key(f) && !t1.contains_key(r)) by {
            if table.contains_key(f) && table.contains_key(r) {
                assert(f == mirror(f));
            }
        }
        let t2 = opened(t1, src, dst, l4, now);
        assert forall|k: FlowId| #[trigger]
            t2.contains_key(k) && t2.contains_key(mirror(k)) implies k == mirror(k) by {
            assert(mirror(mirror(k)) == k);
            if k != f && mirror(k) != f {
                assert(t1.contains_key(k) && t1.contains_key(mirror(k)));
            }
        }
    }
}

/// Packets that are not ICMP open the same flow exactly if they have the same
/// protocol, addresses and ports, and reply to each other's exactly if they have
/// the same with the ends swapped. A port that a packet does not have counts as
/// zero.
pub proof fn law_flows_are_told_apart_by_their_ends(
    src: u32,
    dst: u32,
    a: ResolvedL4,
    src2: u32,
    dst2: u32,
    b: ResolvedL4,
)
    requires
        a.protocol != Protocol::Icmp && a.protocol != Protocol::Icmpv6 && a.protocol
            != Protocol::Any,
        b.protocol != Protocol::Icmp && b.protocol != Protocol::Icmpv6 && b.protocol
            != Protocol::Any,
    ensures
        ({
            let from = |l4: ResolvedL4| match l4.src_port {
                Some(p) => p,
                None => 0u16,
            };
            let to = |l4: ResolvedL4| match l4.dst_port {
                Some(p) => p,
                None => 0u16,
            };
            &&& forward_key(src, dst, a) is Some && reverse_key(src, dst, a) is Some
            &&& (forward_key(src, dst, a) == forward_key(src2, dst2, b)) <==> (a.protocol.number()
                == b.protocol.number() && src == src2 && dst == dst2 && from(a) == from(b) && to(a)
                == to(b))
            &&& (forward_key(src, dst, a) == reverse_key(src2, dst2, b)) <==> (a.protocol.number()
                == b.protocol.number() && src == dst2 && dst == src2 && from(a) == to(b) && to(a)
                == from(b))
            &&& (reverse_key(src, dst, a) == reverse_key(src2, dst2, b)) <==> (forward_key(
                src,
                dst,
                a,
            ) == forward_key(src2, dst2, b))
        }),
{
}

/// ICMP packets share a flow exactly if they have the same identifier and are
/// between the same two addresses, either way round. Without an identifier it
/// counts as zero.
pub proof fn law_echo_flows_are_told_apart_by_their_ends(
    src: u32,
    dst: u32,
    a: ResolvedL4,
    src2: u32,
    dst2: u32,
    b: ResolvedL4,
)
    requires
        a.protocol == Protocol::Icmp || a.protocol == Protocol::Icmpv6,
        b.protocol == a.protocol,
    ensures
        ({
            let id = |l4: ResolvedL4| match l4.icmp_id {
                Some(n) => n,
                None => 0u16,
            };
            &&& forward_key(src, dst, a) is Some
            &&& (forward_key(src, dst, a) == forward_key(src2, dst2, b)) <==> (id(a) == id(b) && (
            src == src2 && dst == dst2 || src == dst2 && dst == src2))
            &&& reverse_key(src, dst, a) == forward_key(src, dst, a)
        }),
{
}

/// Packets of protocols with different numbers never share a flow, and different
/// keys are different entries of the table.
pub proof fn law_flows_are_told_apart_by_their_protocol(
    src: u32,
    dst: u32,
    a: ResolvedL4,
    src2: u32,
    dst2: u32,
    b: ResolvedL4,
    k: FlowKey,
    m: FlowKey,
)
    requires
        a.protocol.number() != b.protocol.number(),
    ensures
        forward_key(src, dst, a) != forward_key(src2, dst2, b),
        forward_key(src, dst, a) != reverse_key(src2, dst2, b),
        k != m ==> k.as_id() != m.as_id(),
        a.protocol.number() is None ==> forward_key(src, dst, a) is None,
        b.protocol.number() is None ==> forward_key(src2, dst2, b) is None,
{
}

/// The phase that a packet opens a flow in: TCP with SYN and without ACK waits for
/// an answer, any other TCP is closed if it ends or resets and established if not.
/// UDP and ICMP have flows without phases, and no other protocol has flows.
pub proof fn law_opening_phases(l4: ResolvedL4)
    ensures
        ({
            let bits = match l4.tcp_flags {
                Some(f) => f.0,
                None => 0u8,
            };
            opening_phase(l4) == match l4.protocol {
                Protocol::Tcp => if bits & 2 != 0 && bits & 16 == 0 {
                    Some(FlowPhase::Tcp(TcpPhase::SynSent))
                } else if bits & 1 != 0 || bits & 4 != 0 {
                    Some(FlowPhase::Tcp(TcpPhase::TimeWait))
                } else {
                    Some(FlowPhase::Tcp(TcpPhase::Established))
                },
                Protocol::Udp => Some(FlowPhase::Udp),
                Protocol::Icmp => Some(FlowPhase::Icmp),
                Protocol::Icmpv6 => Some(FlowPhase::Icmp),
                Protocol::Any => None,
                Protocol::Other(_) => None,
            }
        }),
{
}

/// A flow that is opened again is seen now, and its phase only goes on: it is
/// closed by a packet that closes, established from waiting by one that would open
/// it as established, and stays where it is by any other.
pub proof fn law_opening_again(st: FlowState, fresh: FlowState)
    ensures
        refreshed(st, fresh).last_seen == fresh.last_seen,
        fresh.phase == FlowPhase::Tcp(TcpPhase::TimeWait) ==> refreshed(st, fresh).phase
            == fresh.phase,
        st.phase == FlowPhase::Tcp(TcpPhase::SynSent) && fresh.phase == FlowPhase::Tcp(
            TcpPhase::Established,
        ) ==> refreshed(st, fresh).phase == fresh.phase,
        fresh.phase != FlowPhase::Tcp(TcpPhase::TimeWait) && !(st.phase == FlowPhase::Tcp(
            TcpPhase::SynSent,
        ) && fresh.phase == FlowPhase::Tcp(TcpPhase::Established)) ==> refreshed(st, fresh).phase
            == st.phase,
{
}

/// How long a flow lives after its last packet: 300 seconds for TCP, 10 once it
/// has been closed, 30 for UDP and 10 for ICMP. It lives up to that moment and
/// not beyond.
pub proof fn law_lifetimes(st: FlowState, now: u128)
    ensures
        expired(st, now) <==> now > st.last_seen + (match st.phase {
            FlowPhase::Tcp(TcpPhase::SynSent) => 300_000_000_000int,
            FlowPhase::Tcp(TcpPhase::Established) => 300_000_000_000int,
            FlowPhase::Tcp(TcpPhase::TimeWait) => 10_000_000_000int,
            FlowPhase::Udp => 30_000_000_000int,
            FlowPhase::Icmp => 10_000_000_000int,
        }),
{
}

/// Where one packet of TCP or UDP has opened a flow and there is no other flow,
/// a packet is in a flow exactly if it has the same protocol and ends, either
/// way round, and comes in time.
pub proof fn law_a_flow_is_for_its_own_packets(
    src: u32,
    dst: u32,
    a: ResolvedL4,
    now: u128,
    src2: u32,
    dst2: u32,
    b: ResolvedL4,
    later: u128,
)
    requires
        a.protocol == Protocol::Tcp || a.protocol == Protocol::Udp,
        a.src_port is Some && a.dst_port is Some,
        b.protocol == a.protocol ==> b.src_port is Some && b.dst_port is Some,
        b.protocol.number() == a.protocol.number() ==> b.protocol == a.protocol,
    ensures
        ({
            let table = opened(Map::empty(), src, dst, a, now);
            let bits = match a.tcp_flags {
                Some(f) => f.0,
                None => 0u8,
            };
            let opens = bits & 2 != 0 && bits & 16 == 0;
            let closing = bits & 1 != 0 || bits & 4 != 0;
            let time: int = if a.protocol == Protocol::Udp {
                30_000_000_000
            } else if closing && !opens {
                10_000_000_000
            } else {
                300_000_000_000
            };
            let same = src == src2 && dst == dst2 && a.src_port == b.src_port && a.dst_port
                == b.dst_port;
            let back = src == dst2 && dst == src2 && a.src_port == b.dst_port && a.dst_port
                == b.src_port;
            in_flow(table, src2, dst2, b, later) <==> (b.protocol == a.protocol && (same || back)
                && later - now <= time)
        }),
{
    let table = opened(Map::empty(), src, dst, a, now);
    let key = forward_key(src, dst, a)->0.as_id();
    assert(forall|k: FlowId| #[trigger] table.contains_key(k) <==> k == key);
}

/// Where one ICMP packet has opened a flow and there is no other flow, a packet
/// is in a flow exactly if it is ICMP with the same identifier between the same
/// two addresses and comes within 10 seconds.
pub proof fn law_an_echo_flow_is_for_its_own_packets(
    src: u32,
    dst: u32,
    a: ResolvedL4,
    now: u128,
    src2: u32,
    dst2: u32,
    b: ResolvedL4,
    later: u128,
)
    requires
        a.protocol == Protocol::Icmp,
        a.icmp_id is Some,
        b.protocol == Protocol::Icmp ==> b.icmp_id is Some,
        b.protocol.number() == Some(1u8) ==> b.protocol == Protocol::Icmp,
    ensures
        ({
            let table = opened(Map::empty(), src, dst, a, now);
            in_flow(table, src2, dst2, b, later) <==> (b.protocol == Protocol::Icmp && a.icmp_id
                == b.icmp_id && (src == src2 && dst == dst2 || src == dst2 && dst == src2) && later
                - now <= 10_000_000_000)
        }),
{
    let table = opened(Map::empty(), src, dst, a, now);
    let key = forward_key(src, dst, a)->0.as_id();
    assert(forall|k: FlowId| #[trigger] table.contains_key(k) <==> k == key);
}

/// A packet that is in a flow renews that flow: its time starts again. Every
/// other flow stays as it is; and a flow that has run out is forgotten.
pub proof fn law_lookup_renews_one_flow(
    table: Map<FlowId, FlowState>,
    direction: PacketDirection,
    src: u32,
    dst: u32,
    l4: ResolvedL4,
    now: u128,
    k: FlowId,
)
    ensures
        ({
            let after = looked_up(table, direction, src, dst, l4, now);
            let mine = forward_key(src, dst, l4) is Some && (k == forward_key(
                src,
                dst,
                l4,
            )->0.as_id() || k == reverse_key(src, dst, l4)->0.as_id());
            &&& !mine ==> after.contains_key(k) == table.contains_key(k)
            &&& !mine && table.contains_key(k) ==> after[k] == table[k]
            &&& after.contains_key(k) ==> table.contains_key(k)
            &&& in_flow(table, src, dst, l4, now) ==> exists|m: FlowId| #[trigger]
                after.contains_key(m) && table.contains_key(m) && after[m].last_seen == now
            &&& in_flow(table, src, dst, l4, now) ==> after.dom() =~= table.dom()
            &&& tracked_key(table, src, dst, l4) == Some(k) && expired(table[k], now)
                ==> !after.contains_key(k)
            &&& tracked_key(table, src, dst, l4) == Some(k) && !expired(table[k], now)
                ==> after.contains_key(k) && after[k].last_seen == now && after[k].phase
                == phase_after(
                table[k].phase,
                direction,
                match l4.tcp_flags {
                    Some(f) => f,
                    None => TcpFlags(0),
                },
            )
        }),
{
    if let Some(m) = tracked_key(table, src, dst, l4) {
        let after = looked_up(table, direction, src, dst, l4, now);
        assert(table.contains_key(m));
        if !expired(table[m], now) {
            assert(after.contains_key(m));
        }
    }
}

/// How a TCP flow goes on with a packet: a reset or an end closes it; the first
/// packet from the other side, or an acknowledgment, establishes it; nothing
/// opens it again. Flows of UDP and ICMP have no phases.
pub proof fn law_course_of_a_flow(phase: FlowPhase, direction: PacketDirection, f: TcpFlags)
    ensures
        ({
            let closing = f.0 & 1 != 0 || f.0 & 4 != 0;
            let answered = direction is Inbound || f.0 & 16 != 0 || f.0 & 4 != 0;
            phase_after(phase, direction, f) == match phase {
                FlowPhase::Tcp(p) => if p is TimeWait || (p is Established && closing) || (
                p is SynSent && answered && closing) {
                    FlowPhase::Tcp(TcpPhase::TimeWait)
                } else if p is Established || answered {
                    FlowPhase::Tcp(TcpPhase::Established)
                } else {
                    FlowPhase::Tcp(TcpPhase::SynSent)
                },
                other => other,
            }
        }),
{
}

/// What an allowed packet does to its flow: it opens it, or renews it and never
/// sets it back. No other flow changes, and protocols without flows open none.
pub proof fn law_opening_touches_one_flow(
    table: Map<FlowId, FlowState>,
    src: u32,
    dst: u32,
    l4: ResolvedL4,
    now: u128,
    k: FlowId,
)
    ensures
        ({
            let after = opened(table, src, dst, l4, now);
            let tracks = l4.protocol == Protocol::Tcp || l4.protocol == Protocol::Udp
                || l4.protocol == Protocol::Icmp || l4.protocol == Protocol::Icmpv6;
            let mine = tracks && k == forward_key(src, dst, l4)->0.as_id();
            &&& !mine ==> after.contains_key(k) == table.contains_key(k)
            &&& !mine && table.contains_key(k) ==> after[k] == table[k]
            &&& mine ==> after.contains_key(k) && after[k].last_seen == now
            &&& mine && table.contains_key(k) ==> (after[k].phase == table[k].phase
                || after[k].phase == FlowPhase::Tcp(TcpPhase::TimeWait) || (table[k].phase
                == FlowPhase::Tcp(TcpPhase::SynSent) && after[k].phase == FlowPhase::Tcp(
                TcpPhase::Established,
            )))
        }),
{
}

/// Collecting keeps exactly the flows that still live, as they are.
pub proof fn law_collecting_keeps_what_lives(table: Map<FlowId, FlowState>, now: u128, k: FlowId)
    ensures
        unexpired(table, now).contains_key(k) <==> table.contains_key(k) && now
            <= table[k].last_seen + (match table[k].phase {
            FlowPhase::Tcp(TcpPhase::TimeWait) => 10_000_000_000int,
            FlowPhase::Tcp(_) => 300_000_000_000int,
            FlowPhase::Udp => 30_000_000_000int,
            FlowPhase::Icmp => 10_000_000_000int,
        }),
        unexpired(table, now).contains_key(k) ==> unexpired(table, now)[k] == table[k],
{
}

} // verus!
