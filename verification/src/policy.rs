//! Vocabulary of traffic and SSH policy.
use vstd::prelude::*;

verus! {

/// The protocol of a packet, or the one that a rule asks for.
#[derive(Debug, Clone, Copy, PartialEq, Eq, Structural)]
pub enum Protocol {
    Any,
    Tcp,
    Udp,
    Icmp,
    Icmpv6,
    Other(u8),
}

/// The protocol that has the IP protocol number `n`.
pub open spec fn protocol_of(n: u8) -> Protocol {
    if n == 1 {
        Protocol::Icmp
    } else if n == 6 {
        Protocol::Tcp
    } else if n == 17 {
        Protocol::Udp
    } else if n == 58 {
        Protocol::Icmpv6
    } else {
        Protocol::Other(n)
    }
}

impl Protocol {
    pub open spec fn number(self) -> Option<u8> {
        match self {
            Protocol::Any => None,
            Protocol::Icmp => Some(1),
            Protocol::Tcp => Some(6),
            Protocol::Udp => Some(17),
            Protocol::Icmpv6 => Some(58),
            Protocol::Other(n) => Some(n),
        }
    }

    pub open spec fn icmp(self) -> bool {
        self is Icmp || self is Icmpv6
    }

    /// A rule without a protocol, or for any, takes every packet; else the two are equal.
    pub open spec fn meets(self, wanted: Option<Protocol>) -> bool {
        match wanted {
            None => true,
            Some(p) => p is Any || p == self,
        }
    }

    /// The protocol that has the IP protocol number `n`.
    pub fn from_ip_number(n: u8) -> (r: Protocol)
        ensures
            r == protocol_of(n),
    {
        match n {
            1 => Protocol::Icmp,
            6 => Protocol::Tcp,
            17 => Protocol::Udp,
            58 => Protocol::Icmpv6,
            _ => Protocol::Other(n),
        }
    }

    /// The IP protocol number; none for `Any`.
    pub fn ip_number(&self) -> (r: Option<u8>)
        ensures
            r == self.number(),
    {
        match *self {
            Protocol::Any => None,
            Protocol::Icmp => Some(1),
            Protocol::Tcp => Some(6),
            Protocol::Udp => Some(17),
            Protocol::Icmpv6 => Some(58),
            Protocol::Other(n) => Some(n),
        }
    }

    pub fn is_icmp(&self) -> (r: bool)
        ensures
            r == self.icmp(),
    {
        matches!(*self, Protocol::Icmp | Protocol::Icmpv6)
    }

    /// Whether a packet of this protocol meets what a rule asks for.
    pub fn matches_rule(&self, wanted: Option<Protocol>) -> (r: bool)
        ensures
            r == self.meets(wanted),
    {
        match wanted {
            None => true,
            Some(p) => p == Protocol::Any || p == *self,
        }
    }
}

/// The ports from `start` to `end`, both included.
#[derive(Debug, Clone, Copy, PartialEq, Eq, Structural)]
pub struct PortRange {
    pub start: u16,
    pub end: u16,
}

impl PortRange {
    pub open spec fn holds(self, port: u16) -> bool {
        self.start <= port <= self.end
    }

    pub fn contains(&self, port: u16) -> (r: bool)
        ensures
            r == self.holds(port),
    {
        self.start <= port && port <= self.end
    }
}

/// Which devices a policy rule speaks of. This library carries selectors and
/// does not look inside them.
#[derive(Debug)]
pub enum Selector {
    Any,
    Expr(String),
}

/// What a selector says, as a mathematical value.
pub enum SelectorView {
    Any,
    Expr(Seq<char>),
}

impl View for Selector {
    type V = SelectorView;

    open spec fn view(&self) -> SelectorView {
        match *self {
            Selector::Any => SelectorView::Any,
            Selector::Expr(s) => SelectorView::Expr(s@),
        }
    }
}

impl Clone for Selector {
    fn clone(&self) -> (r: Self)
        ensures
            r@ == self@,
    {
        match self {
            Selector::Any => Selector::Any,
            Selector::Expr(s) => Selector::Expr(s.clone()),
        }
    }
}

#[derive(Debug, Clone, Copy, PartialEq, Eq, Structural)]
pub enum SshAction {
    Accept,
    Check,
    Deny,
}

/// A rule of the managed SSH policy.
#[derive(Debug)]
pub struct SshPolicyRule {
    pub src: Selector,
    pub dst: Selector,
    pub action: SshAction,
    pub users: Vec<String>,
    pub record: bool,
    pub recorder: Option<Selector>,
    pub enforce_recorder: bool,
    pub check_period_secs: Option<u64>,
    pub priority: i64,
}

/// A range holds the ports from its first to its last, both included, and no
/// other; one that ends before it starts holds none.
pub proof fn law_ports_of_a_range(range: PortRange, port: u16)
    ensures
        port < range.start || range.end < port <==> !range.holds(port),
        range.start <= range.end ==> range.holds(range.start) && range.holds(range.end),
        range.end < range.start ==> !range.holds(port),
{
}

/// A packet meets a rule for no protocol, for any, and for its own.
pub proof fn law_protocols_that_meet(packet: Protocol, wanted: Protocol)
    ensures
        packet.meets(None),
        packet.meets(Some(Protocol::Any)),
        packet.meets(Some(packet)),
        wanted != Protocol::Any && wanted != packet ==> !packet.meets(Some(wanted)),
{
}

} // verus!
