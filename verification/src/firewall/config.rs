//! Firewall rules, and how they are written and read.
use vstd::prelude::*;
use vstd::slice::slice_subrange;
use vstd::string::*;
use crate::policy::{PortRange, Protocol};
use crate::text;
use crate::text::{all_hex, find, is_white, number, opt_view, same_ignoring_case, split, trimmed};

verus! {

#[derive(Debug, Clone, Copy, PartialEq, Eq, Structural)]
pub enum FirewallDirection {
    In,
    Out,
}

#[derive(Debug, Clone, Copy, PartialEq, Eq, Structural)]
pub enum FirewallAction {
    Allow,
    /// Silent drop.
    Deny,
    /// A TCP reset or an ICMP unreachable goes back to the local stack.
    Reject,
}

/// Which peers a rule speaks of.
#[derive(Debug, PartialEq, Eq)]
pub enum PeerFilter {
    Any,
    Endpoint(String),
    Hostname(String),
    NetworkId(String),
}

pub enum PeerFilterView {
    Any,
    Endpoint(Seq<char>),
    Hostname(Seq<char>),
    NetworkId(Seq<char>),
}

impl View for PeerFilter {
    type V = PeerFilterView;

    open spec fn view(&self) -> PeerFilterView {
        match *self {
            PeerFilter::Any => PeerFilterView::Any,
            PeerFilter::Endpoint(s) => PeerFilterView::Endpoint(s@),
            PeerFilter::Hostname(s) => PeerFilterView::Hostname(s@),
            PeerFilter::NetworkId(s) => PeerFilterView::NetworkId(s@),
        }
    }
}

impl Clone for PeerFilter {
    fn clone(&self) -> (r: Self)
        ensures
            r@ == self@,
    {
        match self {
            PeerFilter::Any => PeerFilter::Any,
            PeerFilter::Endpoint(s) => PeerFilter::Endpoint(s.clone()),
            PeerFilter::Hostname(s) => PeerFilter::Hostname(s.clone()),
            PeerFilter::NetworkId(s) => PeerFilter::NetworkId(s.clone()),
        }
    }
}

impl Default for PeerFilter {
    fn default() -> (r: Self)
        ensures
            r@ == PeerFilterView::Any,
    {
        PeerFilter::Any
    }
}

#[derive(Debug)]
pub struct FirewallRule {
    pub direction: FirewallDirection,
    pub action: FirewallAction,
    pub protocol: Protocol,
    /// Empty: any port.
    pub ports: Vec<PortRange>,
    pub peer: PeerFilter,
}

pub struct RuleView {
    pub direction: FirewallDirection,
    pub action: FirewallAction,
    pub protocol: Protocol,
    pub ports: Seq<PortRange>,
    pub peer: PeerFilterView,
}

impl View for FirewallRule {
    type V = RuleView;

    open spec fn view(&self) -> RuleView {
        RuleView {
            direction: self.direction,
            action: self.action,
            protocol: self.protocol,
            ports: self.ports@,
            peer: self.peer@,
        }
    }
}

impl Clone for FirewallRule {
    fn clone(&self) -> (r: Self)
        ensures
            r@ == self@,
    {
        let ports = self.ports.clone();
        assert(ports@ =~= self.ports@);
        FirewallRule {
            direction: self.direction,
            action: self.action,
            protocol: self.protocol,
            ports,
            peer: self.peer.clone(),
        }
    }
}

pub open spec fn rules_view(rules: Seq<FirewallRule>) -> Seq<RuleView> {
    rules.map_values(|r: FirewallRule| r@)
}

#[derive(Debug)]
pub struct FirewallConfig {
    pub enabled: bool,
    pub rules: Vec<FirewallRule>,
    pub version: u64,
}

pub struct ConfigView {
    pub enabled: bool,
    pub rules: Seq<RuleView>,
    pub version: u64,
}

impl View for FirewallConfig {
    type V = ConfigView;

    open spec fn view(&self) -> ConfigView {
        ConfigView {
            enabled: self.enabled,
            rules: rules_view(self.rules@),
            version: self.version,
        }
    }
}

/// Copies a list of rules.
pub fn clone_rules(rules: &Vec<FirewallRule>) -> (r: Vec<FirewallRule>)
    ensures
        rules_view(r@) == rules_view(rules@),
{
    let mut out: Vec<FirewallRule> = Vec::new();
    let mut i: usize = 0;
    while i < rules.len()
        invariant
            i <= rules@.len(),
            out@.len() == i,
            forall|k: int| 0 <= k < i ==> (#[trigger] out@[k])@ == rules@[k]@,
        decreases rules@.len() - i,
    {
        out.push(rules[i].clone());
        i = i + 1;
    }
    assert(rules_view(out@) =~= rules_view(rules@));
    out
}

impl Clone for FirewallConfig {
    fn clone(&self) -> (r: Self)
        ensures
            r@ == self@,
    {
        FirewallConfig {
            enabled: self.enabled,
            rules: clone_rules(&self.rules),
            version: self.version,
        }
    }
}

/// Whether the firewall is on where a configuration does not say.
pub fn default_true() -> (r: bool)
    ensures
        r,
{
    true
}

pub open spec fn default_config() -> ConfigView {
    ConfigView { enabled: true, rules: Seq::empty(), version: 1 }
}

/// Empty configuration: the engine applies the built-in default policy.
pub fn default_firewall() -> (r: FirewallConfig)
    ensures
        r@ == default_config(),
{
    let r = FirewallConfig { enabled: default_true(), rules: Vec::new(), version: 1 };
    assert(r@.rules =~= Seq::empty());
    r
}

/// Why a rule could not be removed.
#[derive(Debug, Clone, Copy, PartialEq, Eq, Structural)]
pub enum RuleError {
    /// Rule index out of range.
    OutOfRange,
}

impl FirewallConfig {
    /// Appends a rule and counts the version up.
    pub fn add_rule(&mut self, rule: FirewallRule)
        requires
            old(self).version < u64::MAX,
        ensures
            final(self)@ == (ConfigView {
                rules: old(self)@.rules.push(rule@),
                version: (old(self).version + 1) as u64,
                ..old(self)@
            }),
    {
        self.rules.push(rule);
        self.version = self.version + 1;
        assert(self@.rules =~= old(self)@.rules.push(rule@));
    }

    /// Removes the rule at `index` and counts the version up; an index that no
    /// rule has changes nothing.
    pub fn remove_at(&mut self, index: usize) -> (r: Result<(), RuleError>)
        requires
            index < old(self).rules.len() ==> old(self).version < u64::MAX,
        ensures
            r is Err <==> index >= old(self)@.rules.len(),
            r is Err ==> final(self)@ == old(self)@,
            r is Ok ==> final(self)@ == (ConfigView {
                rules: old(self)@.rules.remove(index as int),
                version: (old(self).version + 1) as u64,
                ..old(self)@
            }),
    {
        if index >= self.rules.len() {
            return Err(RuleError::OutOfRange);
        }
        self.rules.remove(index);
        self.version = self.version + 1;
        assert(self@.rules =~= old(self)@.rules.remove(index as int));
        Ok(())
    }

    /// Back to the empty configuration.
    pub fn reset(&mut self)
        ensures
            final(self)@ == default_config(),
    {
        *self = default_firewall();
    }
}

/// Which number in a list of ports is no port.
#[derive(Debug, Clone, Copy, PartialEq, Eq, Structural)]
pub enum PortSpecError {
    RangeStart,
    RangeEnd,
    Port,
}

/// One part of a list of ports: a port, or two with a dash between them.
pub open spec fn port_part(part: Seq<char>) -> Result<PortRange, PortSpecError> {
    let p = trimmed(part);
    let dash = find(p, '-');
    if dash < p.len() {
        match (number(p.take(dash), 65535), number(p.skip(dash + 1), 65535)) {
            (None, _) => Err(PortSpecError::RangeStart),
            (_, None) => Err(PortSpecError::RangeEnd),
            (Some(start), Some(end)) => Ok(PortRange { start: start as u16, end: end as u16 }),
        }
    } else {
        match number(p, 65535) {
            None => Err(PortSpecError::Port),
            Some(n) => Ok(PortRange { start: n as u16, end: n as u16 }),
        }
    }
}

/// All parts in order, or the error of the first part that has one.
pub open spec fn port_parts(parts: Seq<Seq<char>>) -> Result<Seq<PortRange>, PortSpecError>
    decreases parts.len(),
{
    if parts.len() == 0 {
        Ok(Seq::empty())
    } else {
        match port_part(parts[0]) {
            Err(e) => Err(e),
            Ok(r) => match port_parts(parts.drop_first()) {
                Err(e) => Err(e),
                Ok(rest) => Ok(seq![r] + rest),
            },
        }
    }
}

/// What a list of ports means: nothing or `*` for any port, else ports
/// and ranges between commas.
pub open spec fn port_spec(s: Seq<char>) -> Result<Seq<PortRange>, PortSpecError> {
    if s.len() == 0 || s == seq!['*'] {
        Ok(Seq::empty())
    } else {
        port_parts(split(s, ','))
    }
}

fn parse_port_part(part: &[char]) -> (r: Result<PortRange, PortSpecError>)
    ensures
        r == port_part(part@),
{
    let (i, j) = text::trim_bounds(part);
    let p = slice_subrange(part, i, j);
    let dash = text::find_char(p, '-');
    if dash < p.len() {
        let a = slice_subrange(p, 0, dash);
        let b = slice_subrange(p, dash + 1, p.len());
        assert(a@ =~= p@.take(dash as int));
        assert(b@ =~= p@.skip(dash + 1));
        let start = match text::parse_number(a, 65535) {
            Some(n) => n as u16,
            None => {
                return Err(PortSpecError::RangeStart);
            },
        };
        let end = match text::parse_number(b, 65535) {
            Some(n) => n as u16,
            None => {
                return Err(PortSpecError::RangeEnd);
            },
        };
        Ok(PortRange { start, end })
    } else {
        match text::parse_number(p, 65535) {
            Some(n) => Ok(PortRange { start: n as u16, end: n as u16 }),
            None => Err(PortSpecError::Port),
        }
    }
}

/// `done` and then what `rest` parses to.
spec fn resumed(done: Seq<PortRange>, rest: Result<Seq<PortRange>, PortSpecError>) -> Result<
    Seq<PortRange>,
    PortSpecError,
> {
    match rest {
        Err(e) => Err(e),
        Ok(more) => Ok(done + more),
    }
}

/// Reads a list of ports such as `80,8000-8080`; empty or `*` is any port.
pub fn parse_port_spec(s: &str) -> (r: Result<Vec<PortRange>, PortSpecError>)
    ensures
        match r {
            Ok(v) => port_spec(s@) == Ok::<Seq<PortRange>, PortSpecError>(v@),
            Err(e) => port_spec(s@) == Err::<Seq<PortRange>, PortSpecError>(e),
        },
{
    let chars = text::chars_of(s);
    let mut out: Vec<PortRange> = Vec::new();
    if chars.len() == 0 || (chars.len() == 1 && chars[0] == '*') {
        assert(chars.len() == 1 ==> chars@ =~= seq!['*']);
        return Ok(out);
    }
    assert(s@ == seq!['*'] ==> chars@[0] == '*');
    let mut at: usize = 0;
    assert(chars@.skip(0) =~= chars@);
    assert(out@ + Seq::<PortRange>::empty() =~= out@);
    assert(forall|m: Seq<PortRange>| #[trigger] (out@ + m) =~= m);
    loop
        invariant
            at <= chars@.len(),
            chars@ == s@,
            !(s@.len() == 0 || s@ == seq!['*']),
            port_spec(s@) == resumed(out@, port_parts(split(chars@.skip(at as int), ','))),
        decreases chars@.len() - at,
    {
        let ghost rest_seq = chars@.skip(at as int);
        let rest = slice_subrange(chars.as_slice(), at, chars.len());
        assert(rest@ =~= rest_seq);
        let comma = text::find_char(rest, ',');
        let part = slice_subrange(rest, 0, comma);
        assert(part@ =~= rest_seq.take(comma as int));
        let ghost parts = split(rest_seq, ',');
        if comma < rest.len() {
            assert(parts.drop_first() =~= split(rest_seq.skip(comma + 1), ','));
        } else {
            assert(part@ =~= rest_seq);
            assert(parts.drop_first() =~= Seq::<Seq<char>>::empty());
        }
        assert(parts[0] == part@);
        let range = match parse_port_part(part) {
            Ok(range) => range,
            Err(e) => {
                return Err(e);
            },
        };
        let ghost before = out@;
        out.push(range);
        if comma == rest.len() {
            assert(port_parts(parts.drop_first()) == Ok::<Seq<PortRange>, PortSpecError>(
                Seq::empty(),
            ));
            assert(out@ =~= before + (seq![range] + Seq::<PortRange>::empty()));
            return Ok(out);
        }
        assert(rest_seq.skip(comma + 1) =~= chars@.skip(at + comma + 1));
        proof {
            let tail = port_parts(parts.drop_first());
            if tail is Ok {
                assert(before + (seq![range] + tail->Ok_0) =~= out@ + tail->Ok_0);
            }
        }
        at = at + comma + 1;
    }
}

/// What a peer filter means: nothing, `*` or `any` for every peer, a prefix
/// that says what follows, 64 hexadecimal digits for an endpoint, else a hostname.
pub open spec fn peer_spec(s: Option<Seq<char>>) -> PeerFilterView {
    match s {
        None => PeerFilterView::Any,
        Some(raw) => {
            let t = trimmed(raw);
            if t.len() == 0 || t == seq!['*'] || same_ignoring_case(t, "any"@) {
                PeerFilterView::Any
            } else if "endpoint:"@.is_prefix_of(t) {
                PeerFilterView::Endpoint(t.skip("endpoint:"@.len() as int))
            } else if "host:"@.is_prefix_of(t) {
                PeerFilterView::Hostname(t.skip("host:"@.len() as int))
            } else if "hostname:"@.is_prefix_of(t) {
                PeerFilterView::Hostname(t.skip("hostname:"@.len() as int))
            } else if "network:"@.is_prefix_of(t) {
                PeerFilterView::NetworkId(t.skip("network:"@.len() as int))
            } else if t.len() == 64 && all_hex(t) {
                PeerFilterView::Endpoint(t)
            } else {
                PeerFilterView::Hostname(t)
            }
        },
    }
}

/// Why a text is no peer filter. Every text is one, so this is never returned.
#[derive(Debug, Clone, Copy, PartialEq, Eq, Structural)]
pub struct PeerFilterError;

/// Reads a peer filter: `*`, a bare hostname, `endpoint:<hex>`, `host:<name>`,
/// `network:<id>` or a hexadecimal endpoint. Every text is one of these.
pub fn parse_peer_filter(s: Option<&str>) -> (r: Result<PeerFilter, PeerFilterError>)
    ensures
        r matches Ok(p) && p@ == peer_spec(opt_view(s)),
{
    let s = match s {
        Some(s) => text::trim(s),
        None => {
            return Ok(PeerFilter::Any);
        },
    };
    let chars = text::chars_of(s);
    if chars.len() == 0 {
        return Ok(PeerFilter::Any);
    }
    if (chars.len() == 1 && chars[0] == '*') || text::eq_ignore_case(s, "any") {
        assert(chars.len() == 1 && chars[0] == '*' ==> s@ =~= seq!['*']);
        return Ok(PeerFilter::Any);
    }
    assert(s@ == seq!['*'] ==> chars@[0] == '*');
    if let Some(rest) = text::strip_prefix(s, "endpoint:") {
        return Ok(PeerFilter::Endpoint(rest.to_string()));
    }
    if let Some(rest) = text::strip_prefix(s, "host:") {
        return Ok(PeerFilter::Hostname(rest.to_string()));
    }
    if let Some(rest) = text::strip_prefix(s, "hostname:") {
        return Ok(PeerFilter::Hostname(rest.to_string()));
    }
    if let Some(rest) = text::strip_prefix(s, "network:") {
        return Ok(PeerFilter::NetworkId(rest.to_string()));
    }
    if chars.len() == 64 && text::is_all_hex(chars.as_slice()) {
        return Ok(PeerFilter::Endpoint(s.to_string()));
    }
    Ok(PeerFilter::Hostname(s.to_string()))
}

/// How a peer filter is shown; `Any` is not.
pub open spec fn peer_text(peer: PeerFilterView) -> Option<Seq<char>> {
    match peer {
        PeerFilterView::Any => None,
        PeerFilterView::Endpoint(e) => Some("endpoint:"@ + e),
        PeerFilterView::Hostname(h) => Some("host:"@ + h),
        PeerFilterView::NetworkId(n) => Some("network:"@ + n),
    }
}

fn prefixed(prefix: &str, rest: &String) -> (r: String)
    ensures
        r@ == prefix@ + rest@,
{
    let mut out = prefix.to_string();
    out.append(rest.as_str());
    out
}

/// How a peer filter is shown; `Any` is not.
pub fn peer_filter_display(peer: &PeerFilter) -> (r: Option<String>)
    ensures
        text::opt_string(r) == peer_text(peer@),
{
    match peer {
        PeerFilter::Any => None,
        PeerFilter::Endpoint(e) => Some(prefixed("endpoint:", e)),
        PeerFilter::Hostname(h) => Some(prefixed("host:", h)),
        PeerFilter::NetworkId(n) => Some(prefixed("network:", n)),
    }
}

pub fn action_display(action: FirewallAction) -> (r: &'static str)
    ensures
        r@ == (match action {
            FirewallAction::Allow => "allow"@,
            FirewallAction::Deny => "deny"@,
            FirewallAction::Reject => "reject"@,
        }),
{
    match action {
        FirewallAction::Allow => "allow",
        FirewallAction::Deny => "deny",
        FirewallAction::Reject => "reject",
    }
}

pub fn direction_display(d: FirewallDirection) -> (r: &'static str)
    ensures
        r@ == (match d {
            FirewallDirection::In => "in"@,
            FirewallDirection::Out => "out"@,
        }),
{
    match d {
        FirewallDirection::In => "in",
        FirewallDirection::Out => "out",
    }
}

proof fn lemma_trimmed_already(s: Seq<char>)
    requires
        s.len() > 0,
        !is_white(s[0]),
        !is_white(s.last()),
    ensures
        trimmed(s) == s,
{
}

/// The part of a filter that a peer is compared with.
pub open spec fn peer_value(peer: PeerFilterView) -> Seq<char> {
    match peer {
        PeerFilterView::Any => Seq::empty(),
        PeerFilterView::Endpoint(e) => e,
        PeerFilterView::Hostname(h) => h,
        PeerFilterView::NetworkId(n) => n,
    }
}

/// A filter that is shown and read again is the same filter, unless its text
/// ends in white space.
pub proof fn law_shown_filter_reads_back(peer: PeerFilterView)
    requires
        peer_value(peer).len() > 0 ==> !is_white(peer_value(peer).last()),
    ensures
        peer_spec(peer_text(peer)) == peer,
{
    reveal_strlit("endpoint:");
    reveal_strlit("host:");
    reveal_strlit("hostname:");
    reveal_strlit("network:");
    reveal_strlit("any");
    match peer {
        PeerFilterView::Any => {},
        PeerFilterView::Endpoint(e) => {
            let t = "endpoint:"@ + e;
            lemma_trimmed_already(t);
            assert("endpoint:"@ =~= t.subrange(0, 9));
            assert(t.skip(9) =~= e);
        },
        PeerFilterView::Hostname(h) => {
            let t = "host:"@ + h;
            lemma_trimmed_already(t);
            assert("host:"@ =~= t.subrange(0, 5));
            assert(t.skip(5) =~= h);
            assert(t[0] == 'h');
            if "endpoint:"@.is_prefix_of(t) {
                assert(t.subrange(0, 9)[0] == t[0]);
            }
        },
        PeerFilterView::NetworkId(n) => {
            let t = "network:"@ + n;
            lemma_trimmed_already(t);
            assert("network:"@ =~= t.subrange(0, 8));
            assert(t.skip(8) =~= n);
            assert(t[0] == 'n');
            if "endpoint:"@.is_prefix_of(t) {
                assert(t.subrange(0, 9)[0] == t[0]);
            }
            if "host:"@.is_prefix_of(t) {
                assert(t.subrange(0, 5)[0] == t[0]);
            }
            if "hostname:"@.is_prefix_of(t) {
                assert(t.subrange(0, 9)[0] == t[0]);
            }
        },
    }
}

/// Removing the rule that was added last gives back the rules from before.
pub proof fn law_removing_the_last_undoes_adding(rules: Seq<RuleView>, rule: RuleView)
    ensures
        rules.push(rule).remove(rules.len() as int) == rules,
{
    assert(rules.push(rule).remove(rules.len() as int) =~= rules);
}

/// How a range of ports is written: its first port, a dash, its last.
pub open spec fn range_text(range: PortRange) -> Seq<char> {
    text::decimal(range.start as nat) + seq!['-'] + text::decimal(range.end as nat)
}

proof fn lemma_digits_are_plain(s: Seq<char>)
    requires
        s.len() > 0,
        text::all_digits(s),
    ensures
        !is_white(s[0]),
        !is_white(s.last()),
        !s.contains('-'),
        !s.contains(','),
{
    assert(text::is_digit(s[0]));
    assert(text::is_digit(s[s.len() - 1]));
    if s.contains('-') {
        let k = choose|k: int| 0 <= k < s.len() && s[k] == '-';
        assert(text::is_digit(s[k]));
    }
    if s.contains(',') {
        let k = choose|k: int| 0 <= k < s.len() && s[k] == ',';
        assert(text::is_digit(s[k]));
    }
}

/// A port that is written in decimal is that port alone, and a range that is
/// written with a dash is that range, one that ends before it starts too.
pub proof fn law_written_ports_read_back(port: u16, range: PortRange)
    ensures
        port_part(text::decimal(port as nat)) == Ok::<PortRange, PortSpecError>(
            PortRange { start: port, end: port },
        ),
        port_part(range_text(range)) == Ok::<PortRange, PortSpecError>(range),
{
    let p = text::decimal(port as nat);
    text::lemma_decimal_digits(port as nat);
    text::law_decimal_reads_back(port as nat, 65535);
    lemma_digits_are_plain(p);
    lemma_trimmed_already(p);
    text::lemma_find(p, '-');
    if find(p, '-') < p.len() {
        assert(p.contains(p[find(p, '-')]));
    }
    let a = text::decimal(range.start as nat);
    let b = text::decimal(range.end as nat);
    let t = range_text(range);
    text::lemma_decimal_digits(range.start as nat);
    text::lemma_decimal_digits(range.end as nat);
    text::law_decimal_reads_back(range.start as nat, 65535);
    text::law_decimal_reads_back(range.end as nat, 65535);
    lemma_digits_are_plain(a);
    lemma_digits_are_plain(b);
    assert(t[0] == a[0] && t.last() == b.last());
    lemma_trimmed_already(t);
    text::lemma_find(t, '-');
    let n = a.len() as int;
    assert(t[n] == '-');
    let f = find(t, '-');
    if f < n {
        assert(t[f] == a[f]);
        assert(a.contains(a[f]));
    }
    assert(f == n);
    assert(t.take(n) =~= a);
    assert(t.skip(n + 1) =~= b);
}

/// What the parts of a list say together: each its range, in their order, or the
/// error of the first part that has one.
pub proof fn law_parts_are_read_in_order(parts: Seq<Seq<char>>)
    ensures
        match port_parts(parts) {
            Ok(ranges) => ranges.len() == parts.len() && forall|i: int|
                0 <= i < parts.len() ==> port_part(#[trigger] parts[i]) == Ok::<
                    PortRange,
                    PortSpecError,
                >(ranges[i]),
            Err(e) => exists|i: int|
                0 <= i < parts.len() && port_part(#[trigger] parts[i]) == Err::<
                    PortRange,
                    PortSpecError,
                >(e) && forall|k: int| 0 <= k < i ==> port_part(#[trigger] parts[k]) is Ok,
        },
    decreases parts.len(),
{
    if parts.len() > 0 {
        let rest = parts.drop_first();
        law_parts_are_read_in_order(rest);
        assert(forall|k: int| 1 <= k < parts.len() ==> #[trigger] parts[k] == rest[k - 1]);
        if port_part(parts[0]) is Ok {
            if let Err(e) = port_parts(rest) {
                let i = choose|i: int|
                    0 <= i < rest.len() && port_part(#[trigger] rest[i]) == Err::<
                        PortRange,
                        PortSpecError,
                    >(e) && forall|k: int| 0 <= k < i ==> port_part(#[trigger] rest[k]) is Ok;
                assert(parts[i + 1] == rest[i]);
                assert forall|k: int| 0 <= k < i + 1 implies port_part(#[trigger] parts[k]) is Ok by {
                    if k > 0 {
                        assert(parts[k] == rest[k - 1]);
                    }
                }
            }
        } else {
            assert(port_part(parts[0]) is Err);
        }
    }
}

/// A list of ports that is written with commas between its ranges reads back as
/// those ranges. Nothing, and a star, is any port.
pub proof fn law_written_port_list_reads_back(ranges: Seq<PortRange>)
    ensures
        ranges.len() > 0 ==> port_spec(
            text::joined(ranges.map_values(|r: PortRange| range_text(r)), ','),
        ) == Ok::<Seq<PortRange>, PortSpecError>(ranges),
        port_spec(Seq::empty()) == Ok::<Seq<PortRange>, PortSpecError>(Seq::empty()),
        port_spec(seq!['*']) == Ok::<Seq<PortRange>, PortSpecError>(Seq::empty()),
{
    if ranges.len() > 0 {
        let items = ranges.map_values(|r: PortRange| range_text(r));
        let s = text::joined(items, ',');
        assert forall|i: int| 0 <= i < items.len() implies !(#[trigger] items[i]).contains(',') by {
            let a = text::decimal(ranges[i].start as nat);
            let b = text::decimal(ranges[i].end as nat);
            text::lemma_decimal_digits(ranges[i].start as nat);
            text::lemma_decimal_digits(ranges[i].end as nat);
            lemma_digits_are_plain(a);
            lemma_digits_are_plain(b);
            let t = items[i];
            if t.contains(',') {
                let k = choose|k: int| 0 <= k < t.len() && t[k] == ',';
                if k < a.len() {
                    assert(a[k] == ',');
                } else if k > a.len() {
                    assert(b[k - a.len() - 1] == ',');
                }
            }
        }
        text::law_split_undoes_join(items, ',');
        law_parts_are_read_in_order(items);
        assert forall|i: int| 0 <= i < items.len() implies port_part(#[trigger] items[i]) == Ok::<
            PortRange,
            PortSpecError,
        >(ranges[i]) by {
            law_written_ports_read_back(0, ranges[i]);
        }
        assert(items[0] == range_text(ranges[0]));
        if s.len() == 0 || s == seq!['*'] {
            text::law_join_undoes_split(s, ',');
            let parts = split(s, ',');
            assert(parts == items);
            text::lemma_find(s, ',');
            assert(parts[0].len() <= 1);
            text::lemma_decimal_digits(ranges[0].start as nat);
            text::lemma_decimal_digits(ranges[0].end as nat);
            assert(items[0].len() >= 3);
        }
        if let Ok(read) = port_parts(items) {
            assert forall|i: int| 0 <= i < read.len() implies read[i] == ranges[i] by {
                assert(port_part(items[i]) == Ok::<PortRange, PortSpecError>(read[i]));
            }
            assert(read =~= ranges);
        }
    }
}

/// What is no port is no part of a list, and the error says where: before the
/// dash, after it, or in a part without one. `p` is the part without white space
/// around it and `n` the place of its first dash.
pub proof fn law_what_is_no_port(part: Seq<char>, p: Seq<char>, n: int)
    requires
        p == trimmed(part),
        0 <= n <= p.len(),
        n < p.len() ==> p[n] == '-',
        forall|k: int| 0 <= k < n ==> p[k] != '-',
    ensures
        n == p.len() && number(p, 65535) is None ==> port_part(part) == Err::<
            PortRange,
            PortSpecError,
        >(PortSpecError::Port),
        n < p.len() && number(p.take(n), 65535) is None ==> port_part(part) == Err::<
            PortRange,
            PortSpecError,
        >(PortSpecError::RangeStart),
        n < p.len() && number(p.take(n), 65535) is Some && number(p.skip(n + 1), 65535) is None
            ==> port_part(part) == Err::<PortRange, PortSpecError>(PortSpecError::RangeEnd),
{
    text::lemma_find(p, '-');
    let f = find(p, '-');
    if f < n {
        assert(p[f] != '-');
    } else if f > n {
        assert(p[n] != '-');
    }
}

/// What a peer filter is read as, by the text without white space around it:
/// nothing, a star and `any` in whatever case for every peer; else what follows a
/// prefix; else an endpoint for 64 hexadecimal digits; else a hostname.
pub proof fn law_how_filters_are_read(raw: Seq<char>, t: Seq<char>, rest: Seq<char>)
    requires
        t == trimmed(raw),
    ensures
        peer_spec(None) is Any,
        t.len() == 0 || t == seq!['*'] || same_ignoring_case(t, "any"@) ==> peer_spec(Some(raw))
            is Any,
        t == "endpoint:"@ + rest ==> peer_spec(Some(raw)) == PeerFilterView::Endpoint(rest),
        t == "host:"@ + rest ==> peer_spec(Some(raw)) == PeerFilterView::Hostname(rest),
        t == "hostname:"@ + rest ==> peer_spec(Some(raw)) == PeerFilterView::Hostname(rest),
        t == "network:"@ + rest ==> peer_spec(Some(raw)) == PeerFilterView::NetworkId(rest),
        t.len() > 0 && t != seq!['*'] && !same_ignoring_case(t, "any"@) && !t.contains(':')
            ==> peer_spec(Some(raw)) == (if t.len() == 64 && forall|i: int|
            0 <= i < t.len() ==> ('0' <= #[trigger] t[i] <= '9' || 'a' <= t[i] <= 'f' || 'A' <= t[i]
                <= 'F') {
            PeerFilterView::Endpoint(t)
        } else {
            PeerFilterView::Hostname(t)
        }),
{
    reveal_strlit("endpoint:");
    reveal_strlit("host:");
    reveal_strlit("hostname:");
    reveal_strlit("network:");
    reveal_strlit("any");
    if "endpoint:"@.is_prefix_of(t) {
        assert(t.subrange(0, 9)[0] == t[0] && t.subrange(0, 9)[8] == t[8]);
    }
    if "host:"@.is_prefix_of(t) {
        assert(t.subrange(0, 5)[0] == t[0] && t.subrange(0, 5)[4] == t[4]);
    }
    if "hostname:"@.is_prefix_of(t) {
        assert(t.subrange(0, 9)[0] == t[0] && t.subrange(0, 9)[8] == t[8]);
        assert(t.subrange(0, 9)[4] == t[4]);
    }
    if "network:"@.is_prefix_of(t) {
        assert(t.subrange(0, 8)[0] == t[0] && t.subrange(0, 8)[7] == t[7]);
    }
    if t == "endpoint:"@ + rest {
        assert("endpoint:"@ =~= t.subrange(0, 9));
        assert(t.skip(9) =~= rest);
    }
    if t == "host:"@ + rest {
        assert("host:"@ =~= t.subrange(0, 5));
        assert(t.skip(5) =~= rest);
    }
    if t == "hostname:"@ + rest {
        assert("hostname:"@ =~= t.subrange(0, 9));
        assert(t.skip(9) =~= rest);
        assert(t[4] == 'n');
    }
    if t == "network:"@ + rest {
        assert("network:"@ =~= t.subrange(0, 8));
        assert(t.skip(8) =~= rest);
    }
}

/// A configuration starts with the firewall on, without rules, at version 1.
pub proof fn law_default_configuration()
    ensures
        default_config().enabled,
        default_config().rules.len() == 0,
        default_config().version == 1,
{
}

/// What a rule shows of itself is what it holds.
pub proof fn law_rules_show_what_they_hold(r: FirewallRule)
    ensures
        r@.direction == r.direction,
        r@.action == r.action,
        r@.protocol == r.protocol,
        r@.ports == r.ports@,
        r@.peer == r.peer@,
        match r.peer {
            PeerFilter::Any => r@.peer is Any,
            PeerFilter::Endpoint(s) => r@.peer == PeerFilterView::Endpoint(s@),
            PeerFilter::Hostname(s) => r@.peer == PeerFilterView::Hostname(s@),
            PeerFilter::NetworkId(s) => r@.peer == PeerFilterView::NetworkId(s@),
        },
{
}

/// What a list of rules shows: each rule, in its place.
pub proof fn law_lists_show_each_rule(rules: Seq<FirewallRule>, i: int)
    requires
        0 <= i < rules.len(),
    ensures
        rules_view(rules).len() == rules.len(),
        rules_view(rules)[i] == rules[i]@,
{
}

} // verus!
