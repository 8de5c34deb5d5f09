//! Authorization of an SSH login whose source Tunnet has already authenticated.
use vstd::prelude::*;
use super::account;
use super::account::{AccountError, AccountView, LocalAccount};
use super::capabilities;
use super::capabilities::SshCapabilities;
use crate::names::NameSet;
use crate::platform::Platform;
use crate::policy::{Selector, SelectorView, SshAction, SshPolicyRule};
use crate::routes;
use crate::routes::{IpAddress, MemberView, RoutingTable};
use crate::text;

verus! {

#[derive(Debug, Clone, Copy, PartialEq, Eq, Structural)]
pub enum AuthorizationMode {
    Direct,
    Managed,
}

#[derive(Debug)]
pub struct RecordingPolicy {
    pub record: bool,
    pub enforce_recorder: bool,
    pub recorder: Option<Selector>,
}

pub struct RecordingView {
    pub record: bool,
    pub enforce_recorder: bool,
    pub recorder: Option<SelectorView>,
}

pub open spec fn opt_selector(s: Option<Selector>) -> Option<SelectorView> {
    match s {
        Some(s) => Some(s@),
        None => None,
    }
}

fn clone_selector(s: &Option<Selector>) -> (r: Option<Selector>)
    ensures
        opt_selector(r) == opt_selector(*s),
{
    match s {
        Some(s) => Some(s.clone()),
        None => None,
    }
}

impl View for RecordingPolicy {
    type V = RecordingView;

    open spec fn view(&self) -> RecordingView {
        RecordingView {
            record: self.record,
            enforce_recorder: self.enforce_recorder,
            recorder: opt_selector(self.recorder),
        }
    }
}

impl Clone for RecordingPolicy {
    fn clone(&self) -> (r: Self)
        ensures
            r@ == self@,
    {
        RecordingPolicy {
            record: self.record,
            enforce_recorder: self.enforce_recorder,
            recorder: clone_selector(&self.recorder),
        }
    }
}

pub open spec fn no_recording() -> RecordingView {
    RecordingView { record: false, enforce_recorder: false, recorder: None }
}

impl RecordingPolicy {
    fn none() -> (r: Self)
        ensures
            r@ == no_recording(),
    {
        RecordingPolicy { record: false, enforce_recorder: false, recorder: None }
    }
}

/// Whether the user has to show who they are once more, and how long that holds.
#[derive(Debug, Clone, Copy, PartialEq, Eq, Structural)]
pub enum CheckState {
    NotRequired,
    Required { period_secs: u64 },
}

#[derive(Debug)]
pub struct AuthorizedSession {
    pub source_endpoint: String,
    pub source_hostname: Option<String>,
    pub source_network: u128,
    pub dest_network: u128,
    pub dest_user: String,
    pub account: LocalAccount,
    pub mode: AuthorizationMode,
    pub capabilities: SshCapabilities,
    pub recording: RecordingPolicy,
    pub check: CheckState,
}

pub struct SessionView {
    pub source_endpoint: Seq<char>,
    pub source_hostname: Option<Seq<char>>,
    pub source_network: u128,
    pub dest_network: u128,
    pub dest_user: Seq<char>,
    pub account: AccountView,
    pub mode: AuthorizationMode,
    pub capabilities: SshCapabilities,
    pub recording: RecordingView,
    pub check: CheckState,
}

impl View for AuthorizedSession {
    type V = SessionView;

    open spec fn view(&self) -> SessionView {
        SessionView {
            source_endpoint: self.source_endpoint@,
            source_hostname: text::opt_string(self.source_hostname),
            source_network: self.source_network,
            dest_network: self.dest_network,
            dest_user: self.dest_user@,
            account: self.account@,
            mode: self.mode,
            capabilities: self.capabilities,
            recording: self.recording@,
            check: self.check,
        }
    }
}

impl Clone for AuthorizedSession {
    fn clone(&self) -> (r: Self)
        ensures
            r@ == self@,
    {
        AuthorizedSession {
            source_endpoint: self.source_endpoint.clone(),
            source_hostname: text::clone_opt(&self.source_hostname),
            source_network: self.source_network,
            dest_network: self.dest_network,
            dest_user: self.dest_user.clone(),
            account: self.account.clone(),
            mode: self.mode,
            capabilities: self.capabilities,
            recording: self.recording.clone(),
            check: self.check,
        }
    }
}

/// Why a login is refused.
#[derive(Debug, Clone, PartialEq, Eq)]
pub enum AuthzFailure {
    UnknownMeshSource,
    NotCurrentMember,
    ServiceDisabled,
    UserNotAllowed { requested: String },
    AccountMissing { requested: String },
    ManagedDeny,
}

pub enum FailureView {
    UnknownMeshSource,
    NotCurrentMember,
    ServiceDisabled,
    UserNotAllowed { requested: Seq<char> },
    AccountMissing { requested: Seq<char> },
    ManagedDeny,
}

impl View for AuthzFailure {
    type V = FailureView;

    open spec fn view(&self) -> FailureView {
        match *self {
            AuthzFailure::UnknownMeshSource => FailureView::UnknownMeshSource,
            AuthzFailure::NotCurrentMember => FailureView::NotCurrentMember,
            AuthzFailure::ServiceDisabled => FailureView::ServiceDisabled,
            AuthzFailure::UserNotAllowed { requested } => FailureView::UserNotAllowed {
                requested: requested@,
            },
            AuthzFailure::AccountMissing { requested } => FailureView::AccountMissing {
                requested: requested@,
            },
            AuthzFailure::ManagedDeny => FailureView::ManagedDeny,
        }
    }
}

pub open spec fn failure_text(f: FailureView) -> Seq<char> {
    match f {
        FailureView::UnknownMeshSource => "ssh source is not a known mesh IP"@,
        FailureView::NotCurrentMember =>
            "ssh source is not a current member of the destination network"@,
        FailureView::ServiceDisabled => "embedded SSH is disabled on this network"@,
        FailureView::UserNotAllowed { requested } => "destination OS account `"@ + requested
            + "` is not allowed"@,
        FailureView::AccountMissing { requested } => "destination OS account `"@ + requested
            + "` does not exist"@,
        FailureView::ManagedDeny => "managed SSH policy denied the session"@,
    }
}

impl AuthzFailure {
    pub fn log_message(&self) -> (r: String)
        ensures
            r@ == failure_text(self@),
    {
        match self {
            AuthzFailure::UnknownMeshSource => "ssh source is not a known mesh IP".to_string(),
            AuthzFailure::NotCurrentMember =>
                "ssh source is not a current member of the destination network".to_string(),
            AuthzFailure::ServiceDisabled =>
                "embedded SSH is disabled on this network".to_string(),
            AuthzFailure::UserNotAllowed { requested } => text::concat(
                "destination OS account `",
                requested.as_str(),
                "` is not allowed",
            ),
            AuthzFailure::AccountMissing { requested } => text::concat(
                "destination OS account `",
                requested.as_str(),
                "` does not exist",
            ),
            AuthzFailure::ManagedDeny => "managed SSH policy denied the session".to_string(),
        }
    }
}

/// The SSH section of a Direct network's configuration.
#[derive(Debug)]
pub struct DirectSshSection {
    pub enabled: bool,
    pub users: Vec<String>,
}

/// How logins on one network are authorized.
#[derive(Debug)]
pub enum BindingPolicy {
    Direct { allowed_users: NameSet },
    Managed,
}

pub enum PolicyView {
    Direct { allowed_users: Set<Seq<char>> },
    Managed,
}

impl View for BindingPolicy {
    type V = PolicyView;

    open spec fn view(&self) -> PolicyView {
        match *self {
            BindingPolicy::Direct { allowed_users } => PolicyView::Direct {
                allowed_users: allowed_users@,
            },
            BindingPolicy::Managed => PolicyView::Managed,
        }
    }
}

impl Clone for BindingPolicy {
    fn clone(&self) -> (r: Self)
        ensures
            r@ == self@,
    {
        match self {
            BindingPolicy::Direct { allowed_users } => BindingPolicy::Direct {
                allowed_users: allowed_users.clone(),
            },
            BindingPolicy::Managed => BindingPolicy::Managed,
        }
    }
}

/// What a Direct network's configuration says of its logins.
pub open spec fn direct_policy(ssh: DirectSshSection) -> Option<PolicyView> {
    if ssh.enabled {
        Some(PolicyView::Direct { allowed_users: trimmed_names(text::views(ssh.users@)) })
    } else {
        None
    }
}

pub open spec fn opt_policy(p: Option<BindingPolicy>) -> Option<PolicyView> {
    match p {
        Some(p) => Some(p@),
        None => None,
    }
}

impl BindingPolicy {
    /// The policy of a Direct network: none where SSH is off, else the users of
    /// its configuration without white space around their names.
    pub fn from_direct(ssh: &DirectSshSection) -> (r: Option<Self>)
        ensures
            opt_policy(r) == direct_policy(*ssh),
    {
        if !ssh.enabled {
            return None;
        }
        let mut allowed_users = NameSet::new();
        let ghost users = text::views(ssh.users@);
        assert(users.take(0) =~= Seq::empty());
        assert(trimmed_names(users.take(0)) =~= Set::<Seq<char>>::empty());
        let mut i: usize = 0;
        while i < ssh.users.len()
            invariant
                i <= ssh.users@.len(),
                users == text::views(ssh.users@),
                allowed_users@ == trimmed_names(users.take(i as int)),
            decreases ssh.users@.len() - i,
        {
            let name = text::trim(ssh.users[i].as_str());
            allowed_users.insert(name.to_string());
            proof {
                lemma_one_more_name(users, i as int);
            }
            i = i + 1;
        }
        assert(users.take(users.len() as int) =~= users);
        Some(BindingPolicy::Direct { allowed_users })
    }
}

/// The names without white space around them.
pub open spec fn trimmed_names(users: Seq<Seq<char>>) -> Set<Seq<char>> {
    users.map_values(|u: Seq<char>| text::trimmed(u)).to_set()
}

proof fn lemma_one_more_name(users: Seq<Seq<char>>, i: int)
    requires
        0 <= i < users.len(),
    ensures
        trimmed_names(users.take(i + 1)) == trimmed_names(users.take(i)).insert(
            text::trimmed(users[i]),
        ),
{
    let f = |u: Seq<char>| text::trimmed(u);
    let a = users.take(i).map_values(f);
    let b = users.take(i + 1).map_values(f);
    assert(b =~= a.push(text::trimmed(users[i])));
    assert forall|n: Seq<char>| #[trigger]
        b.to_set().contains(n) == a.to_set().insert(text::trimmed(users[i])).contains(n) by {
        if b.contains(n) {
            let k = choose|k: int| 0 <= k < b.len() && b[k] == n;
            if k < i {
                assert(a[k] == n);
            }
        }
        if a.contains(n) {
            let k = choose|k: int| 0 <= k < a.len() && a[k] == n;
            assert(b[k] == n);
        }
        assert(b[i] == text::trimmed(users[i]));
    }
    assert(b.to_set() =~= a.to_set().insert(text::trimmed(users[i])));
}

/// Where a login comes from, as a member of the destination network.
#[derive(Debug)]
pub struct MeshSource {
    pub endpoint: String,
    pub hostname: Option<String>,
    pub network_id: u128,
    pub network_name: String,
    pub tags: Vec<String>,
}

pub struct SourceView {
    pub endpoint: Seq<char>,
    pub hostname: Option<Seq<char>>,
    pub network_id: u128,
    pub network_name: Seq<char>,
    pub tags: Seq<Seq<char>>,
}

impl View for MeshSource {
    type V = SourceView;

    open spec fn view(&self) -> SourceView {
        SourceView {
            endpoint: self.endpoint@,
            hostname: text::opt_string(self.hostname),
            network_id: self.network_id,
            network_name: self.network_name@,
            tags: text::views(self.tags@),
        }
    }
}

impl Clone for MeshSource {
    fn clone(&self) -> (r: Self)
        ensures
            r@ == self@,
    {
        MeshSource {
            endpoint: self.endpoint.clone(),
            hostname: text::clone_opt(&self.hostname),
            network_id: self.network_id,
            network_name: self.network_name.clone(),
            tags: text::clone_all(&self.tags),
        }
    }
}

/// A member as the source of a login; an empty hostname is none.
pub open spec fn source_of(m: MemberView) -> SourceView {
    SourceView {
        endpoint: m.endpoint,
        hostname: if m.hostname.len() == 0 {
            None
        } else {
            Some(m.hostname)
        },
        network_id: m.network_id,
        network_name: m.network_name,
        tags: m.tags,
    }
}

/// The device with the address of the other end, as a member of the
/// destination network.
pub open spec fn identified(
    peer: IpAddress,
    dest_network: u128,
    members: Seq<MemberView>,
) -> Result<SourceView, FailureView> {
    match peer {
        IpAddress::V6(_) => Err(FailureView::UnknownMeshSource),
        IpAddress::V4(ip) => match routes::with_ip(members, ip) {
            None => Err(FailureView::UnknownMeshSource),
            Some(device) => match routes::device_in(members, dest_network, device.endpoint) {
                None => Err(FailureView::NotCurrentMember),
                Some(member) => Ok(source_of(member)),
            },
        },
    }
}

pub open spec fn source_result(r: Result<MeshSource, AuthzFailure>) -> Result<
    SourceView,
    FailureView,
> {
    match r {
        Ok(s) => Ok(s@),
        Err(e) => Err(e@),
    }
}

pub open spec fn session_result(r: Result<AuthorizedSession, AuthzFailure>) -> Result<
    SessionView,
    FailureView,
> {
    match r {
        Ok(s) => Ok(s@),
        Err(e) => Err(e@),
    }
}

/// Who is at the other end of a connection to `dest_network`.
pub fn identify_source(
    peer: IpAddress,
    dest_network: u128,
    routes: &RoutingTable,
) -> (r: Result<MeshSource, AuthzFailure>)
    ensures
        source_result(r) == identified(peer, dest_network, routes@),
{
    let ip = match peer {
        IpAddress::V4(ip) => ip,
        IpAddress::V6(_) => {
            return Err(AuthzFailure::UnknownMeshSource);
        },
    };
    let device = match routes.lookup_ip(ip) {
        Some(device) => device,
        None => {
            return Err(AuthzFailure::UnknownMeshSource);
        },
    };
    let member = match routes.lookup_endpoint_in(dest_network, device.endpoint_hex.as_str()) {
        Some(member) => member,
        None => {
            return Err(AuthzFailure::NotCurrentMember);
        },
    };
    let hostname = if text::is_empty(member.hostname.as_str()) {
        None
    } else {
        Some(member.hostname.clone())
    };
    Ok(
        MeshSource {
            endpoint: member.endpoint_hex.clone(),
            hostname,
            network_id: member.network_id,
            network_name: member.network_name.clone(),
            tags: text::clone_all(&member.tags),
        },
    )
}

/// Names of accounts are equal up to the case of letters on Windows, exactly elsewhere.
pub open spec fn user_meets(platform: Platform, allowed: Seq<char>, requested: Seq<char>) -> bool {
    if platform is Windows {
        text::same_ignoring_case(allowed, requested)
    } else {
        allowed == requested
    }
}

fn user_matches(platform: Platform, allowed: &str, requested: &str) -> (r: bool)
    ensures
        r == user_meets(platform, allowed@, requested@),
{
    if platform == Platform::Windows {
        text::eq_ignore_case(allowed, requested)
    } else {
        text::same(allowed, requested)
    }
}

/// One of the allowed names is the requested one.
pub open spec fn user_allowed(
    platform: Platform,
    allowed: Set<Seq<char>>,
    requested: Seq<char>,
) -> bool {
    exists|u: Seq<char>| #[trigger] allowed.contains(u) && user_meets(platform, u, requested)
}

/// The session of a login that is granted, if the account exists.
pub open spec fn finished(
    source: SourceView,
    dest_network: u128,
    requested: Seq<char>,
    account: Result<AccountView, AccountError>,
    mode: AuthorizationMode,
    recording: RecordingView,
    check: CheckState,
) -> Result<SessionView, FailureView> {
    match account {
        Err(_) => Err(FailureView::AccountMissing { requested }),
        Ok(account) => Ok(
            SessionView {
                source_endpoint: source.endpoint,
                source_hostname: source.hostname,
                source_network: source.network_id,
                dest_network,
                dest_user: account.username,
                account,
                mode,
                capabilities: capabilities::conservative(),
                recording,
                check,
            },
        ),
    }
}

/// A Direct login: nobody may log in where no user is allowed; else the
/// requested user is an allowed one, and has an account.
pub open spec fn direct_session(
    platform: Platform,
    source: SourceView,
    dest_network: u128,
    requested: Seq<char>,
    allowed: Set<Seq<char>>,
    account: Result<AccountView, AccountError>,
) -> Result<SessionView, FailureView> {
    if allowed == Set::<Seq<char>>::empty() {
        Err(FailureView::ServiceDisabled)
    } else if !user_allowed(platform, allowed, requested) {
        Err(FailureView::UserNotAllowed { requested })
    } else {
        finished(
            source,
            dest_network,
            requested,
            account,
            AuthorizationMode::Direct,
            no_recording(),
            CheckState::NotRequired,
        )
    }
}

fn finish(
    source: &MeshSource,
    dest_network: u128,
    requested_user: &str,
    account: Result<LocalAccount, AccountError>,
    mode: AuthorizationMode,
    capabilities: SshCapabilities,
    recording: RecordingPolicy,
    check: CheckState,
) -> (r: Result<AuthorizedSession, AuthzFailure>)
    requires
        capabilities == capabilities::conservative(),
    ensures
        session_result(r) == finished(
            source@,
            dest_network,
            requested_user@,
            account::account_result(account),
            mode,
            recording@,
            check,
        ),
{
    let account = match account {
        Ok(account) => account,
        Err(_) => {
            return Err(
                AuthzFailure::AccountMissing { requested: requested_user.to_string() },
            );
        },
    };
    Ok(
        AuthorizedSession {
            source_endpoint: source.endpoint.clone(),
            source_hostname: text::clone_opt(&source.hostname),
            source_network: source.network_id,
            dest_network,
            dest_user: account.username.clone(),
            account,
            mode,
            capabilities,
            recording,
            check,
        },
    )
}

/// Whether `requested` is one of the allowed users.
pub fn is_user_allowed(platform: Platform, allowed_users: &NameSet, requested: &str) -> (r: bool)
    ensures
        r == user_allowed(platform, allowed_users@, requested@),
{
    let list = allowed_users.as_slice();
    let ghost all = text::views(list@);
    let mut i: usize = 0;
    while i < list.len()
        invariant
            i <= list@.len(),
            all == text::views(list@),
            all.to_set() == allowed_users@,
            forall|k: int| 0 <= k < i ==> !user_meets(platform, #[trigger] all[k], requested@),
        decreases list@.len() - i,
    {
        assert(all[i as int] == list@[i as int]@);
        if user_matches(platform, list[i].as_str(), requested) {
            assert(allowed_users@.contains(all[i as int]));
            return true;
        }
        i = i + 1;
    }
    proof {
        if user_allowed(platform, allowed_users@, requested@) {
            let u = choose|u: Seq<char>| #[trigger]
                allowed_users@.contains(u) && user_meets(platform, u, requested@);
            let k = choose|k: int| 0 <= k < all.len() && all[k] == u;
            assert(!user_meets(platform, all[k], requested@));
        }
    }
    false
}

/// Authorizes a login on a Direct network. `account` is what the requested
/// user resolves to.
pub fn authorize_direct(
    platform: Platform,
    source: &MeshSource,
    dest_network: u128,
    requested_user: &str,
    allowed_users: &NameSet,
    account: Result<LocalAccount, AccountError>,
) -> (r: Result<AuthorizedSession, AuthzFailure>)
    ensures
        session_result(r) == direct_session(
            platform,
            source@,
            dest_network,
            requested_user@,
            allowed_users@,
            account::account_result(account),
        ),
{
    if allowed_users.is_empty() {
        return Err(AuthzFailure::ServiceDisabled);
    }
    if !is_user_allowed(platform, allowed_users, requested_user) {
        return Err(AuthzFailure::UserNotAllowed { requested: requested_user.to_string() });
    }
    finish(
        source,
        dest_network,
        requested_user,
        account,
        AuthorizationMode::Direct,
        SshCapabilities::direct(),
        RecordingPolicy::none(),
        CheckState::NotRequired,
    )
}

/// What the managed policy is asked about a login.
#[derive(Debug)]
pub struct SshEvalCtx<'a> {
    pub src_endpoint_hex: &'a str,
    pub src_tags: &'a [String],
    pub src_network: &'a str,
    pub dst_endpoint_hex: &'a str,
    pub dst_tags: &'a [String],
    pub dst_network: &'a str,
    pub requested_user: &'a str,
    pub local_accounts: &'a [String],
}

/// What the managed policy is asked about a login: the source as it is known
/// in the mesh, this device, the requested user and the interactive accounts.
pub fn managed_question<'a>(
    source: &'a MeshSource,
    dest_network_name: &'a str,
    dest_endpoint_hex: &'a str,
    dest_tags: &'a [String],
    requested_user: &'a str,
    local_accounts: &'a [String],
) -> (r: SshEvalCtx<'a>)
    ensures
        r.src_endpoint_hex@ == source@.endpoint,
        text::views(r.src_tags@) == source@.tags,
        r.src_network@ == source@.network_name,
        r.dst_endpoint_hex@ == dest_endpoint_hex@,
        r.dst_tags@ == dest_tags@,
        r.dst_network@ == dest_network_name@,
        r.requested_user@ == requested_user@,
        r.local_accounts@ == local_accounts@,
{
    SshEvalCtx {
        src_endpoint_hex: source.endpoint.as_str(),
        src_tags: source.tags.as_slice(),
        src_network: source.network_name.as_str(),
        dst_endpoint_hex: dest_endpoint_hex,
        dst_tags: dest_tags,
        dst_network: dest_network_name,
        requested_user,
        local_accounts,
    }
}

/// How long a check holds where the rule does not say, in seconds.
pub const DEFAULT_CHECK_PERIOD_SECS: u64 = 3600;

/// What a rule asks of the user.
pub open spec fn check_of(rule: SshPolicyRule) -> CheckState {
    if rule.action is Check {
        CheckState::Required {
            period_secs: match rule.check_period_secs {
                Some(n) => n,
                None => DEFAULT_CHECK_PERIOD_SECS,
            },
        }
    } else {
        CheckState::NotRequired
    }
}

pub open spec fn recording_of(rule: SshPolicyRule) -> RecordingView {
    RecordingView {
        record: rule.record,
        enforce_recorder: rule.enforce_recorder,
        recorder: opt_selector(rule.recorder),
    }
}

/// A Managed login: the rule that applies grants it, and the user has an account.
pub open spec fn managed_session(
    source: SourceView,
    dest_network: u128,
    requested: Seq<char>,
    rule: Option<SshPolicyRule>,
    account: Result<AccountView, AccountError>,
) -> Result<SessionView, FailureView> {
    match rule {
        None => Err(FailureView::ManagedDeny),
        Some(rule) => if rule.action is Deny {
            Err(FailureView::ManagedDeny)
        } else {
            finished(
                source,
                dest_network,
                requested,
                account,
                AuthorizationMode::Managed,
                recording_of(rule),
                check_of(rule),
            )
        },
    }
}

/// Authorizes a login on a Managed network. `rule` is the one that the policy
/// gives for [`managed_question`], `account` what the requested user resolves to.
pub fn authorize_managed(
    source: &MeshSource,
    dest_network: u128,
    requested_user: &str,
    rule: Option<&SshPolicyRule>,
    account: Result<LocalAccount, AccountError>,
) -> (r: Result<AuthorizedSession, AuthzFailure>)
    ensures
        session_result(r) == managed_session(
            source@,
            dest_network,
            requested_user@,
            match rule {
                Some(rule) => Some(*rule),
                None => None,
            },
            account::account_result(account),
        ),
{
    let rule = match rule {
        Some(rule) => rule,
        None => {
            return Err(AuthzFailure::ManagedDeny);
        },
    };
    if rule.action == SshAction::Deny {
        return Err(AuthzFailure::ManagedDeny);
    }
    let check = if rule.action == SshAction::Check {
        CheckState::Required {
            period_secs: rule.check_period_secs.unwrap_or(DEFAULT_CHECK_PERIOD_SECS),
        }
    } else {
        CheckState::NotRequired
    };
    finish(
        source,
        dest_network,
        requested_user,
        account,
        AuthorizationMode::Managed,
        SshCapabilities::managed(),
        RecordingPolicy {
            record: rule.record,
            enforce_recorder: rule.enforce_recorder,
            recorder: clone_selector(&rule.recorder),
        },
        check,
    )
}

/// No session without an account: whoever asks, and whatever the policy says,
/// a user that does not resolve is refused.
pub proof fn law_missing_account_fails_closed(
    platform: Platform,
    source: SourceView,
    dest_network: u128,
    requested: Seq<char>,
    allowed: Set<Seq<char>>,
    rule: Option<SshPolicyRule>,
    error: AccountError,
)
    ensures
        direct_session(platform, source, dest_network, requested, allowed, Err(error)) is Err,
        managed_session(source, dest_network, requested, rule, Err(error)) is Err,
{
}

/// A Direct session is for an allowed user, runs as the account that this user
/// resolves to, and forwards nothing.
pub proof fn law_direct_session_is_allowed(
    platform: Platform,
    source: SourceView,
    dest_network: u128,
    requested: Seq<char>,
    allowed: Set<Seq<char>>,
    account: Result<AccountView, AccountError>,
)
    requires
        direct_session(platform, source, dest_network, requested, allowed, account) is Ok,
    ensures
        user_allowed(platform, allowed, requested),
        account is Ok,
        ({
            let s = direct_session(
                platform,
                source,
                dest_network,
                requested,
                allowed,
                account,
            )->Ok_0;
            &&& s.account == account->Ok_0
            &&& s.source_endpoint == source.endpoint
            &&& !s.capabilities.local_forward
            &&& !s.capabilities.remote_forward
            &&& !s.capabilities.agent_forward
        }),
{
}

proof fn lemma_found_device_is_member(
    members: Seq<MemberView>,
    network_id: u128,
    endpoint: Seq<char>,
)
    ensures
        routes::device_in(members, network_id, endpoint) matches Some(m) ==> {
            &&& m.network_id == network_id
            &&& m.endpoint == endpoint
            &&& members.contains(m)
        },
    decreases members.len(),
{
    if members.len() > 0 {
        let rest = members.drop_first();
        lemma_found_device_is_member(rest, network_id, endpoint);
        if let Some(m) = routes::device_in(rest, network_id, endpoint) {
            let k = choose|k: int| 0 <= k < rest.len() && rest[k] == m;
            assert(members[k + 1] == m);
        }
        assert(members.contains(members[0]));
    }
}

/// A source that is identified is a current member of the destination network.
pub proof fn law_identified_source_is_a_member(
    peer: IpAddress,
    dest_network: u128,
    members: Seq<MemberView>,
)
    ensures
        identified(peer, dest_network, members) matches Ok(s) ==> {
            &&& s.network_id == dest_network
            &&& exists|m: MemberView| #[trigger]
                members.contains(m) && s == source_of(m) && m.network_id == dest_network
        },
{
    if let Ok(_) = identified(peer, dest_network, members) {
        let device = routes::with_ip(members, peer->V4_0)->0;
        lemma_found_device_is_member(members, dest_network, device.endpoint);
    }
}

/// A Managed login is denied where no rule applies or the rule says so. Else the
/// session is the rule's: it is recorded as the rule says, by the recorder that
/// the rule names and with its word on whether it may run unrecorded; and it is
/// checked if the rule says so, for the period of the rule or for an hour.
pub proof fn law_managed_session_is_the_rules(
    source: SourceView,
    dest_network: u128,
    requested: Seq<char>,
    rule: SshPolicyRule,
    account: AccountView,
    error: AccountError,
)
    ensures
        managed_session(source, dest_network, requested, None, Ok(account)) == Err::<
            SessionView,
            FailureView,
        >(FailureView::ManagedDeny),
        rule.action is Deny ==> managed_session(
            source,
            dest_network,
            requested,
            Some(rule),
            Ok(account),
        ) == Err::<SessionView, FailureView>(FailureView::ManagedDeny),
        !(rule.action is Deny) ==> managed_session(
            source,
            dest_network,
            requested,
            Some(rule),
            Err(error),
        ) == Err::<SessionView, FailureView>(FailureView::AccountMissing { requested }),
        !(rule.action is Deny) ==> (managed_session(
            source,
            dest_network,
            requested,
            Some(rule),
            Ok(account),
        ) matches Ok(s) && {
            &&& s.recording.record == rule.record
            &&& s.recording.enforce_recorder == rule.enforce_recorder
            &&& match rule.recorder {
                Some(recorder) => s.recording.recorder == Some(recorder@),
                None => s.recording.recorder is None,
            }
            &&& match (rule.action, rule.check_period_secs) {
                (SshAction::Check, Some(n)) => s.check == (CheckState::Required {
                    period_secs: n,
                }),
                (SshAction::Check, None) => s.check == (CheckState::Required {
                    period_secs: 3600,
                }),
                _ => s.check is NotRequired,
            }
            &&& s.mode is Managed
            &&& s.account == account
            &&& s.dest_user == account.username
            &&& s.source_endpoint == source.endpoint
            &&& s.source_hostname == source.hostname
            &&& s.source_network == source.network_id
            &&& s.dest_network == dest_network
        }),
{
}

/// A Direct login is granted exactly if one of the allowed names is the
/// requested one, up to the case of letters on Windows, and the account exists.
/// The session is neither recorded nor checked.
pub proof fn law_direct_session_is_the_lists(
    platform: Platform,
    source: SourceView,
    dest_network: u128,
    requested: Seq<char>,
    allowed: Set<Seq<char>>,
    name: Seq<char>,
    account: Result<AccountView, AccountError>,
)
    ensures
        ({
            let r = direct_session(platform, source, dest_network, requested, allowed, account);
            let listed = exists|u: Seq<char>| #[trigger]
                allowed.contains(u) && (u == requested || (platform is Windows
                    && text::same_ignoring_case(u, requested)));
            &&& r is Ok <==> listed && account is Ok
            &&& (forall|u: Seq<char>| !#[trigger] allowed.contains(u)) ==> r
                == Err::<SessionView, FailureView>(FailureView::ServiceDisabled)
            &&& allowed.contains(name) && !listed ==> r == Err::<SessionView, FailureView>(
                FailureView::UserNotAllowed { requested },
            )
            &&& listed && account is Err ==> r == Err::<SessionView, FailureView>(
                FailureView::AccountMissing { requested },
            )
            &&& r matches Ok(s) ==> {
                &&& !s.recording.record
                &&& !s.recording.enforce_recorder
                &&& s.recording.recorder is None
                &&& s.check is NotRequired
                &&& s.mode is Direct
                &&& s.account == account->Ok_0
                &&& s.dest_user == account->Ok_0.username
                &&& s.source_endpoint == source.endpoint
                &&& s.source_hostname == source.hostname
                &&& s.source_network == source.network_id
                &&& s.dest_network == dest_network
            }
        }),
{
    if forall|u: Seq<char>| !#[trigger] allowed.contains(u) {
        assert(allowed =~= Set::empty());
    }
    if exists|u: Seq<char>| #[trigger]
        allowed.contains(u) && (u == requested || (platform is Windows && text::same_ignoring_case(
            u,
            requested,
        ))) {
        let u = choose|u: Seq<char>| #[trigger]
            allowed.contains(u) && (u == requested || (platform is Windows
                && text::same_ignoring_case(u, requested)));
        assert(user_meets(platform, u, requested));
        assert(user_allowed(platform, allowed, requested));
    }
    if user_allowed(platform, allowed, requested) {
        let u = choose|u: Seq<char>| #[trigger]
            allowed.contains(u) && user_meets(platform, u, requested);
        assert(allowed.contains(u));
    }
}

/// A granted session may run a shell, commands and SFTP and set variables, and
/// forwards nothing, whoever granted it.
pub proof fn law_sessions_are_conservative(
    platform: Platform,
    source: SourceView,
    dest_network: u128,
    requested: Seq<char>,
    allowed: Set<Seq<char>>,
    rule: Option<SshPolicyRule>,
    account: Result<AccountView, AccountError>,
)
    ensures
        direct_session(platform, source, dest_network, requested, allowed, account) matches Ok(s)
            ==> {
            &&& s.capabilities.shell && s.capabilities.commands && s.capabilities.sftp
            &&& s.capabilities.env_forward
            &&& !s.capabilities.local_forward && !s.capabilities.remote_forward
            &&& !s.capabilities.agent_forward
        },
        managed_session(source, dest_network, requested, rule, account) matches Ok(s) ==> {
            &&& s.capabilities.shell && s.capabilities.commands && s.capabilities.sftp
            &&& s.capabilities.env_forward
            &&& !s.capabilities.local_forward && !s.capabilities.remote_forward
            &&& !s.capabilities.agent_forward
        },
{
}

/// Who is at the other end: the device that has the address somewhere in the
/// mesh, as the member of the destination network that it is. It is unknown if
/// nobody has the address, and no member if that device is not in the network.
pub proof fn law_source_is_the_device_with_the_address(
    ip: u32,
    ip6: u128,
    dest_network: u128,
    members: Seq<MemberView>,
)
    ensures
        identified(IpAddress::V6(ip6), dest_network, members) == Err::<SourceView, FailureView>(
            FailureView::UnknownMeshSource,
        ),
        match identified(IpAddress::V4(ip), dest_network, members) {
            Err(FailureView::UnknownMeshSource) => forall|k: int|
                0 <= k < members.len() ==> (#[trigger] members[k]).ip != ip,
            Err(FailureView::NotCurrentMember) => exists|i: int|
                0 <= i < members.len() && (#[trigger] members[i]).ip == ip && forall|k: int|
                    0 <= k < members.len() ==> (#[trigger] members[k]).network_id != dest_network
                        || members[k].endpoint != members[i].endpoint,
            Err(_) => false,
            Ok(s) => exists|i: int, j: int|
                0 <= i < members.len() && 0 <= j < members.len() && (#[trigger] members[i]).ip == ip
                    && (#[trigger] members[j]).endpoint == members[i].endpoint
                    && members[j].network_id == dest_network && s.endpoint == members[j].endpoint
                    && s.network_id == dest_network && s.network_name == members[j].network_name
                    && s.tags == members[j].tags && (members[j].hostname.len() == 0
                    ==> s.hostname is None) && (members[j].hostname.len() > 0 ==> s.hostname
                    == Some(members[j].hostname)),
        },
{
    routes::law_found_by_address(members, ip);
    if let Some(device) = routes::with_ip(members, ip) {
        let i = choose|i: int|
            0 <= i < members.len() && #[trigger] members[i] == device && device.ip == ip
                && forall|k: int| 0 <= k < i ==> (#[trigger] members[k]).ip != ip;
        routes::law_found_in_network(members, dest_network, device.endpoint);
        if let Some(m) = routes::device_in(members, dest_network, device.endpoint) {
            let j = choose|j: int|
                0 <= j < members.len() && #[trigger] members[j] == m && m.network_id
                    == dest_network && m.endpoint == device.endpoint && forall|k: int|
                    0 <= k < j ==> (#[trigger] members[k]).network_id != dest_network
                        || members[k].endpoint != device.endpoint;
            assert(members[i].ip == ip && members[j].endpoint == members[i].endpoint);
        }
    }
}

/// The users of a Direct network are the names of its configuration without the
/// white space around them, where SSH is on; else it has no policy.
pub proof fn law_direct_users_are_the_configured_ones(ssh: DirectSshSection, name: Seq<char>)
    ensures
        direct_policy(ssh) is Some <==> ssh.enabled,
        ssh.enabled ==> (direct_policy(ssh) matches Some(PolicyView::Direct { allowed_users })
            && (allowed_users.contains(name) <==> exists|i: int|
            0 <= i < ssh.users@.len() && text::trimmed((#[trigger] ssh.users@[i])@) == name)),
{
    let users = text::views(ssh.users@);
    let all = users.map_values(|u: Seq<char>| text::trimmed(u));
    if all.contains(name) {
        let k = choose|k: int| 0 <= k < all.len() && all[k] == name;
        assert(text::trimmed(ssh.users@[k]@) == name);
    }
    if exists|i: int| 0 <= i < ssh.users@.len() && text::trimmed((#[trigger] ssh.users@[i])@) == name
    {
        let i = choose|i: int|
            0 <= i < ssh.users@.len() && text::trimmed((#[trigger] ssh.users@[i])@) == name;
        assert(all[i] == name);
    }
}

/// What a session shows of itself is what it holds.
pub proof fn law_sessions_show_what_they_hold(s: AuthorizedSession)
    ensures
        s@.source_endpoint == s.source_endpoint@,
        s@.source_network == s.source_network,
        s@.dest_network == s.dest_network,
        s@.dest_user == s.dest_user@,
        s@.account == s.account@,
        s@.mode == s.mode,
        s@.capabilities == s.capabilities,
        s@.recording.record == s.recording.record,
        s@.recording.enforce_recorder == s.recording.enforce_recorder,
        s@.recording.recorder is Some <==> s.recording.recorder is Some,
        s.recording.recorder is Some ==> s@.recording.recorder == Some(s.recording.recorder->0@),
        s@.check == s.check,
{
}

/// What a result shows: the session or the source that was found, or the reason
/// for which there is none, with the name that was asked for where it has one.
pub proof fn law_results_show_their_reasons(
    session: AuthorizedSession,
    source: MeshSource,
    failure: AuthzFailure,
)
    ensures
        session_result(Ok(session)) == Ok::<SessionView, FailureView>(session@),
        session_result(Err(failure)) == Err::<SessionView, FailureView>(failure@),
        source_result(Ok(source)) == Ok::<SourceView, FailureView>(source@),
        source_result(Err(failure)) == Err::<SourceView, FailureView>(failure@),
        match failure {
            AuthzFailure::UnknownMeshSource => failure@ is UnknownMeshSource,
            AuthzFailure::NotCurrentMember => failure@ is NotCurrentMember,
            AuthzFailure::ServiceDisabled => failure@ is ServiceDisabled,
            AuthzFailure::UserNotAllowed { requested } => failure@ == (
            FailureView::UserNotAllowed { requested: requested@ }),
            AuthzFailure::AccountMissing { requested } => failure@ == (
            FailureView::AccountMissing { requested: requested@ }),
            AuthzFailure::ManagedDeny => failure@ is ManagedDeny,
        },
        source@.endpoint == source.endpoint@,
        source@.network_id == source.network_id,
        source@.network_name == source.network_name@,
{
}

} // verus!
