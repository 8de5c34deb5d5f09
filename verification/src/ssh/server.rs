//! One SSH connection: who logs in, and what its channels may do. The steps
//! that wait for something outside are told what came of it.
use std::collections::HashSet;
use vstd::prelude::*;
use super::account;
use super::account::{AccountError, AccountView, LocalAccount};
use super::authorize;
use super::authorize::{
    AuthorizedSession, AuthzFailure, BindingPolicy, CheckState, FailureView, PolicyView,
    RecordingView, SessionView,
};
use super::launch;
use super::launch::{LaunchRequest, LaunchView, Variable};
use super::listener::{BindingView, SshBinding};
use super::session_child;
use super::shell_session;
use super::shell_session::{ShellAction, ShellSession};
use crate::ids;
use crate::platform::Platform;
use crate::policy::SshPolicyRule;
use crate::routes::{IpAddress, MemberView, RoutingTable};
use crate::text;

verus! {

broadcast use vstd::std_specs::hash::group_hash_axioms;

/// How long a check holds before a login says otherwise, in seconds.
pub const INITIAL_CHECK_PERIOD_SECS: u64 = 3600;

/// What a login is answered, or what has to be found out before it is.
#[derive(Debug)]
pub enum AuthAction {
    Accept,
    /// Refused, and no method is offered.
    RejectForGood,
    /// Refused, and only keyboard-interactive is offered.
    RejectToKeyboard,
    /// Refused; the methods stay as they were.
    Reject,
    /// The control plane is asked whether the source has passed a check within
    /// the period. The answer goes to the step that follows.
    Verify { source: String, period_secs: u64 },
    /// The control plane is asked where the user can authenticate again.
    Mint { source: String, period_secs: u64 },
    /// The user is told to authenticate again and to press Enter.
    Prompt { instructions: String },
}

pub enum AuthView {
    Accept,
    RejectForGood,
    RejectToKeyboard,
    Reject,
    Verify { source: Seq<char>, period_secs: u64 },
    Mint { source: Seq<char>, period_secs: u64 },
    Prompt { instructions: Seq<char> },
}

impl View for AuthAction {
    type V = AuthView;

    open spec fn view(&self) -> AuthView {
        match *self {
            AuthAction::Accept => AuthView::Accept,
            AuthAction::RejectForGood => AuthView::RejectForGood,
            AuthAction::RejectToKeyboard => AuthView::RejectToKeyboard,
            AuthAction::Reject => AuthView::Reject,
            AuthAction::Verify { source, period_secs } => AuthView::Verify {
                source: source@,
                period_secs,
            },
            AuthAction::Mint { source, period_secs } => AuthView::Mint {
                source: source@,
                period_secs,
            },
            AuthAction::Prompt { instructions } => AuthView::Prompt {
                instructions: instructions@,
            },
        }
    }
}

/// The state of a connection.
pub struct HandlerView {
    pub binding: BindingView,
    pub peer: IpAddress,
    pub authorized: Option<SessionView>,
    /// A session whose check is being asked for.
    pub checking: Option<SessionView>,
    pub pending_url: Option<Seq<char>>,
    pub check_period_secs: u64,
    /// Channels that are open and were not handed to a subsystem.
    pub channels: Set<u32>,
    /// Channels whose data goes to a session's terminal.
    pub inputs: Set<u32>,
    /// Channels whose terminal can be resized.
    pub resizable: Set<u32>,
    pub term: Seq<char>,
    pub width: u16,
    pub height: u16,
    pub env_vars: Seq<Variable>,
}

pub open spec fn opt_session(s: Option<AuthorizedSession>) -> Option<SessionView> {
    match s {
        Some(s) => Some(s@),
        None => None,
    }
}

pub open spec fn new_handler(binding: BindingView, peer: IpAddress) -> HandlerView {
    HandlerView {
        binding,
        peer,
        authorized: None,
        checking: None,
        pending_url: None,
        check_period_secs: INITIAL_CHECK_PERIOD_SECS,
        channels: Set::empty(),
        inputs: Set::empty(),
        resizable: Set::empty(),
        term: "xterm-256color"@,
        width: 80,
        height: 24,
        env_vars: Seq::empty(),
    }
}

/// One SSH connection.
pub struct SshHandler {
    binding: SshBinding,
    peer: IpAddress,
    authorized: Option<AuthorizedSession>,
    checking: Option<AuthorizedSession>,
    pending_reauth_url: Option<String>,
    check_period_secs: u64,
    channels: HashSet<u32>,
    inputs: HashSet<u32>,
    resizable: HashSet<u32>,
    term: String,
    width: u16,
    height: u16,
    env_vars: ForwardedVars,
}

impl View for SshHandler {
    type V = HandlerView;

    closed spec fn view(&self) -> HandlerView {
        HandlerView {
            binding: self.binding@,
            peer: self.peer,
            authorized: opt_session(self.authorized),
            checking: opt_session(self.checking),
            pending_url: text::opt_string(self.pending_reauth_url),
            check_period_secs: self.check_period_secs,
            channels: self.channels@,
            inputs: self.inputs@,
            resizable: self.resizable@,
            term: self.term@,
            width: self.width,
            height: self.height,
            env_vars: self.env_vars@,
        }
    }
}

/// What is asked about a login, and what the policy of its network says.
pub open spec fn authorization(
    platform: Platform,
    h: HandlerView,
    user: Seq<char>,
    members: Seq<MemberView>,
    rule: Option<SshPolicyRule>,
    account: Result<AccountView, AccountError>,
) -> Result<SessionView, FailureView> {
    match authorize::identified(h.peer, h.binding.network_id, members) {
        Err(e) => Err(e),
        Ok(source) => match h.binding.policy {
            PolicyView::Direct { allowed_users } => authorize::direct_session(
                platform,
                source,
                h.binding.network_id,
                user,
                allowed_users,
                account,
            ),
            PolicyView::Managed => authorize::managed_session(
                source,
                h.binding.network_id,
                user,
                rule,
                account,
            ),
        },
    }
}

/// A login by the mesh alone: refused for good, granted, or subject to a check.
pub open spec fn login(h: HandlerView, outcome: Result<SessionView, FailureView>) -> (
    AuthView,
    HandlerView,
) {
    match outcome {
        Err(_) => (AuthView::RejectForGood, h),
        Ok(session) => match session.check {
            CheckState::NotRequired => (
                AuthView::Accept,
                HandlerView { authorized: Some(session), ..h },
            ),
            CheckState::Required { period_secs } => (
                AuthView::Verify { source: session.source_endpoint, period_secs },
                HandlerView {
                    check_period_secs: period_secs,
                    checking: Some(session),
                    ..h
                },
            ),
        },
    }
}

/// A login whose check passed is granted; else a place to authenticate is asked for.
pub open spec fn login_checked(h: HandlerView, passed: bool) -> (AuthView, HandlerView) {
    match h.checking {
        None => (AuthView::Reject, h),
        Some(session) => if passed {
            (AuthView::Accept, HandlerView { authorized: Some(session), checking: None, ..h })
        } else {
            (
                AuthView::Mint {
                    source: session.source_endpoint,
                    period_secs: h.check_period_secs,
                },
                h,
            )
        },
    }
}

/// With a place to authenticate the login goes on by keyboard; else it is refused.
pub open spec fn login_minted(h: HandlerView, url: Option<Seq<char>>) -> (AuthView, HandlerView) {
    match (h.checking, url) {
        (Some(session), Some(url)) => (
            AuthView::RejectToKeyboard,
            HandlerView {
                pending_url: Some(url),
                authorized: Some(session),
                checking: None,
                ..h
            },
        ),
        _ => (AuthView::Reject, HandlerView { checking: None, ..h }),
    }
}

pub open spec fn reauth_text(url: Seq<char>) -> Seq<char> {
    "Re-authentication required.\nOpen: "@ + url + "\nThen press Enter."@
}

pub open spec fn waiting_text(url: Seq<char>) -> Seq<char> {
    "Still waiting for authentication.\nOpen: "@ + url + "\nThen press Enter."@
}

/// A login by keyboard: only on a Managed network, and only while a place to
/// authenticate is pending. The first request prompts, an answer asks again.
pub open spec fn keyboard(h: HandlerView, answered: bool) -> AuthView {
    if !(h.binding.policy is Managed) {
        AuthView::RejectForGood
    } else {
        match (h.pending_url, h.authorized) {
            (Some(url), Some(session)) => if answered {
                AuthView::Verify {
                    source: session.source_endpoint,
                    period_secs: h.check_period_secs,
                }
            } else {
                AuthView::Prompt { instructions: reauth_text(url) }
            },
            _ => AuthView::Reject,
        }
    }
}

/// A login by keyboard is granted once the check passes; else it prompts again.
pub open spec fn keyboard_checked(h: HandlerView, passed: bool) -> (AuthView, HandlerView) {
    match (h.binding.policy, h.pending_url, h.authorized) {
        (PolicyView::Managed, Some(url), Some(_)) => if passed {
            (AuthView::Accept, HandlerView { pending_url: None, ..h })
        } else {
            (AuthView::Prompt { instructions: waiting_text(url) }, h)
        },
        _ => (AuthView::Reject, h),
    }
}

/// Whether the control plane says that a check has passed, by the status of its answer.
pub fn check_passed(status: Option<&str>) -> (r: bool)
    ensures
        r == (text::opt_view(status) == Some("ok"@)),
{
    match status {
        Some(s) => text::same(s, "ok"),
        None => false,
    }
}

/// The place to authenticate in an answer of the control plane, unless its
/// status says that there is nothing to do.
pub fn reauth_url(status: Option<&str>, url: Option<&str>) -> (r: Option<String>)
    ensures
        text::opt_string(r) == (if text::opt_view(status) == Some("ok"@) {
            None
        } else {
            text::opt_view(url)
        }),
{
    if check_passed(status) {
        return None;
    }
    match url {
        Some(u) => Some(u.to_string()),
        None => None,
    }
}

/// A size that a client asks for, as 16 bits; none is one.
pub open spec fn terminal_size(n: u32) -> u16 {
    ((if n == 0 {
        1
    } else {
        n
    }) % 65536) as u16
}

fn fit_size(n: u32) -> (r: u16)
    ensures
        r == terminal_size(n),
{
    let m: u32 = if n == 0 {
        1
    } else {
        n
    };
    (m % 65536) as u16
}

/// The variables that a client may set.
pub open spec fn may_forward(name: Seq<char>) -> bool {
    ||| name == "LANG"@
    ||| name == "LC_ALL"@
    ||| name == "LC_CTYPE"@
    ||| name == "LC_MESSAGES"@
    ||| name == "COLORTERM"@
    ||| name == "TERM_PROGRAM"@
    ||| name == "TERM_PROGRAM_VERSION"@
}

fn is_forwardable(name: &str) -> (r: bool)
    ensures
        r == may_forward(name@),
{
    text::same(name, "LANG") || text::same(name, "LC_ALL") || text::same(name, "LC_CTYPE")
        || text::same(name, "LC_MESSAGES") || text::same(name, "COLORTERM") || text::same(
        name,
        "TERM_PROGRAM",
    ) || text::same(name, "TERM_PROGRAM_VERSION")
}

pub open spec fn is_ascii(bytes: Seq<u8>) -> bool {
    forall|i: int| 0 <= i < bytes.len() ==> #[trigger] bytes[i] < 128
}

pub open spec fn ascii_text(bytes: Seq<u8>) -> Seq<char> {
    bytes.map_values(|b: u8| b as char)
}

/// The text that `String::from_utf8_lossy` makes of bytes.
pub uninterp spec fn lossy_text(bytes: Seq<u8>) -> Seq<char>;

/// `String::from_utf8_lossy`: bytes as text, by a rule of its own where they
/// are not UTF-8. ASCII, which is UTF-8, stays as it is.
#[verifier::external_body]
fn text_of_bytes(bytes: &[u8]) -> (r: String)
    ensures
        r@ == lossy_text(bytes@),
        is_ascii(bytes@) ==> r@ == ascii_text(bytes@),
{
    String::from_utf8_lossy(bytes).into_owned()
}

/// A shell or a command needs a login that may run it.
pub open spec fn shell_granted(h: HandlerView, is_command: bool) -> bool {
    match h.authorized {
        None => false,
        Some(s) => if is_command {
            s.capabilities.commands
        } else {
            s.capabilities.shell
        },
    }
}

/// How a login is recorded; not at all without one.
pub open spec fn recording_policy(h: HandlerView) -> RecordingView {
    match h.authorized {
        Some(s) => s.recording,
        None => authorize::no_recording(),
    }
}

/// What the control plane is told of sessions.
#[derive(Debug)]
pub enum ClientMsg {
    SshSessionStarted {
        session_id: String,
        src_endpoint_id: String,
        target_user: String,
        src_hostname: Option<String>,
        recorded: bool,
    },
    SshRecordingSaved {
        session_id: String,
        recorder_endpoint_id: String,
        duration_ms: Option<u64>,
        byte_size: u64,
        content_sha256: String,
    },
    SshSessionEnded { session_id: String, status: String, duration_ms: Option<u64> },
}

pub enum ClientMsgView {
    SshSessionStarted {
        session_id: Seq<char>,
        src_endpoint_id: Seq<char>,
        target_user: Seq<char>,
        src_hostname: Option<Seq<char>>,
        recorded: bool,
    },
    SshRecordingSaved {
        session_id: Seq<char>,
        recorder_endpoint_id: Seq<char>,
        duration_ms: Option<u64>,
        byte_size: u64,
        content_sha256: Seq<char>,
    },
    SshSessionEnded { session_id: Seq<char>, status: Seq<char>, duration_ms: Option<u64> },
}

impl View for ClientMsg {
    type V = ClientMsgView;

    open spec fn view(&self) -> ClientMsgView {
        match *self {
            ClientMsg::SshSessionStarted {
                session_id,
                src_endpoint_id,
                target_user,
                src_hostname,
                recorded,
            } => ClientMsgView::SshSessionStarted {
                session_id: session_id@,
                src_endpoint_id: src_endpoint_id@,
                target_user: target_user@,
                src_hostname: text::opt_string(src_hostname),
                recorded,
            },
            ClientMsg::SshRecordingSaved {
                session_id,
                recorder_endpoint_id,
                duration_ms,
                byte_size,
                content_sha256,
            } => ClientMsgView::SshRecordingSaved {
                session_id: session_id@,
                recorder_endpoint_id: recorder_endpoint_id@,
                duration_ms,
                byte_size,
                content_sha256: content_sha256@,
            },
            ClientMsg::SshSessionEnded { session_id, status, duration_ms } =>
                ClientMsgView::SshSessionEnded {
                    session_id: session_id@,
                    status: status@,
                    duration_ms,
                },
        }
    }
}

/// What the control plane is told when a session has ended, by itself or because it was killed.
pub fn ended_message(session_id: u128, killed: bool, duration_ms: u64) -> (r: ClientMsg)
    ensures
        r@ == (ClientMsgView::SshSessionEnded {
            session_id: ids::uuid_text(session_id),
            status: if killed {
                "killed"@
            } else {
                "ended"@
            },
            duration_ms: Some(duration_ms),
        }),
{
    ClientMsg::SshSessionEnded {
        session_id: ids::format_uuid(session_id),
        status: if killed {
            "killed".to_string()
        } else {
            "ended".to_string()
        },
        duration_ms: Some(duration_ms),
    }
}

/// What the control plane is told when a recording has been saved on this device.
pub fn saved_message(
    session_id: &str,
    self_endpoint_hex: &str,
    duration_ms: u64,
    byte_size: u64,
    sha256_hex: &str,
) -> (r: ClientMsg)
    ensures
        r@ == (ClientMsgView::SshRecordingSaved {
            session_id: session_id@,
            recorder_endpoint_id: self_endpoint_hex@,
            duration_ms: Some(duration_ms),
            byte_size,
            content_sha256: sha256_hex@,
        }),
{
    ClientMsg::SshRecordingSaved {
        session_id: session_id.to_string(),
        recorder_endpoint_id: self_endpoint_hex.to_string(),
        duration_ms: Some(duration_ms),
        byte_size,
        content_sha256: sha256_hex.to_string(),
    }
}

/// What a recording says of its session.
#[derive(Debug)]
pub struct RecordingMeta {
    pub session_id: String,
    pub src_endpoint_id: String,
    pub src_hostname: Option<String>,
    pub target_user: String,
    pub hostname: String,
    pub network_name: String,
    pub width: u16,
    pub height: u16,
    pub term: String,
}

pub struct MetaView {
    pub session_id: Seq<char>,
    pub src_endpoint_id: Seq<char>,
    pub src_hostname: Option<Seq<char>>,
    pub target_user: Seq<char>,
    pub hostname: Seq<char>,
    pub network_name: Seq<char>,
    pub width: u16,
    pub height: u16,
    pub term: Seq<char>,
}

impl View for RecordingMeta {
    type V = MetaView;

    open spec fn view(&self) -> MetaView {
        MetaView {
            session_id: self.session_id@,
            src_endpoint_id: self.src_endpoint_id@,
            src_hostname: text::opt_string(self.src_hostname),
            target_user: self.target_user@,
            hostname: self.hostname@,
            network_name: self.network_name@,
            width: self.width,
            height: self.height,
            term: self.term@,
        }
    }
}

/// Every variable is one that a client may set.
pub open spec fn all_forwardable(vars: Seq<Variable>) -> bool {
    forall|i: int| 0 <= i < vars.len() ==> may_forward((#[trigger] vars[i]).0)
}

/// Variables that a client has set and may set.
pub struct ForwardedVars {
    vars: Vec<(String, String)>,
}

impl View for ForwardedVars {
    type V = Seq<Variable>;

    closed spec fn view(&self) -> Seq<Variable> {
        launch::variables(self.vars@)
    }
}

impl ForwardedVars {
    #[verifier::type_invariant]
    spec fn forwardable(self) -> bool {
        all_forwardable(launch::variables(self.vars@))
    }

    pub fn new() -> (r: Self)
        ensures
            r@ == Seq::<Variable>::empty(),
    {
        let r = ForwardedVars { vars: Vec::new() };
        assert(r@ =~= Seq::<Variable>::empty());
        r
    }

    /// Keeps a variable, if a client may set it.
    pub fn keep(&mut self, name: &str, value: &str)
        ensures
            final(self)@ == (if may_forward(name@) {
                old(self)@.push((name@, value@))
            } else {
                old(self)@
            }),
    {
        proof {
            use_type_invariant(&*self);
        }
        if is_forwardable(name) {
            let mut vars: Vec<(String, String)> = Vec::new();
            core::mem::swap(&mut vars, &mut self.vars);
            let ghost was = launch::variables(vars@);
            vars.push((name.to_string(), value.to_string()));
            assert(launch::variables(vars@) =~= was.push((name@, value@)));
            self.vars = vars;
        }
    }

    /// A copy of the variables.
    pub fn to_vec(&self) -> (r: Vec<(String, String)>)
        ensures
            launch::variables(r@) == self@,
            all_forwardable(self@),
    {
        proof {
            use_type_invariant(self);
        }
        let mut out: Vec<(String, String)> = Vec::new();
        let ghost all = launch::variables(self.vars@);
        let mut i: usize = 0;
        while i < self.vars.len()
            invariant
                i <= self.vars@.len(),
                all == launch::variables(self.vars@),
                launch::variables(out@) == all.take(i as int),
            decreases self.vars@.len() - i,
        {
            let ghost was = launch::variables(out@);
            let pair = (self.vars[i].0.clone(), self.vars[i].1.clone());
            out.push(pair);
            assert(launch::variables(out@) =~= was.push((pair.0@, pair.1@)));
            assert(all.take(i + 1) =~= all.take(i as int).push(all[i as int]));
            i = i + 1;
        }
        assert(launch::variables(out@) =~= all);
        out
    }
}

impl SshHandler {
    /// A connection from `peer` to the service on one network.
    pub fn new(binding: SshBinding, peer: IpAddress) -> (r: Self)
        ensures
            r@ == new_handler(binding@, peer),
    {
        SshHandler {
            binding,
            peer,
            authorized: None,
            checking: None,
            pending_reauth_url: None,
            check_period_secs: INITIAL_CHECK_PERIOD_SECS,
            channels: HashSet::new(),
            inputs: HashSet::new(),
            resizable: HashSet::new(),
            term: "xterm-256color".to_string(),
            width: 80,
            height: 24,
            env_vars: ForwardedVars::new(),
        }
    }

    /// Whether a user may log in. `rule` is the one that the managed policy
    /// gives, `account` what the user resolves to.
    pub fn authorize(
        &self,
        platform: Platform,
        user: &str,
        routes: &RoutingTable,
        rule: Option<&SshPolicyRule>,
        account: Result<LocalAccount, AccountError>,
    ) -> (r: Result<AuthorizedSession, AuthzFailure>)
        ensures
            authorize::session_result(r) == authorization(
                platform,
                self@,
                user@,
                routes@,
                match rule {
                    Some(rule) => Some(*rule),
                    None => None,
                },
                account::account_result(account),
            ),
    {
        let source = match authorize::identify_source(
            self.peer,
            self.binding.network_id,
            routes,
        ) {
            Ok(source) => source,
            Err(e) => {
                return Err(e);
            },
        };
        match &self.binding.policy {
            BindingPolicy::Direct { allowed_users } => authorize::authorize_direct(
                platform,
                &source,
                self.binding.network_id,
                user,
                allowed_users,
                account,
            ),
            BindingPolicy::Managed => authorize::authorize_managed(
                &source,
                self.binding.network_id,
                user,
                rule,
                account,
            ),
        }
    }

    /// A login by the mesh alone, with what [`SshHandler::authorize`] said of it.
    pub fn auth_none(&mut self, outcome: Result<AuthorizedSession, AuthzFailure>) -> (r: AuthAction)
        ensures
            (r@, final(self)@) == login(old(self)@, authorize::session_result(outcome)),
    {
        let session = match outcome {
            Ok(session) => session,
            Err(_) => {
                return AuthAction::RejectForGood;
            },
        };
        match session.check {
            CheckState::NotRequired => {
                self.authorized = Some(session);
                AuthAction::Accept
            },
            CheckState::Required { period_secs } => {
                self.check_period_secs = period_secs;
                let source = session.source_endpoint.clone();
                self.checking = Some(session);
                AuthAction::Verify { source, period_secs }
            },
        }
    }

    /// The login goes on once the control plane has said whether the check passed.
    pub fn auth_none_checked(&mut self, passed: bool) -> (r: AuthAction)
        ensures
            (r@, final(self)@) == login_checked(old(self)@, passed),
    {
        if passed {
            match self.checking.take() {
                Some(session) => {
                    self.authorized = Some(session);
                    AuthAction::Accept
                },
                None => AuthAction::Reject,
            }
        } else {
            match &self.checking {
                Some(session) => AuthAction::Mint {
                    source: session.source_endpoint.clone(),
                    period_secs: self.check_period_secs,
                },
                None => AuthAction::Reject,
            }
        }
    }

    /// The login goes on once the control plane has said where to authenticate.
    pub fn auth_none_minted(&mut self, url: Option<String>) -> (r: AuthAction)
        ensures
            (r@, final(self)@) == login_minted(old(self)@, text::opt_string(url)),
    {
        let session = match self.checking.take() {
            Some(session) => session,
            None => {
                return AuthAction::Reject;
            },
        };
        match url {
            Some(url) => {
                self.pending_reauth_url = Some(url);
                self.authorized = Some(session);
                AuthAction::RejectToKeyboard
            },
            None => AuthAction::Reject,
        }
    }

    /// A login by keyboard: its first request, or an answer to a prompt.
    pub fn auth_keyboard_interactive(&self, answered: bool) -> (r: AuthAction)
        ensures
            r@ == keyboard(self@, answered),
    {
        if !matches!(self.binding.policy, BindingPolicy::Managed) {
            return AuthAction::RejectForGood;
        }
        let url = match &self.pending_reauth_url {
            Some(url) => url,
            None => {
                return AuthAction::Reject;
            },
        };
        let session = match &self.authorized {
            Some(session) => session,
            None => {
                return AuthAction::Reject;
            },
        };
        if !answered {
            return AuthAction::Prompt {
                instructions: text::concat(
                    "Re-authentication required.\nOpen: ",
                    url.as_str(),
                    "\nThen press Enter.",
                ),
            };
        }
        AuthAction::Verify {
            source: session.source_endpoint.clone(),
            period_secs: self.check_period_secs,
        }
    }

    /// The login by keyboard goes on once the control plane has said whether
    /// the check passed.
    pub fn auth_keyboard_checked(&mut self, passed: bool) -> (r: AuthAction)
        ensures
            (r@, final(self)@) == keyboard_checked(old(self)@, passed),
    {
        if !matches!(self.binding.policy, BindingPolicy::Managed) || self.authorized.is_none() {
            return AuthAction::Reject;
        }
        let instructions = match &self.pending_reauth_url {
            Some(url) => text::concat(
                "Still waiting for authentication.\nOpen: ",
                url.as_str(),
                "\nThen press Enter.",
            ),
            None => {
                return AuthAction::Reject;
            },
        };
        if passed {
            self.pending_reauth_url = None;
            AuthAction::Accept
        } else {
            AuthAction::Prompt { instructions }
        }
    }

    pub fn channel_open_session(&mut self, channel: u32)
        ensures
            final(self)@ == (HandlerView {
                channels: old(self)@.channels.insert(channel),
                ..old(self)@
            }),
    {
        self.channels.insert(channel);
    }

    pub fn pty_request(&mut self, term: &str, col_width: u32, row_height: u32)
        ensures
            final(self)@ == (HandlerView {
                term: term@,
                width: terminal_size(col_width),
                height: terminal_size(row_height),
                ..old(self)@
            }),
            final(self)@ == (HandlerView { term: term@, ..sized(old(self)@, col_width, row_height) }),
    {
        self.term = term.to_string();
        self.width = fit_size(col_width);
        self.height = fit_size(row_height);
    }

    /// Keeps a variable that the client may set, once it has logged in.
    pub fn env_request(&mut self, name: &str, value: &str)
        ensures
            final(self)@ == (HandlerView {
                env_vars: if (old(self)@.authorized matches Some(s) && s.capabilities.env_forward)
                    && may_forward(name@) {
                    old(self)@.env_vars.push((name@, value@))
                } else {
                    old(self)@.env_vars
                },
                ..old(self)@
            }),
            final(self)@ == variable_set(old(self)@, name@, value@),
    {
        let allowed = match &self.authorized {
            Some(s) => s.capabilities.env_forward,
            None => false,
        };
        if allowed {
            self.env_vars.keep(name, value);
        }
    }

    /// The account to serve SFTP for, where a subsystem request is granted. The
    /// channel is then handed over.
    pub fn subsystem_request(&mut self, channel: u32, name: &str) -> (r: Option<LocalAccount>)
        ensures
            ({
                let h = old(self)@;
                let granted = h.authorized matches Some(s) && s.capabilities.sftp && name@
                    == "sftp"@ && h.channels.contains(channel);
                &&& r is Some <==> granted
                &&& r matches Some(a) ==> a@ == h.authorized->0.account
                &&& final(self)@ == (if granted {
                    HandlerView { channels: h.channels.remove(channel), ..h }
                } else {
                    h
                })
            }),
            match r {
                Some(a) => sftp_account(old(self)@, channel, name@) == Some(a@),
                None => sftp_account(old(self)@, channel, name@) is None,
            },
            final(self)@ == subsystem_asked(old(self)@, channel, name@),
    {
        let account = match &self.authorized {
            Some(s) => {
                if !text::same(name, "sftp") || !s.capabilities.sftp {
                    return None;
                }
                s.account.clone()
            },
            None => {
                return None;
            },
        };
        if !self.channels.remove(&channel) {
            assert(self@.channels =~= old(self)@.channels);
            return None;
        }
        Some(account)
    }

    /// Begins a shell, or a command.
    pub fn start_shell(&self, is_command: bool) -> (r: (ShellSession, ShellAction))
        ensures
            r == shell_session::begun(
                shell_granted(self@, is_command),
                recording_policy(self@).record,
                recording_policy(self@).enforce_recorder,
            ),
    {
        match &self.authorized {
            None => ShellSession::begin(false, false, false),
            Some(s) => {
                let granted = if is_command {
                    s.capabilities.commands
                } else {
                    s.capabilities.shell
                };
                ShellSession::begin(granted, s.recording.record, s.recording.enforce_recorder)
            },
        }
    }

    /// What a shell is launched with, if it may be.
    pub fn shell_request(&self) -> (r: Option<LaunchRequest>)
        ensures
            r is Some <==> shell_granted(self@, false),
            r matches Some(req) ==> req@ == launched(self@, None) && all_forwardable(
                req@.env_vars,
            ),
    {
        match &self.authorized {
            Some(s) => {
                if s.capabilities.shell {
                    self.launch_request(None)
                } else {
                    None
                }
            },
            None => None,
        }
    }

    /// What a command is launched with, if it may be. Bytes that are no text are
    /// replaced.
    pub fn exec_request(&self, data: &[u8]) -> (r: Option<LaunchRequest>)
        ensures
            r is Some <==> shell_granted(self@, true),
            r matches Some(req) ==> req@ == launched(self@, Some(lossy_text(data@)))
                && all_forwardable(req@.env_vars),
            r is Some && is_ascii(data@) ==> r->0@ == launched(self@, Some(ascii_text(data@))),
    {
        match &self.authorized {
            Some(s) => {
                if s.capabilities.commands {
                    self.launch_request(Some(text_of_bytes(data)))
                } else {
                    None
                }
            },
            None => None,
        }
    }

    /// What a shell or the given command is launched with; nothing without a login.
    pub fn launch_request(&self, command: Option<String>) -> (r: Option<LaunchRequest>)
        ensures
            r is Some <==> self@.authorized is Some,
            r matches Some(req) ==> req@ == launched(self@, text::opt_string(command))
                && all_forwardable(req@.env_vars),
    {
        match &self.authorized {
            Some(s) => Some(
                LaunchRequest {
                    account: s.account.clone(),
                    term: self.term.clone(),
                    width: self.width,
                    height: self.height,
                    env_vars: self.env_vars.to_vec(),
                    command,
                },
            ),
            None => None,
        }
    }

    /// What a recording says of a session on this connection.
    pub fn recording_meta(&self, session_id: u128, hostname: &str) -> (r: Option<RecordingMeta>)
        ensures
            match (r, self@.authorized) {
                (Some(m), Some(s)) => m@ == (MetaView {
                    session_id: ids::uuid_text(session_id),
                    src_endpoint_id: s.source_endpoint,
                    src_hostname: s.source_hostname,
                    target_user: s.dest_user,
                    hostname: hostname@,
                    network_name: self@.binding.network_name,
                    width: self@.width,
                    height: self@.height,
                    term: self@.term,
                }),
                (None, None) => true,
                _ => false,
            },
            match r {
                Some(m) => meta_of(self@, session_id, hostname@) == Some(m@),
                None => meta_of(self@, session_id, hostname@) is None,
            },
    {
        match &self.authorized {
            Some(s) => Some(
                RecordingMeta {
                    session_id: ids::format_uuid(session_id),
                    src_endpoint_id: s.source_endpoint.clone(),
                    src_hostname: text::clone_opt(&s.source_hostname),
                    target_user: s.dest_user.clone(),
                    hostname: hostname.to_string(),
                    network_name: self.binding.network_name.clone(),
                    width: self.width,
                    height: self.height,
                    term: self.term.clone(),
                },
            ),
            None => None,
        }
    }

    /// What the control plane is told when a session has started.
    pub fn started_message(&self, session_id: u128, recorded: bool) -> (r: Option<ClientMsg>)
        ensures
            match (r, self@.authorized) {
                (Some(m), Some(s)) => m@ == (ClientMsgView::SshSessionStarted {
                    session_id: ids::uuid_text(session_id),
                    src_endpoint_id: s.source_endpoint,
                    target_user: s.dest_user,
                    src_hostname: s.source_hostname,
                    recorded,
                }),
                (None, None) => true,
                _ => false,
            },
            match r {
                Some(m) => start_of(self@, session_id, recorded) == Some(m@),
                None => start_of(self@, session_id, recorded) is None,
            },
    {
        match &self.authorized {
            Some(s) => Some(
                ClientMsg::SshSessionStarted {
                    session_id: ids::format_uuid(session_id),
                    src_endpoint_id: s.source_endpoint.clone(),
                    target_user: s.dest_user.clone(),
                    src_hostname: text::clone_opt(&s.source_hostname),
                    recorded,
                },
            ),
            None => None,
        }
    }

    /// The session that this connection has logged in for.
    pub fn session(&self) -> (r: Option<&AuthorizedSession>)
        ensures
            match r {
                Some(s) => self@.authorized == Some(s@),
                None => self@.authorized is None,
            },
    {
        self.authorized.as_ref()
    }

    /// A session runs on a channel.
    pub fn shell_started(&mut self, channel: u32, resizable: bool)
        ensures
            final(self)@ == (HandlerView {
                inputs: old(self)@.inputs.insert(channel),
                resizable: if resizable {
                    old(self)@.resizable.insert(channel)
                } else {
                    old(self)@.resizable
                },
                ..old(self)@
            }),
            final(self)@ == running_on(old(self)@, channel, resizable),
    {
        self.inputs.insert(channel);
        if resizable {
            self.resizable.insert(channel);
        }
    }

    /// The session on a channel is over.
    pub fn shell_ended(&mut self, channel: u32)
        ensures
            final(self)@ == (HandlerView {
                inputs: old(self)@.inputs.remove(channel),
                resizable: old(self)@.resizable.remove(channel),
                ..old(self)@
            }),
            final(self)@ == over_on(old(self)@, channel),
    {
        self.inputs.remove(&channel);
        self.resizable.remove(&channel);
    }

    /// The new size, where the terminal of a channel has to be told.
    pub fn window_change_request(
        &mut self,
        channel: u32,
        col_width: u32,
        row_height: u32,
    ) -> (r: Option<(u16, u16)>)
        ensures
            final(self)@ == (HandlerView {
                width: terminal_size(col_width),
                height: terminal_size(row_height),
                ..old(self)@
            }),
            r == (if old(self)@.resizable.contains(channel) {
                Some((terminal_size(col_width), terminal_size(row_height)))
            } else {
                None
            }),
            final(self)@ == sized(old(self)@, col_width, row_height),
            r == new_size(old(self)@, channel, col_width, row_height),
    {
        self.width = fit_size(col_width);
        self.height = fit_size(row_height);
        if self.resizable.contains(&channel) {
            Some((self.width, self.height))
        } else {
            None
        }
    }

    /// Whether data on a channel goes to a session.
    pub fn data(&self, channel: u32) -> (r: bool)
        ensures
            r == self@.inputs.contains(channel),
    {
        self.inputs.contains(&channel)
    }

    /// The client has sent all it will on a channel: the channel is closed and
    /// its session gets no more input.
    pub fn channel_eof(&mut self, channel: u32)
        ensures
            final(self)@ == (HandlerView {
                inputs: old(self)@.inputs.remove(channel),
                resizable: old(self)@.resizable.remove(channel),
                ..old(self)@
            }),
            final(self)@ == over_on(old(self)@, channel),
    {
        self.shell_ended(channel);
    }
}

/// A connection whose terminal has another size.
pub open spec fn sized(h: HandlerView, col_width: u32, row_height: u32) -> HandlerView {
    HandlerView {
        width: terminal_size(col_width),
        height: terminal_size(row_height),
        ..h
    }
}

/// The size that the terminal of a channel is told, if it can be resized.
pub open spec fn new_size(h: HandlerView, channel: u32, col_width: u32, row_height: u32) -> Option<
    (u16, u16),
> {
    if h.resizable.contains(channel) {
        Some((terminal_size(col_width), terminal_size(row_height)))
    } else {
        None
    }
}

/// A connection whose client sets a variable: kept where the login and the name
/// allow it.
pub open spec fn variable_set(h: HandlerView, name: Seq<char>, value: Seq<char>) -> HandlerView {
    HandlerView {
        env_vars: if (h.authorized matches Some(s) && s.capabilities.env_forward) && may_forward(
            name,
        ) {
            h.env_vars.push((name, value))
        } else {
            h.env_vars
        },
        ..h
    }
}

/// The account that SFTP is served for, where a subsystem request is granted.
pub open spec fn sftp_account(h: HandlerView, channel: u32, name: Seq<char>) -> Option<
    AccountView,
> {
    match h.authorized {
        Some(s) => if s.capabilities.sftp && name == "sftp"@ && h.channels.contains(channel) {
            Some(s.account)
        } else {
            None
        },
        None => None,
    }
}

/// A connection after a subsystem request: a channel that is granted is handed over.
pub open spec fn subsystem_asked(h: HandlerView, channel: u32, name: Seq<char>) -> HandlerView {
    if sftp_account(h, channel, name) is Some {
        HandlerView { channels: h.channels.remove(channel), ..h }
    } else {
        h
    }
}

/// A connection with a session running on a channel.
pub open spec fn running_on(h: HandlerView, channel: u32, resizable: bool) -> HandlerView {
    HandlerView {
        inputs: h.inputs.insert(channel),
        resizable: if resizable {
            h.resizable.insert(channel)
        } else {
            h.resizable
        },
        ..h
    }
}

/// A connection whose session on a channel is over.
pub open spec fn over_on(h: HandlerView, channel: u32) -> HandlerView {
    HandlerView { inputs: h.inputs.remove(channel), resizable: h.resizable.remove(channel), ..h }
}

/// What a recording says of a session; nothing without a login.
pub open spec fn meta_of(h: HandlerView, session_id: u128, hostname: Seq<char>) -> Option<
    MetaView,
> {
    match h.authorized {
        Some(s) => Some(
            MetaView {
                session_id: ids::uuid_text(session_id),
                src_endpoint_id: s.source_endpoint,
                src_hostname: s.source_hostname,
                target_user: s.dest_user,
                hostname,
                network_name: h.binding.network_name,
                width: h.width,
                height: h.height,
                term: h.term,
            },
        ),
        None => None,
    }
}

/// What the control plane is told of a start; nothing without a login.
pub open spec fn start_of(h: HandlerView, session_id: u128, recorded: bool) -> Option<
    ClientMsgView,
> {
    match h.authorized {
        Some(s) => Some(
            ClientMsgView::SshSessionStarted {
                session_id: ids::uuid_text(session_id),
                src_endpoint_id: s.source_endpoint,
                target_user: s.dest_user,
                src_hostname: s.source_hostname,
                recorded,
            },
        ),
        None => None,
    }
}

/// What a shell or a command on a connection is launched with.
pub open spec fn launched(h: HandlerView, command: Option<Seq<char>>) -> LaunchView {
    LaunchView {
        account: h.authorized->0.account,
        term: h.term,
        width: h.width,
        height: h.height,
        env_vars: h.env_vars,
        command,
    }
}

/// A login is accepted only for an authorized session, and only if no check is
/// asked for or the check has passed.
pub proof fn law_accept_means_authorized(
    h: HandlerView,
    outcome: Result<SessionView, FailureView>,
    passed: bool,
    url: Option<Seq<char>>,
    answered: bool,
)
    ensures
        login(h, outcome).0 is Accept <==> (outcome matches Ok(s) && s.check is NotRequired),
        login(h, outcome).0 is Accept ==> login(h, outcome).1.authorized == Some(outcome->Ok_0),
        login_checked(h, passed).0 is Accept <==> passed && h.checking is Some,
        login_checked(h, passed).0 is Accept ==> login_checked(h, passed).1.authorized
            == h.checking,
        login_minted(h, url).0 !is Accept,
        keyboard(h, answered) !is Accept,
        keyboard_checked(h, passed).0 is Accept ==> passed && h.authorized is Some
            && h.pending_url is Some && h.binding.policy is Managed,
{
}

/// On a Direct network nobody logs in by keyboard.
pub proof fn law_direct_has_no_keyboard_login(h: HandlerView, answered: bool, passed: bool)
    requires
        h.binding.policy is Direct,
    ensures
        keyboard(h, answered) is RejectForGood,
        keyboard_checked(h, passed).0 is Reject,
{
}

/// A refused login leaves the connection as it was; on a new connection no
/// session can then be started.
pub proof fn law_refused_login_starts_nothing(
    binding: BindingView,
    peer: IpAddress,
    failure: FailureView,
    is_command: bool,
)
    ensures
        ({
            let (answer, after) = login(new_handler(binding, peer), Err(failure));
            &&& answer is RejectForGood
            &&& after == new_handler(binding, peer)
            &&& !shell_granted(after, is_command)
        }),
{
}

/// A variable that a client may set has no reserved name.
pub proof fn law_forwarded_names_are_not_reserved(name: Seq<char>)
    requires
        may_forward(name),
    ensures
        !session_child::is_reserved(name),
{
    reveal_strlit("TUNNET_SSH_");
    reveal_strlit("LANG");
    reveal_strlit("LC_ALL");
    reveal_strlit("LC_CTYPE");
    reveal_strlit("LC_MESSAGES");
    reveal_strlit("COLORTERM");
    reveal_strlit("TERM_PROGRAM");
    reveal_strlit("TERM_PROGRAM_VERSION");
    if session_child::is_reserved(name) {
        assert("TUNNET_SSH_"@[1] == 'U');
        assert(name.subrange(0, 11)[1] == name[1]);
        assert(name.subrange(0, 11)[0] == name[0]);
    }
}

/// A session's process becomes the account that the login was authorized for,
/// and runs the command or a login shell, whatever variables the client has set.
pub proof fn law_session_runs_as_the_account(
    platform: Platform,
    h: HandlerView,
    command: Option<Seq<char>>,
)
    requires
        h.authorized is Some,
        all_forwardable(h.env_vars),
    ensures
        session_child::planned(
            session_child::child_env(launch::shell_variables(platform, launched(h, command))),
        ) == Ok::<_, session_child::ChildError>(
            session_child::plan_for(
                h.authorized->0.account,
                false,
                command is None,
                command,
            ),
        ),
{
    let req = launched(h, command);
    assert forall|i: int| 0 <= i < req.env_vars.len() implies !session_child::is_reserved(
        (#[trigger] req.env_vars[i]).0,
    ) by {
        law_forwarded_names_are_not_reserved(req.env_vars[i].0);
    }
    session_child::law_child_becomes_what_was_launched(platform, req);
}

/// The whole course of a login that is subject to a check. The control plane is
/// asked about the source of the session and for the period that the session
/// names, at first, when a place to authenticate is asked for, and at every
/// answer by keyboard after that. It is granted once the control plane agrees,
/// and it is then the session that was authorized.
pub proof fn law_check_keeps_its_period(
    h: HandlerView,
    s: SessionView,
    period: u64,
    url: Seq<char>,
)
    requires
        s.check == (CheckState::Required { period_secs: period }),
        h.binding.policy is Managed,
    ensures
        ({
            let (first, h1) = login(h, Ok(s));
            let (granted, g) = login_checked(h1, true);
            let (second, h2) = login_checked(h1, false);
            let (third, h3) = login_minted(h2, Some(url));
            let (refused, r) = login_minted(h2, None);
            let (fourth, h4) = keyboard_checked(h3, false);
            let (fifth, h5) = keyboard_checked(h4, true);
            &&& first == (AuthView::Verify { source: s.source_endpoint, period_secs: period })
            &&& h1.authorized == h.authorized
            &&& granted is Accept && g.authorized == Some(s) && g.checking is None
            &&& second == (AuthView::Mint { source: s.source_endpoint, period_secs: period })
            &&& h2.authorized == h.authorized
            &&& third is RejectToKeyboard && h3.pending_url == Some(url)
            &&& refused is Reject && r.authorized == h.authorized && r.checking is None
            &&& keyboard(h3, false) == (AuthView::Prompt {
                instructions: "Re-authentication required.\nOpen: "@ + url
                    + "\nThen press Enter."@,
            })
            &&& keyboard(h3, true) == (AuthView::Verify {
                source: s.source_endpoint,
                period_secs: period,
            })
            &&& fourth == (AuthView::Prompt {
                instructions: "Still waiting for authentication.\nOpen: "@ + url
                    + "\nThen press Enter."@,
            })
            &&& keyboard(h4, true) == keyboard(h3, true)
            &&& fifth is Accept && h5.authorized == Some(s) && h5.pending_url is None
            &&& keyboard(h5, true) is Reject && keyboard(h5, false) is Reject
        }),
{
}

/// Whatever is asked of the control plane after a login began is asked with the
/// period of that login, and about the source of the session that is being
/// checked or waits for the keyboard.
pub proof fn law_later_questions_are_those_of_the_login(
    h: HandlerView,
    passed: bool,
    url: Option<Seq<char>>,
    answered: bool,
)
    ensures
        login_checked(h, passed).1.check_period_secs == h.check_period_secs,
        login_minted(h, url).1.check_period_secs == h.check_period_secs,
        keyboard_checked(h, passed).1.check_period_secs == h.check_period_secs,
        login_checked(h, passed).0 is Mint <==> h.checking is Some && !passed,
        login_checked(h, passed).0 is Mint ==> login_checked(h, passed).0 == (AuthView::Mint {
            source: h.checking->0.source_endpoint,
            period_secs: h.check_period_secs,
        }),
        keyboard(h, answered) is Verify <==> answered && h.binding.policy is Managed
            && h.pending_url is Some && h.authorized is Some,
        keyboard(h, answered) is Verify ==> keyboard(h, answered) == (AuthView::Verify {
            source: h.authorized->0.source_endpoint,
            period_secs: h.check_period_secs,
        }),
        !(login_checked(h, passed).0 is Verify),
        !(login_minted(h, url).0 is Verify) && !(login_minted(h, url).0 is Mint),
        !(keyboard_checked(h, passed).0 is Verify) && !(keyboard_checked(h, passed).0 is Mint),
{
}

/// No step of a login touches anything but the login: the network, the other
/// end, the channels, the terminal and the variables stay.
pub proof fn law_login_leaves_the_rest(
    h: HandlerView,
    outcome: Result<SessionView, FailureView>,
    passed: bool,
    url: Option<Seq<char>>,
    step: int,
)
    ensures
        ({
            let after = if step == 0 {
                login(h, outcome).1
            } else if step == 1 {
                login_checked(h, passed).1
            } else if step == 2 {
                login_minted(h, url).1
            } else {
                keyboard_checked(h, passed).1
            };
            &&& after.binding == h.binding
            &&& after.peer == h.peer
            &&& after.channels == h.channels
            &&& after.inputs == h.inputs
            &&& after.resizable == h.resizable
            &&& after.term == h.term
            &&& after.width == h.width
            &&& after.height == h.height
            &&& after.env_vars == h.env_vars
        }),
{
}

/// A login of which no check is asked is granted at once; one that is refused
/// changes nothing.
pub proof fn law_unchecked_login_is_granted(h: HandlerView, s: SessionView, failure: FailureView)
    ensures
        s.check is NotRequired ==> login(h, Ok(s)).0 is Accept && login(h, Ok(s)).1
            == (HandlerView { authorized: Some(s), ..h }),
        login(h, Err(failure)).0 is RejectForGood,
        login(h, Err(failure)).1 == h,
{
}

/// A new connection has no login, no channel and no variable, and a terminal of
/// 80 by 24.
pub proof fn law_new_connection(binding: BindingView, peer: IpAddress)
    ensures
        ({
            let h = new_handler(binding, peer);
            &&& h.binding == binding && h.peer == peer
            &&& h.authorized is None && h.checking is None && h.pending_url is None
            &&& h.check_period_secs == 3600
            &&& (forall|c: u32| !(#[trigger] h.channels.contains(c)))
            &&& (forall|c: u32| !(#[trigger] h.inputs.contains(c)))
            &&& (forall|c: u32| !(#[trigger] h.resizable.contains(c)))
            &&& h.term == "xterm-256color"@ && h.width == 80 && h.height == 24
            &&& h.env_vars.len() == 0
        }),
{
}

/// On a Direct network the allowed users decide and a managed rule has no say;
/// on a Managed network the rule decides. Either way the session is that of the
/// device with the address of the other end, on the network of the connection.
pub proof fn law_network_decides_its_logins(
    platform: Platform,
    h: HandlerView,
    user: Seq<char>,
    members: Seq<MemberView>,
    rule: Option<SshPolicyRule>,
    rule2: Option<SshPolicyRule>,
    account: Result<AccountView, AccountError>,
)
    ensures
        h.binding.policy is Direct ==> authorization(platform, h, user, members, rule, account)
            == authorization(platform, h, user, members, rule2, account),
        h.binding.policy is Direct ==> (authorization(platform, h, user, members, rule, account)
            is Ok <==> authorize::identified(h.peer, h.binding.network_id, members) is Ok
            && account is Ok && exists|u: Seq<char>| #[trigger]
            h.binding.policy->allowed_users.contains(u) && (u == user || (platform is Windows
                && text::same_ignoring_case(u, user)))),
        h.binding.policy is Managed ==> (authorization(platform, h, user, members, rule, account)
            is Ok <==> authorize::identified(h.peer, h.binding.network_id, members) is Ok
            && account is Ok && rule is Some && !(rule->0.action is Deny)),
        authorization(platform, h, user, members, rule, account) matches Ok(s) ==> {
            &&& h.binding.policy is Direct <==> s.mode is Direct
            &&& h.binding.policy is Managed ==> rule is Some && !(rule->0.action is Deny)
                && s.recording.record == rule->0.record && s.recording.enforce_recorder
                == rule->0.enforce_recorder
            &&& s.dest_network == h.binding.network_id
            &&& s.source_network == h.binding.network_id
            &&& account is Ok && s.account == account->Ok_0
            &&& h.binding.policy is Direct ==> s.check is NotRequired && !s.recording.record
            &&& h.binding.policy is Managed ==> (s.check is Required <==> rule->0.action is Check)
            &&& authorize::identified(h.peer, h.binding.network_id, members) is Ok
            &&& s.source_endpoint == authorize::identified(
                h.peer,
                h.binding.network_id,
                members,
            )->Ok_0.endpoint
        },
        authorize::identified(h.peer, h.binding.network_id, members) is Err ==> authorization(
            platform,
            h,
            user,
            members,
            rule,
            account,
        ) is Err,
{
    authorize::law_identified_source_is_a_member(h.peer, h.binding.network_id, members);
    if let (Ok(source), PolicyView::Direct { allowed_users }) = (
        authorize::identified(h.peer, h.binding.network_id, members),
        h.binding.policy,
    ) {
        authorize::law_direct_session_is_the_lists(
            platform,
            source,
            h.binding.network_id,
            user,
            allowed_users,
            user,
            account,
        );
    }
}

/// A size stays what it is as long as it fits in 16 bits and is not zero; zero
/// becomes one. Of a larger one the lower 16 bits count.
pub proof fn law_terminal_sizes(n: u32)
    ensures
        0 < n <= 65535 ==> terminal_size(n) == n,
        terminal_size(0) == 1,
        n > 65535 ==> (n - terminal_size(n)) % 65536 == 0,
{
}

/// A client may set seven variables and no other: four of the locale, and three
/// that say which terminal it is.
pub proof fn law_which_variables_are_forwarded(name: Seq<char>)
    ensures
        may_forward(name) <==> seq![
            "LANG"@,
            "LC_ALL"@,
            "LC_CTYPE"@,
            "LC_MESSAGES"@,
            "COLORTERM"@,
            "TERM_PROGRAM"@,
            "TERM_PROGRAM_VERSION"@,
        ].contains(name),
{
    let all = seq![
        "LANG"@,
        "LC_ALL"@,
        "LC_CTYPE"@,
        "LC_MESSAGES"@,
        "COLORTERM"@,
        "TERM_PROGRAM"@,
        "TERM_PROGRAM_VERSION"@,
    ];
    if may_forward(name) {
        assert(all[0] == "LANG"@ && all[1] == "LC_ALL"@ && all[2] == "LC_CTYPE"@ && all[3]
            == "LC_MESSAGES"@ && all[4] == "COLORTERM"@ && all[5] == "TERM_PROGRAM"@ && all[6]
            == "TERM_PROGRAM_VERSION"@);
    }
}

/// A shell or a command runs only after a login, and only where the session may
/// run it. It is recorded as the session says.
pub proof fn law_shells_need_a_login(h: HandlerView, s: SessionView, is_command: bool)
    ensures
        h.authorized is None ==> !shell_granted(h, is_command) && !recording_policy(h).record,
        h.authorized == Some(s) ==> {
            &&& shell_granted(h, true) == s.capabilities.commands
            &&& shell_granted(h, false) == s.capabilities.shell
            &&& recording_policy(h) == s.recording
        },
{
}

/// What runs on a connection runs as the account of its login, in the terminal
/// and with the variables that the client asked for.
pub proof fn law_what_is_launched(h: HandlerView, s: SessionView, command: Option<Seq<char>>)
    requires
        h.authorized == Some(s),
    ensures
        launched(h, command).account == s.account,
        launched(h, command).term == h.term,
        launched(h, command).width == h.width,
        launched(h, command).height == h.height,
        launched(h, command).env_vars == h.env_vars,
        launched(h, command).command == command,
{
}

/// A variable is kept only once there is a login that may set variables, and only
/// if a client may set it. It then stands behind those that were set before.
/// Nothing else changes.
pub proof fn law_variables_need_a_login(h: HandlerView, name: Seq<char>, value: Seq<char>)
    ensures
        ({
            let after = variable_set(h, name, value);
            &&& h.authorized is None ==> after == h
            &&& h.authorized is Some && !h.authorized->0.capabilities.env_forward ==> after == h
            &&& !may_forward(name) ==> after == h
            &&& h.authorized is Some && h.authorized->0.capabilities.env_forward && may_forward(
                name,
            ) ==> after.env_vars == h.env_vars.push((name, value))
            &&& after == (HandlerView { env_vars: after.env_vars, ..h })
            &&& all_forwardable(h.env_vars) ==> all_forwardable(after.env_vars)
        }),
{
}

/// A terminal has the size that its client asked for last, and a channel whose
/// terminal can be resized is told that size. Nothing else changes.
pub proof fn law_terminals_take_the_size_asked_for(
    h: HandlerView,
    channel: u32,
    col_width: u32,
    row_height: u32,
)
    ensures
        ({
            let after = sized(h, col_width, row_height);
            &&& 0 < col_width <= 65535 ==> after.width == col_width
            &&& 0 < row_height <= 65535 ==> after.height == row_height
            &&& after == (HandlerView { width: after.width, height: after.height, ..h })
            &&& h.resizable.contains(channel) ==> new_size(h, channel, col_width, row_height)
                == Some((after.width, after.height))
            &&& !h.resizable.contains(channel) ==> new_size(h, channel, col_width, row_height)
                is None
        }),
{
}

/// SFTP is served for the account of the login, on a channel that is open, where
/// the session may use it. The channel is then handed over: it is not granted a
/// second time, and every other channel stays.
pub proof fn law_sftp_takes_a_channel_once(
    h: HandlerView,
    channel: u32,
    name: Seq<char>,
    other: u32,
)
    ensures
        ({
            let after = subsystem_asked(h, channel, name);
            &&& sftp_account(h, channel, name) is Some <==> h.authorized is Some
                && h.authorized->0.capabilities.sftp && name == "sftp"@ && h.channels.contains(
                channel,
            )
            &&& sftp_account(h, channel, name) is Some ==> sftp_account(h, channel, name) == Some(
                h.authorized->0.account,
            )
            &&& sftp_account(h, channel, name) is None ==> after == h
            &&& sftp_account(h, channel, name) is Some ==> !after.channels.contains(channel)
                && sftp_account(after, channel, name) is None
            &&& other != channel ==> after.channels.contains(other) == h.channels.contains(other)
            &&& after == (HandlerView { channels: after.channels, ..h })
        }),
{
}

/// Input on a channel goes to its session from its start to its end, and so do new
/// sizes where the terminal can be resized. Other channels are not concerned.
pub proof fn law_input_goes_to_running_sessions(
    h: HandlerView,
    channel: u32,
    resizable: bool,
    other: u32,
)
    requires
        other != channel,
    ensures
        ({
            let on = running_on(h, channel, resizable);
            let off = over_on(h, channel);
            &&& on.inputs.contains(channel)
            &&& resizable ==> on.resizable.contains(channel)
            &&& !resizable ==> on.resizable == h.resizable
            &&& !off.inputs.contains(channel) && !off.resizable.contains(channel)
            &&& on.inputs.contains(other) == h.inputs.contains(other)
            &&& on.resizable.contains(other) == h.resizable.contains(other)
            &&& off.inputs.contains(other) == h.inputs.contains(other)
            &&& off.resizable.contains(other) == h.resizable.contains(other)
            &&& on == (HandlerView { inputs: on.inputs, resizable: on.resizable, ..h })
            &&& off == (HandlerView { inputs: off.inputs, resizable: off.resizable, ..h })
        }),
{
}

/// What is said of a session, in a recording and to the control plane, is what its
/// login says: where it comes from and whose account it runs as. Without a login
/// nothing is said.
pub proof fn law_what_is_said_of_a_session(
    h: HandlerView,
    s: SessionView,
    session_id: u128,
    hostname: Seq<char>,
    recorded: bool,
)
    ensures
        h.authorized is None ==> meta_of(h, session_id, hostname) is None && start_of(
            h,
            session_id,
            recorded,
        ) is None,
        h.authorized == Some(s) ==> (meta_of(h, session_id, hostname) matches Some(m) && {
            &&& m.session_id == ids::uuid_text(session_id)
            &&& m.src_endpoint_id == s.source_endpoint
            &&& m.src_hostname == s.source_hostname
            &&& m.target_user == s.dest_user
            &&& m.hostname == hostname
            &&& m.network_name == h.binding.network_name
            &&& m.width == h.width && m.height == h.height && m.term == h.term
        }),
        h.authorized == Some(s) ==> start_of(h, session_id, recorded) == Some(
            (ClientMsgView::SshSessionStarted {
                session_id: ids::uuid_text(session_id),
                src_endpoint_id: s.source_endpoint,
                target_user: s.dest_user,
                src_hostname: s.source_hostname,
                recorded,
            }),
        ),
{
}

/// What an answer to a login shows is the answer.
pub proof fn law_answers_show_what_they_are(action: AuthAction)
    ensures
        match action {
            AuthAction::Accept => action@ is Accept,
            AuthAction::RejectForGood => action@ is RejectForGood,
            AuthAction::RejectToKeyboard => action@ is RejectToKeyboard,
            AuthAction::Reject => action@ is Reject,
            AuthAction::Verify { source, period_secs } => action@ == (AuthView::Verify {
                source: source@,
                period_secs,
            }),
            AuthAction::Mint { source, period_secs } => action@ == (AuthView::Mint {
                source: source@,
                period_secs,
            }),
            AuthAction::Prompt { instructions } => action@ == (AuthView::Prompt {
                instructions: instructions@,
            }),
        },
{
}

} // verus!
