use tunnet::names::NameSet;
use tunnet::platform::Platform;
use tunnet::policy::{Selector, SshAction, SshPolicyRule};
use tunnet::routes::{IpAddress, Member, RoutingTable};
use tunnet::ssh::account::{resolve, AccountError, LocalAccount, PasswdEntry};
use tunnet::ssh::authorize::{
    authorize_direct, authorize_managed, identify_source, managed_question, AuthorizationMode,
    AuthzFailure, BindingPolicy, CheckState, DirectSshSection, MeshSource,
};
use tunnet::ssh::capabilities::SshCapabilities;
use tunnet::ssh::listener::SshBinding;
use tunnet::ssh::server::{
    check_passed, ended_message, reauth_url, saved_message, AuthAction, ClientMsg, SshHandler,
};
use tunnet::ssh::shell_session::ShellAction;

fn net(octet: u8) -> (u128, u32) {
    (octet as u128, u32::from_be_bytes([100, 64, 0, octet]))
}

fn table(network: u128, peers: &[(&str, u32)]) -> RoutingTable {
    let mut routes = RoutingTable::new();
    for (id, ip) in peers {
        routes.insert(Member {
            ip: *ip,
            endpoint_hex: (*id).into(),
            hostname: "peer".into(),
            network_id: network,
            network_name: "net".into(),
            tags: vec![],
        });
    }
    routes
}

fn eid() -> String {
    "a".repeat(64)
}

fn source(routes: &RoutingTable, network: u128, ip: u32) -> MeshSource {
    identify_source(IpAddress::V4(ip), network, routes).unwrap()
}

fn users(names: &[&str]) -> NameSet {
    let mut set = NameSet::new();
    for name in names {
        set.insert((*name).into());
    }
    set
}

fn missing(user: &str) -> Result<LocalAccount, AccountError> {
    resolve(user, None, None)
}

fn existing(user: &str) -> Result<LocalAccount, AccountError> {
    let entry = PasswdEntry {
        name: user.into(),
        dir: format!("/home/{user}"),
        shell: "/bin/zsh".into(),
        uid: 1000,
        gid: 100,
    };
    resolve(user, Some(entry), Some(vec![100, 27]))
}

fn mesh_source() -> MeshSource {
    MeshSource {
        endpoint: "aa".into(),
        hostname: None,
        network_id: 0,
        network_name: "prod".into(),
        tags: vec![],
    }
}

fn ssh_rule(action: SshAction, user: &str) -> SshPolicyRule {
    SshPolicyRule {
        src: Selector::Any,
        dst: Selector::Any,
        action,
        users: vec![user.into()],
        record: false,
        recorder: None,
        enforce_recorder: false,
        check_period_secs: None,
        priority: 1,
    }
}

#[test]
fn direct_missing_os_account_fails_closed() {
    let (network, ip) = net(2);
    let peer = eid();
    let routes = table(network, &[(&peer, ip)]);
    let src = source(&routes, network, ip);
    let err = authorize_direct(
        Platform::Unix,
        &src,
        network,
        "alice",
        &users(&["alice"]),
        missing("alice"),
    )
    .unwrap_err();
    assert_eq!(err, AuthzFailure::AccountMissing { requested: "alice".into() });
}

#[test]
fn direct_disallowed_user_fails() {
    let (network, ip) = net(2);
    let peer = eid();
    let routes = table(network, &[(&peer, ip)]);
    let src = source(&routes, network, ip);
    let err = authorize_direct(
        Platform::Unix,
        &src,
        network,
        "root",
        &users(&["alice"]),
        missing("root"),
    )
    .unwrap_err();
    assert_eq!(err, AuthzFailure::UserNotAllowed { requested: "root".into() });
}

#[test]
fn other_network_member_fails() {
    let (home, _ip) = net(1);
    let (other, ip) = net(2);
    let peer = eid();
    let routes = table(other, &[(&peer, ip)]);
    let err = identify_source(IpAddress::V4(ip), home, &routes).unwrap_err();
    assert_eq!(err, AuthzFailure::NotCurrentMember);
}

#[test]
fn empty_allowlist_is_disabled() {
    let (network, ip) = net(2);
    let peer = eid();
    let routes = table(network, &[(&peer, ip)]);
    let src = source(&routes, network, ip);
    let err = authorize_direct(
        Platform::Unix,
        &src,
        network,
        "alice",
        &NameSet::new(),
        missing("alice"),
    )
    .unwrap_err();
    assert_eq!(err, AuthzFailure::ServiceDisabled);
}

#[test]
fn unknown_ip_fails() {
    let (network, ip) = net(2);
    let peer = eid();
    let routes = table(network, &[(&peer, ip)]);
    let err = identify_source(
        IpAddress::V4(u32::from_be_bytes([10, 0, 0, 9])),
        network,
        &routes,
    )
    .unwrap_err();
    assert_eq!(err, AuthzFailure::UnknownMeshSource);
    let err = identify_source(IpAddress::V6(ip as u128), network, &routes).unwrap_err();
    assert_eq!(err, AuthzFailure::UnknownMeshSource);
}

#[test]
fn managed_accept_requires_account() {
    let src = mesh_source();
    let rule = ssh_rule(SshAction::Accept, "missing-user-xyz");
    let err = authorize_managed(
        &src,
        0,
        "missing-user-xyz",
        Some(&rule),
        missing("missing-user-xyz"),
    )
    .unwrap_err();
    assert_eq!(
        err,
        AuthzFailure::AccountMissing { requested: "missing-user-xyz".into() }
    );
}

#[test]
fn managed_deny_without_rule() {
    let src = mesh_source();
    let err = authorize_managed(&src, 0, "alice", None, existing("alice")).unwrap_err();
    assert_eq!(err, AuthzFailure::ManagedDeny);
}

#[test]
fn managed_deny_by_rule() {
    let rule = ssh_rule(SshAction::Deny, "alice");
    let err =
        authorize_managed(&mesh_source(), 0, "alice", Some(&rule), existing("alice")).unwrap_err();
    assert_eq!(err, AuthzFailure::ManagedDeny);
}

#[test]
fn managed_check_has_a_period() {
    let mut rule = ssh_rule(SshAction::Check, "alice");
    rule.record = true;
    rule.recorder = Some(Selector::Expr("tag:recorder".into()));
    let s = authorize_managed(&mesh_source(), 7, "alice", Some(&rule), existing("alice")).unwrap();
    assert_eq!(s.check, CheckState::Required { period_secs: 3600 });
    assert_eq!(s.mode, AuthorizationMode::Managed);
    assert!(s.recording.record && !s.recording.enforce_recorder);
    assert!(matches!(&s.recording.recorder, Some(Selector::Expr(e)) if e == "tag:recorder"));
    rule.check_period_secs = Some(60);
    let s = authorize_managed(&mesh_source(), 7, "alice", Some(&rule), existing("alice")).unwrap();
    assert_eq!(s.check, CheckState::Required { period_secs: 60 });
}

#[test]
fn managed_policy_is_asked_about_the_source() {
    let src = mesh_source();
    let tags = vec!["t".to_string()];
    let local = vec!["me".to_string()];
    let ctx = managed_question(&src, "dest", "bb", &tags, "alice", &local);
    assert_eq!((ctx.src_endpoint_hex, ctx.src_network), ("aa", "prod"));
    assert_eq!((ctx.dst_endpoint_hex, ctx.dst_network), ("bb", "dest"));
    assert_eq!((ctx.dst_tags, ctx.local_accounts), (tags.as_slice(), local.as_slice()));
    assert_eq!(ctx.requested_user, "alice");
    assert!(ctx.src_tags.is_empty());
}

#[test]
fn direct_session_is_what_was_allowed() {
    let (network, ip) = net(2);
    let routes = table(network, &[("ab", ip)]);
    let src = source(&routes, network, ip);
    let s = authorize_direct(
        Platform::Unix,
        &src,
        network,
        "alice",
        &users(&["bob", "alice"]),
        existing("alice"),
    )
    .unwrap();
    assert_eq!(s.source_endpoint, "ab");
    assert_eq!(s.source_hostname.as_deref(), Some("peer"));
    assert_eq!((s.source_network, s.dest_network), (network, network));
    assert_eq!((s.dest_user.as_str(), s.account.uid), ("alice", 1000));
    assert_eq!(s.capabilities, SshCapabilities::direct());
    assert_eq!(SshCapabilities::managed(), SshCapabilities::direct());
    assert!(s.capabilities.shell && s.capabilities.commands && s.capabilities.sftp);
    assert!(!s.capabilities.local_forward && !s.capabilities.agent_forward);
    assert_eq!(s.check, CheckState::NotRequired);
    assert!(!s.recording.record);
}

#[test]
fn names_ignore_case_on_windows_only() {
    let allowed = users(&["Alice"]);
    let src = mesh_source();
    assert!(authorize_direct(Platform::Windows, &src, 0, "alice", &allowed, existing("alice")).is_ok());
    assert_eq!(
        authorize_direct(Platform::Unix, &src, 0, "alice", &allowed, existing("alice")).unwrap_err(),
        AuthzFailure::UserNotAllowed { requested: "alice".into() }
    );
}

#[test]
fn failures_have_messages() {
    let cases = [
        (AuthzFailure::UnknownMeshSource, "ssh source is not a known mesh IP"),
        (
            AuthzFailure::NotCurrentMember,
            "ssh source is not a current member of the destination network",
        ),
        (AuthzFailure::ServiceDisabled, "embedded SSH is disabled on this network"),
        (
            AuthzFailure::UserNotAllowed { requested: "u".into() },
            "destination OS account `u` is not allowed",
        ),
        (
            AuthzFailure::AccountMissing { requested: "u".into() },
            "destination OS account `u` does not exist",
        ),
        (AuthzFailure::ManagedDeny, "managed SSH policy denied the session"),
    ];
    for (failure, message) in cases {
        assert_eq!(failure.log_message(), message);
    }
}

#[test]
fn direct_policy_trims_users() {
    let off = DirectSshSection { enabled: false, users: vec!["alice".into()] };
    assert!(BindingPolicy::from_direct(&off).is_none());
    let on = DirectSshSection {
        enabled: true,
        users: vec![" bob".into(), "alice ".into(), "bob".into()],
    };
    match BindingPolicy::from_direct(&on) {
        Some(BindingPolicy::Direct { allowed_users }) => {
            assert_eq!(allowed_users.into_vec(), vec!["alice".to_string(), "bob".to_string()]);
        }
        _ => panic!("a Direct policy"),
    }
}

#[test]
fn name_sets_are_ordered() {
    let set = users(&["b", "aé", "ab", "", "b", "a", "z\u{10000}", "z\u{ffff}"]);
    let mut sorted: Vec<String> =
        ["b", "aé", "ab", "", "a", "z\u{10000}", "z\u{ffff}"].map(String::from).to_vec();
    sorted.sort();
    assert!(!set.is_empty());
    assert_eq!(set.clone().into_vec(), sorted);
}

fn binding(policy: BindingPolicy) -> SshBinding {
    SshBinding { network_id: 2, network_name: "net".into(), policy }
}

fn direct_handler() -> (SshHandler, RoutingTable) {
    let (network, ip) = net(2);
    let routes = table(network, &[("ab", ip)]);
    let policy = BindingPolicy::Direct { allowed_users: users(&["alice"]) };
    (SshHandler::new(binding(policy), IpAddress::V4(ip)), routes)
}

fn managed_handler() -> (SshHandler, RoutingTable) {
    let (network, ip) = net(2);
    let routes = table(network, &[("ab", ip)]);
    (SshHandler::new(binding(BindingPolicy::Managed), IpAddress::V4(ip)), routes)
}

fn logged_in() -> SshHandler {
    let (mut h, routes) = direct_handler();
    let outcome = h.authorize(Platform::Unix, "alice", &routes, None, existing("alice"));
    assert!(matches!(h.auth_none(outcome), AuthAction::Accept));
    h
}

#[test]
fn refused_login_starts_nothing() {
    let (mut h, routes) = direct_handler();
    let outcome = h.authorize(Platform::Unix, "root", &routes, None, existing("root"));
    assert!(matches!(h.auth_none(outcome), AuthAction::RejectForGood));
    assert!(h.session().is_none());
    assert!(h.shell_request().is_none());
    assert!(h.exec_request(b"id").is_none());
    assert!(h.launch_request(None).is_none());
    assert!(h.subsystem_request(1, "sftp").is_none());
    assert!(matches!(h.start_shell(false).1, ShellAction::Refuse));
    assert!(h.started_message(1, false).is_none());
    assert!(h.recording_meta(1, "host").is_none());
    assert!(matches!(h.auth_keyboard_interactive(false), AuthAction::RejectForGood));
    assert!(matches!(h.auth_keyboard_checked(true), AuthAction::Reject));
}

#[test]
fn checked_login_goes_on_by_keyboard() {
    let (mut h, routes) = managed_handler();
    let rule = ssh_rule(SshAction::Check, "alice");
    let outcome = h.authorize(Platform::Unix, "alice", &routes, Some(&rule), existing("alice"));
    match h.auth_none(outcome) {
        AuthAction::Verify { source, period_secs } => {
            assert_eq!((source.as_str(), period_secs), ("ab", 3600));
        }
        _ => panic!("a check"),
    }
    assert!(h.session().is_none());
    match h.auth_none_checked(false) {
        AuthAction::Mint { source, period_secs } => {
            assert_eq!((source.as_str(), period_secs), ("ab", 3600));
        }
        _ => panic!("a place to authenticate"),
    }
    let url = reauth_url(Some("required"), Some("https://x"));
    assert!(matches!(h.auth_none_minted(url), AuthAction::RejectToKeyboard));
    match h.auth_keyboard_interactive(false) {
        AuthAction::Prompt { instructions } => assert_eq!(
            instructions,
            "Re-authentication required.\nOpen: https://x\nThen press Enter."
        ),
        _ => panic!("a prompt"),
    }
    assert!(matches!(h.auth_keyboard_interactive(true), AuthAction::Verify { .. }));
    match h.auth_keyboard_checked(false) {
        AuthAction::Prompt { instructions } => assert_eq!(
            instructions,
            "Still waiting for authentication.\nOpen: https://x\nThen press Enter."
        ),
        _ => panic!("a prompt"),
    }
    assert!(matches!(h.auth_keyboard_checked(true), AuthAction::Accept));
    assert!(matches!(h.auth_keyboard_interactive(false), AuthAction::Reject));
    assert!(h.session().is_some());
}

#[test]
fn check_that_passes_is_enough() {
    let (mut h, routes) = managed_handler();
    let rule = ssh_rule(SshAction::Check, "alice");
    let outcome = h.authorize(Platform::Unix, "alice", &routes, Some(&rule), existing("alice"));
    h.auth_none(outcome);
    assert!(matches!(h.auth_none_checked(true), AuthAction::Accept));
    assert_eq!(h.session().unwrap().dest_user, "alice");
}

#[test]
fn check_without_a_place_to_authenticate_is_refused() {
    let (mut h, routes) = managed_handler();
    let rule = ssh_rule(SshAction::Check, "alice");
    let outcome = h.authorize(Platform::Unix, "alice", &routes, Some(&rule), existing("alice"));
    h.auth_none(outcome);
    h.auth_none_checked(false);
    assert!(matches!(h.auth_none_minted(None), AuthAction::Reject));
    assert!(h.session().is_none());
    assert!(matches!(h.auth_none_checked(true), AuthAction::Reject));
}

#[test]
fn answers_of_the_control_plane() {
    assert!(check_passed(Some("ok")));
    assert!(!check_passed(Some("OK")));
    assert!(!check_passed(None));
    assert_eq!(reauth_url(Some("ok"), Some("u")), None);
    assert_eq!(reauth_url(None, Some("u")), Some("u".to_string()));
    assert_eq!(reauth_url(Some("required"), None), None);
}

#[test]
fn launch_takes_over_terminal_and_variables() {
    let (mut early, _routes) = direct_handler();
    early.env_request("LANG", "C");
    assert!(early.launch_request(None).is_none());

    let mut h = logged_in();
    let req = h.shell_request().unwrap();
    assert_eq!((req.term.as_str(), req.width, req.height), ("xterm-256color", 80, 24));
    assert_eq!(req.command, None);
    h.pty_request("vt100", 0, 65536 + 50);
    h.env_request("LANG", "C");
    h.env_request("LD_PRELOAD", "x");
    h.env_request("TERM_PROGRAM_VERSION", "2");
    let req = h.exec_request(b"echo \xff hi").unwrap();
    assert_eq!((req.term.as_str(), req.width, req.height), ("vt100", 1, 50));
    assert_eq!(req.command.as_deref(), Some("echo \u{fffd} hi"));
    assert_eq!(h.exec_request(b"id").unwrap().command.as_deref(), Some("id"));
    assert_eq!(
        req.env_vars,
        vec![
            ("LANG".to_string(), "C".to_string()),
            ("TERM_PROGRAM_VERSION".to_string(), "2".to_string()),
        ]
    );
    assert_eq!(req.account.username, "alice");
}

#[test]
fn sftp_takes_an_open_channel_once() {
    let mut h = logged_in();
    assert!(h.subsystem_request(4, "sftp").is_none());
    h.channel_open_session(4);
    assert!(h.subsystem_request(4, "netconf").is_none());
    assert_eq!(h.subsystem_request(4, "sftp").unwrap().username, "alice");
    assert!(h.subsystem_request(4, "sftp").is_none());
}

#[test]
fn input_and_size_go_to_running_sessions() {
    let mut h = logged_in();
    assert!(!h.data(1));
    h.shell_started(1, true);
    h.shell_started(2, false);
    assert!(h.data(1) && h.data(2));
    assert_eq!(h.window_change_request(1, 100, 0), Some((100, 1)));
    assert_eq!(h.window_change_request(2, 90, 30), None);
    assert_eq!(h.shell_request().unwrap().width, 90);
    h.channel_eof(1);
    assert!(!h.data(1));
    assert_eq!(h.window_change_request(1, 1, 1), None);
    h.shell_ended(2);
    assert!(!h.data(2));
}

#[test]
fn messages_to_the_control_plane() {
    let h = logged_in();
    let id = "00000000-0000-0000-0000-00000000000f";
    match h.started_message(15, true) {
        Some(ClientMsg::SshSessionStarted {
            session_id,
            src_endpoint_id,
            target_user,
            src_hostname,
            recorded,
        }) => {
            assert_eq!((session_id.as_str(), src_endpoint_id.as_str()), (id, "ab"));
            assert_eq!((target_user.as_str(), src_hostname.as_deref()), ("alice", Some("peer")));
            assert!(recorded);
        }
        _ => panic!("a start"),
    }
    let meta = h.recording_meta(15, "host").unwrap();
    assert_eq!((meta.session_id.as_str(), meta.network_name.as_str()), (id, "net"));
    assert_eq!((meta.hostname.as_str(), meta.term.as_str()), ("host", "xterm-256color"));
    for (killed, word) in [(true, "killed"), (false, "ended")] {
        match ended_message(15, killed, 7) {
            ClientMsg::SshSessionEnded { session_id, status, duration_ms } => {
                assert_eq!((session_id.as_str(), status.as_str()), (id, word));
                assert_eq!(duration_ms, Some(7));
            }
            _ => panic!("an end"),
        }
    }
    match saved_message(id, "bb", 7, 99, "ff") {
        ClientMsg::SshRecordingSaved {
            session_id,
            recorder_endpoint_id,
            duration_ms,
            byte_size,
            content_sha256,
        } => {
            assert_eq!((session_id.as_str(), recorder_endpoint_id.as_str()), (id, "bb"));
            assert_eq!((duration_ms, byte_size, content_sha256.as_str()), (Some(7), 99, "ff"));
        }
        _ => panic!("a recording"),
    }
}
