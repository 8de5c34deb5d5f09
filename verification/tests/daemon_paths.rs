use std::path::PathBuf;

use tunnet::paths::{
    cli_name, daemon_name, daemon_outdated, find_on_path, installed_bin_dir, installed_daemon_exe,
    newest_workspace_daemon, resolve_daemon_exe, resolve_state_dir, stage_daemon_exe,
    system_state_dir, wipe_state_dir, workspace_candidates, ArtifactMeta, DaemonFound, DirEntry,
    Location, WipeStep,
};
use tunnet::platform::Platform;

fn path(location: &Location) -> PathBuf {
    let mut p = PathBuf::from(&location.base);
    for name in &location.under {
        p.push(name);
    }
    p
}

fn parts(p: &str) -> Vec<String> {
    p.split('/').map(String::from).collect()
}

/// The daemon that is found from `start`, among files and the times they were modified.
fn found(start: &str, files: &[(&str, u128)]) -> Option<String> {
    let candidates = workspace_candidates(&parts(start), 1, "tunnetd");
    let joined: Vec<String> = candidates.iter().map(|c| c.join("/")).collect();
    let times: Vec<Option<u128>> = joined
        .iter()
        .map(|c| files.iter().find(|(f, _)| f == c).map(|(_, t)| *t))
        .collect();
    newest_workspace_daemon(&candidates, &times).map(|i| joined[i].clone())
}

#[test]
fn workspace_daemon_is_found_from_nested_desktop_target() {
    let daemon = "/root/target/debug/tunnetd";
    let desktop_dir = "/root/apps/desktop/src-tauri/target/debug";
    assert_eq!(found(desktop_dir, &[(daemon, 5)]).as_deref(), Some(daemon));
}

#[test]
fn newer_release_tunnetd_wins_over_stale_debug_sibling() {
    let debug = "/root/target/debug/tunnetd";
    let release = "/root/target/release/tunnetd";
    assert_eq!(
        found("/root/target/debug", &[(debug, 5), (release, 35)]).as_deref(),
        Some(release)
    );
}

#[test]
fn of_two_daemons_as_new_the_release_wins() {
    let debug = "/root/target/debug/tunnetd";
    let release = "/root/target/release/tunnetd";
    assert_eq!(
        found("/root/target/debug", &[(debug, 5), (release, 5)]).as_deref(),
        Some(release)
    );
    assert_eq!(
        found("/root/target/debug", &[(debug, 6), (release, 5)]).as_deref(),
        Some(debug)
    );
    let above = "/target/release/tunnetd";
    assert_eq!(
        found("/root/target/release", &[(release, 5), (above, 5)]).as_deref(),
        Some(release)
    );
    assert_eq!(found("/root", &[]), None);
}

#[test]
fn places_are_looked_at_in_order() {
    let all: Vec<String> = workspace_candidates(&parts("/a/b"), 1, "d")
        .iter()
        .map(|c| c.join("/"))
        .collect();
    assert_eq!(
        all,
        [
            "/a/b/d",
            "/a/b/target/debug/d",
            "/a/b/target/release/d",
            "/a/target/debug/d",
            "/a/target/release/d",
            "/target/debug/d",
            "/target/release/d",
        ]
    );
}

#[test]
fn system_dir_matches_platform() {
    assert_eq!(
        path(&system_state_dir(Platform::Unix, None)),
        PathBuf::from("/var/lib/tunnet")
    );
    let dir = path(&system_state_dir(Platform::Windows, None));
    assert!(dir.ends_with("tunnet"), "got {}", dir.display());
    let dir = system_state_dir(Platform::Windows, Some("D:\\Data"));
    assert_eq!((dir.base.as_str(), dir.under), ("D:\\Data", vec!["tunnet".to_string()]));
    assert_eq!(system_state_dir(Platform::Windows, None).base, r"C:\ProgramData");
    assert_eq!(system_state_dir(Platform::Other, None).base, "./tunnet-state");
}

#[test]
fn state_dir_can_be_given() {
    let given = resolve_state_dir(Some("/srv/t"), Platform::Unix, None);
    assert_eq!(path(&given), PathBuf::from("/srv/t"));
    let own = resolve_state_dir(None, Platform::Bsd, None);
    assert_eq!(path(&own), PathBuf::from("/var/lib/tunnet"));
    assert_eq!(path(&installed_bin_dir(Some("x"), None)), PathBuf::from("x/bin"));
    assert_eq!(
        path(&installed_daemon_exe(Some("x"), None)),
        PathBuf::from("x/bin/tunnetd.exe")
    );
}

#[test]
fn file_names() {
    assert_eq!(daemon_name(Platform::Windows), "tunnetd.exe");
    assert_eq!(daemon_name(Platform::Unix), "tunnetd");
    assert_eq!(cli_name(), "tunnet.exe");
}

#[test]
fn daemon_is_looked_for_in_order() {
    let find = |w, p, s| resolve_daemon_exe(Platform::Windows, w, p, s).ok();
    assert_eq!(find(Some(3), Some(1), true), Some(DaemonFound::Workspace(3)));
    assert_eq!(find(None, Some(1), true), Some(DaemonFound::OnPath(1)));
    assert_eq!(find(None, None, true), Some(DaemonFound::Staged));
    assert_eq!(
        resolve_daemon_exe(Platform::Unix, None, None, true).unwrap_err().message,
        "could not find tunnetd; place it next to tunnet or on PATH"
    );
    assert_eq!(find_on_path(&vec![false, true, true]), Some(1));
    assert_eq!(find_on_path(&vec![false]), None);
}

#[test]
fn outdated_copies_are_told_apart() {
    let a = ArtifactMeta { len: 5, modified: Some(7) };
    let longer = ArtifactMeta { len: 6, modified: Some(7) };
    let later = ArtifactMeta { len: 5, modified: Some(8) };
    let timeless = ArtifactMeta { len: 5, modified: None };
    assert!(!daemon_outdated(true, false, None, None));
    assert!(daemon_outdated(false, false, Some(a), Some(a)));
    assert!(!daemon_outdated(false, true, Some(a), Some(a)));
    assert!(daemon_outdated(false, true, Some(a), Some(longer)));
    assert!(daemon_outdated(false, true, Some(a), Some(later)));
    assert!(daemon_outdated(false, true, Some(timeless), Some(timeless)));
    assert!(daemon_outdated(false, true, None, Some(a)));
    let plan = stage_daemon_exe(true, true);
    assert_eq!((plan.copy_daemon, plan.copy_cli), (false, true));
}

#[test]
fn wiping_spares_the_binaries() {
    let entry = |name: &str, is_dir: bool| DirEntry { name: name.into(), is_dir };
    let entries = vec![entry("state.json", false), entry("bin", true), entry("logs", true)];
    assert_eq!(
        wipe_state_dir(&entries),
        vec![WipeStep::RemoveFile(0), WipeStep::RemoveDir(2)]
    );
    assert!(wipe_state_dir(&vec![]).is_empty());
}
