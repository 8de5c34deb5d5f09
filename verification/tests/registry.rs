use std::sync::atomic::{AtomicUsize, Ordering};
use std::sync::Arc;

use tunnet::ssh_registry::{
    KillSession, ListSessions, RegisterSession, SessionEnded, SessionKill, SshRegistryActor,
    UnregisterSession,
};

struct Counter(Arc<AtomicUsize>);

impl SessionKill for Counter {
    fn kill(&mut self) {
        self.0.fetch_add(1, Ordering::SeqCst);
    }
}

fn register(r: &mut SshRegistryActor<Counter>, id: u128) -> Arc<AtomicUsize> {
    let kills = Arc::new(AtomicUsize::new(0));
    r.register(RegisterSession {
        id,
        peer_hex: format!("peer{id}"),
        target_user: "alice".into(),
        killer: Counter(kills.clone()),
    });
    kills
}

fn kill(r: &mut SshRegistryActor<Counter>, id: &str) -> bool {
    r.kill(&KillSession { session_id: id.into() }).is_some()
}

const ONE: &str = "00000000-0000-0000-0000-000000000001";

#[test]
fn killed_session_is_reported_once() {
    let mut r = SshRegistryActor::new();
    let kills = register(&mut r, 1);
    let other = register(&mut r, 2);
    assert!(kill(&mut r, ONE));
    assert_eq!(kills.load(Ordering::SeqCst), 1);
    assert_eq!(other.load(Ordering::SeqCst), 0);
    assert!(!kill(&mut r, ONE));
    assert!(r.session_ended(SessionEnded { id: 1 }));
    assert!(!r.session_ended(SessionEnded { id: 1 }));
    assert!(!r.session_ended(SessionEnded { id: 2 }));
}

#[test]
fn unknown_and_invalid_ids_kill_nothing() {
    let mut r = SshRegistryActor::new();
    let kills = register(&mut r, 1);
    assert!(!kill(&mut r, "00000000-0000-0000-0000-000000000002"));
    assert!(!kill(&mut r, "1"));
    assert!(!kill(&mut r, ""));
    assert_eq!(kills.load(Ordering::SeqCst), 0);
    assert!(kill(&mut r, "urn:uuid:00000000-0000-0000-0000-000000000001"));
}

#[test]
fn sessions_are_listed() {
    let mut r = SshRegistryActor::new();
    for id in [3, 1, 2] {
        register(&mut r, id);
    }
    r.unregister(UnregisterSession { id: 2 });
    let mut list = r.list(&ListSessions);
    list.sort_by_key(|m| m.id);
    let shown: Vec<(u128, &str, &str)> =
        list.iter().map(|m| (m.id, m.peer_hex.as_str(), m.target_user.as_str())).collect();
    assert_eq!(shown, vec![(1, "peer1", "alice"), (3, "peer3", "alice")]);
}
