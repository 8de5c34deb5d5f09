//! The sessions that are running: how to kill them, and which were killed.
use std::collections::{HashMap, HashSet};
use vstd::prelude::*;
use crate::ids;

verus! {

broadcast use vstd::std_specs::hash::group_hash_axioms;

/// What is known of a running session.
#[derive(Debug, Clone)]
pub struct SessionMeta {
    pub id: u128,
    pub peer_hex: String,
    pub target_user: String,
}

/// A running session that can be ended from outside.
pub trait SessionKill: Send + Sync + Sized {
    /// What a session is after it was ended, by what it was before. Each kind of
    /// session says for itself what this means; one that does not say promises
    /// nothing of its state.
    open spec fn was_ended(before: Self, after: Self) -> bool {
        true
    }

    /// Ends the session.
    fn kill(&mut self)
        ensures
            Self::was_ended(*old(self), *final(self)),
    ;
}

pub struct RegisterSession<K> {
    pub id: u128,
    pub peer_hex: String,
    pub target_user: String,
    pub killer: K,
}

pub struct UnregisterSession {
    pub id: u128,
}

pub struct KillSession {
    pub session_id: String,
}

pub struct ListSessions;

pub struct ShutdownSshRegistry;

/// A session is over. The answer is whether it had been killed by a
/// [`KillSession`], so that the kill is not reported twice.
pub struct SessionEnded {
    pub id: u128,
}

struct Entry<K> {
    peer_hex: String,
    target_user: String,
    killer: K,
}

#[verifier::reject_recursive_types(K)]
pub struct EntryView<K> {
    pub peer: Seq<char>,
    pub user: Seq<char>,
    pub killer: K,
}

/// The state of a registry: its sessions, and the sessions that were killed
/// and have not ended yet.
#[verifier::reject_recursive_types(K)]
pub struct RegistryView<K> {
    pub sessions: Map<u128, EntryView<K>>,
    pub killed: Set<u128>,
}

/// The registry of running sessions.
#[verifier::reject_recursive_types(K)]
pub struct SshRegistryActor<K> {
    entries: HashMap<u128, Entry<K>>,
    killed: HashSet<u128>,
}

spec fn entry_view<K>(e: Entry<K>) -> EntryView<K> {
    EntryView { peer: e.peer_hex@, user: e.target_user@, killer: e.killer }
}

impl<K> View for SshRegistryActor<K> {
    type V = RegistryView<K>;

    closed spec fn view(&self) -> RegistryView<K> {
        RegistryView {
            sessions: self.entries@.map_values(|e: Entry<K>| entry_view(e)),
            killed: self.killed@,
        }
    }
}

pub open spec fn registered<K>(v: RegistryView<K>, id: u128, entry: EntryView<K>) -> RegistryView<
    K,
> {
    RegistryView { sessions: v.sessions.insert(id, entry), ..v }
}

pub open spec fn unregistered<K>(v: RegistryView<K>, id: u128) -> RegistryView<K> {
    RegistryView { sessions: v.sessions.remove(id), ..v }
}

/// The running session that a text names, if it names one.
pub open spec fn named<K>(v: RegistryView<K>, session_id: Seq<char>) -> Option<u128> {
    match ids::uuid_value(session_id) {
        Some(id) => if v.sessions.contains_key(id) {
            Some(id)
        } else {
            None
        },
        None => None,
    }
}

/// A session that is killed is not running any longer, and is remembered as killed.
pub open spec fn killed<K>(v: RegistryView<K>, session_id: Seq<char>) -> RegistryView<K> {
    match named(v, session_id) {
        Some(id) => RegistryView { sessions: v.sessions.remove(id), killed: v.killed.insert(id) },
        None => v,
    }
}

pub open spec fn ended<K>(v: RegistryView<K>, id: u128) -> RegistryView<K> {
    RegistryView { sessions: v.sessions.remove(id), killed: v.killed.remove(id) }
}

/// Each running session stands in the list once, in whatever order.
pub open spec fn lists<K>(list: Seq<SessionMeta>, v: RegistryView<K>) -> bool {
    &&& list.len() == v.sessions.len()
    &&& forall|i: int|
        0 <= i < list.len() ==> {
            &&& v.sessions.contains_key((#[trigger] list[i]).id)
            &&& list[i].peer_hex@ == v.sessions[list[i].id].peer
            &&& list[i].target_user@ == v.sessions[list[i].id].user
        }
    &&& forall|i: int, j: int|
        0 <= i < j < list.len() ==> (#[trigger] list[i]).id != (#[trigger] list[j]).id
}

impl<K: SessionKill> SshRegistryActor<K> {
    /// No session.
    pub fn new() -> (r: Self)
        ensures
            r@.sessions == Map::<u128, EntryView<K>>::empty(),
            r@.killed == Set::<u128>::empty(),
    {
        let r = SshRegistryActor { entries: HashMap::new(), killed: HashSet::new() };
        assert(r@.sessions =~= Map::<u128, EntryView<K>>::empty());
        r
    }

    pub fn register(&mut self, msg: RegisterSession<K>)
        ensures
            final(self)@ == registered(
                old(self)@,
                msg.id,
                (EntryView {
                    peer: msg.peer_hex@,
                    user: msg.target_user@,
                    killer: msg.killer,
                }),
            ),
    {
        let entry = Entry {
            peer_hex: msg.peer_hex,
            target_user: msg.target_user,
            killer: msg.killer,
        };
        self.entries.insert(msg.id, entry);
        assert(self@.sessions =~= old(self)@.sessions.insert(msg.id, entry_view(entry)));
    }

    pub fn unregister(&mut self, msg: UnregisterSession)
        ensures
            final(self)@ == unregistered(old(self)@, msg.id),
    {
        self.entries.remove(&msg.id);
        assert(self@.sessions =~= old(self)@.sessions.remove(msg.id));
    }

    /// Takes out the session that a request to kill names, to be killed.
    pub fn take_for_kill(&mut self, msg: &KillSession) -> (r: Option<K>)
        ensures
            final(self)@ == killed(old(self)@, msg.session_id@),
            r == (match named(old(self)@, msg.session_id@) {
                Some(id) => Some(old(self)@.sessions[id].killer),
                None => None,
            }),
    {
        let id = match ids::parse_uuid(msg.session_id.as_str()) {
            Some(id) => id,
            None => {
                return None;
            },
        };
        match self.entries.remove(&id) {
            Some(entry) => {
                self.killed.insert(id);
                assert(self@.sessions =~= old(self)@.sessions.remove(id));
                Some(entry.killer)
            },
            None => {
                assert(self@.sessions =~= old(self)@.sessions);
                None
            },
        }
    }

    /// Ends the session that a request names, by the killer it was registered
    /// with. Hands back that killer as it is after one kill; nothing where no
    /// such session was running.
    pub fn kill(&mut self, msg: &KillSession) -> (r: Option<K>)
        ensures
            final(self)@ == killed(old(self)@, msg.session_id@),
            match (named(old(self)@, msg.session_id@), r) {
                (Some(id), Some(after)) => K::was_ended(old(self)@.sessions[id].killer, after),
                (None, None) => true,
                _ => false,
            },
    {
        match self.take_for_kill(msg) {
            Some(killer) => {
                let mut killer = killer;
                killer.kill();
                Some(killer)
            },
            None => None,
        }
    }

    /// The running sessions, in whatever order.
    pub fn list(&self, _msg: &ListSessions) -> (r: Vec<SessionMeta>)
        ensures
            lists(r@, self@),
            forall|id: u128| #[trigger]
                self@.sessions.contains_key(id) ==> exists|i: int|
                    0 <= i < r@.len() && (#[trigger] r@[i]).id == id,
    {
        let mut out: Vec<SessionMeta> = Vec::new();
        let ghost m = self.entries@;
        let entries = self.entries.iter();
        for pair in it: entries
            invariant
                m == self.entries@,
                out@.len() == it.index(),
                it.seq().no_duplicates(),
                it.seq().len() == m.dom().len(),
                forall|i: int|
                    0 <= i < it.seq().len() ==> m.contains_key(*(#[trigger] it.seq()[i]).0)
                        && m[*it.seq()[i].0] == *it.seq()[i].1,
                forall|k: u128| #[trigger] m.contains_key(k) ==> it.seq().contains((&k, &m[k])),
                forall|i: int|
                    0 <= i < out@.len() ==> {
                        &&& (#[trigger] out@[i]).id == *it.seq()[i].0
                        &&& m.contains_key(out@[i].id)
                        &&& out@[i].peer_hex@ == m[out@[i].id].peer_hex@
                        &&& out@[i].target_user@ == m[out@[i].id].target_user@
                    },
                forall|i: int, j: int|
                    0 <= i < j < out@.len() ==> (#[trigger] out@[i]).id != (#[trigger] out@[j]).id,
                forall|k: u128| #[trigger]
                    m.contains_key(k) ==> (exists|i: int|
                        0 <= i < out@.len() && (#[trigger] out@[i]).id == k) || (exists|j: int|
                        it.index() <= j < it.seq().len() && *(#[trigger] it.seq()[j]).0 == k),
        {
            let (id, entry) = pair;
            let ghost at = it.index();
            let ghost was = out@;
            out.push(
                SessionMeta {
                    id: *id,
                    peer_hex: entry.peer_hex.clone(),
                    target_user: entry.target_user.clone(),
                },
            );
            proof {
                assert(it.seq()[at] == (id, entry));
                assert forall|i: int| 0 <= i < at implies (#[trigger] out@[i]).id != *id by {
                    assert(out@[i] == was[i]);
                    assert(it.seq()[i] != it.seq()[at]);
                }
                assert forall|k: u128| #[trigger] m.contains_key(k) implies (exists|i: int|
                    0 <= i < out@.len() && (#[trigger] out@[i]).id == k) || (exists|j: int|
                    at + 1 <= j < it.seq().len() && *(#[trigger] it.seq()[j]).0 == k) by {
                    if exists|i: int| 0 <= i < was.len() && (#[trigger] was[i]).id == k {
                        let i = choose|i: int| 0 <= i < was.len() && (#[trigger] was[i]).id == k;
                        assert(out@[i].id == k);
                    } else {
                        let j = choose|j: int|
                            at <= j < it.seq().len() && *(#[trigger] it.seq()[j]).0 == k;
                        if j == at {
                            assert(out@[at as int].id == k);
                        }
                    }
                }
            }
        }
        proof {
            assert(self@.sessions.dom() =~= m.dom());
            assert forall|id: u128| #[trigger] self@.sessions.contains_key(id) implies exists|i: int|
                0 <= i < out@.len() && (#[trigger] out@[i]).id == id by {
                assert(m.contains_key(id));
            }
        }
        out
    }

    /// A session is over. The answer is whether it had been killed.
    pub fn session_ended(&mut self, msg: SessionEnded) -> (r: bool)
        ensures
            final(self)@ == ended(old(self)@, msg.id),
            r == old(self)@.killed.contains(msg.id),
    {
        self.entries.remove(&msg.id);
        assert(self@.sessions =~= old(self)@.sessions.remove(msg.id));
        self.killed.remove(&msg.id)
    }
}

/// A running session is killed by the text of its id, is then not running any
/// longer, and is reported as killed exactly once when it ends.
pub proof fn law_killed_session_is_reported_once<K>(v: RegistryView<K>, id: u128)
    requires
        v.sessions.contains_key(id),
    ensures
        named(v, ids::uuid_text(id)) == Some(id),
        !killed(v, ids::uuid_text(id)).sessions.contains_key(id),
        named(killed(v, ids::uuid_text(id)), ids::uuid_text(id)) is None,
        killed(v, ids::uuid_text(id)).killed.contains(id),
        !ended(killed(v, ids::uuid_text(id)), id).killed.contains(id),
{
    ids::law_uuid_text_reads_back(id);
}

/// A text that is no UUID, or that names no running session, kills nothing and
/// changes nothing; so does the name of a session once it has been killed.
pub proof fn law_unknown_names_kill_nothing<K>(v: RegistryView<K>, session_id: Seq<char>)
    ensures
        ids::uuid_value(session_id) is None ==> named(v, session_id) is None,
        ids::uuid_value(session_id) matches Some(id) && !v.sessions.contains_key(id) ==> named(
            v,
            session_id,
        ) is None,
        named(v, session_id) is None ==> killed(v, session_id) == v,
        named(killed(v, session_id), session_id) is None,
        killed(killed(v, session_id), session_id) == killed(v, session_id),
{
}

/// Killing one session leaves every other one running, and unreported.
pub proof fn law_other_sessions_go_on<K>(v: RegistryView<K>, session_id: Seq<char>, other: u128)
    requires
        named(v, session_id) != Some(other),
    ensures
        killed(v, session_id).sessions.contains_key(other) == v.sessions.contains_key(other),
        v.sessions.contains_key(other) ==> killed(v, session_id).sessions[other]
            == v.sessions[other],
        killed(v, session_id).killed.contains(other) == v.killed.contains(other),
{
}

/// A session that ends by itself was registered and leaves no trace.
pub proof fn law_ending_undoes_registering<K>(
    v: RegistryView<K>,
    id: u128,
    entry: EntryView<K>,
)
    requires
        !v.sessions.contains_key(id),
        !v.killed.contains(id),
    ensures
        ended(registered(v, id, entry), id).sessions == v.sessions,
        ended(registered(v, id, entry), id).killed == v.killed,
        unregistered(registered(v, id, entry), id).sessions == v.sessions,
{
    assert(ended(registered(v, id, entry), id).sessions =~= v.sessions);
    assert(ended(registered(v, id, entry), id).killed =~= v.killed);
    assert(unregistered(registered(v, id, entry), id).sessions =~= v.sessions);
}

/// Registering, unregistering and the end of a session concern that session
/// alone: every other one stays as it is. What is registered runs; what is
/// unregistered or over does not. Only a kill marks a session as killed, and only
/// its end takes the mark away.
pub proof fn law_sessions_are_registered_one_by_one<K>(
    v: RegistryView<K>,
    id: u128,
    entry: EntryView<K>,
    other: u128,
)
    requires
        other != id,
    ensures
        registered(v, id, entry).sessions.contains_key(id),
        registered(v, id, entry).sessions[id] == entry,
        registered(v, id, entry).killed == v.killed,
        !unregistered(v, id).sessions.contains_key(id),
        unregistered(v, id).killed == v.killed,
        !ended(v, id).sessions.contains_key(id),
        !ended(v, id).killed.contains(id),
        ended(v, id).killed.contains(other) == v.killed.contains(other),
        registered(v, id, entry).sessions.contains_key(other) == v.sessions.contains_key(other),
        unregistered(v, id).sessions.contains_key(other) == v.sessions.contains_key(other),
        ended(v, id).sessions.contains_key(other) == v.sessions.contains_key(other),
        v.sessions.contains_key(other) ==> registered(v, id, entry).sessions[other]
            == v.sessions[other] && unregistered(v, id).sessions[other] == v.sessions[other]
            && ended(v, id).sessions[other] == v.sessions[other],
{
}

/// A text kills a session exactly if it is the text of the id of one that runs.
pub proof fn law_a_kill_needs_the_id<K>(v: RegistryView<K>, session_id: Seq<char>, id: u128)
    requires
        ids::uuid_value(session_id) == Some(id),
    ensures
        named(v, session_id) is Some <==> v.sessions.contains_key(id),
        v.sessions.contains_key(id) ==> named(v, session_id) == Some(id),
        v.sessions.contains_key(id) ==> killed(v, session_id).killed.contains(id),
        v.sessions.contains_key(id) ==> !killed(v, session_id).sessions.contains_key(id),
        !v.sessions.contains_key(id) ==> killed(v, session_id) == v,
{
}

} // verus!
