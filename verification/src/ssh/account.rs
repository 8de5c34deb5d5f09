//! Destination accounts of the operating system. What is known of one comes
//! from the account database, never from the environment of the agent.
use vstd::prelude::*;
use crate::names;
use crate::names::NameSet;
use crate::text;

verus! {

#[derive(Debug)]
pub struct LocalAccount {
    pub username: String,
    pub home_dir: String,
    pub shell: String,
    /// Zero on Windows.
    pub uid: u32,
    /// Zero on Windows.
    pub gid: u32,
    /// None on Windows.
    pub groups: Vec<u32>,
    /// The security identifier; on Windows only.
    pub sid: Option<String>,
}

pub struct AccountView {
    pub username: Seq<char>,
    pub home_dir: Seq<char>,
    pub shell: Seq<char>,
    pub uid: u32,
    pub gid: u32,
    pub groups: Seq<u32>,
    pub sid: Option<Seq<char>>,
}

impl View for LocalAccount {
    type V = AccountView;

    open spec fn view(&self) -> AccountView {
        AccountView {
            username: self.username@,
            home_dir: self.home_dir@,
            shell: self.shell@,
            uid: self.uid,
            gid: self.gid,
            groups: self.groups@,
            sid: text::opt_string(self.sid),
        }
    }
}

impl Clone for LocalAccount {
    fn clone(&self) -> (r: Self)
        ensures
            r@ == self@,
    {
        let groups = self.groups.clone();
        assert(groups@ =~= self.groups@);
        LocalAccount {
            username: self.username.clone(),
            home_dir: self.home_dir.clone(),
            shell: self.shell.clone(),
            uid: self.uid,
            gid: self.gid,
            groups,
            sid: text::clone_opt(&self.sid),
        }
    }
}

/// Why there is no such account.
#[derive(Debug, Clone, Copy, PartialEq, Eq, Structural)]
pub enum AccountError {
    EmptyUsername,
    /// The name holds a NUL character, which no account database can be asked for.
    InteriorNul,
    NotFound,
    /// The name is that of a group, a domain or the like.
    NotAUser,
    /// The security identifier has no text.
    UnreadableSid,
}

/// An entry of the password database.
#[derive(Debug)]
pub struct PasswdEntry {
    pub name: String,
    pub dir: String,
    pub shell: String,
    pub uid: u32,
    pub gid: u32,
}

/// The name to look up for a requested one: without white space around it.
pub open spec fn lookup_name_of(username: Seq<char>) -> Result<Seq<char>, AccountError> {
    let name = text::trimmed(username);
    if name.len() == 0 {
        Err(AccountError::EmptyUsername)
    } else if name.contains('\0') {
        Err(AccountError::InteriorNul)
    } else {
        Ok(name)
    }
}

/// The name to look up in the password database for a requested one.
pub fn lookup_name(username: &str) -> (r: Result<&str, AccountError>)
    ensures
        match r {
            Ok(name) => lookup_name_of(username@) == Ok::<Seq<char>, AccountError>(name@),
            Err(e) => lookup_name_of(username@) == Err::<Seq<char>, AccountError>(e),
        },
{
    let name = text::trim(username);
    let chars = text::chars_of(name);
    if chars.len() == 0 {
        return Err(AccountError::EmptyUsername);
    }
    let nul = text::find_char(chars.as_slice(), '\0');
    proof {
        text::lemma_find(chars@, '\0');
    }
    if nul < chars.len() {
        return Err(AccountError::InteriorNul);
    }
    Ok(name)
}

/// The groups of an account. The primary group is always one of them: it is
/// put first where the group database does not list it, and is the only one
/// where that database could not be read.
pub open spec fn all_groups(listed: Option<Seq<u32>>, gid: u32) -> Seq<u32> {
    match listed {
        None => seq![gid],
        Some(groups) => if groups.contains(gid) {
            groups
        } else {
            groups.insert(0, gid)
        },
    }
}

/// Whether `gid` is among `groups`.
pub fn holds_group(groups: &Vec<u32>, gid: u32) -> (r: bool)
    ensures
        r == groups@.contains(gid),
{
    let mut i: usize = 0;
    while i < groups.len()
        invariant
            i <= groups@.len(),
            forall|k: int| 0 <= k < i ==> groups@[k] != gid,
        decreases groups@.len() - i,
    {
        if groups[i] == gid {
            return true;
        }
        i = i + 1;
    }
    false
}

/// The groups of an account, from what the group database lists, if it could be read.
pub fn supplementary_groups(listed: Option<Vec<u32>>, gid: u32) -> (r: Vec<u32>)
    ensures
        r@ == all_groups(
            match listed {
                Some(v) => Some(v@),
                None => None,
            },
            gid,
        ),
{
    let mut out = match listed {
        Some(v) => v,
        None => {
            let mut one: Vec<u32> = Vec::new();
            one.push(gid);
            assert(one@ =~= seq![gid]);
            return one;
        },
    };
    if !holds_group(&out, gid) {
        out.insert(0, gid);
    }
    out
}

/// A shell that the database leaves out is `/bin/sh`.
pub open spec fn shell_or_default(shell: Seq<char>) -> Seq<char> {
    if shell.len() == 0 {
        "/bin/sh"@
    } else {
        shell
    }
}

pub open spec fn unix_account(entry: PasswdEntry, listed: Option<Seq<u32>>) -> AccountView {
    AccountView {
        username: entry.name@,
        home_dir: entry.dir@,
        shell: shell_or_default(entry.shell@),
        uid: entry.uid,
        gid: entry.gid,
        groups: all_groups(listed, entry.gid),
        sid: None,
    }
}

pub open spec fn resolved_account(
    username: Seq<char>,
    found: Option<PasswdEntry>,
    listed: Option<Seq<u32>>,
) -> Result<AccountView, AccountError> {
    match lookup_name_of(username) {
        Err(e) => Err(e),
        Ok(_) => match found {
            None => Err(AccountError::NotFound),
            Some(entry) => Ok(unix_account(entry, listed)),
        },
    }
}

pub open spec fn account_result(r: Result<LocalAccount, AccountError>) -> Result<
    AccountView,
    AccountError,
> {
    match r {
        Ok(a) => Ok(a@),
        Err(e) => Err(e),
    }
}

/// The account of a requested name on Unix. `found` is what the password
/// database holds under the name to look up, `listed` what the group database
/// lists for it.
pub fn resolve(
    username: &str,
    found: Option<PasswdEntry>,
    listed: Option<Vec<u32>>,
) -> (r: Result<LocalAccount, AccountError>)
    ensures
        account_result(r) == resolved_account(
            username@,
            found,
            match listed {
                Some(v) => Some(v@),
                None => None,
            },
        ),
{
    match lookup_name(username) {
        Err(e) => {
            return Err(e);
        },
        Ok(_) => {},
    }
    let entry = match found {
        Some(entry) => entry,
        None => {
            return Err(AccountError::NotFound);
        },
    };
    let shell = if text::is_empty(entry.shell.as_str()) {
        "/bin/sh".to_string()
    } else {
        entry.shell
    };
    let groups = supplementary_groups(listed, entry.gid);
    Ok(
        LocalAccount {
            username: entry.name,
            home_dir: entry.dir,
            shell,
            uid: entry.uid,
            gid: entry.gid,
            groups,
            sid: None,
        },
    )
}

/// The primary group of an account is one of its groups, and no listed group is lost.
pub proof fn law_primary_group_is_held(listed: Option<Seq<u32>>, gid: u32)
    ensures
        all_groups(listed, gid).contains(gid),
        listed matches Some(v) ==> forall|g: u32| #[trigger]
            v.contains(g) ==> all_groups(listed, gid).contains(g),
{
    match listed {
        None => {
            assert(seq![gid][0] == gid);
        },
        Some(v) => {
            if !v.contains(gid) {
                let all = v.insert(0, gid);
                assert(all[0] == gid);
                assert forall|g: u32| #[trigger] v.contains(g) implies all.contains(g) by {
                    let k = choose|k: int| 0 <= k < v.len() && v[k] == g;
                    assert(all[k + 1] == g);
                }
            }
        },
    }
}

/// What Windows says of a name that is asked for twice: once for the size of
/// the security identifier, once for the identifier itself.
#[derive(Debug)]
pub struct SidAnswer {
    /// The error code that the first call left.
    pub first_error: u32,
    /// The size that the first call asked for.
    pub sid_len: u32,
    /// Whether the second call succeeded.
    pub found: bool,
    /// What kind of name it is.
    pub sid_use: i32,
    /// The identifier as text, where it has one.
    pub text: Option<String>,
}

/// The error code for a buffer that is too small.
pub const ERROR_INSUFFICIENT_BUFFER: u32 = 122;

/// The kind of name that is a user's.
pub const SID_TYPE_USER: i32 = 1;

pub open spec fn sid_of_answer(a: SidAnswer) -> Result<Seq<char>, AccountError> {
    if a.first_error != ERROR_INSUFFICIENT_BUFFER || a.sid_len == 0 || !a.found {
        Err(AccountError::NotFound)
    } else if a.sid_use != SID_TYPE_USER {
        Err(AccountError::NotAUser)
    } else {
        match a.text {
            Some(t) => Ok(t@),
            None => Err(AccountError::UnreadableSid),
        }
    }
}

pub open spec fn windows_account(username: Seq<char>, answer: SidAnswer) -> Result<
    AccountView,
    AccountError,
> {
    let name = text::trimmed(username);
    if name.len() == 0 {
        Err(AccountError::EmptyUsername)
    } else {
        match sid_of_answer(answer) {
            Err(e) => Err(e),
            Ok(sid) => Ok(
                AccountView {
                    username: name,
                    home_dir: "C:"@,
                    shell: "C:\\Windows\\System32\\WindowsPowerShell\\v1.0\\powershell.exe"@,
                    uid: 0,
                    gid: 0,
                    groups: Seq::empty(),
                    sid: Some(sid),
                },
            ),
        }
    }
}

/// The account of a requested name on Windows, from what Windows says of the
/// name without white space around it. Its home directory is `C:`, whatever the
/// environment of the agent says of drives.
pub fn resolve_windows(username: &str, answer: SidAnswer) -> (r: Result<
    LocalAccount,
    AccountError,
>)
    ensures
        account_result(r) == windows_account(username@, answer),
{
    let name = text::trim(username);
    if text::is_empty(name) {
        return Err(AccountError::EmptyUsername);
    }
    if answer.first_error != ERROR_INSUFFICIENT_BUFFER || answer.sid_len == 0 || !answer.found {
        return Err(AccountError::NotFound);
    }
    if answer.sid_use != SID_TYPE_USER {
        return Err(AccountError::NotAUser);
    }
    let sid = match answer.text {
        Some(t) => t,
        None => {
            return Err(AccountError::UnreadableSid);
        },
    };
    let groups: Vec<u32> = Vec::new();
    assert(groups@ =~= Seq::empty());
    Ok(
        LocalAccount {
            username: name.to_string(),
            home_dir: "C:".to_string(),
            shell: "C:\\Windows\\System32\\WindowsPowerShell\\v1.0\\powershell.exe".to_string(),
            uid: 0,
            gid: 0,
            groups,
            sid: Some(sid),
        },
    )
}

/// An account depends on the name without white space around it and on what the
/// account database says, and on nothing else: where both are the same the
/// account is the same, and a name can be trimmed beforehand.
pub proof fn law_account_follows_the_database(
    username: Seq<char>,
    other: Seq<char>,
    found: Option<PasswdEntry>,
    listed: Option<Seq<u32>>,
    answer: SidAnswer,
)
    requires
        text::trimmed(username) == text::trimmed(other),
    ensures
        resolved_account(username, found, listed) == resolved_account(other, found, listed),
        windows_account(username, answer) == windows_account(other, answer),
        resolved_account(text::trimmed(username), found, listed) == resolved_account(
            username,
            found,
            listed,
        ),
        windows_account(text::trimmed(username), answer) == windows_account(username, answer),
{
    text::law_trimming_twice_is_trimming_once(username);
}

/// Interactive accounts on Unix: the one that the agent runs as, unless that is
/// root or has no entry. `own` is the account of the effective user id.
pub fn interactive_usernames(euid: u32, own: Option<&LocalAccount>) -> (r: Vec<String>)
    ensures
        text::views(r@) == (match own {
            Some(a) => if euid == 0 {
                Seq::empty()
            } else {
                seq![a@.username]
            },
            None => Seq::empty(),
        }),
{
    let mut out: Vec<String> = Vec::new();
    if euid != 0 {
        if let Some(a) = own {
            out.push(a.username.clone());
            assert(text::views(out@) =~= seq![a@.username]);
            return out;
        }
    }
    assert(text::views(out@) =~= Seq::empty());
    out
}

/// A session on a Windows machine: whether it is active, and the name of its
/// user where that could be found out.
#[derive(Debug)]
pub struct WindowsSession {
    pub active: bool,
    pub user: Option<String>,
}

/// The users of the first `n` sessions that are active and have a name.
pub open spec fn active_users(sessions: Seq<WindowsSession>, n: int) -> Set<Seq<char>> {
    Set::new(
        |name: Seq<char>|
            name.len() > 0 && exists|i: int|
                0 <= i < n && (#[trigger] sessions[i]).active && text::opt_string(sessions[i].user)
                    == Some(name),
    )
}

/// The users of active sessions: each once, in ascending order.
pub fn logged_on_usernames(sessions: &Vec<WindowsSession>) -> (r: Vec<String>)
    ensures
        names::ascending(text::views(r@)),
        text::views(r@).to_set() == active_users(sessions@, sessions@.len() as int),
{
    let mut set = NameSet::new();
    assert(set@ =~= active_users(sessions@, 0));
    let mut i: usize = 0;
    while i < sessions.len()
        invariant
            i <= sessions@.len(),
            set@ == active_users(sessions@, i as int),
        decreases sessions@.len() - i,
    {
        let ghost was = set@;
        let ghost s = sessions@[i as int];
        let mut taken = false;
        if sessions[i].active {
            if let Some(name) = &sessions[i].user {
                if !text::is_empty(name.as_str()) {
                    set.insert(name.clone());
                    taken = true;
                }
            }
        }
        proof {
            let now = active_users(sessions@, i + 1);
            assert forall|name: Seq<char>| #[trigger] set@.contains(name) == now.contains(name) by {
                if was.contains(name) {
                    let k = choose|k: int|
                        0 <= k < i && (#[trigger] sessions@[k]).active && text::opt_string(
                            sessions@[k].user,
                        ) == Some(name);
                    assert(sessions@[k].active);
                }
                if taken && name == s.user->0@ {
                    assert(sessions@[i as int].active);
                }
            }
            assert(set@ =~= now);
        }
        i = i + 1;
    }
    set.into_vec()
}

/// An account on Unix is the entry of the password database, under the name that
/// stands there. There is none for a name that is empty or holds a NUL character
/// once the white space around it is gone, nor where the database has no entry.
pub proof fn law_unix_account_is_the_entry(
    username: Seq<char>,
    entry: PasswdEntry,
    listed: Option<Seq<u32>>,
)
    ensures
        ({
            let name = text::trimmed(username);
            let r = resolved_account(username, Some(entry), listed);
            &&& name.len() == 0 ==> r == Err::<AccountView, AccountError>(
                AccountError::EmptyUsername,
            )
            &&& name.contains('\0') ==> r == Err::<AccountView, AccountError>(
                AccountError::InteriorNul,
            )
            &&& name.len() > 0 && !name.contains('\0') ==> {
                &&& lookup_name_of(username) == Ok::<Seq<char>, AccountError>(name)
                &&& resolved_account(username, None, listed) == Err::<AccountView, AccountError>(
                    AccountError::NotFound,
                )
                &&& r matches Ok(a) && {
                    &&& a.username == entry.name@
                    &&& a.home_dir == entry.dir@
                    &&& a.uid == entry.uid
                    &&& a.gid == entry.gid
                    &&& a.sid is None
                    &&& entry.shell@.len() > 0 ==> a.shell == entry.shell@
                    &&& entry.shell@.len() == 0 ==> a.shell == "/bin/sh"@
                    &&& a.groups.contains(entry.gid)
                }
            }
        }),
{
    law_primary_group_is_held(listed, entry.gid);
}

/// The groups of an account are those that are listed, in their order, and no
/// other but the primary one: this stands first where it is not listed, and alone
/// where nothing could be read.
pub proof fn law_groups_are_the_listed_ones(groups: Seq<u32>, gid: u32, g: u32)
    ensures
        all_groups(None, gid) == seq![gid],
        groups.contains(gid) ==> all_groups(Some(groups), gid) == groups,
        !groups.contains(gid) ==> all_groups(Some(groups), gid) == seq![gid] + groups,
        all_groups(Some(groups), gid).contains(g) <==> g == gid || groups.contains(g),
{
    let all = all_groups(Some(groups), gid);
    if !groups.contains(gid) {
        assert(all =~= seq![gid] + groups);
        assert(all[0] == gid);
        if groups.contains(g) {
            let k = choose|k: int| 0 <= k < groups.len() && groups[k] == g;
            assert(all[k + 1] == g);
        }
        if all.contains(g) && g != gid {
            let k = choose|k: int| 0 <= k < all.len() && all[k] == g;
            assert(groups[k - 1] == g);
        }
    }
}

/// An account on Windows needs a name, and the name has to be a user's and to have
/// an identifier with a text. It goes by the trimmed name and by that text; the
/// home directory and the shell are fixed, and it has no ids of Unix.
pub proof fn law_windows_account_is_the_users(username: Seq<char>, answer: SidAnswer)
    ensures
        ({
            let name = text::trimmed(username);
            let known = answer.first_error == 122 && answer.sid_len > 0 && answer.found;
            let r = windows_account(username, answer);
            &&& name.len() == 0 ==> r == Err::<AccountView, AccountError>(
                AccountError::EmptyUsername,
            )
            &&& name.len() > 0 && !known ==> r == Err::<AccountView, AccountError>(
                AccountError::NotFound,
            )
            &&& name.len() > 0 && known && answer.sid_use != 1 ==> r == Err::<
                AccountView,
                AccountError,
            >(AccountError::NotAUser)
            &&& name.len() > 0 && known && answer.sid_use == 1 && answer.text is None ==> r
                == Err::<AccountView, AccountError>(AccountError::UnreadableSid)
            &&& name.len() > 0 && known && answer.sid_use == 1 && answer.text is Some ==> (
            r matches Ok(a) && {
                &&& a.username == name
                &&& a.sid == Some(answer.text->0@)
                &&& a.home_dir == "C:"@
                &&& a.shell == "C:\\Windows\\System32\\WindowsPowerShell\\v1.0\\powershell.exe"@
                &&& a.uid == 0 && a.gid == 0 && a.groups.len() == 0
            })
        }),
{
}

/// A name is among the users of active sessions exactly if a session with that
/// name is active and the name is not empty.
pub proof fn law_active_users_are_logged_on(
    sessions: Seq<WindowsSession>,
    name: Seq<char>,
    i: int,
)
    requires
        0 <= i < sessions.len(),
    ensures
        sessions[i].active && sessions[i].user is Some && sessions[i].user->0@.len() > 0
            ==> active_users(sessions, sessions.len() as int).contains(sessions[i].user->0@),
        active_users(sessions, sessions.len() as int).contains(name) ==> name.len() > 0 && exists|
            k: int,
        |
            0 <= k < sessions.len() && (#[trigger] sessions[k]).active && sessions[k].user is Some
                && sessions[k].user->0@ == name,
{
    if active_users(sessions, sessions.len() as int).contains(name) {
        let k = choose|k: int|
            0 <= k < sessions.len() && (#[trigger] sessions[k]).active && text::opt_string(
                sessions[k].user,
            ) == Some(name);
        assert(sessions[k].active && sessions[k].user->0@ == name);
    }
    if sessions[i].active && sessions[i].user is Some {
        assert(text::opt_string(sessions[i].user) == Some(sessions[i].user->0@));
    }
}

/// What an account shows of itself is what it holds.
pub proof fn law_accounts_show_what_they_hold(a: LocalAccount, error: AccountError)
    ensures
        a@.username == a.username@,
        a@.home_dir == a.home_dir@,
        a@.shell == a.shell@,
        a@.uid == a.uid,
        a@.gid == a.gid,
        a@.groups == a.groups@,
        a@.sid is Some <==> a.sid is Some,
        a.sid is Some ==> a@.sid == Some(a.sid->0@),
        account_result(Ok(a)) == Ok::<AccountView, AccountError>(a@),
        account_result(Err(error)) == Err::<AccountView, AccountError>(error),
{
}

} // verus!
