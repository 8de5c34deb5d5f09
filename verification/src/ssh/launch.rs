//! How a session of an authorized login is launched: the environment and the
//! arguments of its process, and how that process gives up its privileges.
use vstd::prelude::*;
use vstd::string::*;
use super::account;
use super::account::{AccountView, LocalAccount};
use crate::platform::Platform;
use crate::text;

verus! {

/// A variable of an environment and its value.
pub type Variable = (Seq<char>, Seq<char>);

pub open spec fn variables(v: Seq<(String, String)>) -> Seq<Variable> {
    v.map_values(|p: (String, String)| (p.0@, p.1@))
}

/// What a shell or a command is launched with.
#[derive(Debug)]
pub struct LaunchRequest {
    pub account: LocalAccount,
    pub term: String,
    pub width: u16,
    pub height: u16,
    pub env_vars: Vec<(String, String)>,
    /// None for a login shell.
    pub command: Option<String>,
}

pub struct LaunchView {
    pub account: AccountView,
    pub term: Seq<char>,
    pub width: u16,
    pub height: u16,
    pub env_vars: Seq<Variable>,
    pub command: Option<Seq<char>>,
}

impl View for LaunchRequest {
    type V = LaunchView;

    open spec fn view(&self) -> LaunchView {
        LaunchView {
            account: self.account@,
            term: self.term@,
            width: self.width,
            height: self.height,
            env_vars: variables(self.env_vars@),
            command: text::opt_string(self.command),
        }
    }
}

/// The argument by which the daemon knows that it is to be a session.
pub fn child_argv() -> (r: &'static str)
    ensures
        r@ == "__ssh-session"@,
{
    "__ssh-session"
}

pub open spec fn safe_path(platform: Platform) -> Seq<char> {
    if platform is Windows {
        "C:\\Windows\\System32;C:\\Windows"@
    } else {
        "/usr/local/sbin:/usr/local/bin:/usr/sbin:/usr/bin:/sbin:/bin"@
    }
}

/// Where a session looks for programs, whatever the agent's own path is.
pub fn sanitized_path(platform: Platform) -> (r: &'static str)
    ensures
        r@ == safe_path(platform),
{
    if platform == Platform::Windows {
        "C:\\Windows\\System32;C:\\Windows"
    } else {
        "/usr/local/sbin:/usr/local/bin:/usr/sbin:/usr/bin:/sbin:/bin"
    }
}

pub open spec fn decimals(groups: Seq<u32>) -> Seq<Seq<char>> {
    groups.map_values(|g: u32| text::decimal(g as nat))
}

/// The groups in decimal with commas between them.
pub open spec fn groups_text(groups: Seq<u32>) -> Seq<char> {
    text::joined(decimals(groups), ',')
}

/// The variables that tell the session's process whom to become.
pub open spec fn account_variables(a: AccountView) -> Seq<Variable> {
    seq![
        ("TUNNET_SSH_UID"@, text::decimal(a.uid as nat)),
        ("TUNNET_SSH_GID"@, text::decimal(a.gid as nat)),
        ("TUNNET_SSH_GROUPS"@, groups_text(a.groups)),
        ("TUNNET_SSH_USER"@, a.username),
        ("TUNNET_SSH_HOME"@, a.home_dir),
        ("TUNNET_SSH_SHELL"@, a.shell),
    ]
}

pub open spec fn user_variables(a: AccountView) -> Seq<Variable> {
    seq![
        ("HOME"@, a.home_dir),
        ("USER"@, a.username),
        ("LOGNAME"@, a.username),
        ("SHELL"@, a.shell),
    ]
}

pub open spec fn command_variable(command: Option<Seq<char>>) -> Variable {
    match command {
        Some(c) => ("TUNNET_SSH_EXEC"@, c),
        None => ("TUNNET_SSH_LOGIN"@, "1"@),
    }
}

/// The environment of a shell or a command, in the order in which it is set.
pub open spec fn shell_variables(platform: Platform, req: LaunchView) -> Seq<Variable> {
    seq![("PATH"@, safe_path(platform)), ("TERM"@, req.term)] + user_variables(req.account)
        + account_variables(req.account) + seq![command_variable(req.command)] + req.env_vars
}

/// The environment of an SFTP session, in the order in which it is set.
pub open spec fn sftp_variables(platform: Platform, a: AccountView) -> Seq<Variable> {
    seq![("PATH"@, safe_path(platform))] + user_variables(a) + account_variables(a) + seq![
        ("TUNNET_SSH_SFTP"@, "1"@),
    ]
}

fn write_groups(groups: &Vec<u32>) -> (r: String)
    ensures
        r@ == groups_text(groups@),
{
    let mut out = String::new();
    let ghost all = decimals(groups@);
    assert(all.take(0) =~= Seq::empty());
    assert(out@ =~= Seq::empty());
    let mut i: usize = 0;
    while i < groups.len()
        invariant
            i <= groups@.len(),
            all == decimals(groups@),
            out@ == text::joined(all.take(i as int), ','),
        decreases groups@.len() - i,
    {
        let item = text::decimal_text(groups[i]);
        assert(all[i as int] == item@);
        assert(all.take(i + 1) =~= all.take(i as int).push(item@));
        if i > 0 {
            proof {
                reveal_strlit(",");
                text::lemma_joined_push(all.take(i as int), item@, ',');
            }
            let ghost was = out@;
            out.append(",");
            assert(out@ =~= was.push(','));
        } else {
            assert(all.take(1) =~= seq![item@]);
            assert(out@ + item@ =~= item@);
        }
        out.append(item.as_str());
        i = i + 1;
    }
    assert(all.take(all.len() as int) =~= all);
    out
}

fn set(vars: &mut Vec<(String, String)>, name: &str, value: &str)
    ensures
        variables(final(vars)@) == variables(old(vars)@).push((name@, value@)),
{
    vars.push((name.to_string(), value.to_string()));
    assert(variables(vars@) =~= variables(old(vars)@).push((name@, value@)));
}

fn set_user(vars: &mut Vec<(String, String)>, a: &LocalAccount)
    ensures
        variables(final(vars)@) == variables(old(vars)@) + user_variables(a@),
{
    set(vars, "HOME", a.home_dir.as_str());
    set(vars, "USER", a.username.as_str());
    set(vars, "LOGNAME", a.username.as_str());
    set(vars, "SHELL", a.shell.as_str());
    assert(variables(vars@) =~= variables(old(vars)@) + user_variables(a@));
}

fn set_account(vars: &mut Vec<(String, String)>, a: &LocalAccount)
    ensures
        variables(final(vars)@) == variables(old(vars)@) + account_variables(a@),
{
    let uid = text::decimal_text(a.uid);
    let gid = text::decimal_text(a.gid);
    let groups = write_groups(&a.groups);
    set(vars, "TUNNET_SSH_UID", uid.as_str());
    set(vars, "TUNNET_SSH_GID", gid.as_str());
    set(vars, "TUNNET_SSH_GROUPS", groups.as_str());
    set(vars, "TUNNET_SSH_USER", a.username.as_str());
    set(vars, "TUNNET_SSH_HOME", a.home_dir.as_str());
    set(vars, "TUNNET_SSH_SHELL", a.shell.as_str());
    assert(variables(vars@) =~= variables(old(vars)@) + account_variables(a@));
}

/// The environment of a shell or a command: variables to set in this order in
/// an empty environment, so that of two with one name the later holds.
pub fn shell_environment(platform: Platform, req: &LaunchRequest) -> (r: Vec<(String, String)>)
    ensures
        variables(r@) == shell_variables(platform, req@),
{
    let mut vars: Vec<(String, String)> = Vec::new();
    assert(variables(vars@) =~= Seq::empty());
    set(&mut vars, "PATH", sanitized_path(platform));
    set(&mut vars, "TERM", req.term.as_str());
    set_user(&mut vars, &req.account);
    set_account(&mut vars, &req.account);
    match &req.command {
        Some(command) => {
            set(&mut vars, "TUNNET_SSH_EXEC", command.as_str());
        },
        None => {
            set(&mut vars, "TUNNET_SSH_LOGIN", "1");
        },
    }
    let ghost base = variables(vars@);
    assert(base =~= shell_variables(platform, (LaunchView { env_vars: Seq::empty(), ..req@ })));
    assert(base + req@.env_vars.take(0) =~= base);
    let mut i: usize = 0;
    while i < req.env_vars.len()
        invariant
            i <= req.env_vars@.len(),
            req@.env_vars == variables(req.env_vars@),
            variables(vars@) == base + req@.env_vars.take(i as int),
        decreases req.env_vars@.len() - i,
    {
        set(&mut vars, req.env_vars[i].0.as_str(), req.env_vars[i].1.as_str());
        assert(variables(vars@) =~= base + req@.env_vars.take(i + 1));
        i = i + 1;
    }
    assert(variables(vars@) =~= shell_variables(platform, req@));
    vars
}

/// The environment of an SFTP session: variables to set in this order in an
/// empty environment.
pub fn sftp_environment(platform: Platform, account: &LocalAccount) -> (r: Vec<(String, String)>)
    ensures
        variables(r@) == sftp_variables(platform, account@),
{
    let mut vars: Vec<(String, String)> = Vec::new();
    assert(variables(vars@) =~= Seq::empty());
    set(&mut vars, "PATH", sanitized_path(platform));
    set_user(&mut vars, account);
    set_account(&mut vars, account);
    set(&mut vars, "TUNNET_SSH_SFTP", "1");
    assert(variables(vars@) =~= sftp_variables(platform, account@));
    vars
}

/// A size of a terminal is never zero.
pub open spec fn at_least_one(n: u16) -> u16 {
    if n == 0 {
        1
    } else {
        n
    }
}

/// The rows and columns that a terminal is given.
pub fn window_size(cols: u16, rows: u16) -> (r: (u16, u16))
    ensures
        r == (at_least_one(rows), at_least_one(cols)),
{
    let rows = if rows == 0 {
        1
    } else {
        rows
    };
    let cols = if cols == 0 {
        1
    } else {
        cols
    };
    (rows, cols)
}

/// The length of the text in a buffer: up to the first NUL byte, or all of it.
pub fn c_text_len(buf: &[u8]) -> (r: usize)
    ensures
        r <= buf@.len(),
        r < buf@.len() ==> buf@[r as int] == 0,
        forall|k: int| 0 <= k < r ==> buf@[k] != 0,
{
    let mut i: usize = 0;
    while i < buf.len() && buf[i] != 0
        invariant
            i <= buf@.len(),
            forall|k: int| 0 <= k < i ==> buf@[k] != 0,
        decreases buf@.len() - i,
    {
        i = i + 1;
    }
    i
}

/// How many supplementary groups macOS and FreeBSD take.
pub const BSD_GROUP_LIMIT: usize = 16;

pub open spec fn without(groups: Seq<u32>, gid: u32) -> Seq<u32>
    decreases groups.len(),
{
    if groups.len() == 0 {
        groups
    } else if groups.last() == gid {
        without(groups.drop_last(), gid)
    } else {
        without(groups.drop_last(), gid).push(groups.last())
    }
}

/// The groups to take: the primary one among them, and where its place
/// matters first and with at most 16 in all.
pub open spec fn groups_to_take(platform: Platform, gid: u32, groups: Seq<u32>) -> Seq<u32> {
    let all = account::all_groups(Some(groups), gid);
    if platform is Bsd {
        let ordered = without(all, gid).insert(0, gid);
        if ordered.len() > BSD_GROUP_LIMIT {
            ordered.take(BSD_GROUP_LIMIT as int)
        } else {
            ordered
        }
    } else {
        all
    }
}

/// Why a process could not become another user.
#[derive(Debug, Clone, Copy, PartialEq, Eq, Structural)]
pub enum DropError {
    /// Only root can become somebody else.
    Unprivileged { euid: u32, uid: u32 },
    SetGroups,
    SetGid { gid: u32 },
    SetUid { uid: u32 },
    /// The process is not who it was to become.
    Unverified { got_uid: u32, got_gid: u32 },
}

/// How a process becomes another user: takes groups, then a group, then a user.
#[derive(Debug)]
pub struct DropPlan {
    pub euid: u32,
    pub groups: Vec<u32>,
    pub gid: u32,
    pub uid: u32,
}

fn remove_all(groups: &Vec<u32>, gid: u32) -> (r: Vec<u32>)
    ensures
        r@ == without(groups@, gid),
{
    let mut out: Vec<u32> = Vec::new();
    assert(groups@.take(0) =~= Seq::empty());
    assert(out@ =~= without(groups@.take(0), gid));
    let mut i: usize = 0;
    while i < groups.len()
        invariant
            i <= groups@.len(),
            out@ == without(groups@.take(i as int), gid),
        decreases groups@.len() - i,
    {
        assert(groups@.take(i + 1).drop_last() =~= groups@.take(i as int));
        if groups[i] != gid {
            out.push(groups[i]);
        }
        i = i + 1;
    }
    assert(groups@.take(groups@.len() as int) =~= groups@);
    out
}

/// How a process with the effective user `euid` becomes the user `uid`.
pub fn plan_drop(
    platform: Platform,
    euid: u32,
    uid: u32,
    gid: u32,
    groups: &Vec<u32>,
) -> (r: Result<DropPlan, DropError>)
    ensures
        match r {
            Err(e) => euid != 0 && euid != uid && e == (DropError::Unprivileged { euid, uid }),
            Ok(plan) => {
                &&& euid == 0 || euid == uid
                &&& plan.euid == euid
                &&& plan.uid == uid
                &&& plan.gid == gid
                &&& plan.groups@ == groups_to_take(platform, gid, groups@)
            },
        },
{
    if euid != 0 && euid != uid {
        return Err(DropError::Unprivileged { euid, uid });
    }
    let copy = groups.clone();
    assert(copy@ =~= groups@);
    let mut gids = account::supplementary_groups(Some(copy), gid);
    if platform == Platform::Bsd {
        gids = remove_all(&gids, gid);
        gids.insert(0, gid);
        if gids.len() > BSD_GROUP_LIMIT {
            gids.truncate(BSD_GROUP_LIMIT);
        }
        assert(gids@ =~= groups_to_take(platform, gid, groups@));
    }
    Ok(DropPlan { euid, groups: gids, gid, uid })
}

impl DropPlan {
    /// What it means that the groups were taken or not: a process that is not
    /// root keeps the groups it has.
    pub fn groups_set(&self, done: bool) -> (r: Result<(), DropError>)
        ensures
            r == (if !done && self.euid == 0 {
                Err::<(), DropError>(DropError::SetGroups)
            } else {
                Ok::<(), DropError>(())
            }),
    {
        if !done && self.euid == 0 {
            return Err(DropError::SetGroups);
        }
        Ok(())
    }

    pub fn gid_set(&self, done: bool) -> (r: Result<(), DropError>)
        ensures
            r == (if done {
                Ok::<(), DropError>(())
            } else {
                Err::<(), DropError>(DropError::SetGid { gid: self.gid })
            }),
    {
        if !done {
            return Err(DropError::SetGid { gid: self.gid });
        }
        Ok(())
    }

    pub fn uid_set(&self, done: bool) -> (r: Result<(), DropError>)
        ensures
            r == (if done {
                Ok::<(), DropError>(())
            } else {
                Err::<(), DropError>(DropError::SetUid { uid: self.uid })
            }),
    {
        if !done {
            return Err(DropError::SetUid { uid: self.uid });
        }
        Ok(())
    }

    /// Whether the process has become who it was to become.
    pub fn verify(&self, got_uid: u32, got_gid: u32) -> (r: Result<(), DropError>)
        ensures
            r == (if got_uid == self.uid && got_gid == self.gid {
                Ok::<(), DropError>(())
            } else {
                Err::<(), DropError>(DropError::Unverified { got_uid, got_gid })
            }),
    {
        if got_uid != self.uid || got_gid != self.gid {
            return Err(DropError::Unverified { got_uid, got_gid });
        }
        Ok(())
    }
}

proof fn lemma_without(groups: Seq<u32>, gid: u32)
    ensures
        !without(groups, gid).contains(gid),
        without(groups, gid).len() <= groups.len(),
        forall|g: u32| g != gid && #[trigger] groups.contains(g) ==> without(groups, gid).contains(g),
    decreases groups.len(),
{
    if groups.len() > 0 {
        let rest = groups.drop_last();
        lemma_without(rest, gid);
        let w = without(groups, gid);
        let v = without(rest, gid);
        assert forall|g: u32| g != gid && #[trigger] groups.contains(g) implies w.contains(g) by {
            let k = choose|k: int| 0 <= k < groups.len() && groups[k] == g;
            if k < rest.len() {
                assert(rest[k] == g);
                assert(rest.contains(g));
                let m = choose|m: int| 0 <= m < v.len() && v[m] == g;
                assert(w[m] == g);
            } else {
                assert(w[w.len() - 1] == g);
            }
        }
        if w.contains(gid) {
            let m = choose|m: int| 0 <= m < w.len() && w[m] == gid;
            if m < v.len() {
                assert(v[m] == gid);
            }
        }
    }
}

/// The groups that are taken hold the primary one; on macOS and FreeBSD it is
/// the first and stands there once, and there are at most 16.
pub proof fn law_primary_group_is_taken(platform: Platform, gid: u32, groups: Seq<u32>)
    ensures
        groups_to_take(platform, gid, groups).contains(gid),
        platform is Bsd ==> {
            let g = groups_to_take(platform, gid, groups);
            &&& g.len() <= BSD_GROUP_LIMIT
            &&& g[0] == gid
            &&& forall|i: int| 1 <= i < g.len() ==> g[i] != gid
        },
{
    account::law_primary_group_is_held(Some(groups), gid);
    let all = account::all_groups(Some(groups), gid);
    lemma_without(all, gid);
    if platform is Bsd {
        let g = groups_to_take(platform, gid, groups);
        let w = without(all, gid);
        assert(g[0] == gid);
        assert forall|i: int| 1 <= i < g.len() implies g[i] != gid by {
            assert(g[i] == w[i - 1]);
        }
    }
}

/// The arguments of a shell: `-c` and a command, or `-l` for a login shell.
pub open spec fn shell_arguments(login: bool, command: Option<Seq<char>>) -> Seq<Seq<char>> {
    match command {
        Some(c) => seq!["-c"@, c],
        None => if login {
            seq!["-l"@]
        } else {
            Seq::empty()
        },
    }
}

/// The arguments that a shell is run with.
pub fn shell_args(login: bool, command: Option<&str>) -> (r: Vec<String>)
    ensures
        text::views(r@) == shell_arguments(login, text::opt_view(command)),
{
    let mut out: Vec<String> = Vec::new();
    if let Some(c) = command {
        out.push("-c".to_string());
        out.push(c.to_string());
    } else if login {
        out.push("-l".to_string());
    }
    assert(text::views(out@) =~= shell_arguments(login, text::opt_view(command)));
    out
}

proof fn lemma_without_keeps_only(groups: Seq<u32>, gid: u32)
    ensures
        forall|g: u32| #[trigger] without(groups, gid).contains(g) ==> groups.contains(g),
    decreases groups.len(),
{
    if groups.len() > 0 {
        let rest = groups.drop_last();
        lemma_without_keeps_only(rest, gid);
        let w = without(groups, gid);
        let v = without(rest, gid);
        assert forall|g: u32| #[trigger] w.contains(g) implies groups.contains(g) by {
            let m = choose|m: int| 0 <= m < w.len() && w[m] == g;
            if m < v.len() {
                assert(v[m] == g);
                assert(v.contains(g));
                let k = choose|k: int| 0 <= k < rest.len() && rest[k] == g;
                assert(groups[k] == g);
            } else {
                assert(groups[groups.len() - 1] == g);
            }
        }
    }
}

/// Only groups of the account are taken: its listed ones and the primary one. None
/// is lost, but on macOS and FreeBSD for those past the limit of 16.
pub proof fn law_only_own_groups_are_taken(
    platform: Platform,
    gid: u32,
    groups: Seq<u32>,
    g: u32,
)
    ensures
        groups_to_take(platform, gid, groups).contains(g) ==> g == gid || groups.contains(g),
        groups.contains(g) && (!(platform is Bsd) || groups.len() <= 15) ==> groups_to_take(
            platform,
            gid,
            groups,
        ).contains(g),
        !(platform is Bsd) && groups.contains(gid) ==> groups_to_take(platform, gid, groups)
            == groups,
        !(platform is Bsd) && !groups.contains(gid) ==> groups_to_take(platform, gid, groups)
            == seq![gid] + groups,
        platform is Bsd ==> groups_to_take(platform, gid, groups).len() <= 16,
        platform is Bsd ==> groups_to_take(platform, gid, groups)[0] == gid,
{
    account::law_groups_are_the_listed_ones(groups, gid, g);
    account::law_primary_group_is_held(Some(groups), gid);
    law_primary_group_is_taken(platform, gid, groups);
    let all = account::all_groups(Some(groups), gid);
    let taken = groups_to_take(platform, gid, groups);
    if platform is Bsd {
        let w = without(all, gid);
        let ordered = w.insert(0, gid);
        lemma_without(all, gid);
        lemma_without_keeps_only(all, gid);
        if taken.contains(g) && g != gid {
            let k = choose|k: int| 0 <= k < taken.len() && taken[k] == g;
            assert(ordered[k] == g);
            assert(w[k - 1] == g);
            assert(w.contains(g));
        }
        if groups.contains(g) && groups.len() <= 15 {
            if g == gid {
                assert(taken[0] == g);
            } else {
                assert(all.contains(g));
                assert(w.contains(g));
                let k = choose|k: int| 0 <= k < w.len() && w[k] == g;
                assert(ordered[k + 1] == g);
                lemma_without_primary_is_shorter(all, gid);
                assert(taken =~= ordered);
            }
        }
    }
}

proof fn lemma_without_primary_is_shorter(groups: Seq<u32>, gid: u32)
    requires
        groups.contains(gid),
    ensures
        without(groups, gid).len() < groups.len(),
    decreases groups.len(),
{
    let k = choose|k: int| 0 <= k < groups.len() && groups[k] == gid;
    let rest = groups.drop_last();
    lemma_without(rest, gid);
    if groups.last() != gid {
        assert(rest[k] == gid);
        lemma_without_primary_is_shorter(rest, gid);
    }
}

/// On macOS and FreeBSD the groups behind the primary one keep their order: taking
/// one more listed group at the end adds it at the end, if it is not the primary
/// one.
pub proof fn law_other_groups_keep_their_order(groups: Seq<u32>, gid: u32, g: u32)
    ensures
        g != gid ==> without(groups.push(g), gid) == without(groups, gid).push(g),
        without(groups.push(gid), gid) == without(groups, gid),
        without(Seq::empty(), gid) == Seq::<u32>::empty(),
        groups_to_take(Platform::Bsd, gid, groups).len() <= 16,
        groups_to_take(Platform::Bsd, gid, groups).is_prefix_of(
            seq![gid] + without(account::all_groups(Some(groups), gid), gid),
        ),
{
    assert(groups.push(g).drop_last() =~= groups);
    assert(groups.push(gid).drop_last() =~= groups);
    let w = without(account::all_groups(Some(groups), gid), gid);
    assert(w.insert(0, gid) =~= seq![gid] + w);
    let taken = groups_to_take(Platform::Bsd, gid, groups);
    let ordered = w.insert(0, gid);
    assert(taken =~= ordered.subrange(0, taken.len() as int));
}

/// What a shell is run with: `-c` and the command, or `-l` where it is a login
/// shell, or nothing.
pub proof fn law_arguments_of_a_shell(login: bool, command: Seq<char>)
    ensures
        shell_arguments(login, Some(command)).len() == 2,
        shell_arguments(login, Some(command))[0] == "-c"@,
        shell_arguments(login, Some(command))[1] == command,
        shell_arguments(true, None).len() == 1,
        shell_arguments(true, None)[0] == "-l"@,
        shell_arguments(false, None).len() == 0,
{
}

/// A size is kept, but zero becomes one.
pub proof fn law_window_sizes(n: u16)
    ensures
        n > 0 ==> at_least_one(n) == n,
        at_least_one(0) == 1,
{
}

/// Where a session looks for programs.
pub proof fn law_programs_are_found_in(platform: Platform)
    ensures
        platform is Windows ==> safe_path(platform) == "C:\\Windows\\System32;C:\\Windows"@,
        !(platform is Windows) ==> safe_path(platform)
            == "/usr/local/sbin:/usr/local/bin:/usr/sbin:/usr/bin:/sbin:/bin"@,
{
}

} // verus!
