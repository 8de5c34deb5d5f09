//! The process of a session: a child of the daemon that becomes the
//! destination user and then the shell or the SFTP server.
use vstd::prelude::*;
use vstd::string::*;
use super::launch;
use super::launch::{LaunchView, Variable};
use super::account::AccountView;
use crate::platform::Platform;
use crate::text;

verus! {

/// Whether a process is to be a session, by its first argument.
pub fn is_session_child(first_argument: Option<&str>) -> (r: bool)
    ensures
        r == (text::opt_view(first_argument) == Some("__ssh-session"@)),
{
    match first_argument {
        Some(a) => text::same(a, launch::child_argv()),
        None => false,
    }
}

/// The variables that a session's process reads, where they are set.
#[derive(Debug)]
pub struct ChildEnv {
    /// `TUNNET_SSH_UID`
    pub uid: Option<String>,
    /// `TUNNET_SSH_GID`
    pub gid: Option<String>,
    /// `TUNNET_SSH_GROUPS`
    pub groups: Option<String>,
    /// `TUNNET_SSH_HOME`
    pub home: Option<String>,
    /// `TUNNET_SSH_SHELL`
    pub shell: Option<String>,
    /// `TUNNET_SSH_USER`
    pub user: Option<String>,
    /// `TUNNET_SSH_SFTP` is set.
    pub sftp: bool,
    /// `TUNNET_SSH_LOGIN` is set.
    pub login: bool,
    /// `TUNNET_SSH_EXEC`
    pub command: Option<String>,
}

pub struct ChildEnvView {
    pub uid: Option<Seq<char>>,
    pub gid: Option<Seq<char>>,
    pub groups: Option<Seq<char>>,
    pub home: Option<Seq<char>>,
    pub shell: Option<Seq<char>>,
    pub user: Option<Seq<char>>,
    pub sftp: bool,
    pub login: bool,
    pub command: Option<Seq<char>>,
}

impl View for ChildEnv {
    type V = ChildEnvView;

    open spec fn view(&self) -> ChildEnvView {
        ChildEnvView {
            uid: text::opt_string(self.uid),
            gid: text::opt_string(self.gid),
            groups: text::opt_string(self.groups),
            home: text::opt_string(self.home),
            shell: text::opt_string(self.shell),
            user: text::opt_string(self.user),
            sftp: self.sftp,
            login: self.login,
            command: text::opt_string(self.command),
        }
    }
}

/// Why a process cannot be a session.
#[derive(Debug, Clone, Copy, PartialEq, Eq, Structural)]
pub enum ChildError {
    MissingUid,
    BadUid,
    MissingGid,
    BadGid,
    BadGroups,
}

/// What a session's process becomes and runs.
#[derive(Debug)]
pub struct ChildPlan {
    pub uid: u32,
    pub gid: u32,
    pub groups: Vec<u32>,
    pub home: String,
    pub shell: String,
    pub user: String,
    pub sftp: bool,
    pub login: bool,
    pub command: Option<String>,
}

pub struct ChildPlanView {
    pub uid: u32,
    pub gid: u32,
    pub groups: Seq<u32>,
    pub home: Seq<char>,
    pub shell: Seq<char>,
    pub user: Seq<char>,
    pub sftp: bool,
    pub login: bool,
    pub command: Option<Seq<char>>,
}

impl View for ChildPlan {
    type V = ChildPlanView;

    open spec fn view(&self) -> ChildPlanView {
        ChildPlanView {
            uid: self.uid,
            gid: self.gid,
            groups: self.groups@,
            home: self.home@,
            shell: self.shell@,
            user: self.user@,
            sftp: self.sftp,
            login: self.login,
            command: text::opt_string(self.command),
        }
    }
}

/// A 32-bit number in decimal.
pub open spec fn id_of(s: Seq<char>) -> Option<u32> {
    match text::number(s, 0xffff_ffff) {
        Some(n) => Some(n as u32),
        None => None,
    }
}

/// The numbers of all parts that are not empty, unless one is no number.
pub open spec fn ids_of(parts: Seq<Seq<char>>) -> Option<Seq<u32>>
    decreases parts.len(),
{
    if parts.len() == 0 {
        Some(Seq::empty())
    } else if parts[0].len() == 0 {
        ids_of(parts.drop_first())
    } else {
        match (id_of(parts[0]), ids_of(parts.drop_first())) {
            (Some(id), Some(rest)) => Some(seq![id] + rest),
            _ => None,
        }
    }
}

pub open spec fn or_default(value: Option<Seq<char>>, default: Seq<char>) -> Seq<char> {
    match value {
        Some(v) => v,
        None => default,
    }
}

/// What a session's process becomes and runs. The ids have to be there; the
/// groups, the home directory, the shell and the user have defaults.
pub open spec fn planned(env: ChildEnvView) -> Result<ChildPlanView, ChildError> {
    match env.uid {
        None => Err(ChildError::MissingUid),
        Some(uid) => match id_of(uid) {
            None => Err(ChildError::BadUid),
            Some(uid) => match env.gid {
                None => Err(ChildError::MissingGid),
                Some(gid) => match id_of(gid) {
                    None => Err(ChildError::BadGid),
                    Some(gid) => match ids_of(
                        text::split(or_default(env.groups, Seq::empty()), ','),
                    ) {
                        None => Err(ChildError::BadGroups),
                        Some(groups) => Ok(
                            ChildPlanView {
                                uid,
                                gid,
                                groups,
                                home: or_default(env.home, "/"@),
                                shell: or_default(env.shell, "/bin/sh"@),
                                user: or_default(env.user, "user"@),
                                sftp: env.sftp,
                                login: env.login,
                                command: env.command,
                            },
                        ),
                    },
                },
            },
        },
    }
}

fn parse_id(s: &[char]) -> (r: Option<u32>)
    ensures
        r == id_of(s@),
{
    text::parse_number(s, 0xffff_ffff)
}

fn parse_groups(s: &str) -> (r: Option<Vec<u32>>)
    ensures
        match r {
            Some(v) => ids_of(text::split(s@, ',')) == Some(v@),
            None => ids_of(text::split(s@, ',')) is None,
        },
{
    let chars = text::chars_of(s);
    let parts = text::split_chars(chars.as_slice(), ',');
    let ghost all = text::char_views(parts@);
    let mut out: Vec<u32> = Vec::new();
    let mut i: usize = parts.len();
    assert(all.skip(all.len() as int) =~= Seq::empty());
    while i > 0
        invariant
            i <= parts@.len(),
            all == text::char_views(parts@),
            all == text::split(s@, ','),
            ids_of(all.skip(i as int)) == Some(out@),
        decreases i,
    {
        i = i - 1;
        let ghost rest = all.skip(i as int);
        assert(rest.drop_first() =~= all.skip(i + 1));
        assert(rest[0] == parts@[i as int]@);
        if parts[i].len() > 0 {
            match parse_id(parts[i].as_slice()) {
                Some(id) => {
                    let ghost was = out@;
                    out.insert(0, id);
                    assert(out@ =~= seq![id] + was);
                },
                None => {
                    proof {
                        lemma_bad_part(all, i as int);
                    }
                    return None;
                },
            }
        }
    }
    assert(all.skip(0) =~= all);
    Some(out)
}

proof fn lemma_bad_part(parts: Seq<Seq<char>>, i: int)
    requires
        0 <= i < parts.len(),
        parts[i].len() > 0,
        id_of(parts[i]) is None,
    ensures
        ids_of(parts) is None,
    decreases i,
{
    if i > 0 {
        let rest = parts.drop_first();
        assert(rest[i - 1] == parts[i]);
        lemma_bad_part(rest, i - 1);
    }
}

fn given_or(value: &Option<String>, default: &str) -> (r: String)
    ensures
        r@ == or_default(text::opt_string(*value), default@),
{
    match value {
        Some(v) => v.clone(),
        None => default.to_string(),
    }
}

pub open spec fn plan_result(r: Result<ChildPlan, ChildError>) -> Result<
    ChildPlanView,
    ChildError,
> {
    match r {
        Ok(p) => Ok(p@),
        Err(e) => Err(e),
    }
}

/// What a session's process becomes and runs, by its environment.
pub fn plan_child(env: &ChildEnv) -> (r: Result<ChildPlan, ChildError>)
    ensures
        plan_result(r) == planned(env@),
{
    let uid = match &env.uid {
        Some(s) => match parse_id(text::chars_of(s.as_str()).as_slice()) {
            Some(uid) => uid,
            None => {
                return Err(ChildError::BadUid);
            },
        },
        None => {
            return Err(ChildError::MissingUid);
        },
    };
    let gid = match &env.gid {
        Some(s) => match parse_id(text::chars_of(s.as_str()).as_slice()) {
            Some(gid) => gid,
            None => {
                return Err(ChildError::BadGid);
            },
        },
        None => {
            return Err(ChildError::MissingGid);
        },
    };
    proof {
        reveal_strlit("");
        assert(""@ =~= Seq::empty());
    }
    let listed = given_or(&env.groups, "");
    let groups = match parse_groups(listed.as_str()) {
        Some(groups) => groups,
        None => {
            return Err(ChildError::BadGroups);
        },
    };
    Ok(
        ChildPlan {
            uid,
            gid,
            groups,
            home: given_or(&env.home, "/"),
            shell: given_or(&env.shell, "/bin/sh"),
            user: given_or(&env.user, "user"),
            sftp: env.sftp,
            login: env.login,
            command: text::clone_opt(&env.command),
        },
    )
}

/// What a session's process does once it is the destination user.
#[derive(Debug, Clone, Copy, PartialEq, Eq, Structural)]
pub enum ChildRun {
    Sftp,
    Shell,
}

impl ChildPlan {
    /// A process that is to be a shell leads a session of its own with a
    /// controlling terminal; one that serves SFTP does not.
    pub fn leads_session(&self) -> (r: bool)
        ensures
            r == !self@.sftp,
    {
        !self.sftp
    }

    pub fn run(&self) -> (r: ChildRun)
        ensures
            r == (if self@.sftp {
                ChildRun::Sftp
            } else {
                ChildRun::Shell
            }),
    {
        if self.sftp {
            ChildRun::Sftp
        } else {
            ChildRun::Shell
        }
    }

    /// Where the process goes, and what it sets `HOME` to, where its home
    /// directory could not be entered.
    pub fn fallback_home(&self, entered: bool) -> (r: Option<&'static str>)
        ensures
            text::opt_view(r) == (if entered {
                None
            } else {
                Some("/"@)
            }),
    {
        if entered {
            None
        } else {
            Some("/")
        }
    }
}

/// What this process does on Windows: it serves SFTP, and nothing else, since
/// interactive sessions are launched there as the user from the start.
pub fn run_on_windows(sftp: bool) -> (r: Option<ChildRun>)
    ensures
        r == (if sftp {
            Some(ChildRun::Sftp)
        } else {
            None
        }),
{
    if sftp {
        Some(ChildRun::Sftp)
    } else {
        None
    }
}

/// The value of a variable in an environment that was set in order: the last one.
pub open spec fn value_of(vars: Seq<Variable>, name: Seq<char>) -> Option<Seq<char>>
    decreases vars.len(),
{
    if vars.len() == 0 {
        None
    } else if vars.last().0 == name {
        Some(vars.last().1)
    } else {
        value_of(vars.drop_last(), name)
    }
}

/// What a session's process reads from an environment.
pub open spec fn child_env(vars: Seq<Variable>) -> ChildEnvView {
    ChildEnvView {
        uid: value_of(vars, "TUNNET_SSH_UID"@),
        gid: value_of(vars, "TUNNET_SSH_GID"@),
        groups: value_of(vars, "TUNNET_SSH_GROUPS"@),
        home: value_of(vars, "TUNNET_SSH_HOME"@),
        shell: value_of(vars, "TUNNET_SSH_SHELL"@),
        user: value_of(vars, "TUNNET_SSH_USER"@),
        sftp: value_of(vars, "TUNNET_SSH_SFTP"@) is Some,
        login: value_of(vars, "TUNNET_SSH_LOGIN"@) is Some,
        command: value_of(vars, "TUNNET_SSH_EXEC"@),
    }
}

/// The plan for an account.
pub open spec fn plan_for(
    a: AccountView,
    sftp: bool,
    login: bool,
    command: Option<Seq<char>>,
) -> ChildPlanView {
    ChildPlanView {
        uid: a.uid,
        gid: a.gid,
        groups: a.groups,
        home: a.home_dir,
        shell: a.shell,
        user: a.username,
        sftp,
        login,
        command,
    }
}

proof fn lemma_value_at(vars: Seq<Variable>, i: int, name: Seq<char>)
    requires
        0 <= i < vars.len(),
        vars[i].0 == name,
        forall|k: int| i < k < vars.len() ==> (#[trigger] vars[k]).0 != name,
    ensures
        value_of(vars, name) == Some(vars[i].1),
    decreases vars.len(),
{
    if i < vars.len() - 1 {
        assert(vars[vars.len() - 1].0 != name);
        lemma_value_at(vars.drop_last(), i, name);
    }
}

proof fn lemma_no_value(vars: Seq<Variable>, name: Seq<char>)
    requires
        forall|k: int| 0 <= k < vars.len() ==> (#[trigger] vars[k]).0 != name,
    ensures
        value_of(vars, name) is None,
    decreases vars.len(),
{
    if vars.len() > 0 {
        assert(vars[vars.len() - 1].0 != name);
        let rest = vars.drop_last();
        assert forall|k: int| 0 <= k < rest.len() implies (#[trigger] rest[k]).0 != name by {
            assert(rest[k] == vars[k]);
        }
        lemma_no_value(rest, name);
    }
}

/// The groups read back from their text.
proof fn lemma_groups_read_back(groups: Seq<u32>)
    ensures
        ids_of(text::split(launch::groups_text(groups), ',')) == Some(groups),
{
    let items = launch::decimals(groups);
    if groups.len() == 0 {
        let parts = text::split(launch::groups_text(groups), ',');
        assert(launch::groups_text(groups) =~= Seq::empty());
        assert(parts =~= seq![Seq::<char>::empty()]);
        assert(parts.drop_first() =~= Seq::empty());
        assert(ids_of(parts.drop_first()) == Some(Seq::<u32>::empty()));
        assert(groups =~= Seq::empty());
    } else {
        assert forall|i: int| 0 <= i < items.len() implies !(#[trigger] items[i]).contains(',') by {
            text::lemma_decimal_digits(groups[i] as nat);
            let d = items[i];
            if d.contains(',') {
                let k = choose|k: int| 0 <= k < d.len() && d[k] == ',';
                assert(text::is_digit(d[k]));
            }
        }
        text::law_split_undoes_join(items, ',');
        lemma_decimals_read_back(groups);
    }
}

proof fn lemma_decimals_read_back(groups: Seq<u32>)
    ensures
        ids_of(launch::decimals(groups)) == Some(groups),
    decreases groups.len(),
{
    let items = launch::decimals(groups);
    if groups.len() == 0 {
        assert(items =~= Seq::empty());
        assert(groups =~= Seq::empty());
    } else {
        let rest = groups.drop_first();
        assert(items.drop_first() =~= launch::decimals(rest));
        lemma_decimals_read_back(rest);
        text::lemma_decimal_digits(groups[0] as nat);
        text::law_decimal_reads_back(groups[0] as nat, 0xffff_ffff);
        assert(seq![groups[0]] + rest =~= groups);
    }
}

/// Names that tell a session's process something begin like this.
pub open spec fn is_reserved(name: Seq<char>) -> bool {
    "TUNNET_SSH_"@.is_prefix_of(name)
}


proof fn lemma_names()
    ensures
        "TUNNET_SSH_UID"@.len() == 14 && "TUNNET_SSH_UID"@[11] == 'U',
        "TUNNET_SSH_GID"@.len() == 14 && "TUNNET_SSH_GID"@[11] == 'G',
        "TUNNET_SSH_GROUPS"@.len() == 17,
        "TUNNET_SSH_USER"@.len() == 15 && "TUNNET_SSH_USER"@[11] == 'U',
        "TUNNET_SSH_HOME"@.len() == 15 && "TUNNET_SSH_HOME"@[11] == 'H',
        "TUNNET_SSH_SHELL"@.len() == 16 && "TUNNET_SSH_SHELL"@[11] == 'S',
        "TUNNET_SSH_EXEC"@.len() == 15 && "TUNNET_SSH_EXEC"@[11] == 'E',
        "TUNNET_SSH_LOGIN"@.len() == 16 && "TUNNET_SSH_LOGIN"@[11] == 'L',
        "TUNNET_SSH_SFTP"@.len() == 15 && "TUNNET_SSH_SFTP"@[11] == 'S',
        "PATH"@.len() == 4,
        "TERM"@.len() == 4,
        "HOME"@.len() == 4,
        "USER"@.len() == 4,
        "LOGNAME"@.len() == 7,
        "SHELL"@.len() == 5,
        is_reserved("TUNNET_SSH_UID"@),
        is_reserved("TUNNET_SSH_GID"@),
        is_reserved("TUNNET_SSH_GROUPS"@),
        is_reserved("TUNNET_SSH_USER"@),
        is_reserved("TUNNET_SSH_HOME"@),
        is_reserved("TUNNET_SSH_SHELL"@),
        is_reserved("TUNNET_SSH_EXEC"@),
        is_reserved("TUNNET_SSH_LOGIN"@),
        is_reserved("TUNNET_SSH_SFTP"@),
{
    reveal_strlit("TUNNET_SSH_");
    reveal_strlit("TUNNET_SSH_UID");
    reveal_strlit("TUNNET_SSH_GID");
    reveal_strlit("TUNNET_SSH_GROUPS");
    reveal_strlit("TUNNET_SSH_USER");
    reveal_strlit("TUNNET_SSH_HOME");
    reveal_strlit("TUNNET_SSH_SHELL");
    reveal_strlit("TUNNET_SSH_EXEC");
    reveal_strlit("TUNNET_SSH_LOGIN");
    reveal_strlit("TUNNET_SSH_SFTP");
    reveal_strlit("PATH");
    reveal_strlit("TERM");
    reveal_strlit("HOME");
    reveal_strlit("USER");
    reveal_strlit("LOGNAME");
    reveal_strlit("SHELL");
    assert("TUNNET_SSH_"@ =~= "TUNNET_SSH_UID"@.subrange(0, 11));
    assert("TUNNET_SSH_"@ =~= "TUNNET_SSH_GID"@.subrange(0, 11));
    assert("TUNNET_SSH_"@ =~= "TUNNET_SSH_GROUPS"@.subrange(0, 11));
    assert("TUNNET_SSH_"@ =~= "TUNNET_SSH_USER"@.subrange(0, 11));
    assert("TUNNET_SSH_"@ =~= "TUNNET_SSH_HOME"@.subrange(0, 11));
    assert("TUNNET_SSH_"@ =~= "TUNNET_SSH_SHELL"@.subrange(0, 11));
    assert("TUNNET_SSH_"@ =~= "TUNNET_SSH_EXEC"@.subrange(0, 11));
    assert("TUNNET_SSH_"@ =~= "TUNNET_SSH_LOGIN"@.subrange(0, 11));
    assert("TUNNET_SSH_"@ =~= "TUNNET_SSH_SFTP"@.subrange(0, 11));
}

/// A session's process becomes and runs what it was launched for: the account,
/// and the command or a login shell. This holds where no variable of the
/// client has a reserved name.
pub proof fn law_child_becomes_what_was_launched(platform: Platform, req: LaunchView)
    requires
        forall|i: int|
            0 <= i < req.env_vars.len() ==> !is_reserved((#[trigger] req.env_vars[i]).0),
    ensures
        planned(child_env(launch::shell_variables(platform, req))) == Ok::<_, ChildError>(
            plan_for(req.account, false, req.command is None, req.command),
        ),
{
    let vars = launch::shell_variables(platform, req);
    lemma_names();
    assert(vars.len() == 13 + req.env_vars.len());
    assert forall|k: int| 13 <= k < vars.len() implies !is_reserved((#[trigger] vars[k]).0) by {
        assert(vars[k] == req.env_vars[k - 13]);
    }
    lemma_value_at(vars, 6, "TUNNET_SSH_UID"@);
    lemma_value_at(vars, 7, "TUNNET_SSH_GID"@);
    lemma_value_at(vars, 8, "TUNNET_SSH_GROUPS"@);
    lemma_value_at(vars, 9, "TUNNET_SSH_USER"@);
    lemma_value_at(vars, 10, "TUNNET_SSH_HOME"@);
    lemma_value_at(vars, 11, "TUNNET_SSH_SHELL"@);
    lemma_no_value(vars, "TUNNET_SSH_SFTP"@);
    match req.command {
        Some(_) => {
            lemma_value_at(vars, 12, "TUNNET_SSH_EXEC"@);
            lemma_no_value(vars, "TUNNET_SSH_LOGIN"@);
        },
        None => {
            lemma_value_at(vars, 12, "TUNNET_SSH_LOGIN"@);
            lemma_no_value(vars, "TUNNET_SSH_EXEC"@);
        },
    }
    text::law_decimal_reads_back(req.account.uid as nat, 0xffff_ffff);
    text::law_decimal_reads_back(req.account.gid as nat, 0xffff_ffff);
    lemma_groups_read_back(req.account.groups);
}

/// An SFTP session's process becomes the account that it was launched for.
pub proof fn law_sftp_child_becomes_the_account(platform: Platform, account: AccountView)
    ensures
        planned(child_env(launch::sftp_variables(platform, account))) == Ok::<_, ChildError>(
            plan_for(account, true, false, None),
        ),
{
    let vars = launch::sftp_variables(platform, account);
    lemma_names();
    assert(vars.len() == 12);
    lemma_value_at(vars, 5, "TUNNET_SSH_UID"@);
    lemma_value_at(vars, 6, "TUNNET_SSH_GID"@);
    lemma_value_at(vars, 7, "TUNNET_SSH_GROUPS"@);
    lemma_value_at(vars, 8, "TUNNET_SSH_USER"@);
    lemma_value_at(vars, 9, "TUNNET_SSH_HOME"@);
    lemma_value_at(vars, 10, "TUNNET_SSH_SHELL"@);
    lemma_value_at(vars, 11, "TUNNET_SSH_SFTP"@);
    lemma_no_value(vars, "TUNNET_SSH_LOGIN"@);
    lemma_no_value(vars, "TUNNET_SSH_EXEC"@);
    text::law_decimal_reads_back(account.uid as nat, 0xffff_ffff);
    text::law_decimal_reads_back(account.gid as nat, 0xffff_ffff);
    lemma_groups_read_back(account.groups);
}

/// Of variables that are set in order the last one of a name holds.
pub proof fn law_last_value_holds(
    vars: Seq<Variable>,
    name: Seq<char>,
    value: Seq<char>,
    other: Seq<char>,
)
    requires
        other != name,
    ensures
        value_of(Seq::empty(), name) is None,
        value_of(vars.push((name, value)), name) == Some(value),
        value_of(vars.push((name, value)), other) == value_of(vars, other),
{
    assert(vars.push((name, value)).drop_last() =~= vars);
}

proof fn lemma_plain_names()
    ensures
        "PATH"@ != "TERM"@ && "PATH"@ != "HOME"@ && "PATH"@ != "USER"@,
        "TERM"@ != "HOME"@ && "TERM"@ != "USER"@,
        "HOME"@ != "USER"@,
        !is_reserved("PATH"@) && !is_reserved("TERM"@) && !is_reserved("HOME"@),
        !is_reserved("USER"@) && !is_reserved("LOGNAME"@) && !is_reserved("SHELL"@),
        "1"@.len() == 1,
{
    lemma_names();
    reveal_strlit("TUNNET_SSH_");
    reveal_strlit("PATH");
    reveal_strlit("TERM");
    reveal_strlit("HOME");
    reveal_strlit("USER");
    reveal_strlit("1");
    assert("PATH"@[0] == 'P' && "TERM"@[0] == 'T' && "HOME"@[0] == 'H' && "USER"@[0] == 'U');
}

/// The environment of a shell or a command is that of the account, with a safe
/// search path and the terminal that was asked for, unless the client may set the
/// variable and has.
pub proof fn law_session_environment(platform: Platform, req: LaunchView)
    requires
        forall|i: int|
            0 <= i < req.env_vars.len() ==> ({
                let name = (#[trigger] req.env_vars[i]).0;
                &&& name != "PATH"@ && name != "TERM"@ && name != "HOME"@ && name != "USER"@
                &&& name != "LOGNAME"@ && name != "SHELL"@
            }),
    ensures
        ({
            let vars = launch::shell_variables(platform, req);
            &&& value_of(vars, "PATH"@) == Some(launch::safe_path(platform))
            &&& value_of(vars, "TERM"@) == Some(req.term)
            &&& value_of(vars, "HOME"@) == Some(req.account.home_dir)
            &&& value_of(vars, "USER"@) == Some(req.account.username)
            &&& value_of(vars, "LOGNAME"@) == Some(req.account.username)
            &&& value_of(vars, "SHELL"@) == Some(req.account.shell)
        }),
{
    let vars = launch::shell_variables(platform, req);
    lemma_names();
    lemma_plain_names();
    assert(vars.len() == 13 + req.env_vars.len());
    assert forall|k: int| 13 <= k < vars.len() implies ({
        let name = (#[trigger] vars[k]).0;
        &&& name != "PATH"@ && name != "TERM"@ && name != "HOME"@ && name != "USER"@
        &&& name != "LOGNAME"@ && name != "SHELL"@
    }) by {
        assert(vars[k] == req.env_vars[k - 13]);
    }
    assert forall|k: int| 6 <= k < 13 implies is_reserved((#[trigger] vars[k]).0) by {}
    assert(vars[0].0 == "PATH"@ && vars[1].0 == "TERM"@ && vars[2].0 == "HOME"@);
    assert(vars[3].0 == "USER"@ && vars[4].0 == "LOGNAME"@ && vars[5].0 == "SHELL"@);
    lemma_value_at(vars, 0, "PATH"@);
    lemma_value_at(vars, 1, "TERM"@);
    lemma_value_at(vars, 2, "HOME"@);
    lemma_value_at(vars, 3, "USER"@);
    lemma_value_at(vars, 4, "LOGNAME"@);
    lemma_value_at(vars, 5, "SHELL"@);
}

/// A variable that the client has set has in the session the value that was set
/// last.
pub proof fn law_client_variables_hold(platform: Platform, req: LaunchView, i: int)
    requires
        0 <= i < req.env_vars.len(),
        forall|k: int| i < k < req.env_vars.len() ==> (#[trigger] req.env_vars[k]).0
            != req.env_vars[i].0,
    ensures
        value_of(launch::shell_variables(platform, req), req.env_vars[i].0) == Some(
            req.env_vars[i].1,
        ),
{
    let vars = launch::shell_variables(platform, req);
    assert(vars.len() == 13 + req.env_vars.len());
    assert(vars[13 + i] == req.env_vars[i]);
    assert forall|k: int| 13 + i < k < vars.len() implies (#[trigger] vars[k]).0
        != req.env_vars[i].0 by {
        assert(vars[k] == req.env_vars[k - 13]);
    }
    lemma_value_at(vars, 13 + i, req.env_vars[i].0);
}

/// The environment of an SFTP session is that of the account, with a safe search
/// path and no terminal.
pub proof fn law_sftp_environment(platform: Platform, account: AccountView)
    ensures
        ({
            let vars = launch::sftp_variables(platform, account);
            &&& value_of(vars, "PATH"@) == Some(launch::safe_path(platform))
            &&& value_of(vars, "TERM"@) is None
            &&& value_of(vars, "HOME"@) == Some(account.home_dir)
            &&& value_of(vars, "USER"@) == Some(account.username)
            &&& value_of(vars, "LOGNAME"@) == Some(account.username)
            &&& value_of(vars, "SHELL"@) == Some(account.shell)
        }),
{
    let vars = launch::sftp_variables(platform, account);
    lemma_names();
    lemma_plain_names();
    assert(vars.len() == 12);
    assert forall|k: int| 5 <= k < 12 implies is_reserved((#[trigger] vars[k]).0) by {}
    assert(vars[0].0 == "PATH"@ && vars[1].0 == "HOME"@ && vars[2].0 == "USER"@);
    assert(vars[3].0 == "LOGNAME"@ && vars[4].0 == "SHELL"@);
    lemma_value_at(vars, 0, "PATH"@);
    lemma_value_at(vars, 1, "HOME"@);
    lemma_value_at(vars, 2, "USER"@);
    lemma_value_at(vars, 3, "LOGNAME"@);
    lemma_value_at(vars, 4, "SHELL"@);
    lemma_no_value(vars, "TERM"@);
}

/// What the process of a session reads from its environment, under which names.
pub proof fn law_names_that_a_child_reads(vars: Seq<Variable>)
    ensures
        ({
            let env = child_env(vars);
            &&& env.uid == value_of(vars, "TUNNET_SSH_UID"@)
            &&& env.gid == value_of(vars, "TUNNET_SSH_GID"@)
            &&& env.groups == value_of(vars, "TUNNET_SSH_GROUPS"@)
            &&& env.home == value_of(vars, "TUNNET_SSH_HOME"@)
            &&& env.shell == value_of(vars, "TUNNET_SSH_SHELL"@)
            &&& env.user == value_of(vars, "TUNNET_SSH_USER"@)
            &&& env.command == value_of(vars, "TUNNET_SSH_EXEC"@)
            &&& env.sftp <==> value_of(vars, "TUNNET_SSH_SFTP"@) is Some
            &&& env.login <==> value_of(vars, "TUNNET_SSH_LOGIN"@) is Some
        }),
{
}

/// A process becomes nobody without both ids: each has to be there and to be a
/// number of 32 bits, and so has every group that is listed. The home directory,
/// the shell and the user have defaults, and there need be no group.
pub proof fn law_a_child_needs_its_ids(env: ChildEnvView)
    ensures
        env.uid is None ==> planned(env) == Err::<ChildPlanView, ChildError>(
            ChildError::MissingUid,
        ),
        planned(env) matches Ok(p) ==> {
            &&& env.uid is Some && text::number(env.uid->0, 0xffff_ffff) == Some(p.uid as nat)
            &&& env.gid is Some && text::number(env.gid->0, 0xffff_ffff) == Some(p.gid as nat)
            &&& env.groups is None ==> p.groups.len() == 0
            &&& env.groups is Some ==> ids_of(text::split(env.groups->0, ',')) == Some(p.groups)
            &&& p.home == match env.home {
                Some(h) => h,
                None => "/"@,
            }
            &&& p.shell == match env.shell {
                Some(s) => s,
                None => "/bin/sh"@,
            }
            &&& p.user == match env.user {
                Some(u) => u,
                None => "user"@,
            }
            &&& p.sftp == env.sftp
            &&& p.login == env.login
            &&& p.command == env.command
        },
        env.uid is Some && text::number(env.uid->0, 0xffff_ffff) is None ==> planned(env) == Err::<
            ChildPlanView,
            ChildError,
        >(ChildError::BadUid),
        env.uid is Some && text::number(env.uid->0, 0xffff_ffff) is Some && env.gid is None
            ==> planned(env) == Err::<ChildPlanView, ChildError>(ChildError::MissingGid),
        env.uid is Some && text::number(env.uid->0, 0xffff_ffff) is Some && env.gid is Some
            && text::number(env.gid->0, 0xffff_ffff) is None ==> planned(env) == Err::<
            ChildPlanView,
            ChildError,
        >(ChildError::BadGid),
        env.uid is Some && text::number(env.uid->0, 0xffff_ffff) is Some && env.gid is Some
            && text::number(env.gid->0, 0xffff_ffff) is Some && env.groups is None ==> planned(
            env,
        ) is Ok,
        env.uid is Some && text::number(env.uid->0, 0xffff_ffff) is Some && env.gid is Some
            && text::number(env.gid->0, 0xffff_ffff) is Some && env.groups is Some ==> if ids_of(
            text::split(env.groups->0, ','),
        ) is Some {
            planned(env) is Ok
        } else {
            planned(env) == Err::<ChildPlanView, ChildError>(ChildError::BadGroups)
        },
{
    if env.groups is None {
        let parts = text::split(Seq::<char>::empty(), ',');
        assert(parts =~= seq![Seq::<char>::empty()]);
        assert(parts.drop_first() =~= Seq::empty());
        assert(ids_of(parts.drop_first()) == Some(Seq::<u32>::empty()));
    }
}

/// The groups that a list of numbers stands for: each part that is not empty is a
/// group, and the list stands for none where such a part is no number.
pub proof fn law_group_lists(parts: Seq<Seq<char>>, part: Seq<char>)
    ensures
        ids_of(Seq::empty()) == Some(Seq::<u32>::empty()),
        ids_of(seq![Seq::<char>::empty()] + parts) == ids_of(parts),
        part.len() > 0 && text::number(part, 0xffff_ffff) is None ==> ids_of(seq![part] + parts)
            is None,
        part.len() > 0 && text::number(part, 0xffff_ffff) is Some ==> match ids_of(parts) {
            None => ids_of(seq![part] + parts) is None,
            Some(rest) => ids_of(seq![part] + parts) is Some && ids_of(seq![part] + parts)->0.len()
                == rest.len() + 1 && ids_of(seq![part] + parts)->0[0] == text::number(
                part,
                0xffff_ffff,
            )->0 && ids_of(seq![part] + parts)->0.drop_first() == rest,
        },
{
    assert((seq![part] + parts).drop_first() =~= parts);
    assert((seq![Seq::<char>::empty()] + parts).drop_first() =~= parts);
    if let (Some(rest), Some(n)) = (ids_of(parts), id_of(part)) {
        assert((seq![n] + rest).drop_first() =~= rest);
    }
}

/// What a plan shows of itself is what it holds.
pub proof fn law_plans_show_what_they_hold(p: ChildPlan, error: ChildError)
    ensures
        p@.uid == p.uid && p@.gid == p.gid && p@.groups == p.groups@,
        p@.home == p.home@ && p@.shell == p.shell@ && p@.user == p.user@,
        p@.sftp == p.sftp && p@.login == p.login,
        p@.command is Some <==> p.command is Some,
        p.command is Some ==> p@.command == Some(p.command->0@),
        plan_result(Ok(p)) == Ok::<ChildPlanView, ChildError>(p@),
        plan_result(Err(error)) == Err::<ChildPlanView, ChildError>(error),
{
}

} // verus!
