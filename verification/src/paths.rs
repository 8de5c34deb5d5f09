//! Where the daemon keeps its state and its binaries, and which daemon binary
//! is used. A path is the list of its components, or a place below a base.
use vstd::prelude::*;
use vstd::string::*;
use crate::platform::Platform;
use crate::text;

verus! {

/// A place below a base path: the base, and the names to go through from there.
#[derive(Debug)]
pub struct Location {
    pub base: String,
    pub under: Vec<String>,
}

#[verifier::ext_equal]
pub struct LocationView {
    pub base: Seq<char>,
    pub under: Seq<Seq<char>>,
}

impl View for Location {
    type V = LocationView;

    open spec fn view(&self) -> LocationView {
        LocationView { base: self.base@, under: text::views(self.under@) }
    }
}

fn place(base: &str) -> (r: Location)
    ensures
        r@ == at(base@),
{
    let r = Location { base: base.to_string(), under: Vec::new() };
    assert(r@.under =~= Seq::empty());
    r
}

fn below(location: Location, name: &str) -> (r: Location)
    ensures
        r@ == inside(location@, name@),
{
    let mut under = location.under;
    under.push(name.to_string());
    let r = Location { base: location.base, under };
    assert(r@.under =~= location@.under.push(name@));
    r
}

pub open spec fn at(base: Seq<char>) -> LocationView {
    LocationView { base, under: Seq::empty() }
}

pub open spec fn inside(location: LocationView, name: Seq<char>) -> LocationView {
    LocationView { under: location.under.push(name), ..location }
}

/// The system-wide state directory. On Windows it is in the directory for
/// program data, which is `C:\ProgramData` where the environment does not say.
pub open spec fn system_state(platform: Platform, program_data: Option<Seq<char>>) -> LocationView {
    match platform {
        Platform::Unix => at("/var/lib/tunnet"@),
        Platform::Bsd => at("/var/lib/tunnet"@),
        Platform::Windows => inside(
            at(
                match program_data {
                    Some(d) => d,
                    None => "C:\\ProgramData"@,
                },
            ),
            "tunnet"@,
        ),
        Platform::Other => at("./tunnet-state"@),
    }
}

/// The system-wide state directory of the service. `program_data` is the value
/// of `PROGRAMDATA`, which matters on Windows only.
pub fn system_state_dir(platform: Platform, program_data: Option<&str>) -> (r: Location)
    ensures
        r@ == system_state(platform, text::opt_view(program_data)),
{
    match platform {
        Platform::Unix | Platform::Bsd => place("/var/lib/tunnet"),
        Platform::Windows => {
            let base = match program_data {
                Some(d) => d,
                None => "C:\\ProgramData",
            };
            below(place(base), "tunnet")
        },
        Platform::Other => place("./tunnet-state"),
    }
}

/// The state directory: the given one, else the system's.
pub open spec fn state(
    state_dir: Option<Seq<char>>,
    platform: Platform,
    program_data: Option<Seq<char>>,
) -> LocationView {
    match state_dir {
        Some(d) => at(d),
        None => system_state(platform, program_data),
    }
}

pub fn resolve_state_dir(
    state_dir: Option<&str>,
    platform: Platform,
    program_data: Option<&str>,
) -> (r: Location)
    ensures
        r@ == state(text::opt_view(state_dir), platform, text::opt_view(program_data)),
{
    match state_dir {
        Some(d) => place(d),
        None => system_state_dir(platform, program_data),
    }
}

pub open spec fn daemon_file(platform: Platform) -> Seq<char> {
    if platform is Windows {
        "tunnetd.exe"@
    } else {
        "tunnetd"@
    }
}

/// The file name of the daemon.
pub fn daemon_name(platform: Platform) -> (r: &'static str)
    ensures
        r@ == daemon_file(platform),
{
    if platform == Platform::Windows {
        "tunnetd.exe"
    } else {
        "tunnetd"
    }
}

/// The file name of the command line tool on Windows.
pub fn cli_name() -> (r: &'static str)
    ensures
        r@ == "tunnet.exe"@,
{
    "tunnet.exe"
}

/// The directory of the active copies of the daemon and the command line tool
/// on Windows. Wherever the application itself is installed, the service only
/// ever runs what is staged here.
pub fn installed_bin_dir(state_dir: Option<&str>, program_data: Option<&str>) -> (r: Location)
    ensures
        r@ == inside(
            state(text::opt_view(state_dir), Platform::Windows, text::opt_view(program_data)),
            "bin"@,
        ),
{
    below(resolve_state_dir(state_dir, Platform::Windows, program_data), "bin")
}

/// The active copy of the daemon on Windows.
pub fn installed_daemon_exe(state_dir: Option<&str>, program_data: Option<&str>) -> (r: Location)
    ensures
        r@ == inside(
            inside(
                state(text::opt_view(state_dir), Platform::Windows, text::opt_view(program_data)),
                "bin"@,
            ),
            "tunnetd.exe"@,
        ),
{
    below(installed_bin_dir(state_dir, program_data), daemon_name(Platform::Windows))
}

/// A path with a component `release` is that of a release build.
pub open spec fn is_release(path: Seq<Seq<char>>) -> bool {
    path.contains("release"@)
}

fn path_is_release(path: &Vec<String>) -> (r: bool)
    ensures
        r == is_release(text::views(path@)),
{
    let ghost all = text::views(path@);
    let mut i: usize = 0;
    while i < path.len()
        invariant
            i <= path@.len(),
            all == text::views(path@),
            forall|k: int| 0 <= k < i ==> #[trigger] all[k] != "release"@,
        decreases path@.len() - i,
    {
        assert(all[i as int] == path@[i as int]@);
        if text::same(path[i].as_str(), "release") {
            assert(all.contains("release"@));
            return true;
        }
        i = i + 1;
    }
    proof {
        if is_release(all) {
            let k = choose|k: int| 0 <= k < all.len() && all[k] == "release"@;
            assert(all[k] != "release"@);
        }
    }
    false
}

/// The daemon in the build directory of a profile below the first `n` components.
pub open spec fn build_of(
    start: Seq<Seq<char>>,
    n: int,
    profile: Seq<char>,
    name: Seq<char>,
) -> Seq<Seq<char>> {
    start.take(n) + seq!["target"@, profile, name]
}

/// The builds below the first `n` components and below each of their
/// ancestors down to the root, the nearest first, debug before release.
pub open spec fn builds_from(
    start: Seq<Seq<char>>,
    root: int,
    n: int,
    name: Seq<char>,
) -> Seq<Seq<Seq<char>>>
    decreases n - root + 1,
{
    if n < root {
        Seq::empty()
    } else {
        seq![build_of(start, n, "debug"@, name), build_of(start, n, "release"@, name)]
            + builds_from(start, root, n - 1, name)
    }
}

/// Where a daemon of this workspace can be: beside the program, then the builds.
pub open spec fn workspace_places(
    start: Seq<Seq<char>>,
    root: int,
    name: Seq<char>,
) -> Seq<Seq<Seq<char>>> {
    seq![start.push(name)] + builds_from(start, root, start.len() as int, name)
}

pub open spec fn path_views(v: Seq<Vec<String>>) -> Seq<Seq<Seq<char>>> {
    v.map_values(|p: Vec<String>| text::views(p@))
}

fn build_path(start: &Vec<String>, n: usize, profile: &str, name: &str) -> (r: Vec<String>)
    requires
        n <= start@.len(),
    ensures
        text::views(r@) == build_of(text::views(start@), n as int, profile@, name@),
{
    let mut out = prefix(start, n);
    out.push("target".to_string());
    out.push(profile.to_string());
    out.push(name.to_string());
    assert(text::views(out@) =~= build_of(text::views(start@), n as int, profile@, name@));
    out
}

fn prefix(path: &Vec<String>, n: usize) -> (r: Vec<String>)
    requires
        n <= path@.len(),
    ensures
        text::views(r@) == text::views(path@).take(n as int),
{
    let mut out: Vec<String> = Vec::new();
    let mut i: usize = 0;
    while i < n
        invariant
            i <= n <= path@.len(),
            text::views(out@) == text::views(path@).take(i as int),
        decreases n - i,
    {
        let ghost was = text::views(out@);
        let part = path[i].clone();
        out.push(part);
        assert(text::views(out@) =~= was.push(part@));
        assert(text::views(path@).take(i + 1) =~= text::views(path@).take(i as int).push(part@));
        i = i + 1;
    }
    out
}

/// Where a daemon of this workspace can be, in the order in which the places
/// are looked at. `start` are the components of the directory of the program,
/// of which the first `root` make up the root.
pub fn workspace_candidates(start: &Vec<String>, root: usize, name: &str) -> (r: Vec<Vec<String>>)
    requires
        root <= start@.len(),
    ensures
        path_views(r@) == workspace_places(text::views(start@), root as int, name@),
{
    let ghost s = text::views(start@);
    let mut out: Vec<Vec<String>> = Vec::new();
    let mut beside = prefix(start, start.len());
    let ghost whole = text::views(beside@);
    assert(whole =~= s);
    beside.push(name.to_string());
    assert(text::views(beside@) =~= whole.push(name@));
    assert(text::views(beside@) =~= s.push(name@));
    out.push(beside);
    let mut n: usize = start.len();
    assert(path_views(out@) =~= seq![s.push(name@)]);
    loop
        invariant
            root <= n <= start@.len(),
            s == text::views(start@),
            workspace_places(s, root as int, name@) == path_views(out@) + builds_from(
                s,
                root as int,
                n as int,
                name@,
            ),
        decreases n,
    {
        let ghost was = path_views(out@);
        let debug = build_path(start, n, "debug", name);
        let release = build_path(start, n, "release", name);
        let ghost two = seq![
            build_of(s, n as int, "debug"@, name@),
            build_of(s, n as int, "release"@, name@),
        ];
        out.push(debug);
        out.push(release);
        assert(path_views(out@) =~= was + two);
        let ghost rest = builds_from(s, root as int, n - 1, name@);
        assert(was + (two + rest) =~= path_views(out@) + rest);
        if n == root {
            assert(rest =~= Seq::empty());
            assert(path_views(out@) + rest =~= path_views(out@));
            return out;
        }
        n = n - 1;
    }
}

/// A candidate is taken in place of an earlier one if it is newer, or as new
/// and a release where the earlier one is none.
pub open spec fn beats(
    path: Seq<Seq<char>>,
    modified: u128,
    best_path: Seq<Seq<char>>,
    best_modified: u128,
) -> bool {
    modified > best_modified || (modified == best_modified && is_release(path) && !is_release(
        best_path,
    ))
}

/// The best of the first `n` candidates that are files. `times` says when each
/// was modified; it holds nothing for one that is no file.
pub open spec fn best_of(paths: Seq<Seq<Seq<char>>>, times: Seq<Option<u128>>, n: int) -> Option<int>
    decreases n,
{
    if n <= 0 {
        None
    } else {
        let before = best_of(paths, times, n - 1);
        match times[n - 1] {
            None => before,
            Some(t) => match before {
                None => Some(n - 1),
                Some(b) => if beats(paths[n - 1], t, paths[b], times[b]->0) {
                    Some(n - 1)
                } else {
                    Some(b)
                },
            },
        }
    }
}

/// The newest daemon among candidates: of two that are as new a release wins,
/// else the earlier one. `modified` says when each candidate was modified, and
/// holds nothing for one that is no file.
pub fn newest_workspace_daemon(
    candidates: &Vec<Vec<String>>,
    modified: &Vec<Option<u128>>,
) -> (r: Option<usize>)
    requires
        candidates@.len() == modified@.len(),
    ensures
        match r {
            Some(i) => best_of(path_views(candidates@), modified@, modified@.len() as int) == Some(
                i as int,
            ) && i < candidates@.len(),
            None => best_of(path_views(candidates@), modified@, modified@.len() as int) is None,
        },
{
    let ghost paths = path_views(candidates@);
    let mut best: Option<(u128, usize)> = None;
    let mut i: usize = 0;
    while i < candidates.len()
        invariant
            i <= candidates@.len(),
            candidates@.len() == modified@.len(),
            paths == path_views(candidates@),
            match best {
                Some((t, b)) => best_of(paths, modified@, i as int) == Some(b as int) && b < i
                    && modified@[b as int] == Some(t),
                None => best_of(paths, modified@, i as int) is None,
            },
        decreases candidates@.len() - i,
    {
        assert(paths[i as int] == text::views(candidates@[i as int]@));
        if let Some(t) = modified[i] {
            let take = match best {
                None => true,
                Some((best_time, b)) => {
                    assert(paths[b as int] == text::views(candidates@[b as int]@));
                    t > best_time || (t == best_time && path_is_release(&candidates[i])
                        && !path_is_release(&candidates[b]))
                },
            };
            if take {
                best = Some((t, i));
            }
        }
        i = i + 1;
    }
    match best {
        Some((_, b)) => Some(b),
        None => None,
    }
}

/// The best candidate is a file, no candidate beats it, and each one before it
/// is older, or as new and no release where the best one is.
pub proof fn law_newest_daemon_wins(
    paths: Seq<Seq<Seq<char>>>,
    times: Seq<Option<u128>>,
    n: int,
)
    requires
        paths.len() == times.len(),
        0 <= n <= times.len(),
    ensures
        match best_of(paths, times, n) {
            None => forall|k: int| 0 <= k < n ==> times[k] is None,
            Some(b) => {
                &&& 0 <= b < n
                &&& times[b] is Some
                &&& forall|k: int|
                    #![trigger times[k]]
                    0 <= k < n && times[k] is Some ==> !beats(
                        paths[k],
                        times[k]->0,
                        paths[b],
                        times[b]->0,
                    )
                &&& forall|k: int|
                    #![trigger times[k]]
                    0 <= k < b && times[k] is Some ==> beats(
                        paths[b],
                        times[b]->0,
                        paths[k],
                        times[k]->0,
                    )
            },
        },
    decreases n,
{
    if n > 0 {
        law_newest_daemon_wins(paths, times, n - 1);
    }
}

/// The first of candidates that is a file.
pub open spec fn first_true(is_file: Seq<bool>) -> Option<int>
    decreases is_file.len(),
{
    if is_file.len() == 0 {
        None
    } else if is_file[0] {
        Some(0)
    } else {
        match first_true(is_file.drop_first()) {
            Some(i) => Some(i + 1),
            None => None,
        }
    }
}

/// Which directory of the search path holds a file: the first one, given for
/// each whether it does.
pub fn find_on_path(is_file: &Vec<bool>) -> (r: Option<usize>)
    ensures
        match r {
            Some(i) => first_true(is_file@) == Some(i as int) && i < is_file@.len(),
            None => first_true(is_file@) is None,
        },
{
    let mut i: usize = 0;
    assert(is_file@.skip(0) =~= is_file@);
    while i < is_file.len()
        invariant
            i <= is_file@.len(),
            first_true(is_file@) == (match first_true(is_file@.skip(i as int)) {
                Some(k) => Some(k + i),
                None => None,
            }),
        decreases is_file@.len() - i,
    {
        assert(is_file@.skip(i as int).drop_first() =~= is_file@.skip(i + 1));
        if is_file[i] {
            return Some(i);
        }
        i = i + 1;
    }
    None
}

/// Where the daemon was found.
#[derive(Debug, Clone, Copy, PartialEq, Eq, Structural)]
pub enum DaemonFound {
    /// The candidate of the workspace with this number.
    Workspace(usize),
    /// The directory of the search path with this number.
    OnPath(usize),
    /// The staged copy.
    Staged,
}

/// There is no daemon; the text says where to put one.
#[derive(Debug)]
pub struct DaemonMissing {
    pub message: String,
}

/// A daemon of the workspace comes before one on the search path, and this
/// before the staged copy, which there is on Windows only.
pub open spec fn daemon_choice(
    platform: Platform,
    workspace: Option<usize>,
    on_path: Option<usize>,
    staged: bool,
) -> Option<DaemonFound> {
    match (workspace, on_path) {
        (Some(i), _) => Some(DaemonFound::Workspace(i)),
        (None, Some(i)) => Some(DaemonFound::OnPath(i)),
        (None, None) => if platform is Windows && staged {
            Some(DaemonFound::Staged)
        } else {
            None
        },
    }
}

/// Which daemon is used: what [`newest_workspace_daemon`] and [`find_on_path`]
/// found, and whether the staged copy is a file.
pub fn resolve_daemon_exe(
    platform: Platform,
    workspace: Option<usize>,
    on_path: Option<usize>,
    staged: bool,
) -> (r: Result<DaemonFound, DaemonMissing>)
    ensures
        match r {
            Ok(f) => daemon_choice(platform, workspace, on_path, staged) == Some(f),
            Err(e) => daemon_choice(platform, workspace, on_path, staged) is None && e.message@
                == "could not find "@ + daemon_file(platform)
                + "; place it next to tunnet or on PATH"@,
        },
{
    if let Some(i) = workspace {
        return Ok(DaemonFound::Workspace(i));
    }
    if let Some(i) = on_path {
        return Ok(DaemonFound::OnPath(i));
    }
    if platform == Platform::Windows && staged {
        return Ok(DaemonFound::Staged);
    }
    let mut message = "could not find ".to_string();
    message.append(daemon_name(platform));
    message.append("; place it next to tunnet or on PATH");
    Err(DaemonMissing { message })
}

/// What tells two copies of a binary apart: size, and time of modification
/// where the file system gives one.
#[derive(Debug, Clone, Copy, PartialEq, Eq, Structural)]
pub struct ArtifactMeta {
    pub len: u64,
    pub modified: Option<u128>,
}

pub open spec fn same_copy(a: Option<ArtifactMeta>, b: Option<ArtifactMeta>) -> bool {
    match (a, b) {
        (Some(a), Some(b)) => a.len == b.len && a.modified is Some && a.modified == b.modified,
        _ => false,
    }
}

fn same_artifact(a: Option<ArtifactMeta>, b: Option<ArtifactMeta>) -> (r: bool)
    ensures
        r == same_copy(a, b),
{
    let (a, b) = match (a, b) {
        (Some(a), Some(b)) => (a, b),
        _ => {
            return false;
        },
    };
    if a.len != b.len {
        return false;
    }
    match (a.modified, b.modified) {
        (Some(ta), Some(tb)) => ta == tb,
        _ => false,
    }
}

/// Whether the staged daemon has to be replaced: not where it is the very file
/// that would be staged, always where there is none, else where the two differ.
pub fn daemon_outdated(
    source_is_dest: bool,
    dest_is_file: bool,
    source: Option<ArtifactMeta>,
    dest: Option<ArtifactMeta>,
) -> (r: bool)
    ensures
        r == (!source_is_dest && (!dest_is_file || !same_copy(source, dest))),
{
    if source_is_dest {
        return false;
    }
    if !dest_is_file {
        return true;
    }
    !same_artifact(source, dest)
}

/// What staging copies.
#[derive(Debug, Clone, Copy, PartialEq, Eq, Structural)]
pub struct StagePlan {
    pub copy_daemon: bool,
    pub copy_cli: bool,
}

/// What staging copies: the daemon unless it is staged already, and the command
/// line tool if it stands beside the daemon.
pub fn stage_daemon_exe(source_is_dest: bool, cli_beside_source: bool) -> (r: StagePlan)
    ensures
        r == (StagePlan { copy_daemon: !source_is_dest, copy_cli: cli_beside_source }),
{
    StagePlan { copy_daemon: !source_is_dest, copy_cli: cli_beside_source }
}

/// An entry of a directory.
#[derive(Debug)]
pub struct DirEntry {
    pub name: String,
    pub is_dir: bool,
}

/// What is removed from a directory, by its place among the entries.
#[derive(Debug, Clone, Copy, PartialEq, Eq, Structural)]
pub enum WipeStep {
    RemoveDir(usize),
    RemoveFile(usize),
}

/// What is removed of the first `n` entries: all but `bin`, in order.
pub open spec fn wiped(entries: Seq<DirEntry>, n: int) -> Seq<WipeStep>
    decreases n,
{
    if n <= 0 {
        Seq::empty()
    } else if entries[n - 1].name@ == "bin"@ {
        wiped(entries, n - 1)
    } else {
        wiped(entries, n - 1).push(
            if entries[n - 1].is_dir {
                WipeStep::RemoveDir((n - 1) as usize)
            } else {
                WipeStep::RemoveFile((n - 1) as usize)
            },
        )
    }
}

/// What is removed when the state is wiped: every entry of the state directory
/// but `bin`, which holds the staged binaries of the service.
pub fn wipe_state_dir(entries: &Vec<DirEntry>) -> (r: Vec<WipeStep>)
    ensures
        r@ == wiped(entries@, entries@.len() as int),
{
    let mut out: Vec<WipeStep> = Vec::new();
    let mut i: usize = 0;
    while i < entries.len()
        invariant
            i <= entries@.len(),
            out@ == wiped(entries@, i as int),
        decreases entries@.len() - i,
    {
        if !text::same(entries[i].name.as_str(), "bin") {
            if entries[i].is_dir {
                out.push(WipeStep::RemoveDir(i));
            } else {
                out.push(WipeStep::RemoveFile(i));
            }
        }
        i = i + 1;
    }
    out
}

pub open spec fn step_entry(step: WipeStep) -> usize {
    match step {
        WipeStep::RemoveDir(i) => i,
        WipeStep::RemoveFile(i) => i,
    }
}

/// Wiping removes exactly the entries that are not `bin`.
pub proof fn law_wiping_keeps_only_bin(entries: Seq<DirEntry>, n: int, i: usize)
    requires
        0 <= n <= entries.len() <= usize::MAX,
        i < n,
    ensures
        (exists|k: int|
            0 <= k < wiped(entries, n).len() && step_entry(#[trigger] wiped(entries, n)[k]) == i)
            <==> entries[i as int].name@ != "bin"@,
    decreases n,
{
    lemma_steps_are_below(entries, n - 1);
    let before = wiped(entries, n - 1);
    let now = wiped(entries, n);
    if i < n - 1 {
        law_wiping_keeps_only_bin(entries, n - 1, i);
        if exists|k: int| 0 <= k < before.len() && step_entry(#[trigger] before[k]) == i {
            let k = choose|k: int| 0 <= k < before.len() && step_entry(#[trigger] before[k]) == i;
            assert(now[k] == before[k]);
        }
        if exists|k: int| 0 <= k < now.len() && step_entry(#[trigger] now[k]) == i {
            let k = choose|k: int| 0 <= k < now.len() && step_entry(#[trigger] now[k]) == i;
            assert(k < before.len());
            assert(now[k] == before[k]);
        }
    } else if entries[i as int].name@ != "bin"@ {
        assert(step_entry(now[now.len() - 1]) == i);
    }
}

proof fn lemma_steps_are_below(entries: Seq<DirEntry>, n: int)
    requires
        n <= entries.len() <= usize::MAX,
    ensures
        forall|k: int|
            0 <= k < wiped(entries, n).len() ==> step_entry(#[trigger] wiped(entries, n)[k]) < n,
    decreases n,
{
    if n > 0 {
        lemma_steps_are_below(entries, n - 1);
        let before = wiped(entries, n - 1);
        let now = wiped(entries, n);
        assert forall|k: int| 0 <= k < now.len() implies step_entry(#[trigger] now[k]) < n by {
            if k < before.len() {
                assert(now[k] == before[k]);
            }
        }
    }
}

/// Where the state is: where it was asked to be, else at a place of the system.
pub proof fn law_state_places(
    given: Seq<char>,
    platform: Platform,
    program_data: Option<Seq<char>>,
)
    ensures
        state(Some(given), platform, program_data).base == given,
        state(Some(given), platform, program_data).under.len() == 0,
        state(None, platform, program_data) == system_state(platform, program_data),
        platform is Unix || platform is Bsd ==> system_state(platform, program_data).base
            == "/var/lib/tunnet"@ && system_state(platform, program_data).under.len() == 0,
        platform is Other ==> system_state(platform, program_data).base == "./tunnet-state"@
            && system_state(platform, program_data).under.len() == 0,
        platform is Windows ==> {
            let place = system_state(platform, program_data);
            &&& place.under == seq!["tunnet"@]
            &&& program_data is Some ==> place.base == program_data->0
            &&& program_data is None ==> place.base == "C:\\ProgramData"@
        },
        daemon_file(platform) == if platform is Windows {
            "tunnetd.exe"@
        } else {
            "tunnetd"@
        },
{
    assert(Seq::<Seq<char>>::empty().push("tunnet"@) =~= seq!["tunnet"@]);
}

/// Going into a directory adds its name behind all others.
pub proof fn law_going_inside(location: LocationView, name: Seq<char>)
    ensures
        inside(location, name).base == location.base,
        inside(location, name).under.len() == location.under.len() + 1,
        inside(location, name).under.last() == name,
        inside(location, name).under.drop_last() == location.under,
{
    assert(inside(location, name).under.drop_last() =~= location.under);
}

proof fn lemma_builds(start: Seq<Seq<char>>, root: int, n: int, name: Seq<char>, k: int)
    requires
        0 <= root <= n <= start.len(),
        0 <= k <= n - root,
    ensures
        builds_from(start, root, n, name).len() == 2 * (n - root + 1),
        builds_from(start, root, n, name)[2 * k] == start.take(n - k) + seq![
            "target"@,
            "debug"@,
            name,
        ],
        builds_from(start, root, n, name)[2 * k + 1] == start.take(n - k) + seq![
            "target"@,
            "release"@,
            name,
        ],
    decreases n - root,
{
    let all = builds_from(start, root, n, name);
    let rest = builds_from(start, root, n - 1, name);
    if n > root {
        lemma_builds(start, root, n - 1, name, if k > 0 { k - 1 } else { 0 });
        if k > 0 {
            assert(all[2 * k] == rest[2 * (k - 1)]);
            assert(all[2 * k + 1] == rest[2 * (k - 1) + 1]);
        }
    } else {
        assert(rest =~= Seq::empty());
    }
}

/// Where a daemon of the workspace is looked for: beside the program first, then
/// in the debug and the release build below the directory of the program, then
/// below the directory that holds this one, and so on up to the root.
pub proof fn law_places_of_a_workspace(
    start: Seq<Seq<char>>,
    root: int,
    name: Seq<char>,
    up: int,
)
    requires
        0 <= root <= start.len(),
        0 <= up <= start.len() - root,
    ensures
        workspace_places(start, root, name).len() == 3 + 2 * (start.len() - root),
        workspace_places(start, root, name)[0] == start.push(name),
        workspace_places(start, root, name)[1 + 2 * up] == start.take(start.len() - up) + seq![
            "target"@,
            "debug"@,
            name,
        ],
        workspace_places(start, root, name)[2 + 2 * up] == start.take(start.len() - up) + seq![
            "target"@,
            "release"@,
            name,
        ],
{
    lemma_builds(start, root, start.len() as int, name, up);
}

/// Of the daemons that are there the newest is taken. Of those that are as new it
/// is a release, if one is, and the first of those that are left.
pub proof fn law_newest_release_wins(
    paths: Seq<Seq<Seq<char>>>,
    times: Seq<Option<u128>>,
    k: int,
)
    requires
        paths.len() == times.len(),
        0 <= k < times.len(),
        times[k] is Some,
    ensures
        best_of(paths, times, times.len() as int) matches Some(b) && {
            &&& 0 <= b < times.len()
            &&& times[b] is Some
            &&& times[k]->0 <= times[b]->0
            &&& times[k] == times[b] && paths[k].contains("release"@) ==> paths[b].contains(
                "release"@,
            )
            &&& times[k] == times[b] && paths[k].contains("release"@) == paths[b].contains(
                "release"@,
            ) ==> b <= k
        },
{
    law_newest_daemon_wins(paths, times, times.len() as int);
    match best_of(paths, times, times.len() as int) {
        Some(b) => {
            assert(times[k] is Some);
        },
        None => {
            assert(times[k] is None);
        },
    }
}

/// The first directory that holds a file is found; none only if none does.
pub proof fn law_first_on_the_path(is_file: Seq<bool>)
    ensures
        match first_true(is_file) {
            Some(i) => 0 <= i < is_file.len() && is_file[i] && forall|k: int|
                0 <= k < i ==> !(#[trigger] is_file[k]),
            None => forall|k: int| 0 <= k < is_file.len() ==> !(#[trigger] is_file[k]),
        },
    decreases is_file.len(),
{
    if is_file.len() > 0 && !is_file[0] {
        let rest = is_file.drop_first();
        law_first_on_the_path(rest);
        assert(forall|k: int| 1 <= k < is_file.len() ==> #[trigger] is_file[k] == rest[k - 1]);
        if let Some(i) = first_true(rest) {
            assert(is_file[i + 1] == rest[i]);
        }
    }
}

/// Which daemon is used: one of the workspace, else one on the search path, else
/// on Windows the staged copy if it is there.
pub proof fn law_order_of_daemons(
    platform: Platform,
    i: usize,
    on_path: Option<usize>,
    j: usize,
    staged: bool,
)
    ensures
        daemon_choice(platform, Some(i), on_path, staged) == Some(DaemonFound::Workspace(i)),
        daemon_choice(platform, None, Some(j), staged) == Some(DaemonFound::OnPath(j)),
        daemon_choice(Platform::Windows, None, None, true) == Some(DaemonFound::Staged),
        daemon_choice(platform, None, None, false) is None,
        !(platform is Windows) ==> daemon_choice(platform, None, None, staged) is None,
{
}

/// Two copies are the same only if both are there, have the same size and were
/// modified at the same known time.
pub proof fn law_same_copies(a: ArtifactMeta, b: ArtifactMeta)
    ensures
        same_copy(Some(a), Some(b)) <==> a.len == b.len && a.modified is Some && b.modified is Some
            && a.modified->0 == b.modified->0,
        !same_copy(None, Some(b)) && !same_copy(Some(a), None) && !same_copy(None, None),
{
}

/// Directories are removed as directories and files as files, in the order in
/// which they stand there, and so none twice.
pub proof fn law_wiping_goes_in_order(entries: Seq<DirEntry>, n: int, i: int, j: int)
    requires
        0 <= n <= entries.len() <= usize::MAX,
        0 <= i < j < wiped(entries, n).len(),
    ensures
        match (wiped(entries, n)[i], wiped(entries, n)[j]) {
            (WipeStep::RemoveDir(a), WipeStep::RemoveDir(b)) => a < b < n,
            (WipeStep::RemoveDir(a), WipeStep::RemoveFile(b)) => a < b < n,
            (WipeStep::RemoveFile(a), WipeStep::RemoveDir(b)) => a < b < n,
            (WipeStep::RemoveFile(a), WipeStep::RemoveFile(b)) => a < b < n,
        },
    decreases n,
{
    lemma_steps_are_below(entries, n - 1);
    lemma_steps_are_below(entries, n);
    let before = wiped(entries, n - 1);
    let now = wiped(entries, n);
    if j < before.len() {
        law_wiping_goes_in_order(entries, n - 1, i, j);
        assert(now[i] == before[i] && now[j] == before[j]);
    } else {
        assert(now[i] == before[i]);
        assert(step_entry(before[i]) < n - 1);
        assert(step_entry(now[j]) == n - 1);
    }
}

/// A step removes a directory exactly if the entry is one, and never `bin`.
pub proof fn law_wiping_removes_by_kind(entries: Seq<DirEntry>, n: int, i: int)
    requires
        0 <= n <= entries.len() <= usize::MAX,
        0 <= i < wiped(entries, n).len(),
    ensures
        match wiped(entries, n)[i] {
            WipeStep::RemoveDir(k) => k < n && entries[k as int].is_dir && entries[k as int].name@
                != "bin"@,
            WipeStep::RemoveFile(k) => k < n && !entries[k as int].is_dir && entries[k as int].name@
                != "bin"@,
        },
    decreases n,
{
    let before = wiped(entries, n - 1);
    if n > 0 && i < before.len() {
        law_wiping_removes_by_kind(entries, n - 1, i);
        assert(wiped(entries, n)[i] == before[i]);
    }
}

} // verus!
