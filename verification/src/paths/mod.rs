//! Where the files of a project are.
//!
//! Settings and the data of all projects stand below one directory, `~/.midtown`; the sockets
//! stand below the directory for state.

pub mod migrate;
pub mod plugins;
pub mod workflows;

use vstd::prelude::*;

use crate::path::{
    file_name, has_parent, is_absolute, join_path, joined_path, joining_keeps_directories_apart,
    joining_keeps_names_apart, name_of_file, name_of_parent, parent_name, path_parts,
};
use crate::selection::{gathering_goes_item_by_item, gathers};
use crate::text::{
    concat2, concat3, contains, opt, opt_str, replace_all, replaced, same, trim, trimmed,
};

verus! {

/// `dirs::home_dir`, as text. Nothing is claimed of the result: the environment decides it.
#[verifier::external_body]
pub(crate) fn home_dir() -> Option<String> {
    dirs::home_dir().map(|p| p.to_string_lossy().into_owned())
}

pub open spec fn home_or_here(home: Option<Seq<char>>) -> Seq<char> {
    match home {
        Some(h) => h,
        None => "."@,
    }
}

/// The base directory of a home directory.
pub open spec fn base_of(home: Option<Seq<char>>) -> Seq<char> {
    join_path(home_or_here(home), ".midtown"@)
}

/// A directory that a variable of the environment gives, else the usual one below the home
/// directory.
pub open spec fn xdg_dir(
    given: Option<Seq<char>>,
    home: Option<Seq<char>>,
    usual: Seq<char>,
) -> Seq<char> {
    match given {
        Some(d) => d,
        None => join_path(join_path(home_or_here(home), ".local"@), usual),
    }
}

/// The directory of a project below the base directory.
pub open spec fn project_dir(base: Seq<char>, repo: Seq<char>) -> Seq<char> {
    join_path(join_path(base, "projects"@), repo)
}

/// The directory of a project below the directory for state.
pub open spec fn project_state_dir(state: Seq<char>, repo: Seq<char>) -> Seq<char> {
    join_path(join_path(state, "midtown"@), repo)
}

fn home_or_current(home: Option<String>) -> (r: String)
    ensures
        r@ == home_or_here(opt(home)),
{
    match home {
        Some(h) => h,
        None => ".".to_owned(),
    }
}

/// The base directory of a home directory.
pub fn base_dir_below(home: Option<String>) -> (r: String)
    ensures
        r@ == base_of(opt(home)),
{
    joined_path(home_or_current(home).as_str(), ".midtown")
}

/// A directory that a variable of the environment gives, else the usual one.
pub fn xdg_dir_below(given: Option<&str>, home: Option<String>, usual: &str) -> (r: String)
    ensures
        r@ == xdg_dir(opt_str(given), opt(home), usual@),
{
    match given {
        Some(d) => d.to_owned(),
        None => joined_path(
            joined_path(home_or_current(home).as_str(), ".local").as_str(),
            usual,
        ),
    }
}

/// The base directory.
pub fn midtown_base_dir() -> (r: String)
    ensures
        exists|home: Option<Seq<char>>| r@ == #[trigger] base_of(home),
{
    base_dir_below(home_dir())
}

/// The directory for state, where `given` is what the environment says of it.
pub fn state_dir(given: Option<&str>) -> (r: String)
    ensures
        exists|home: Option<Seq<char>>|
            r@ == #[trigger] xdg_dir(opt_str(given), home, "state"@),
        given is Some ==> r@ == given->0@,
{
    xdg_dir_below(given, home_dir(), "state")
}

/// The directory for the files that come with the program, where `given` is what the
/// environment says of the directory for data.
pub fn midtown_data_dir(given: Option<&str>) -> (r: String)
    ensures
        exists|home: Option<Seq<char>>|
            r@ == join_path(#[trigger] xdg_dir(opt_str(given), home, "share"@), "midtown"@),
        given is Some ==> r@ == join_path(given->0@, "midtown"@),
{
    joined_path(xdg_dir_below(given, home_dir(), "share").as_str(), "midtown")
}

/// The directory of the SDK below a directory.
pub open spec fn sdk_dir(dir: Seq<char>) -> Seq<char> {
    join_path(join_path(dir, "sdk"@), "python"@)
}

pub fn sdk_dir_below(dir: &str) -> (r: String)
    ensures
        r@ == sdk_dir(dir@),
{
    joined_path(joined_path(dir, "sdk").as_str(), "python")
}

/// Where the SDK is: beside the program or below the sources, where it is there; else below
/// the directory for data, whether or not it is there.
pub fn resolve_python_sdk_dir(
    beside_program: Option<(&str, bool)>,
    below_sources: (&str, bool),
    data_dir: &str,
) -> (r: String)
    ensures
        r@ == (if beside_program is Some && (beside_program->0).1 {
            sdk_dir((beside_program->0).0@)
        } else if below_sources.1 {
            sdk_dir(below_sources.0@)
        } else {
            sdk_dir(data_dir@)
        }),
{
    if let Some(candidate) = beside_program {
        if candidate.1 {
            return sdk_dir_below(candidate.0);
        }
    }
    if below_sources.1 {
        return sdk_dir_below(below_sources.0);
    }
    sdk_dir_below(data_dir)
}

/// A name that the environment gives to the project, and that is one name: not empty, without
/// separators, and neither the current directory nor the one above it.
pub open spec fn is_usable_key(key: Seq<char>) -> bool {
    &&& key.len() > 0
    &&& !crate::text::occurs(key, "/"@)
    &&& !crate::text::occurs(key, "\\"@)
    &&& key != "."@
    &&& key != ".."@
}

/// The name of the repository: the one that the environment gives, where it is usable, else
/// the one that the directory gives.
pub fn detect_repo_name(key: Option<&str>, from_dir: Option<String>) -> (r: Option<String>)
    ensures
        opt(r) == (if key is Some && is_usable_key(key->0@) {
            Some(key->0@)
        } else {
            opt(from_dir)
        }),
{
    if let Some(k) = key {
        if !k.is_empty() && !contains(k, "/") && !contains(k, "\\") && !same(k, ".") && !same(
            k,
            "..",
        ) {
            return Some(k.to_owned());
        }
    }
    from_dir
}

/// What is known of the name of the repository once the common directory is.
pub enum RepoQuery {
    Name(Option<String>),
    /// The top of the working tree tells.
    AskToplevel,
}

/// The common directory tells the name: it is not the `.git` of the working tree itself, and
/// something stands above it.
pub open spec fn common_dir_tells(common_dir: Option<Seq<char>>) -> bool {
    common_dir matches Some(out) && has_parent(trim(out)) && trim(out) != ".git"@
}

/// The name of the repository, from what was printed as its common directory. For a work tree
/// that is the directory of the main repository.
pub fn detect_repo_name_from_dir(common_dir: Option<&str>) -> (r: RepoQuery)
    ensures
        match r {
            RepoQuery::Name(name) => common_dir_tells(opt_str(common_dir)) && opt(name)
                == parent_name(trim(common_dir->0@)),
            RepoQuery::AskToplevel => !common_dir_tells(opt_str(common_dir)),
        },
{
    if let Some(out) = common_dir {
        let dir = trimmed(out);
        let (_, above) = path_parts(dir.as_str());
        if above && !same(dir.as_str(), ".git") {
            return RepoQuery::Name(name_of_parent(dir.as_str()));
        }
    }
    RepoQuery::AskToplevel
}

/// The name of the repository, from what was printed as the top of the working tree.
pub fn repo_name_of_toplevel(toplevel: Option<&str>) -> (r: Option<String>)
    ensures
        opt(r) == match toplevel {
            Some(out) => file_name(trim(out@)),
            None => None,
        },
{
    match toplevel {
        Some(out) => name_of_file(trimmed(out).as_str()),
        None => None,
    }
}

/// A directory name as the name of a project: with hyphens for dots.
pub open spec fn sanitized(dir_key: Seq<char>) -> Seq<char> {
    replaced(dir_key, "."@, "-"@)
}

pub fn sanitize_project_name(dir_key: &str) -> (r: String)
    ensures
        r@ == sanitized(dir_key@),
{
    proof {
        reveal_strlit(".");
    }
    replace_all(dir_key, ".", "-")
}

/// The name of a project: the one in its settings, else its directory name with hyphens for
/// dots.
pub open spec fn project_name_of(dir_key: Seq<char>, configured: Option<Seq<char>>) -> Seq<char> {
    match configured {
        Some(name) => name,
        None => sanitized(dir_key),
    }
}

pub fn project_name_for_dir_key(dir_key: &str, configured: Option<&str>) -> (r: String)
    ensures
        r@ == project_name_of(dir_key@, opt_str(configured)),
{
    match configured {
        Some(name) => name.to_owned(),
        None => sanitize_project_name(dir_key),
    }
}

/// The name of the project of a repository, where there is one.
pub fn detect_project_name(repo: Option<&str>, configured: Option<&str>) -> (r: Option<String>)
    ensures
        opt(r) == match repo {
            Some(dir_key) => Some(project_name_of(dir_key@, opt_str(configured))),
            None => None,
        },
{
    match repo {
        Some(dir_key) => Some(project_name_for_dir_key(dir_key, configured)),
        None => None,
    }
}

/// A name made from a directory name holds no dot.
pub proof fn sanitized_names_hold_no_dots(dir_key: Seq<char>)
    ensures
        !sanitized(dir_key).contains('.'),
    decreases dir_key.len(),
{
    reveal_strlit(".");
    reveal_strlit("-");
    if dir_key.len() > 0 {
        let rest = dir_key.skip(1);
        sanitized_names_hold_no_dots(rest);
        let c = dir_key[0];
        assert(dir_key.take(1) =~= seq![c]);
        let first = if c == '.' {
            '-'
        } else {
            c
        };
        assert(sanitized(dir_key) =~= seq![first] + sanitized(rest)) by {
            assert("."@ =~= seq!['.']);
            assert("-"@ =~= seq!['-']);
            if c != '.' {
                assert(dir_key.take(1)[0] != "."@[0]);
            }
        }
        assert forall|i: int| 0 <= i < sanitized(dir_key).len() implies sanitized(dir_key)[i]
            != '.' by {
            if i > 0 {
                assert(sanitized(dir_key)[i] == sanitized(rest)[i - 1]);
                assert(sanitized(rest).contains(sanitized(rest)[i - 1]));
            }
        }
    }
}

/// A name without dots is the name of its project as it is; so making a name twice gives what
/// making it once gives.
pub proof fn names_without_dots_stay(name: Seq<char>)
    requires
        !name.contains('.'),
    ensures
        sanitized(name) == name,
    decreases name.len(),
{
    reveal_strlit(".");
    if name.len() > 0 {
        let rest = name.skip(1);
        assert(name.contains(name[0]));
        assert forall|i: int| 0 <= i < rest.len() implies rest[i] != '.' by {
            assert(name.contains(name[i + 1]));
        }
        names_without_dots_stay(rest);
        assert(name.take(1)[0] != "."@[0]);
        assert(sanitized(name) =~= name);
    }
}

/// The files of one project.
#[derive(Debug)]
pub struct ProjectPaths {
    /// The name of the directory of the repository.
    pub dir_key: String,
    /// The name by which the project goes.
    pub project_name: String,
    /// Its directory below the base directory.
    pub base: String,
    /// Its directory below the directory for state.
    pub state_base: String,
}

impl ProjectPaths {
    /// The files of a project below given directories.
    pub fn below(dir_key: &str, project_name: &str, base: &str, state: &str) -> (r: ProjectPaths)
        ensures
            r.dir_key@ == dir_key@,
            r.project_name@ == project_name@,
            r.base@ == project_dir(base@, dir_key@),
            r.state_base@ == project_state_dir(state@, dir_key@),
    {
        ProjectPaths {
            dir_key: dir_key.to_owned(),
            project_name: project_name.to_owned(),
            base: joined_path(joined_path(base, "projects").as_str(), dir_key),
            state_base: joined_path(joined_path(state, "midtown").as_str(), dir_key),
        }
    }

    /// The files of a project of a known name, where `given` is what the environment says of
    /// the directory for state.
    pub fn with_project_name(dir_key: &str, project_name: &str, given: Option<&str>) -> (r:
        ProjectPaths)
        ensures
            r.dir_key@ == dir_key@,
            r.project_name@ == project_name@,
            exists|home: Option<Seq<char>>|
                r.base@ == project_dir(#[trigger] base_of(home), dir_key@),
            exists|home: Option<Seq<char>>|
                r.state_base@ == project_state_dir(
                    #[trigger] xdg_dir(opt_str(given), home, "state"@),
                    dir_key@,
                ),
    {
        let base = midtown_base_dir();
        let state = state_dir(given);
        ProjectPaths::below(dir_key, project_name, base.as_str(), state.as_str())
    }

    /// The files of a project, which goes by the name in its settings or by its directory name.
    pub fn new(dir_key: &str, configured: Option<&str>, given: Option<&str>) -> (r: ProjectPaths)
        ensures
            r.dir_key@ == dir_key@,
            r.project_name@ == project_name_of(dir_key@, opt_str(configured)),
            exists|home: Option<Seq<char>>|
                r.base@ == project_dir(#[trigger] base_of(home), dir_key@),
            exists|home: Option<Seq<char>>|
                r.state_base@ == project_state_dir(
                    #[trigger] xdg_dir(opt_str(given), home, "state"@),
                    dir_key@,
                ),
    {
        let name = project_name_for_dir_key(dir_key, configured);
        ProjectPaths::with_project_name(dir_key, name.as_str(), given)
    }

    pub fn dir_key(&self) -> (r: &str)
        ensures
            r@ == self.dir_key@,
    {
        self.dir_key.as_str()
    }

    pub fn project_name(&self) -> (r: &str)
        ensures
            r@ == self.project_name@,
    {
        self.project_name.as_str()
    }

    pub fn base_dir(&self) -> (r: &str)
        ensures
            r@ == self.base@,
    {
        self.base.as_str()
    }

    pub fn assets_dir(&self) -> (r: String)
        ensures
            r@ == join_path(self.base@, "assets"@),
    {
        joined_path(self.base.as_str(), "assets")
    }

    pub fn screenshots_dir(&self) -> (r: String)
        ensures
            r@ == join_path(self.base@, "screenshots"@),
    {
        joined_path(self.base.as_str(), "screenshots")
    }

    pub fn worktrees_dir(&self) -> (r: String)
        ensures
            r@ == join_path(self.base@, "worktrees"@),
    {
        joined_path(self.base.as_str(), "worktrees")
    }

    pub fn workflows_dir(&self) -> (r: String)
        ensures
            r@ == join_path(self.base@, "workflows"@),
    {
        joined_path(self.base.as_str(), "workflows")
    }

    pub fn lead_worktree(&self) -> (r: String)
        ensures
            r@ == join_path(join_path(self.base@, "worktrees"@), "lead"@),
    {
        joined_path(self.worktrees_dir().as_str(), "lead")
    }

    pub fn daemon_state_file(&self) -> (r: String)
        ensures
            r@ == join_path(self.base@, "daemon-state.json"@),
    {
        joined_path(self.base.as_str(), "daemon-state.json")
    }

    pub fn daemon_socket(&self) -> (r: String)
        ensures
            r@ == join_path(self.state_base@, "daemon.sock"@),
    {
        joined_path(self.state_base.as_str(), "daemon.sock")
    }

    pub fn plugin_daemon_socket(&self) -> (r: String)
        ensures
            r@ == join_path(self.state_base@, "plugin-daemon.sock"@),
    {
        joined_path(self.state_base.as_str(), "plugin-daemon.sock")
    }

    pub fn daemon_log_dir(&self) -> (r: String)
        ensures
            r@ == join_path(self.base@, "logs"@),
    {
        joined_path(self.base.as_str(), "logs")
    }

    pub fn daemon_log_file(&self) -> (r: String)
        ensures
            r@ == join_path(join_path(self.base@, "logs"@), "daemon.log"@),
    {
        joined_path(self.daemon_log_dir().as_str(), "daemon.log")
    }

    pub fn hooks_log_file(&self) -> (r: String)
        ensures
            r@ == join_path(join_path(self.base@, "logs"@), "hooks.log"@),
    {
        joined_path(self.daemon_log_dir().as_str(), "hooks.log")
    }

    pub fn daemon_pid_file(&self) -> (r: String)
        ensures
            r@ == join_path(self.base@, "daemon.pid"@),
    {
        joined_path(self.base.as_str(), "daemon.pid")
    }

    /// The record of what the session of a coworker put out.
    pub fn headless_output(&self, coworker_name: &str) -> (r: String)
        ensures
            r@ == headless_file(self.base@, coworker_name@),
    {
        joined_path(
            joined_path(self.base.as_str(), "sessions").as_str(),
            concat3("headless-", coworker_name, ".jsonl").as_str(),
        )
    }

    pub fn lead_session_file(&self) -> (r: String)
        ensures
            r@ == join_path(self.base@, "lead-session-id"@),
    {
        joined_path(self.base.as_str(), "lead-session-id")
    }

    pub fn lead_system_prompt_file(&self) -> (r: String)
        ensures
            r@ == join_path(self.base@, "lead-system-prompt.txt"@),
    {
        joined_path(self.base.as_str(), "lead-system-prompt.txt")
    }

    pub fn github_state_file(&self) -> (r: String)
        ensures
            r@ == join_path(self.base@, "github-state.json"@),
    {
        joined_path(self.base.as_str(), "github-state.json")
    }

    pub fn reminders_file(&self) -> (r: String)
        ensures
            r@ == join_path(self.base@, "reminders.json"@),
    {
        joined_path(self.base.as_str(), "reminders.json")
    }

    pub fn cursors_dir(&self) -> (r: String)
        ensures
            r@ == join_path(self.base@, "cursors"@),
    {
        joined_path(self.base.as_str(), "cursors")
    }

    /// The messages of a channel.
    pub fn channel_file(&self, channel: &str) -> (r: String)
        ensures
            r@ == history_file(self.base@, channel@),
    {
        let dir = joined_path(joined_path(self.base.as_str(), "channels").as_str(), channel);
        joined_path(joined_path(dir.as_str(), "history").as_str(), "current.jsonl")
    }

    /// What the workflow of a channel keeps between two events.
    pub fn workflow_state_file(&self, channel: &str) -> (r: String)
        ensures
            r@ == join_path(channel_dir(self.base@, channel@), "workflow-state.json"@),
    {
        let dir = joined_path(joined_path(self.base.as_str(), "channels").as_str(), channel);
        joined_path(dir.as_str(), "workflow-state.json")
    }

    /// The list of tasks that the sessions of the project share.
    pub fn task_list_id(&self) -> (r: String)
        ensures
            r@ == "midtown-"@ + self.dir_key@,
    {
        concat2("midtown-", self.dir_key.as_str())
    }

    /// The team of the project.
    pub fn team_name(&self) -> (r: String)
        ensures
            r@ == "midtown-"@ + self.project_name@,
    {
        concat2("midtown-", self.project_name.as_str())
    }
}

/// The record of what the session of a coworker put out.
pub open spec fn headless_file(project: Seq<char>, coworker: Seq<char>) -> Seq<char> {
    join_path(join_path(project, "sessions"@), "headless-"@ + coworker + ".jsonl"@)
}

/// The directory of a channel.
pub open spec fn channel_dir(project: Seq<char>, channel: Seq<char>) -> Seq<char> {
    join_path(join_path(project, "channels"@), channel)
}

/// The messages of a channel.
pub open spec fn history_file(project: Seq<char>, channel: Seq<char>) -> Seq<char> {
    join_path(join_path(channel_dir(project, channel), "history"@), "current.jsonl"@)
}

fn paths_of_repo(repo: &str, given: Option<&str>) -> (r: ProjectPaths)
    ensures
        r.dir_key@ == repo@,
        exists|home: Option<Seq<char>>| r.base@ == project_dir(#[trigger] base_of(home), repo@),
        exists|home: Option<Seq<char>>|
            r.state_base@ == project_state_dir(
                #[trigger] xdg_dir(opt_str(given), home, "state"@),
                repo@,
            ),
{
    ProjectPaths::with_project_name(repo, repo, given)
}

/// The directory of a project.
pub fn projects_dir_for_repo(repo: &str) -> (r: String)
    ensures
        exists|home: Option<Seq<char>>| r@ == project_dir(#[trigger] base_of(home), repo@),
{
    paths_of_repo(repo, None).base
}

pub fn assets_dir_for_repo(repo: &str) -> (r: String)
    ensures
        exists|home: Option<Seq<char>>|
            r@ == join_path(project_dir(#[trigger] base_of(home), repo@), "assets"@),
{
    paths_of_repo(repo, None).assets_dir()
}

pub fn screenshots_dir_for_repo(repo: &str) -> (r: String)
    ensures
        exists|home: Option<Seq<char>>|
            r@ == join_path(project_dir(#[trigger] base_of(home), repo@), "screenshots"@),
{
    paths_of_repo(repo, None).screenshots_dir()
}

/// Where the work trees of coworkers used to be.
pub fn legacy_coworkers_dir_for_repo(repo: &str) -> (r: String)
    ensures
        exists|home: Option<Seq<char>>|
            r@ == join_path(project_dir(#[trigger] base_of(home), repo@), "coworkers"@),
{
    joined_path(paths_of_repo(repo, None).base.as_str(), "coworkers")
}

pub fn headless_output_file(repo: &str, coworker_name: &str) -> (r: String)
    ensures
        exists|home: Option<Seq<char>>|
            r@ == headless_file(project_dir(#[trigger] base_of(home), repo@), coworker_name@),
{
    paths_of_repo(repo, None).headless_output(coworker_name)
}

pub fn worktrees_dir_for_repo(repo: &str) -> (r: String)
    ensures
        exists|home: Option<Seq<char>>|
            r@ == join_path(project_dir(#[trigger] base_of(home), repo@), "worktrees"@),
{
    paths_of_repo(repo, None).worktrees_dir()
}

pub fn lead_worktree_path(repo: &str) -> (r: String)
    ensures
        exists|home: Option<Seq<char>>|
            r@ == join_path(
                join_path(project_dir(#[trigger] base_of(home), repo@), "worktrees"@),
                "lead"@,
            ),
{
    paths_of_repo(repo, None).lead_worktree()
}

/// Where the data of the lead is: in the directory of the project.
pub fn lead_dir_for_repo(repo: &str) -> (r: String)
    ensures
        exists|home: Option<Seq<char>>| r@ == project_dir(#[trigger] base_of(home), repo@),
{
    projects_dir_for_repo(repo)
}

pub fn lead_system_prompt_file(repo: &str) -> (r: String)
    ensures
        exists|home: Option<Seq<char>>|
            r@ == join_path(
                project_dir(#[trigger] base_of(home), repo@),
                "lead-system-prompt.txt"@,
            ),
{
    paths_of_repo(repo, None).lead_system_prompt_file()
}

pub fn lead_session_file_for_repo(repo: &str) -> (r: String)
    ensures
        exists|home: Option<Seq<char>>|
            r@ == join_path(project_dir(#[trigger] base_of(home), repo@), "lead-session-id"@),
{
    paths_of_repo(repo, None).lead_session_file()
}

pub fn task_list_id_for_repo(repo: &str) -> (r: String)
    ensures
        r@ == "midtown-"@ + repo@,
{
    concat2("midtown-", repo)
}

/// The messages of the channel that goes by the name of the repository.
pub fn channel_file_for_repo(repo: &str) -> (r: String)
    ensures
        exists|home: Option<Seq<char>>|
            r@ == history_file(project_dir(#[trigger] base_of(home), repo@), repo@),
{
    paths_of_repo(repo, None).channel_file(repo)
}

pub fn cursors_dir_for_repo(repo: &str) -> (r: String)
    ensures
        exists|home: Option<Seq<char>>|
            r@ == join_path(project_dir(#[trigger] base_of(home), repo@), "cursors"@),
{
    paths_of_repo(repo, None).cursors_dir()
}

pub fn github_state_file_for_repo(repo: &str) -> (r: String)
    ensures
        exists|home: Option<Seq<char>>|
            r@ == join_path(project_dir(#[trigger] base_of(home), repo@), "github-state.json"@),
{
    paths_of_repo(repo, None).github_state_file()
}

pub fn reminders_file_for_repo(repo: &str) -> (r: String)
    ensures
        exists|home: Option<Seq<char>>|
            r@ == join_path(project_dir(#[trigger] base_of(home), repo@), "reminders.json"@),
{
    paths_of_repo(repo, None).reminders_file()
}

pub fn daemon_state_file_for_repo(repo: &str) -> (r: String)
    ensures
        exists|home: Option<Seq<char>>|
            r@ == join_path(project_dir(#[trigger] base_of(home), repo@), "daemon-state.json"@),
{
    paths_of_repo(repo, None).daemon_state_file()
}

/// The socket of the daemon, where `given` is what the environment says of the directory for
/// state.
pub fn daemon_socket_for_repo(repo: &str, given: Option<&str>) -> (r: String)
    ensures
        exists|home: Option<Seq<char>>|
            r@ == join_path(
                project_state_dir(#[trigger] xdg_dir(opt_str(given), home, "state"@), repo@),
                "daemon.sock"@,
            ),
{
    paths_of_repo(repo, given).daemon_socket()
}

pub fn daemon_pid_file_for_repo(repo: &str) -> (r: String)
    ensures
        exists|home: Option<Seq<char>>|
            r@ == join_path(project_dir(#[trigger] base_of(home), repo@), "daemon.pid"@),
{
    paths_of_repo(repo, None).daemon_pid_file()
}

pub fn daemon_log_dir_for_repo(repo: &str) -> (r: String)
    ensures
        exists|home: Option<Seq<char>>|
            r@ == join_path(project_dir(#[trigger] base_of(home), repo@), "logs"@),
{
    paths_of_repo(repo, None).daemon_log_dir()
}

pub fn daemon_log_file_for_repo(repo: &str) -> (r: String)
    ensures
        exists|home: Option<Seq<char>>|
            r@ == join_path(
                join_path(project_dir(#[trigger] base_of(home), repo@), "logs"@),
                "daemon.log"@,
            ),
{
    paths_of_repo(repo, None).daemon_log_file()
}

pub fn hooks_log_file_for_repo(repo: &str) -> (r: String)
    ensures
        exists|home: Option<Seq<char>>|
            r@ == join_path(
                join_path(project_dir(#[trigger] base_of(home), repo@), "logs"@),
                "hooks.log"@,
            ),
{
    paths_of_repo(repo, None).hooks_log_file()
}

pub fn workflow_state_file(channel: &str, repo: &str) -> (r: String)
    ensures
        exists|home: Option<Seq<char>>|
            r@ == join_path(
                channel_dir(project_dir(#[trigger] base_of(home), repo@), channel@),
                "workflow-state.json"@,
            ),
{
    paths_of_repo(repo, None).workflow_state_file(channel)
}

/// The name of the repository one works in, or `default` outside of one.
pub open spec fn repo_or_default(repo: Option<Seq<char>>) -> Seq<char> {
    match repo {
        Some(name) => name,
        None => "default"@,
    }
}

fn current_repo(repo: Option<&str>) -> (r: &str)
    ensures
        r@ == repo_or_default(opt_str(repo)),
{
    match repo {
        Some(name) => name,
        None => "default",
    }
}

pub fn lead_session_file(repo: Option<&str>) -> (r: String)
    ensures
        exists|home: Option<Seq<char>>|
            r@ == join_path(
                project_dir(#[trigger] base_of(home), repo_or_default(opt_str(repo))),
                "lead-session-id"@,
            ),
{
    lead_session_file_for_repo(current_repo(repo))
}

pub fn task_list_id(repo: Option<&str>) -> (r: String)
    ensures
        r@ == "midtown-"@ + repo_or_default(opt_str(repo)),
{
    task_list_id_for_repo(current_repo(repo))
}

pub fn daemon_socket(repo: Option<&str>, given: Option<&str>) -> (r: String)
    ensures
        exists|home: Option<Seq<char>>|
            r@ == join_path(
                project_state_dir(
                    #[trigger] xdg_dir(opt_str(given), home, "state"@),
                    repo_or_default(opt_str(repo)),
                ),
                "daemon.sock"@,
            ),
{
    daemon_socket_for_repo(current_repo(repo), given)
}

pub fn daemon_pid_file(repo: Option<&str>) -> (r: String)
    ensures
        exists|home: Option<Seq<char>>|
            r@ == join_path(
                project_dir(#[trigger] base_of(home), repo_or_default(opt_str(repo))),
                "daemon.pid"@,
            ),
{
    daemon_pid_file_for_repo(current_repo(repo))
}

pub fn daemon_log_dir(repo: Option<&str>) -> (r: String)
    ensures
        exists|home: Option<Seq<char>>|
            r@ == join_path(
                project_dir(#[trigger] base_of(home), repo_or_default(opt_str(repo))),
                "logs"@,
            ),
{
    daemon_log_dir_for_repo(current_repo(repo))
}

pub fn daemon_log_file(repo: Option<&str>) -> (r: String)
    ensures
        exists|home: Option<Seq<char>>|
            r@ == join_path(
                join_path(
                    project_dir(#[trigger] base_of(home), repo_or_default(opt_str(repo))),
                    "logs"@,
                ),
                "daemon.log"@,
            ),
{
    daemon_log_file_for_repo(current_repo(repo))
}

pub fn hooks_log_file(repo: Option<&str>) -> (r: String)
    ensures
        exists|home: Option<Seq<char>>|
            r@ == join_path(
                join_path(
                    project_dir(#[trigger] base_of(home), repo_or_default(opt_str(repo))),
                    "logs"@,
                ),
                "hooks.log"@,
            ),
{
    hooks_log_file_for_repo(current_repo(repo))
}

/// An entry of the directory for state.
pub struct StateEntry {
    pub name: String,
    pub is_dir: bool,
    /// It holds the socket of a daemon.
    pub has_socket: bool,
}

/// The projects whose directory holds a socket, with the sockets.
pub open spec fn sockets_in(state: Seq<char>, entries: Seq<StateEntry>) -> Seq<
    (Seq<char>, Seq<char>),
>
    decreases entries.len(),
{
    if entries.len() == 0 {
        Seq::empty()
    } else {
        let before = sockets_in(state, entries.drop_last());
        let e = entries.last();
        if e.is_dir && e.has_socket {
            before.push((e.name@, join_path(join_path(state, e.name@), "daemon.sock"@)))
        } else {
            before
        }
    }
}

/// The sockets of all projects, from what the directory for state holds.
pub fn enumerate_daemon_sockets(midtown_state: &str, entries: &Vec<StateEntry>) -> (r: Vec<
    (String, String),
>)
    ensures
        crate::text_map::pair_texts(r@) == sockets_in(midtown_state@, entries@),
{
    let mut r: Vec<(String, String)> = Vec::new();
    let mut i: usize = 0;
    assert(crate::text_map::pair_texts(r@) =~= sockets_in(midtown_state@, entries@.take(0)));
    while i < entries.len()
        invariant
            i <= entries.len(),
            crate::text_map::pair_texts(r@) == sockets_in(
                midtown_state@,
                entries@.take(i as int),
            ),
        decreases entries.len() - i,
    {
        proof {
            assert(entries@.take(i + 1).drop_last() =~= entries@.take(i as int));
        }
        let e = &entries[i];
        if e.is_dir && e.has_socket {
            let dir = joined_path(midtown_state, e.name.as_str());
            let socket = joined_path(dir.as_str(), "daemon.sock");
            let ghost before = crate::text_map::pair_texts(r@);
            let ghost added = (e.name@, socket@);
            r.push((e.name.clone(), socket));
            assert(crate::text_map::pair_texts(r@) =~= before.push(added));
        }
        i += 1;
    }
    assert(entries@.take(i as int) =~= entries@);
    r
}

/// The name is one component of a path.
pub open spec fn is_plain_name(name: Seq<char>) -> bool {
    name.len() > 0 && !name.contains('/')
}

proof fn lemma_joined_plain_name(dir: Seq<char>, name: Seq<char>)
    requires
        is_plain_name(name),
    ensures
        !is_absolute(name),
        join_path(dir, name).len() > 0,
        join_path(dir, name).last() != '/',
{
    reveal_strlit("/");
    assert(name.contains(name[0]));
    assert(name.contains(name.last()));
    assert(join_path(dir, name).last() == name.last());
}

/// Two repositories have two directories, and no file in common.
pub proof fn repositories_share_no_file(
    base: Seq<char>,
    a: Seq<char>,
    b: Seq<char>,
    file: Seq<char>,
)
    requires
        is_plain_name(a),
        is_plain_name(b),
        a != b,
        !is_absolute(file),
    ensures
        project_dir(base, a) != project_dir(base, b),
        join_path(project_dir(base, a), file) != join_path(project_dir(base, b), file),
        project_state_dir(base, a) != project_state_dir(base, b),
        join_path(project_state_dir(base, a), file) != join_path(project_state_dir(base, b), file),
{
    let projects = join_path(base, "projects"@);
    let states = join_path(base, "midtown"@);
    lemma_joined_plain_name(projects, a);
    lemma_joined_plain_name(projects, b);
    lemma_joined_plain_name(states, a);
    lemma_joined_plain_name(states, b);
    if join_path(projects, a) == join_path(projects, b) {
        joining_keeps_names_apart(projects, a, b);
    }
    if join_path(states, a) == join_path(states, b) {
        joining_keeps_names_apart(states, a, b);
    }
    if join_path(project_dir(base, a), file) == join_path(project_dir(base, b), file) {
        joining_keeps_directories_apart(project_dir(base, a), project_dir(base, b), file);
    }
    if join_path(project_state_dir(base, a), file) == join_path(project_state_dir(base, b), file) {
        joining_keeps_directories_apart(
            project_state_dir(base, a),
            project_state_dir(base, b),
            file,
        );
    }
}

/// Two channels of a project have no file in common.
pub proof fn channels_share_no_file(
    project: Seq<char>,
    a: Seq<char>,
    b: Seq<char>,
    file: Seq<char>,
)
    requires
        is_plain_name(a),
        is_plain_name(b),
        a != b,
        !is_absolute(file),
    ensures
        join_path(channel_dir(project, a), file) != join_path(channel_dir(project, b), file),
{
    let channels = join_path(project, "channels"@);
    lemma_joined_plain_name(channels, a);
    lemma_joined_plain_name(channels, b);
    if join_path(channel_dir(project, a), file) == join_path(channel_dir(project, b), file) {
        joining_keeps_directories_apart(channel_dir(project, a), channel_dir(project, b), file);
        joining_keeps_names_apart(channels, a, b);
    }
}

/// The directories of all projects stand below the home directory, and below the current one
/// where there is no home directory; a directory that is given counts before the usual one.
pub proof fn directories_stand_below_the_home_directory(
    home: Seq<char>,
    given: Seq<char>,
    usual: Seq<char>,
)
    ensures
        base_of(Some(home)) == join_path(home, ".midtown"@),
        base_of(None) == join_path("."@, ".midtown"@),
        xdg_dir(Some(given), Some(home), usual) == given,
        xdg_dir(Some(given), None, usual) == given,
        xdg_dir(None, Some(home), usual) == join_path(join_path(home, ".local"@), usual),
        xdg_dir(None, None, usual) == join_path(join_path("."@, ".local"@), usual),
        home_or_here(Some(home)) == home,
        home_or_here(None) == "."@,
{
}

/// Each kind of file of a project has its place below the directories of the project.
pub proof fn files_have_their_place(
    dir: Seq<char>,
    repo: Seq<char>,
    channel: Seq<char>,
    coworker: Seq<char>,
)
    ensures
        project_dir(dir, repo) == join_path(join_path(dir, "projects"@), repo),
        project_state_dir(dir, repo) == join_path(join_path(dir, "midtown"@), repo),
        sdk_dir(dir) == join_path(join_path(dir, "sdk"@), "python"@),
        headless_file(dir, coworker) == join_path(
            join_path(dir, "sessions"@),
            "headless-"@ + coworker + ".jsonl"@,
        ),
        channel_dir(dir, channel) == join_path(join_path(dir, "channels"@), channel),
        history_file(dir, channel) == join_path(
            join_path(join_path(join_path(dir, "channels"@), channel), "history"@),
            "current.jsonl"@,
        ),
        repo_or_default(Some(repo)) == repo,
        repo_or_default(None) == "default"@,
{
}

/// A key can be used where it is one name of a file: not empty, without a slash of either kind,
/// and neither this directory nor the one above it.
pub proof fn keys_are_single_names(key: Seq<char>)
    ensures
        is_usable_key(key) <==> key.len() > 0 && !key.contains('/') && !key.contains('\\') && key
            != "."@ && key != ".."@,
{
    reveal_strlit("/");
    reveal_strlit("\\");
    assert("/"@ =~= seq!['/']);
    assert("\\"@ =~= seq!['\\']);
    lemma_single_character_occurs(key, '/');
    lemma_single_character_occurs(key, '\\');
}

proof fn lemma_single_character_occurs(s: Seq<char>, c: char)
    ensures
        crate::text::occurs(s, seq![c]) <==> s.contains(c),
{
    if crate::text::occurs(s, seq![c]) {
        let i = choose|i: int| crate::text::occurs_at(s, seq![c], i);
        assert(s.subrange(i, i + 1)[0] == s[i]);
        assert(s[i] == c);
    }
    if s.contains(c) {
        let i = choose|i: int| 0 <= i < s.len() && s[i] == c;
        assert(s.subrange(i, i + 1) =~= seq![c]);
        assert(crate::text::occurs_at(s, seq![c], i));
    }
}

/// The common directory tells the repository where it was printed, stands below something, and
/// is not just the directory of the repository itself.
pub proof fn common_directories_tell_the_repository(printed: Seq<char>)
    ensures
        !common_dir_tells(None),
        common_dir_tells(Some(printed)) <==> has_parent(trim(printed)) && trim(printed) != ".git"@,
{
}

/// A project is named by its settings, and without them after its directory, with a hyphen for
/// each dot and nothing else changed.
pub proof fn projects_are_named_after_their_directory(dir_key: Seq<char>, name: Seq<char>)
    ensures
        project_name_of(dir_key, Some(name)) == name,
        project_name_of(dir_key, None).len() == dir_key.len(),
        forall|i: int|
            0 <= i < dir_key.len() ==> #[trigger] project_name_of(dir_key, None)[i] == (if dir_key[i]
                == '.' {
                '-'
            } else {
                dir_key[i]
            }),
    decreases dir_key.len(),
{
    reveal_strlit(".");
    reveal_strlit("-");
    let r = project_name_of(dir_key, None);
    if dir_key.len() > 0 {
        let rest = dir_key.skip(1);
        projects_are_named_after_their_directory(rest, name);
        let c = dir_key[0];
        assert(dir_key.take(1) =~= seq![c]);
        let first = if c == '.' {
            '-'
        } else {
            c
        };
        assert(sanitized(dir_key) =~= seq![first] + sanitized(rest)) by {
            assert("."@ =~= seq!['.']);
            assert("-"@ =~= seq!['-']);
            if c != '.' {
                assert(dir_key.take(1)[0] != "."@[0]);
            }
        }
        assert forall|i: int| 0 <= i < dir_key.len() implies #[trigger] r[i] == (if dir_key[i]
            == '.' {
            '-'
        } else {
            dir_key[i]
        }) by {
            if i > 0 {
                assert(r[i] == project_name_of(rest, None)[i - 1]);
                assert(rest[i - 1] == dir_key[i]);
            }
        }
    }
}

/// The sockets of all projects are those of the directories that hold one, in their order.
pub proof fn every_directory_with_a_socket_is_listed(state: Seq<char>, entries: Seq<StateEntry>)
    ensures
        gathers(
            entries,
            |e: StateEntry| e.is_dir && e.has_socket,
            |e: StateEntry| (e.name@, join_path(join_path(state, e.name@), "daemon.sock"@)),
            sockets_in(state, entries),
        ),
    decreases entries.len(),
{
    let wanted = |e: StateEntry| e.is_dir && e.has_socket;
    let told = |e: StateEntry| (e.name@, join_path(join_path(state, e.name@), "daemon.sock"@));
    if entries.len() == 0 {
        gathering_goes_item_by_item(
            entries,
            entries[0],
            wanted,
            told,
            Seq::<(Seq<char>, Seq<char>)>::empty(),
        );
        assert(entries =~= Seq::<StateEntry>::empty());
        assert(sockets_in(state, entries) =~= Seq::<(Seq<char>, Seq<char>)>::empty());
    } else {
        let init = entries.drop_last();
        every_directory_with_a_socket_is_listed(state, init);
        assert(entries =~= init.push(entries.last()));
        gathering_goes_item_by_item(init, entries.last(), wanted, told, sockets_in(state, init));
    }
}

} // verus!
