//! Bringing the files of a project from the places where they used to be to where they are now.
//!
//! A migration is a list of actions on files, which depends on what exists.

use vstd::prelude::*;

use crate::path::{join_path, joined_path};
use crate::paths::{is_plain_name, project_dir};
use crate::selection::{
    choosing_goes_item_by_item, chosen, gathering_goes_item_by_item, gathers,
    nothing_is_chosen_from_nothing,
};
use crate::text::{ends, ends_with, list_has, starts, starts_with, texts};

verus! {

/// An action on files.
pub enum FsAction {
    /// Make a directory, and those above it, where they are missing. A failure ends the
    /// migration.
    CreateDir(String),
    /// Move a file or a directory. A failure ends the migration.
    Move { from: String, to: String },
    /// Move a directory. A failure leaves it where it is.
    TryMove { from: String, to: String },
    /// Mend what the repository knows of a work tree that was moved. A failure is passed over.
    Repair(String),
    /// Remove a directory that has become empty. A failure is passed over.
    RemoveIfEmpty(String),
}

#[verifier::ext_equal]
pub enum ActionView {
    CreateDir(Seq<char>),
    Move { from: Seq<char>, to: Seq<char> },
    TryMove { from: Seq<char>, to: Seq<char> },
    Repair(Seq<char>),
    RemoveIfEmpty(Seq<char>),
}

impl View for FsAction {
    type V = ActionView;

    open spec fn view(&self) -> ActionView {
        match *self {
            FsAction::CreateDir(p) => ActionView::CreateDir(p@),
            FsAction::Move { from, to } => ActionView::Move { from: from@, to: to@ },
            FsAction::TryMove { from, to } => ActionView::TryMove { from: from@, to: to@ },
            FsAction::Repair(p) => ActionView::Repair(p@),
            FsAction::RemoveIfEmpty(p) => ActionView::RemoveIfEmpty(p@),
        }
    }
}

pub open spec fn actions_view(actions: Seq<FsAction>) -> Seq<ActionView> {
    actions.map_values(|a: FsAction| a@)
}

fn act(actions: &mut Vec<FsAction>, action: FsAction)
    ensures
        actions_view(final(actions)@) == actions_view(old(actions)@).push(action@),
{
    let ghost before = actions@;
    actions.push(action);
    assert(actions_view(actions@) =~= actions_view(before).push(action@));
}

/// Moves a file that exists, unless there is one where it would go.
pub open spec fn move_if(
    old_dir: Seq<char>,
    old_name: Seq<char>,
    new_dir: Seq<char>,
    new_name: Seq<char>,
    existing: Seq<Seq<char>>,
) -> Seq<ActionView> {
    let from = join_path(old_dir, old_name);
    let to = join_path(new_dir, new_name);
    if existing.contains(from) && !existing.contains(to) {
        seq![ActionView::Move { from, to }]
    } else {
        Seq::empty()
    }
}

fn add_move(
    actions: &mut Vec<FsAction>,
    old_dir: &str,
    old_name: &str,
    new_dir: &str,
    new_name: &str,
    existing: &Vec<String>,
)
    ensures
        actions_view(final(actions)@) == actions_view(old(actions)@) + move_if(
            old_dir@,
            old_name@,
            new_dir@,
            new_name@,
            texts(existing@),
        ),
{
    let from = joined_path(old_dir, old_name);
    let to = joined_path(new_dir, new_name);
    if list_has(existing, from.as_str()) && !list_has(existing, to.as_str()) {
        act(actions, FsAction::Move { from, to });
    }
}

/// Moves each directory, unless there is one where it would go.
pub open spec fn dir_moves(
    old_dir: Seq<char>,
    new_dir: Seq<char>,
    names: Seq<Seq<char>>,
    existing: Seq<Seq<char>>,
    stop_on_failure: bool,
) -> Seq<ActionView>
    decreases names.len(),
{
    if names.len() == 0 {
        Seq::empty()
    } else {
        let before = dir_moves(old_dir, new_dir, names.drop_last(), existing, stop_on_failure);
        let from = join_path(old_dir, names.last());
        let to = join_path(new_dir, names.last());
        if existing.contains(to) {
            before
        } else if stop_on_failure {
            before.push(ActionView::Move { from, to })
        } else {
            before.push(ActionView::TryMove { from, to })
        }
    }
}

/// Mends each work tree that is moved.
pub open spec fn dir_repairs(
    new_dir: Seq<char>,
    names: Seq<Seq<char>>,
    existing: Seq<Seq<char>>,
) -> Seq<ActionView>
    decreases names.len(),
{
    if names.len() == 0 {
        Seq::empty()
    } else {
        let before = dir_repairs(new_dir, names.drop_last(), existing);
        let to = join_path(new_dir, names.last());
        if existing.contains(to) {
            before
        } else {
            before.push(ActionView::Repair(to))
        }
    }
}

fn add_dir_moves(
    actions: &mut Vec<FsAction>,
    old_dir: &str,
    new_dir: &str,
    names: &Vec<String>,
    existing: &Vec<String>,
    stop_on_failure: bool,
)
    ensures
        actions_view(final(actions)@) == actions_view(old(actions)@) + dir_moves(
            old_dir@,
            new_dir@,
            texts(names@),
            texts(existing@),
            stop_on_failure,
        ) + dir_repairs(new_dir@, texts(names@), texts(existing@)),
{
    let ghost all = texts(names@);
    let ghost there = texts(existing@);
    let ghost start = actions_view(actions@);
    let mut i: usize = 0;
    assert(start + dir_moves(old_dir@, new_dir@, all.take(0), there, stop_on_failure) =~= start);
    while i < names.len()
        invariant
            i <= names.len(),
            all == texts(names@),
            there == texts(existing@),
            actions_view(actions@) == start + dir_moves(
                old_dir@,
                new_dir@,
                all.take(i as int),
                there,
                stop_on_failure,
            ),
        decreases names.len() - i,
    {
        proof {
            assert(all.take(i + 1).drop_last() =~= all.take(i as int));
            assert(all.take(i + 1).last() == names@[i as int]@);
        }
        let ghost before = dir_moves(old_dir@, new_dir@, all.take(i as int), there, stop_on_failure);
        let from = joined_path(old_dir, names[i].as_str());
        let to = joined_path(new_dir, names[i].as_str());
        if !list_has(existing, to.as_str()) {
            let ghost added = if stop_on_failure {
                ActionView::Move { from: from@, to: to@ }
            } else {
                ActionView::TryMove { from: from@, to: to@ }
            };
            if stop_on_failure {
                act(actions, FsAction::Move { from, to });
            } else {
                act(actions, FsAction::TryMove { from, to });
            }
            assert((start + before).push(added) =~= start + before.push(added));
        }
        i += 1;
    }
    assert(all.take(i as int) =~= all);
    let ghost moved = actions_view(actions@);
    let mut k: usize = 0;
    assert(moved + dir_repairs(new_dir@, all.take(0), there) =~= moved);
    while k < names.len()
        invariant
            k <= names.len(),
            all == texts(names@),
            there == texts(existing@),
            actions_view(actions@) == moved + dir_repairs(new_dir@, all.take(k as int), there),
        decreases names.len() - k,
    {
        proof {
            assert(all.take(k + 1).drop_last() =~= all.take(k as int));
            assert(all.take(k + 1).last() == names@[k as int]@);
        }
        let ghost before = dir_repairs(new_dir@, all.take(k as int), there);
        let to = joined_path(new_dir, names[k].as_str());
        if !list_has(existing, to.as_str()) {
            let ghost added = ActionView::Repair(to@);
            act(actions, FsAction::Repair(to));
            assert((moved + before).push(added) =~= moved + before.push(added));
        }
        k += 1;
    }
    assert(all.take(k as int) =~= all);
}

/// There is a layout of the first kind to bring over: the directory of the repository stands
/// below the base directory itself, and no messages stand in the present place.
pub open spec fn is_first_layout(
    base: Seq<char>,
    repo: Seq<char>,
    existing: Seq<Seq<char>>,
) -> bool {
    let new = project_dir(base, repo);
    &&& existing.contains(join_path(base, repo))
    &&& !(existing.contains(new) && existing.contains(join_path(new, "channel.jsonl"@)))
}

/// The work trees of a layout of the first kind.
pub open spec fn first_layout_worktrees(
    old: Seq<char>,
    new: Seq<char>,
    worktrees: Seq<Seq<char>>,
    existing: Seq<Seq<char>>,
) -> Seq<ActionView> {
    let old_trees = join_path(old, "worktrees"@);
    let new_trees = join_path(new, "worktrees"@);
    if existing.contains(old_trees) {
        (dir_moves(old_trees, new_trees, worktrees, existing, true) + dir_repairs(
            new_trees,
            worktrees,
            existing,
        )).push(ActionView::RemoveIfEmpty(old_trees))
    } else {
        Seq::empty()
    }
}

/// A layout of the first kind brought to the present one: the files of the project, the work
/// trees, and the files of the lead.
pub open spec fn first_layout_actions(
    base: Seq<char>,
    repo: Seq<char>,
    existing: Seq<Seq<char>>,
    worktrees: Seq<Seq<char>>,
) -> Seq<ActionView> {
    let old = join_path(base, repo);
    let new = project_dir(base, repo);
    let moved = |name: Seq<char>| move_if(old, name, new, name, existing);
    (seq![ActionView::CreateDir(new), ActionView::CreateDir(join_path(new, "worktrees"@))] + moved(
        "channel.jsonl"@,
    ) + moved("daemon.pid"@) + moved("cursors"@) + moved("logs"@) + moved("flagged_prs"@) + moved(
        "insights"@,
    ) + first_layout_worktrees(old, new, worktrees, existing) + moved("lead-session-id"@) + moved(
        "lead-initialized"@,
    )).push(ActionView::RemoveIfEmpty(old))
}

/// What brings a layout of the first kind to the present one, where there is one. `existing`
/// are the paths that exist, and `worktrees` the names of the directories in the old directory
/// of work trees.
pub fn migrate_directory_structure(
    base: &str,
    repo: &str,
    existing: &Vec<String>,
    worktrees: &Vec<String>,
) -> (r: Option<Vec<FsAction>>)
    ensures
        r is Some <==> is_first_layout(base@, repo@, texts(existing@)),
        r matches Some(actions) ==> actions_view(actions@) == first_layout_actions(
            base@,
            repo@,
            texts(existing@),
            texts(worktrees@),
        ),
{
    let old_dir = joined_path(base, repo);
    let new_dir = joined_path(joined_path(base, "projects").as_str(), repo);
    let old = old_dir.as_str();
    let new = new_dir.as_str();
    if !list_has(existing, old) {
        return None;
    }
    if list_has(existing, new) && list_has(existing, joined_path(new, "channel.jsonl").as_str()) {
        return None;
    }
    let mut actions: Vec<FsAction> = Vec::new();
    act(&mut actions, FsAction::CreateDir(new_dir.clone()));
    act(&mut actions, FsAction::CreateDir(joined_path(new, "worktrees")));
    let ghost there = texts(existing@);
    assert(actions_view(actions@) =~= seq![
        ActionView::CreateDir(new@),
        ActionView::CreateDir(join_path(new@, "worktrees"@)),
    ]);
    add_move(&mut actions, old, "channel.jsonl", new, "channel.jsonl", existing);
    add_move(&mut actions, old, "daemon.pid", new, "daemon.pid", existing);
    add_move(&mut actions, old, "cursors", new, "cursors", existing);
    add_move(&mut actions, old, "logs", new, "logs", existing);
    add_move(&mut actions, old, "flagged_prs", new, "flagged_prs", existing);
    add_move(&mut actions, old, "insights", new, "insights", existing);
    let ghost before = actions_view(actions@);
    let old_trees = joined_path(old, "worktrees");
    if list_has(existing, old_trees.as_str()) {
        let new_trees = joined_path(new, "worktrees");
        add_dir_moves(
            &mut actions,
            old_trees.as_str(),
            new_trees.as_str(),
            worktrees,
            existing,
            true,
        );
        act(&mut actions, FsAction::RemoveIfEmpty(old_trees));
    }
    assert(actions_view(actions@) =~= before + first_layout_worktrees(
        old@,
        new@,
        texts(worktrees@),
        there,
    ));
    add_move(&mut actions, old, "lead-session-id", new, "lead-session-id", existing);
    add_move(&mut actions, old, "lead-initialized", new, "lead-initialized", existing);
    act(&mut actions, FsAction::RemoveIfEmpty(old_dir.clone()));
    Some(actions)
}

/// One of the directories that used to stand beside `projects`, brought into the directory of
/// the project.
pub open spec fn grouped_dir_actions(
    base: Seq<char>,
    repo: Seq<char>,
    kind: Seq<char>,
    existing: Seq<Seq<char>>,
) -> Seq<ActionView> {
    let old = join_path(join_path(base, kind), repo);
    let new = join_path(project_dir(base, repo), kind);
    if existing.contains(old) && !existing.contains(new) {
        seq![
            ActionView::CreateDir(project_dir(base, repo)),
            ActionView::Move { from: old, to: new },
            ActionView::RemoveIfEmpty(join_path(base, kind)),
        ]
    } else {
        Seq::empty()
    }
}

fn add_grouped_dir(
    actions: &mut Vec<FsAction>,
    base: &str,
    repo: &str,
    kind: &str,
    existing: &Vec<String>,
)
    ensures
        actions_view(final(actions)@) == actions_view(old(actions)@) + grouped_dir_actions(
            base@,
            repo@,
            kind@,
            texts(existing@),
        ),
{
    let parent = joined_path(base, kind);
    let from = joined_path(parent.as_str(), repo);
    let project = joined_path(joined_path(base, "projects").as_str(), repo);
    let to = joined_path(project.as_str(), kind);
    if list_has(existing, from.as_str()) && !list_has(existing, to.as_str()) {
        let ghost before = actions_view(actions@);
        act(actions, FsAction::CreateDir(project));
        act(actions, FsAction::Move { from, to });
        act(actions, FsAction::RemoveIfEmpty(parent));
        assert(actions_view(actions@) =~= before + grouped_dir_actions(
            base@,
            repo@,
            kind@,
            texts(existing@),
        ));
    }
}

pub open spec fn grouped_actions(
    base: Seq<char>,
    repo: Seq<char>,
    existing: Seq<Seq<char>>,
) -> Seq<ActionView> {
    grouped_dir_actions(base, repo, "worktrees"@, existing) + grouped_dir_actions(
        base,
        repo,
        "coworkers"@,
        existing,
    )
}

/// What brings the directories of work trees and of coworkers into the directory of the
/// project. There is nothing to do where the list is empty.
pub fn do_migrate_worktree_paths(base: &str, repo: &str, existing: &Vec<String>) -> (r: Vec<
    FsAction,
>)
    ensures
        actions_view(r@) == grouped_actions(base@, repo@, texts(existing@)),
{
    let mut actions: Vec<FsAction> = Vec::new();
    add_grouped_dir(&mut actions, base, repo, "worktrees", existing);
    assert(actions_view(actions@) =~= grouped_dir_actions(
        base@,
        repo@,
        "worktrees"@,
        texts(existing@),
    ));
    add_grouped_dir(&mut actions, base, repo, "coworkers", existing);
    actions
}

/// The files of the lead, brought into the directory of the project.
pub open spec fn lead_actions(
    base: Seq<char>,
    repo: Seq<char>,
    existing: Seq<Seq<char>>,
) -> Seq<ActionView> {
    let old = join_path(join_path(base, "lead"@), repo);
    let new = project_dir(base, repo);
    (seq![ActionView::CreateDir(new)] + move_if(
        old,
        "session-id"@,
        new,
        "lead-session-id"@,
        existing,
    ) + move_if(old, "system-prompt.txt"@, new, "lead-system-prompt.txt"@, existing) + move_if(
        old,
        "lead-initialized"@,
        new,
        "lead-initialized"@,
        existing,
    )).push(ActionView::RemoveIfEmpty(old)).push(
        ActionView::RemoveIfEmpty(join_path(base, "lead"@)),
    )
}

/// What brings the files of the lead into the directory of the project, where its old
/// directory exists.
pub fn do_migrate_lead_to_project(base: &str, repo: &str, existing: &Vec<String>) -> (r: Option<
    Vec<FsAction>,
>)
    ensures
        r is Some <==> texts(existing@).contains(join_path(join_path(base@, "lead"@), repo@)),
        r matches Some(actions) ==> actions_view(actions@) == lead_actions(
            base@,
            repo@,
            texts(existing@),
        ),
{
    let parent = joined_path(base, "lead");
    let old = joined_path(parent.as_str(), repo);
    if !list_has(existing, old.as_str()) {
        return None;
    }
    let new = joined_path(joined_path(base, "projects").as_str(), repo);
    let mut actions: Vec<FsAction> = Vec::new();
    act(&mut actions, FsAction::CreateDir(new.clone()));
    assert(actions_view(actions@) =~= seq![ActionView::CreateDir(new@)]);
    add_move(
        &mut actions,
        old.as_str(),
        "session-id",
        new.as_str(),
        "lead-session-id",
        existing,
    );
    add_move(
        &mut actions,
        old.as_str(),
        "system-prompt.txt",
        new.as_str(),
        "lead-system-prompt.txt",
        existing,
    );
    add_move(
        &mut actions,
        old.as_str(),
        "lead-initialized",
        new.as_str(),
        "lead-initialized",
        existing,
    );
    act(&mut actions, FsAction::RemoveIfEmpty(old));
    act(&mut actions, FsAction::RemoveIfEmpty(parent));
    Some(actions)
}

/// The work trees that bear the names of coworkers, brought among the others.
pub open spec fn coworker_actions(
    base: Seq<char>,
    repo: Seq<char>,
    existing: Seq<Seq<char>>,
    names: Seq<Seq<char>>,
) -> Seq<ActionView> {
    let old = join_path(project_dir(base, repo), "coworkers"@);
    let new = join_path(project_dir(base, repo), "worktrees"@);
    (seq![ActionView::CreateDir(new)] + dir_moves(old, new, names, existing, false) + dir_repairs(
        new,
        names,
        existing,
    )).push(ActionView::RemoveIfEmpty(old)).push(
        ActionView::RemoveIfEmpty(join_path(base, "coworkers"@)),
    )
}

/// What brings the work trees that bear the names of coworkers among the others, where their
/// directory exists; `names` are the directories in it.
pub fn migrate_legacy_coworker_worktrees(
    base: &str,
    repo: &str,
    existing: &Vec<String>,
    names: &Vec<String>,
) -> (r: Option<Vec<FsAction>>)
    ensures
        r is Some <==> texts(existing@).contains(
            join_path(project_dir(base@, repo@), "coworkers"@),
        ),
        r matches Some(actions) ==> actions_view(actions@) == coworker_actions(
            base@,
            repo@,
            texts(existing@),
            texts(names@),
        ),
{
    let project = joined_path(joined_path(base, "projects").as_str(), repo);
    let old = joined_path(project.as_str(), "coworkers");
    if !list_has(existing, old.as_str()) {
        return None;
    }
    let new = joined_path(project.as_str(), "worktrees");
    let mut actions: Vec<FsAction> = Vec::new();
    act(&mut actions, FsAction::CreateDir(new.clone()));
    assert(actions_view(actions@) =~= seq![ActionView::CreateDir(new@)]);
    add_dir_moves(&mut actions, old.as_str(), new.as_str(), names, existing, false);
    act(&mut actions, FsAction::RemoveIfEmpty(old));
    act(&mut actions, FsAction::RemoveIfEmpty(joined_path(base, "coworkers")));
    Some(actions)
}

/// The record of what a session put out.
pub open spec fn is_transcript(name: Seq<char>) -> bool {
    starts(name, "headless-"@) && ends(name, ".jsonl"@)
}

pub open spec fn transcripts(names: Seq<Seq<char>>) -> Seq<Seq<char>>
    decreases names.len(),
{
    if names.len() == 0 {
        Seq::empty()
    } else if is_transcript(names.last()) {
        transcripts(names.drop_last()).push(names.last())
    } else {
        transcripts(names.drop_last())
    }
}

pub open spec fn transcript_moves(
    project: Seq<char>,
    names: Seq<Seq<char>>,
    existing: Seq<Seq<char>>,
) -> Seq<ActionView> {
    let sessions = join_path(project, "sessions"@);
    seq![ActionView::CreateDir(sessions)] + dir_moves(project, sessions, names, existing, true)
}

/// What brings the records of sessions into their own directory, where there are any; `names`
/// are the files in the directory of the project.
pub fn migrate_headless_transcripts_to_sessions(
    base: &str,
    repo: &str,
    existing: &Vec<String>,
    names: &Vec<String>,
) -> (r: Option<Vec<FsAction>>)
    ensures
        r is Some <==> transcripts(texts(names@)).len() > 0,
        r matches Some(actions) ==> actions_view(actions@) == transcript_moves(
            project_dir(base@, repo@),
            transcripts(texts(names@)),
            texts(existing@),
        ),
{
    let project = joined_path(joined_path(base, "projects").as_str(), repo);
    let sessions = joined_path(project.as_str(), "sessions");
    let ghost all = texts(names@);
    let ghost there = texts(existing@);
    let ghost new = sessions@;
    let mut actions: Vec<FsAction> = Vec::new();
    act(&mut actions, FsAction::CreateDir(sessions.clone()));
    let ghost start = actions_view(actions@);
    assert(start =~= seq![ActionView::CreateDir(new)]);
    let mut found = false;
    let mut i: usize = 0;
    assert(start + dir_moves(project@, new, transcripts(all.take(0)), there, true) =~= start);
    while i < names.len()
        invariant
            i <= names.len(),
            all == texts(names@),
            there == texts(existing@),
            new == sessions@,
            found == (transcripts(all.take(i as int)).len() > 0),
            actions_view(actions@) == start + dir_moves(
                project@,
                new,
                transcripts(all.take(i as int)),
                there,
                true,
            ),
        decreases names.len() - i,
    {
        proof {
            assert(all.take(i + 1).drop_last() =~= all.take(i as int));
            assert(all.take(i + 1).last() == names@[i as int]@);
        }
        let name = names[i].as_str();
        if starts_with(name, "headless-") && ends_with(name, ".jsonl") {
            let ghost earlier = transcripts(all.take(i as int));
            assert(earlier.push(name@).drop_last() =~= earlier);
            let ghost before = dir_moves(project@, new, earlier, there, true);
            found = true;
            let from = joined_path(project.as_str(), name);
            let to = joined_path(sessions.as_str(), name);
            if !list_has(existing, to.as_str()) {
                let ghost added = ActionView::Move { from: from@, to: to@ };
                act(&mut actions, FsAction::Move { from, to });
                assert((start + before).push(added) =~= start + before.push(added));
            }
        }
        i += 1;
    }
    assert(all.take(i as int) =~= all);
    if found {
        Some(actions)
    } else {
        None
    }
}

/// Whether a list of actions moves something.
pub fn moves_something(actions: &Vec<FsAction>) -> (r: bool)
    ensures
        r == exists|i: int|
            0 <= i < actions@.len() && (#[trigger] actions@[i] is Move || actions@[i] is TryMove),
{
    let mut i: usize = 0;
    while i < actions.len()
        invariant
            i <= actions.len(),
            forall|k: int|
                0 <= k < i ==> !(#[trigger] actions@[k] is Move || actions@[k] is TryMove),
        decreases actions.len() - i,
    {
        match &actions[i] {
            FsAction::Move { .. } => {
                assert(actions@[i as int] is Move);
                return true;
            },
            FsAction::TryMove { .. } => {
                assert(actions@[i as int] is TryMove);
                return true;
            },
            _ => {},
        }
        i += 1;
    }
    false
}

/// The repositories that have been migrated since the program started.
pub struct MigrationLog {
    repos: Vec<String>,
}

impl View for MigrationLog {
    type V = Set<Seq<char>>;

    closed spec fn view(&self) -> Set<Seq<char>> {
        texts(self.repos@).to_set()
    }
}

impl MigrationLog {
    pub fn new() -> (r: MigrationLog)
        ensures
            r@ == Set::<Seq<char>>::empty(),
    {
        let r = MigrationLog { repos: Vec::new() };
        assert(r@ =~= Set::<Seq<char>>::empty());
        r
    }

    /// A repository has been migrated: it is left alone.
    pub fn is_migrated(&self, repo: &str) -> (r: bool)
        ensures
            r == self@.contains(repo@),
    {
        list_has(&self.repos, repo)
    }
}

/// Records what migrating a repository came to: one that failed will be tried again.
pub fn auto_migrate(log: &mut MigrationLog, repo: &str, succeeded: bool)
    ensures
        final(log)@ == (if succeeded {
            old(log)@.insert(repo@)
        } else {
            old(log)@
        }),
{
    if succeeded {
        let ghost before = log.repos@;
        log.repos.push(repo.to_owned());
        proof {
            let t = texts(log.repos@);
            assert(t =~= texts(before).push(repo@));
            assert forall|k: Seq<char>|
                #[trigger] log@.contains(k) <==> old(log)@.insert(repo@).contains(k) by {
                if t.contains(k) {
                    let i = choose|i: int| 0 <= i < t.len() && t[i] == k;
                    if i < before.len() {
                        assert(texts(before)[i] == k);
                    }
                }
                if texts(before).contains(k) {
                    let i = choose|i: int| 0 <= i < before.len() && texts(before)[i] == k;
                    assert(t[i] == k);
                }
                assert(t[before.len() as int] == repo@);
            }
            assert(log@ =~= old(log)@.insert(repo@));
        }
    }
}

/// No action moves anything to where something exists.
pub open spec fn overwrites_nothing(actions: Seq<ActionView>, existing: Seq<Seq<char>>) -> bool {
    forall|i: int|
        0 <= i < actions.len() ==> match #[trigger] actions[i] {
            ActionView::Move { to, .. } => !existing.contains(to),
            ActionView::TryMove { to, .. } => !existing.contains(to),
            _ => true,
        }
}

proof fn lemma_dir_actions_overwrite_nothing(
    old_dir: Seq<char>,
    new_dir: Seq<char>,
    names: Seq<Seq<char>>,
    existing: Seq<Seq<char>>,
    stop_on_failure: bool,
)
    ensures
        overwrites_nothing(
            dir_moves(old_dir, new_dir, names, existing, stop_on_failure),
            existing,
        ),
        overwrites_nothing(dir_repairs(new_dir, names, existing), existing),
    decreases names.len(),
{
    if names.len() > 0 {
        lemma_dir_actions_overwrite_nothing(
            old_dir,
            new_dir,
            names.drop_last(),
            existing,
            stop_on_failure,
        );
    }
}

proof fn lemma_both_overwrite_nothing(
    a: Seq<ActionView>,
    b: Seq<ActionView>,
    existing: Seq<Seq<char>>,
)
    requires
        overwrites_nothing(a, existing),
        overwrites_nothing(b, existing),
    ensures
        overwrites_nothing(a + b, existing),
{
    let s = a + b;
    assert forall|i: int| 0 <= i < s.len() implies match #[trigger] s[i] {
        ActionView::Move { to, .. } => !existing.contains(to),
        ActionView::TryMove { to, .. } => !existing.contains(to),
        _ => true,
    } by {
        if i < a.len() {
            assert(s[i] == a[i]);
        } else {
            assert(s[i] == b[i - a.len()]);
        }
    }
}

proof fn lemma_first_layout_overwrites_nothing(
    base: Seq<char>,
    repo: Seq<char>,
    existing: Seq<Seq<char>>,
    names: Seq<Seq<char>>,
)
    ensures
        overwrites_nothing(first_layout_actions(base, repo, existing, names), existing),
{
    let old = join_path(base, repo);
    let new = project_dir(base, repo);
    let moved = |name: Seq<char>| move_if(old, name, new, name, existing);
    let old_trees = join_path(old, "worktrees"@);
    let new_trees = join_path(new, "worktrees"@);
    lemma_dir_actions_overwrite_nothing(old_trees, new_trees, names, existing, true);
    let trees = first_layout_worktrees(old, new, names, existing);
    assert(overwrites_nothing(trees, existing)) by {
        let a = dir_moves(old_trees, new_trees, names, existing, true);
        let b = dir_repairs(new_trees, names, existing);
        lemma_both_overwrite_nothing(a, b, existing);
    }
    let s0 = seq![ActionView::CreateDir(new), ActionView::CreateDir(new_trees)];
    let s1 = s0 + moved("channel.jsonl"@);
    lemma_both_overwrite_nothing(s0, moved("channel.jsonl"@), existing);
    let s2 = s1 + moved("daemon.pid"@);
    lemma_both_overwrite_nothing(s1, moved("daemon.pid"@), existing);
    let s3 = s2 + moved("cursors"@);
    lemma_both_overwrite_nothing(s2, moved("cursors"@), existing);
    let s4 = s3 + moved("logs"@);
    lemma_both_overwrite_nothing(s3, moved("logs"@), existing);
    let s5 = s4 + moved("flagged_prs"@);
    lemma_both_overwrite_nothing(s4, moved("flagged_prs"@), existing);
    let s6 = s5 + moved("insights"@);
    lemma_both_overwrite_nothing(s5, moved("insights"@), existing);
    let s7 = s6 + trees;
    lemma_both_overwrite_nothing(s6, trees, existing);
    let s8 = s7 + moved("lead-session-id"@);
    lemma_both_overwrite_nothing(s7, moved("lead-session-id"@), existing);
    let s9 = s8 + moved("lead-initialized"@);
    lemma_both_overwrite_nothing(s8, moved("lead-initialized"@), existing);
}

proof fn lemma_lead_overwrites_nothing(
    base: Seq<char>,
    repo: Seq<char>,
    existing: Seq<Seq<char>>,
)
    ensures
        overwrites_nothing(lead_actions(base, repo, existing), existing),
{
    let old = join_path(join_path(base, "lead"@), repo);
    let new = project_dir(base, repo);
    let s0 = seq![ActionView::CreateDir(new)];
    let m1 = move_if(old, "session-id"@, new, "lead-session-id"@, existing);
    let m2 = move_if(old, "system-prompt.txt"@, new, "lead-system-prompt.txt"@, existing);
    let m3 = move_if(old, "lead-initialized"@, new, "lead-initialized"@, existing);
    lemma_both_overwrite_nothing(s0, m1, existing);
    lemma_both_overwrite_nothing(s0 + m1, m2, existing);
    lemma_both_overwrite_nothing(s0 + m1 + m2, m3, existing);
}

/// No migration overwrites a file or a directory.
pub proof fn migrations_overwrite_nothing(
    base: Seq<char>,
    repo: Seq<char>,
    existing: Seq<Seq<char>>,
    names: Seq<Seq<char>>,
)
    ensures
        overwrites_nothing(first_layout_actions(base, repo, existing, names), existing),
        overwrites_nothing(grouped_actions(base, repo, existing), existing),
        overwrites_nothing(lead_actions(base, repo, existing), existing),
        overwrites_nothing(coworker_actions(base, repo, existing, names), existing),
        overwrites_nothing(transcript_moves(project_dir(base, repo), names, existing), existing),
{
    let new = project_dir(base, repo);
    lemma_first_layout_overwrites_nothing(base, repo, existing, names);
    lemma_lead_overwrites_nothing(base, repo, existing);
    lemma_both_overwrite_nothing(
        grouped_dir_actions(base, repo, "worktrees"@, existing),
        grouped_dir_actions(base, repo, "coworkers"@, existing),
        existing,
    );
    let old_trees = join_path(new, "coworkers"@);
    let new_trees = join_path(new, "worktrees"@);
    let c0 = seq![ActionView::CreateDir(new_trees)];
    let c1 = dir_moves(old_trees, new_trees, names, existing, false);
    let c2 = dir_repairs(new_trees, names, existing);
    lemma_dir_actions_overwrite_nothing(old_trees, new_trees, names, existing, false);
    lemma_both_overwrite_nothing(c0, c1, existing);
    lemma_both_overwrite_nothing(c0 + c1, c2, existing);
    let sessions = join_path(new, "sessions"@);
    let t0 = seq![ActionView::CreateDir(sessions)];
    let t1 = dir_moves(new, sessions, names, existing, true);
    lemma_dir_actions_overwrite_nothing(new, sessions, names, existing, true);
    lemma_both_overwrite_nothing(t0, t1, existing);
}

/// What exists after an action that succeeds, as far as the paths go that it names.
pub open spec fn after_action(existing: Set<Seq<char>>, action: ActionView) -> Set<Seq<char>> {
    match action {
        ActionView::CreateDir(p) => existing.insert(p),
        ActionView::Move { from, to } => existing.remove(from).insert(to),
        ActionView::TryMove { from, to } => existing.remove(from).insert(to),
        _ => existing,
    }
}

pub open spec fn after_actions(existing: Set<Seq<char>>, actions: Seq<ActionView>) -> Set<Seq<char>>
    decreases actions.len(),
{
    if actions.len() == 0 {
        existing
    } else {
        after_action(after_actions(existing, actions.drop_last()), actions.last())
    }
}

proof fn lemma_after_both(existing: Set<Seq<char>>, a: Seq<ActionView>, b: Seq<ActionView>)
    ensures
        after_actions(existing, a + b) == after_actions(after_actions(existing, a), b),
    decreases b.len(),
{
    if b.len() == 0 {
        assert(a + b =~= a);
    } else {
        assert((a + b).drop_last() =~= a + b.drop_last());
        lemma_after_both(existing, a, b.drop_last());
    }
}

/// The length of a path of two names below a directory.
proof fn lemma_two_below(base: Seq<char>, kind: Seq<char>, name: Seq<char>)
    requires
        is_plain_name(kind),
        is_plain_name(name),
    ensures
        join_path(join_path(base, kind), name).len() == join_path(base, seq!['x']).len() + kind.len()
            + name.len(),
        join_path(join_path(base, kind), name).last() != '/',
{
    reveal_strlit("/");
    assert(kind.contains(kind[0]));
    assert(kind.contains(kind.last()));
    assert(name.contains(name[0]));
    assert(name.contains(name.last()));
    assert(join_path(base, kind).last() == kind.last());
    assert(join_path(join_path(base, kind), name).last() == name.last());
}

proof fn lemma_one_below(dir: Seq<char>, name: Seq<char>)
    requires
        dir.len() > 0,
        dir.last() != '/',
        is_plain_name(name),
    ensures
        join_path(dir, name).len() == dir.len() + 1 + name.len(),
{
    reveal_strlit("/");
    assert(name.contains(name[0]));
}

proof fn lemma_grouped_effect(
    base: Seq<char>,
    repo: Seq<char>,
    kind: Seq<char>,
    existing: Seq<Seq<char>>,
    there: Set<Seq<char>>,
)
    ensures
        after_actions(there, grouped_dir_actions(base, repo, kind, existing)) == ({
            let old = join_path(join_path(base, kind), repo);
            let new = join_path(project_dir(base, repo), kind);
            if existing.contains(old) && !existing.contains(new) {
                there.insert(project_dir(base, repo)).remove(old).insert(new)
            } else {
                there
            }
        }),
{
    reveal_with_fuel(after_actions, 4);
    let a = grouped_dir_actions(base, repo, kind, existing);
    if a.len() > 0 {
        assert(a.drop_last().drop_last().drop_last() =~= Seq::<ActionView>::empty());
    }
}

/// The directories of work trees and of coworkers are brought over once: after that there is
/// nothing to do.
pub proof fn grouping_is_done_once(
    base: Seq<char>,
    repo: Seq<char>,
    before: Seq<Seq<char>>,
    after: Seq<Seq<char>>,
)
    requires
        is_plain_name(repo),
        after.to_set() == after_actions(before.to_set(), grouped_actions(base, repo, before)),
    ensures
        grouped_actions(base, repo, after) == Seq::<ActionView>::empty(),
{
    reveal_strlit("worktrees");
    reveal_strlit("coworkers");
    reveal_strlit("projects");
    let wt = "worktrees"@;
    let cw = "coworkers"@;
    let pr = "projects"@;
    assert(is_plain_name(wt) && is_plain_name(cw) && is_plain_name(pr));
    lemma_two_below(base, wt, repo);
    lemma_two_below(base, cw, repo);
    lemma_two_below(base, pr, repo);
    let project = project_dir(base, repo);
    lemma_one_below(project, wt);
    lemma_one_below(project, cw);
    let a = grouped_dir_actions(base, repo, wt, before);
    let b = grouped_dir_actions(base, repo, cw, before);
    lemma_after_both(before.to_set(), a, b);
    lemma_grouped_effect(base, repo, wt, before, before.to_set());
    lemma_grouped_effect(base, repo, cw, before, after_actions(before.to_set(), a));
    let old_wt = join_path(join_path(base, wt), repo);
    let old_cw = join_path(join_path(base, cw), repo);
    let new_wt = join_path(project, wt);
    let new_cw = join_path(project, cw);
    assert(after.to_set().contains(old_wt) == after.contains(old_wt));
    assert(after.to_set().contains(old_cw) == after.contains(old_cw));
    assert(after.to_set().contains(new_wt) == after.contains(new_wt));
    assert(after.to_set().contains(new_cw) == after.contains(new_cw));
    assert(before.to_set().contains(old_wt) == before.contains(old_wt));
    assert(before.to_set().contains(old_cw) == before.contains(old_cw));
    assert(before.to_set().contains(new_wt) == before.contains(new_wt));
    assert(before.to_set().contains(new_cw) == before.contains(new_cw));
    assert(old_wt != old_cw) by {
        assert(wt[0] == 'w' && cw[0] == 'c');
        crate::path::joining_keeps_directories_apart_by_name(base, wt, cw, repo);
    }
    assert(grouped_actions(base, repo, after) =~= Seq::<ActionView>::empty());
}

proof fn lemma_move_effect(
    old_dir: Seq<char>,
    old_name: Seq<char>,
    new_dir: Seq<char>,
    new_name: Seq<char>,
    existing: Seq<Seq<char>>,
    there: Set<Seq<char>>,
)
    ensures
        after_actions(there, move_if(old_dir, old_name, new_dir, new_name, existing)) == ({
            let from = join_path(old_dir, old_name);
            let to = join_path(new_dir, new_name);
            if existing.contains(from) && !existing.contains(to) {
                there.remove(from).insert(to)
            } else {
                there
            }
        }),
{
    reveal_with_fuel(after_actions, 2);
    let a = move_if(old_dir, old_name, new_dir, new_name, existing);
    if a.len() > 0 {
        assert(a.drop_last() =~= Seq::<ActionView>::empty());
    }
}

/// The files of the lead are brought over once: after that there is nothing to move.
pub proof fn lead_files_are_moved_once(
    base: Seq<char>,
    repo: Seq<char>,
    before: Seq<Seq<char>>,
    after: Seq<Seq<char>>,
    i: int,
)
    requires
        is_plain_name(repo),
        after.to_set() == after_actions(before.to_set(), lead_actions(base, repo, before)),
        0 <= i < lead_actions(base, repo, after).len(),
    ensures
        lead_actions(base, repo, after)[i] !is Move,
        lead_actions(base, repo, after)[i] !is TryMove,
{
    reveal_strlit("lead");
    reveal_strlit("projects");
    reveal_strlit("session-id");
    reveal_strlit("lead-session-id");
    reveal_strlit("system-prompt.txt");
    reveal_strlit("lead-system-prompt.txt");
    reveal_strlit("lead-initialized");
    let (o1, o2, o3) = ("session-id"@, "system-prompt.txt"@, "lead-initialized"@);
    let (n1, n2, n3) = ("lead-session-id"@, "lead-system-prompt.txt"@, "lead-initialized"@);
    assert(is_plain_name("lead"@) && is_plain_name("projects"@));
    assert(is_plain_name(o1) && is_plain_name(o2) && is_plain_name(o3));
    assert(is_plain_name(n1) && is_plain_name(n2));
    lemma_two_below(base, "lead"@, repo);
    lemma_two_below(base, "projects"@, repo);
    let old = join_path(join_path(base, "lead"@), repo);
    let new = project_dir(base, repo);
    lemma_one_below(old, o1);
    lemma_one_below(old, o2);
    lemma_one_below(old, o3);
    lemma_one_below(new, n1);
    lemma_one_below(new, n2);
    lemma_one_below(new, n3);
    let (f1, f2, f3) = (join_path(old, o1), join_path(old, o2), join_path(old, o3));
    let (t1, t2, t3) = (join_path(new, n1), join_path(new, n2), join_path(new, n3));
    let s0 = seq![ActionView::CreateDir(new)];
    let m1 = move_if(old, o1, new, n1, before);
    let m2 = move_if(old, o2, new, n2, before);
    let m3 = move_if(old, o3, new, n3, before);
    let e = before.to_set();
    let e0 = after_actions(e, s0);
    assert(e0 == e.insert(new)) by {
        reveal_with_fuel(after_actions, 2);
        assert(s0.drop_last() =~= Seq::<ActionView>::empty());
    }
    lemma_after_both(e, s0, m1);
    lemma_after_both(e, s0 + m1, m2);
    lemma_after_both(e, s0 + m1 + m2, m3);
    lemma_move_effect(old, o1, new, n1, before, e0);
    let e1 = after_actions(e0, m1);
    lemma_move_effect(old, o2, new, n2, before, e1);
    let e2 = after_actions(e1, m2);
    lemma_move_effect(old, o3, new, n3, before, e2);
    let e3 = after_actions(e2, m3);
    let moves = s0 + m1 + m2 + m3;
    let cleared = moves.push(ActionView::RemoveIfEmpty(old));
    let whole = cleared.push(ActionView::RemoveIfEmpty(join_path(base, "lead"@)));
    assert(after_actions(e, whole) == e3) by {
        assert(whole.drop_last() =~= cleared);
        assert(cleared.drop_last() =~= moves);
        assert(after_actions(e, cleared) == after_actions(e, moves));
    }
    assert(after.to_set() == e3);
    assert(before.to_set().contains(f1) == before.contains(f1));
    assert(before.to_set().contains(f2) == before.contains(f2));
    assert(before.to_set().contains(f3) == before.contains(f3));
    assert(before.to_set().contains(t1) == before.contains(t1));
    assert(before.to_set().contains(t2) == before.contains(t2));
    assert(before.to_set().contains(t3) == before.contains(t3));
    assert(after.to_set().contains(f1) == after.contains(f1));
    assert(after.to_set().contains(f2) == after.contains(f2));
    assert(after.to_set().contains(f3) == after.contains(f3));
    assert(after.to_set().contains(t1) == after.contains(t1));
    assert(after.to_set().contains(t2) == after.contains(t2));
    assert(after.to_set().contains(t3) == after.contains(t3));
    assert(move_if(old, o1, new, n1, after) =~= Seq::<ActionView>::empty());
    assert(move_if(old, o2, new, n2, after) =~= Seq::<ActionView>::empty());
    assert(move_if(old, o3, new, n3, after) =~= Seq::<ActionView>::empty());
}

/// A file is moved exactly where it exists and nothing stands where it would go.
pub proof fn files_are_moved_where_nothing_stands(
    old_dir: Seq<char>,
    old_name: Seq<char>,
    new_dir: Seq<char>,
    new_name: Seq<char>,
    existing: Seq<Seq<char>>,
)
    ensures
        ({
            let from = join_path(old_dir, old_name);
            let to = join_path(new_dir, new_name);
            let r = move_if(old_dir, old_name, new_dir, new_name, existing);
            &&& (existing.contains(from) && !existing.contains(to)) ==> r == seq![
                ActionView::Move { from, to },
            ]
            &&& (!existing.contains(from) || existing.contains(to)) ==> r.len() == 0
        }),
{
}

/// Every directory is moved, in their order, but for those where something stands where they
/// would go; and each that is moved is mended afterwards.
pub proof fn directories_are_moved_and_mended(
    old_dir: Seq<char>,
    new_dir: Seq<char>,
    names: Seq<Seq<char>>,
    existing: Seq<Seq<char>>,
)
    ensures
        gathers(
            names,
            |name: Seq<char>| !existing.contains(join_path(new_dir, name)),
            |name: Seq<char>| ActionView::Move {
                from: join_path(old_dir, name),
                to: join_path(new_dir, name),
            },
            dir_moves(old_dir, new_dir, names, existing, true),
        ),
        gathers(
            names,
            |name: Seq<char>| !existing.contains(join_path(new_dir, name)),
            |name: Seq<char>| ActionView::TryMove {
                from: join_path(old_dir, name),
                to: join_path(new_dir, name),
            },
            dir_moves(old_dir, new_dir, names, existing, false),
        ),
        gathers(
            names,
            |name: Seq<char>| !existing.contains(join_path(new_dir, name)),
            |name: Seq<char>| ActionView::Repair(join_path(new_dir, name)),
            dir_repairs(new_dir, names, existing),
        ),
    decreases names.len(),
{
    let wanted = |name: Seq<char>| !existing.contains(join_path(new_dir, name));
    let moved = |name: Seq<char>| ActionView::Move {
        from: join_path(old_dir, name),
        to: join_path(new_dir, name),
    };
    let tried = |name: Seq<char>| ActionView::TryMove {
        from: join_path(old_dir, name),
        to: join_path(new_dir, name),
    };
    let mended = |name: Seq<char>| ActionView::Repair(join_path(new_dir, name));
    let none = Seq::<ActionView>::empty();
    if names.len() == 0 {
        gathering_goes_item_by_item(names, names[0], wanted, moved, none);
        gathering_goes_item_by_item(names, names[0], wanted, tried, none);
        gathering_goes_item_by_item(names, names[0], wanted, mended, none);
        assert(names =~= Seq::<Seq<char>>::empty());
        assert(dir_moves(old_dir, new_dir, names, existing, true) =~= none);
        assert(dir_moves(old_dir, new_dir, names, existing, false) =~= none);
        assert(dir_repairs(new_dir, names, existing) =~= none);
    } else {
        let init = names.drop_last();
        let last = names.last();
        directories_are_moved_and_mended(old_dir, new_dir, init, existing);
        assert(names =~= init.push(last));
        gathering_goes_item_by_item(
            init,
            last,
            wanted,
            moved,
            dir_moves(old_dir, new_dir, init, existing, true),
        );
        gathering_goes_item_by_item(
            init,
            last,
            wanted,
            tried,
            dir_moves(old_dir, new_dir, init, existing, false),
        );
        gathering_goes_item_by_item(init, last, wanted, mended, dir_repairs(new_dir, init, existing));
    }
}

/// A layout of the first kind is brought over exactly where its directory exists and no messages
/// stand in the present place.
pub proof fn first_layouts_are_brought_over_once(
    base: Seq<char>,
    repo: Seq<char>,
    existing: Seq<Seq<char>>,
)
    ensures
        ({
            let new = join_path(join_path(base, "projects"@), repo);
            &&& is_first_layout(base, repo, existing) ==> existing.contains(join_path(base, repo))
            &&& existing.contains(join_path(base, repo)) && !existing.contains(new)
                ==> is_first_layout(base, repo, existing)
            &&& existing.contains(join_path(base, repo)) && existing.contains(new) ==> (
            is_first_layout(base, repo, existing) <==> !existing.contains(
                join_path(new, "channel.jsonl"@),
            ))
        }),
{
}

/// A layout of the first kind is brought over in this order: the directories are made, the files
/// of the project are moved, the work trees are moved and mended, the files of the lead are
/// moved, and what has become empty is removed.
pub proof fn first_layouts_are_brought_over_in_order(
    base: Seq<char>,
    repo: Seq<char>,
    existing: Seq<Seq<char>>,
    worktrees: Seq<Seq<char>>,
)
    ensures
        ({
            let old = join_path(base, repo);
            let new = join_path(join_path(base, "projects"@), repo);
            let old_trees = join_path(old, "worktrees"@);
            let new_trees = join_path(new, "worktrees"@);
            let trees = if existing.contains(old_trees) {
                dir_moves(old_trees, new_trees, worktrees, existing, true) + dir_repairs(
                    new_trees,
                    worktrees,
                    existing,
                ) + seq![ActionView::RemoveIfEmpty(old_trees)]
            } else {
                Seq::<ActionView>::empty()
            };
            first_layout_actions(base, repo, existing, worktrees) == seq![
                ActionView::CreateDir(new),
                ActionView::CreateDir(new_trees),
            ] + move_if(old, "channel.jsonl"@, new, "channel.jsonl"@, existing) + move_if(
                old,
                "daemon.pid"@,
                new,
                "daemon.pid"@,
                existing,
            ) + move_if(old, "cursors"@, new, "cursors"@, existing) + move_if(
                old,
                "logs"@,
                new,
                "logs"@,
                existing,
            ) + move_if(old, "flagged_prs"@, new, "flagged_prs"@, existing) + move_if(
                old,
                "insights"@,
                new,
                "insights"@,
                existing,
            ) + trees + move_if(old, "lead-session-id"@, new, "lead-session-id"@, existing)
                + move_if(old, "lead-initialized"@, new, "lead-initialized"@, existing) + seq![
                ActionView::RemoveIfEmpty(old),
            ]
        }),
{
    let old = join_path(base, repo);
    let new = join_path(join_path(base, "projects"@), repo);
    let old_trees = join_path(old, "worktrees"@);
    let new_trees = join_path(new, "worktrees"@);
    let moves = dir_moves(old_trees, new_trees, worktrees, existing, true) + dir_repairs(
        new_trees,
        worktrees,
        existing,
    );
    assert(moves.push(ActionView::RemoveIfEmpty(old_trees)) =~= moves + seq![
        ActionView::RemoveIfEmpty(old_trees),
    ]);
}

/// The directories that stood beside the projects are moved into the project, and the place that
/// they stood in is removed once it is empty.
pub proof fn grouped_directories_are_moved_into_the_project(
    base: Seq<char>,
    repo: Seq<char>,
    kind: Seq<char>,
    existing: Seq<Seq<char>>,
)
    ensures
        ({
            let project = join_path(join_path(base, "projects"@), repo);
            let old = join_path(join_path(base, kind), repo);
            let new = join_path(project, kind);
            let r = grouped_dir_actions(base, repo, kind, existing);
            &&& existing.contains(old) && !existing.contains(new) ==> r == seq![
                ActionView::CreateDir(project),
                ActionView::Move { from: old, to: new },
                ActionView::RemoveIfEmpty(join_path(base, kind)),
            ]
            &&& !existing.contains(old) || existing.contains(new) ==> r.len() == 0
            &&& grouped_actions(base, repo, existing) == grouped_dir_actions(
                base,
                repo,
                "worktrees"@,
                existing,
            ) + grouped_dir_actions(base, repo, "coworkers"@, existing)
        }),
{
}

/// The files of the lead are moved into the project under names that tell whose they are.
pub proof fn files_of_the_lead_are_moved_into_the_project(
    base: Seq<char>,
    repo: Seq<char>,
    existing: Seq<Seq<char>>,
)
    ensures
        ({
            let old = join_path(join_path(base, "lead"@), repo);
            let new = join_path(join_path(base, "projects"@), repo);
            lead_actions(base, repo, existing) == seq![ActionView::CreateDir(new)] + move_if(
                old,
                "session-id"@,
                new,
                "lead-session-id"@,
                existing,
            ) + move_if(old, "system-prompt.txt"@, new, "lead-system-prompt.txt"@, existing)
                + move_if(old, "lead-initialized"@, new, "lead-initialized"@, existing) + seq![
                ActionView::RemoveIfEmpty(old),
                ActionView::RemoveIfEmpty(join_path(base, "lead"@)),
            ]
        }),
{
    let old = join_path(join_path(base, "lead"@), repo);
    let new = join_path(join_path(base, "projects"@), repo);
    let moves = seq![ActionView::CreateDir(new)] + move_if(
        old,
        "session-id"@,
        new,
        "lead-session-id"@,
        existing,
    ) + move_if(old, "system-prompt.txt"@, new, "lead-system-prompt.txt"@, existing) + move_if(
        old,
        "lead-initialized"@,
        new,
        "lead-initialized"@,
        existing,
    );
    assert(lead_actions(base, repo, existing) =~= moves + seq![
        ActionView::RemoveIfEmpty(old),
        ActionView::RemoveIfEmpty(join_path(base, "lead"@)),
    ]);
}

/// The work trees of coworkers are moved among the others and mended; one that cannot be moved
/// stays.
pub proof fn work_trees_of_coworkers_are_moved_among_the_others(
    base: Seq<char>,
    repo: Seq<char>,
    existing: Seq<Seq<char>>,
    names: Seq<Seq<char>>,
)
    ensures
        ({
            let project = join_path(join_path(base, "projects"@), repo);
            let old = join_path(project, "coworkers"@);
            let new = join_path(project, "worktrees"@);
            coworker_actions(base, repo, existing, names) == seq![ActionView::CreateDir(new)]
                + dir_moves(old, new, names, existing, false) + dir_repairs(new, names, existing)
                + seq![
                ActionView::RemoveIfEmpty(old),
                ActionView::RemoveIfEmpty(join_path(base, "coworkers"@)),
            ]
        }),
{
    let project = join_path(join_path(base, "projects"@), repo);
    let old = join_path(project, "coworkers"@);
    let new = join_path(project, "worktrees"@);
    let moves = seq![ActionView::CreateDir(new)] + dir_moves(old, new, names, existing, false)
        + dir_repairs(new, names, existing);
    assert(coworker_actions(base, repo, existing, names) =~= moves + seq![
        ActionView::RemoveIfEmpty(old),
        ActionView::RemoveIfEmpty(join_path(base, "coworkers"@)),
    ]);
}

/// The records of headless sessions are the files named so, in their order, and they are moved
/// into the directory of sessions.
pub proof fn records_are_known_by_their_name(names: Seq<Seq<char>>, project: Seq<char>, existing: Seq<
    Seq<char>,
>)
    ensures
        chosen(
            names,
            |name: Seq<char>| starts(name, "headless-"@) && ends(name, ".jsonl"@),
            transcripts(names),
        ),
        transcript_moves(project, names, existing) == seq![
            ActionView::CreateDir(join_path(project, "sessions"@)),
        ] + dir_moves(project, join_path(project, "sessions"@), names, existing, true),
    decreases names.len(),
{
    let wanted = |name: Seq<char>| starts(name, "headless-"@) && ends(name, ".jsonl"@);
    if names.len() == 0 {
        nothing_is_chosen_from_nothing(wanted);
        assert(names =~= Seq::<Seq<char>>::empty());
        assert(transcripts(names) =~= Seq::<Seq<char>>::empty());
    } else {
        let init = names.drop_last();
        records_are_known_by_their_name(init, project, existing);
        assert(names =~= init.push(names.last()));
        choosing_goes_item_by_item(init, names.last(), wanted, transcripts(init));
    }
}

/// What is to be done is told as it is, action by action.
pub proof fn actions_are_told_as_they_are(p: String, q: String)
    ensures
        FsAction::CreateDir(p)@ == ActionView::CreateDir(p@),
        (FsAction::Move { from: p, to: q })@ == (ActionView::Move { from: p@, to: q@ }),
        (FsAction::TryMove { from: p, to: q })@ == (ActionView::TryMove { from: p@, to: q@ }),
        FsAction::Repair(p)@ == ActionView::Repair(p@),
        FsAction::RemoveIfEmpty(p)@ == ActionView::RemoveIfEmpty(p@),
{
}

/// Actions are told one for one, in their order.
pub proof fn actions_keep_their_order(actions: Seq<FsAction>)
    ensures
        actions_view(actions).len() == actions.len(),
        forall|i: int|
            0 <= i < actions.len() ==> #[trigger] actions_view(actions)[i] == actions[i]@,
{
}

} // verus!
