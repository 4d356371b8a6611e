//! The scripts, plugins and instructions of a channel or of a whole project.
//!
//! Each is looked for in four places, of which the first that has it counts: for the channel,
//! in the repository and in the directory of the project, and then for the project, likewise.

use vstd::prelude::*;

use crate::path::{join_path, joined_path};
use crate::paths::{channel_dir, project_dir};
use crate::selection::{
    choosing_goes_item_by_item, chosen, gathering_goes_item_by_item, gathers,
    nothing_is_chosen_from_nothing,
};
use crate::text::{
    cut_at, ends, ends_with, is_blank, lines, lines_of, list_has, opt, opt_str, split_at_text,
    starts, starts_with, strip_prefix, texts, trim, trimmed,
};
use crate::text_map::{pair_texts, TextMap};

verus! {

/// Where to look for a file, the first place first.
pub open spec fn places(
    project_root: Seq<char>,
    project: Seq<char>,
    channel: Option<Seq<char>>,
    name: Seq<char>,
) -> Seq<Seq<char>> {
    let in_repo = join_path(project_root, ".midtown"@);
    let for_project = seq![join_path(in_repo, name), join_path(project, name)];
    match channel {
        Some(ch) => seq![
            join_path(channel_dir(in_repo, ch), name),
            join_path(channel_dir(project, ch), name),
        ] + for_project,
        None => for_project,
    }
}

/// Where to look for a file, the first place first.
pub fn list_places(project_root: &str, project: &str, channel: Option<&str>, name: &str) -> (r: Vec<
    String,
>)
    ensures
        texts(r@) == places(project_root@, project@, opt_str(channel), name@),
{
    let in_repo = joined_path(project_root, ".midtown");
    let mut r: Vec<String> = Vec::new();
    if let Some(ch) = channel {
        let shared = joined_path(joined_path(in_repo.as_str(), "channels").as_str(), ch);
        let local = joined_path(joined_path(project, "channels").as_str(), ch);
        r.push(joined_path(shared.as_str(), name));
        r.push(joined_path(local.as_str(), name));
    }
    r.push(joined_path(in_repo.as_str(), name));
    r.push(joined_path(project, name));
    assert(texts(r@) =~= places(project_root@, project@, opt_str(channel), name@));
    r
}

/// The first of some paths that exists.
pub open spec fn first_existing(paths: Seq<Seq<char>>, existing: Seq<Seq<char>>) -> Option<Seq<char>>
    decreases paths.len(),
{
    if paths.len() == 0 {
        None
    } else if existing.contains(paths[0]) {
        Some(paths[0])
    } else {
        first_existing(paths.skip(1), existing)
    }
}

/// The script that handles the events of a channel, where there is one: the first that exists
/// of the four places. `existing` are the paths that exist.
pub fn workflow_script_for_channel(
    channel: &str,
    project_root: &str,
    base: &str,
    repo: &str,
    existing: &Vec<String>,
) -> (r: Option<String>)
    ensures
        opt(r) == first_existing(
            places(project_root@, project_dir(base@, repo@), Some(channel@), "workflow.py"@),
            texts(existing@),
        ),
{
    let project = joined_path(joined_path(base, "projects").as_str(), repo);
    let candidates = list_places(project_root, project.as_str(), Some(channel), "workflow.py");
    let ghost all = texts(candidates@);
    let mut i: usize = 0;
    assert(all.skip(0) =~= all);
    while i < candidates.len()
        invariant
            i <= candidates.len(),
            all == places(
                project_root@,
                project_dir(base@, repo@),
                Some(channel@),
                "workflow.py"@,
            ),
            all == texts(candidates@),
            first_existing(all, texts(existing@)) == first_existing(
                all.skip(i as int),
                texts(existing@),
            ),
        decreases candidates.len() - i,
    {
        assert(all.skip(i as int)[0] == candidates@[i as int]@);
        assert(all.skip(i as int).skip(1) =~= all.skip(i + 1));
        if list_has(existing, candidates[i].as_str()) {
            return Some(candidates[i].clone());
        }
        i += 1;
    }
    None
}

/// An entry of a directory of plugins.
pub struct PluginEntry {
    pub name: String,
    pub is_dir: bool,
    /// It holds a `SKILL.md`.
    pub has_skill: bool,
}

/// A directory of plugins.
pub struct PluginDir {
    pub path: String,
    pub entries: Vec<PluginEntry>,
}

/// A plugin: a Python file that is not private, or a directory with a skill.
pub open spec fn is_plugin(entry: PluginEntry) -> bool {
    if entry.is_dir {
        entry.has_skill
    } else {
        ends(entry.name@, ".py"@) && !starts(entry.name@, "_"@)
    }
}

pub open spec fn has_plugins(entries: Seq<PluginEntry>) -> bool {
    exists|i: int| 0 <= i < entries.len() && is_plugin(#[trigger] entries[i])
}

/// Whether a directory holds a plugin.
pub fn dir_has_plugins(entries: &Vec<PluginEntry>) -> (r: bool)
    ensures
        r == has_plugins(entries@),
{
    let mut i: usize = 0;
    while i < entries.len()
        invariant
            i <= entries.len(),
            forall|k: int| 0 <= k < i ==> !is_plugin(#[trigger] entries@[k]),
        decreases entries.len() - i,
    {
        let name = entries[i].name.as_str();
        let plugin = if entries[i].is_dir {
            entries[i].has_skill
        } else {
            ends_with(name, ".py") && !starts_with(name, "_")
        };
        if plugin {
            assert(is_plugin(entries@[i as int]));
            return true;
        }
        i += 1;
    }
    false
}

/// One of the directories has this path and holds a plugin.
pub open spec fn offers_plugins(dirs: Seq<PluginDir>, path: Seq<char>) -> bool {
    exists|i: int|
        0 <= i < dirs.len() && (#[trigger] dirs[i]).path@ == path && has_plugins(dirs[i].entries@)
}

fn path_offers_plugins(dirs: &Vec<PluginDir>, path: &str) -> (r: bool)
    ensures
        r == offers_plugins(dirs@, path@),
{
    let mut i: usize = 0;
    while i < dirs.len()
        invariant
            i <= dirs.len(),
            forall|k: int|
                0 <= k < i ==> !((#[trigger] dirs@[k]).path@ == path@ && has_plugins(
                    dirs@[k].entries@,
                )),
        decreases dirs.len() - i,
    {
        if crate::text::same(dirs[i].path.as_str(), path) && dir_has_plugins(&dirs[i].entries) {
            assert(dirs@[i as int].path@ == path@);
            return true;
        }
        i += 1;
    }
    false
}

/// Those of some paths that offer plugins.
pub open spec fn with_plugins(paths: Seq<Seq<char>>, dirs: Seq<PluginDir>) -> Seq<Seq<char>>
    decreases paths.len(),
{
    if paths.len() == 0 {
        Seq::empty()
    } else if offers_plugins(dirs, paths.last()) {
        with_plugins(paths.drop_last(), dirs).push(paths.last())
    } else {
        with_plugins(paths.drop_last(), dirs)
    }
}

/// The directories that hold plugins, those of the channel first. `dirs` are the directories
/// of plugins that exist.
pub fn discover_plugin_dirs(
    project_root: &str,
    base: &str,
    repo: &str,
    channel: Option<&str>,
    dirs: &Vec<PluginDir>,
) -> (r: Vec<String>)
    ensures
        texts(r@) == with_plugins(
            places(project_root@, project_dir(base@, repo@), opt_str(channel), "plugins"@),
            dirs@,
        ),
{
    let project = joined_path(joined_path(base, "projects").as_str(), repo);
    let candidates = list_places(project_root, project.as_str(), channel, "plugins");
    let ghost all = texts(candidates@);
    let mut r: Vec<String> = Vec::new();
    let mut i: usize = 0;
    assert(texts(r@) =~= with_plugins(all.take(0), dirs@));
    while i < candidates.len()
        invariant
            i <= candidates.len(),
            all == texts(candidates@),
            texts(r@) == with_plugins(all.take(i as int), dirs@),
        decreases candidates.len() - i,
    {
        proof {
            assert(all.take(i + 1).drop_last() =~= all.take(i as int));
            assert(all.take(i + 1).last() == candidates@[i as int]@);
        }
        if path_offers_plugins(dirs, candidates[i].as_str()) {
            let ghost before = texts(r@);
            r.push(candidates[i].clone());
            assert(texts(r@) =~= before.push(candidates@[i as int]@));
        }
        i += 1;
    }
    assert(all.take(i as int) =~= all);
    r
}

/// What the first file says that says something.
pub open spec fn first_content(
    paths: Seq<Seq<char>>,
    files: Map<Seq<char>, Seq<char>>,
) -> Option<Seq<char>>
    decreases paths.len(),
{
    if paths.len() == 0 {
        None
    } else if files.contains_key(paths[0]) && trim(files[paths[0]]).len() > 0 {
        Some(files[paths[0]])
    } else {
        first_content(paths.skip(1), files)
    }
}

/// The instructions for the agents of a channel: what the first `AGENTS.md` says that is not
/// blank. `files` are the files that can be read, with what they say.
pub fn agents_md_for_channel(
    channel: &str,
    project_root: &str,
    base: &str,
    repo: &str,
    files: &TextMap,
) -> (r: Option<String>)
    ensures
        opt(r) == first_content(
            places(project_root@, project_dir(base@, repo@), Some(channel@), "AGENTS.md"@),
            files@,
        ),
{
    let project = joined_path(joined_path(base, "projects").as_str(), repo);
    let candidates = list_places(project_root, project.as_str(), Some(channel), "AGENTS.md");
    let ghost all = texts(candidates@);
    let mut i: usize = 0;
    assert(all.skip(0) =~= all);
    while i < candidates.len()
        invariant
            i <= candidates.len(),
            all == places(
                project_root@,
                project_dir(base@, repo@),
                Some(channel@),
                "AGENTS.md"@,
            ),
            all == texts(candidates@),
            first_content(all, files@) == first_content(all.skip(i as int), files@),
        decreases candidates.len() - i,
    {
        assert(all.skip(i as int)[0] == candidates@[i as int]@);
        assert(all.skip(i as int).skip(1) =~= all.skip(i + 1));
        if let Some(content) = files.get(candidates[i].as_str()) {
            if !is_blank(content.as_str()) {
                return Some(content.clone());
            }
        }
        i += 1;
    }
    None
}

/// `s` without the line feeds at its front.
pub open spec fn without_leading_feeds(s: Seq<char>) -> Seq<char>
    decreases s.len(),
{
    if s.len() > 0 && s[0] == '\n' {
        without_leading_feeds(s.skip(1))
    } else {
        s
    }
}

fn strip_leading_feeds(s: &str) -> (r: String)
    ensures
        r@ == without_leading_feeds(s@),
{
    let v = crate::text::chars_of(s);
    let mut i: usize = 0;
    assert(s@.skip(0) =~= s@);
    while i < v.len() && v[i] == '\n'
        invariant
            i <= v.len(),
            v@ == s@,
            without_leading_feeds(s@) == without_leading_feeds(s@.skip(i as int)),
        decreases v.len() - i,
    {
        assert(s@.skip(i as int)[0] == '\n');
        assert(s@.skip(i as int).skip(1) =~= s@.skip(i + 1));
        i += 1;
    }
    let r = crate::text::slice(&v, i, v.len());
    assert(r@ =~= s@.skip(i as int));
    r
}

/// What the first line with a given start says behind it, without the white space around it.
pub open spec fn first_field(ls: Seq<Seq<char>>, start: Seq<char>) -> Option<Seq<char>>
    decreases ls.len(),
{
    if ls.len() == 0 {
        None
    } else if starts(trim(ls[0]), start) {
        Some(trim(trim(ls[0]).skip(start.len() as int)))
    } else {
        first_field(ls.skip(1), start)
    }
}

fn find_field(text: &str, start: &str) -> (r: Option<String>)
    ensures
        opt(r) == first_field(lines(text@), start@),
{
    let ls = lines_of(text);
    let ghost all = lines(text@);
    let mut i: usize = 0;
    assert(all.skip(0) =~= all);
    while i < ls.len()
        invariant
            i <= ls.len(),
            all == lines(text@),
            all == texts(ls@),
            first_field(all, start@) == first_field(all.skip(i as int), start@),
        decreases ls.len() - i,
    {
        assert(all.skip(i as int)[0] == ls@[i as int]@);
        assert(all.skip(i as int).skip(1) =~= all.skip(i + 1));
        if let Some(rest) = strip_prefix(trimmed(ls[i].as_str()).as_str(), start) {
            return Some(trimmed(rest.as_str()));
        }
        i += 1;
    }
    None
}

/// The header of a skill and what follows it: a skill has a header where it starts with three
/// hyphens and three hyphens start a line further on.
pub open spec fn header_and_body(content: Seq<char>) -> Option<(Seq<char>, Seq<char>)> {
    if !starts(content, "---"@) {
        None
    } else {
        match cut_at(content.skip(3), "\n---"@) {
            Some((header, rest)) => Some((header, without_leading_feeds(rest))),
            None => None,
        }
    }
}

/// The name of a skill and its text. The header gives the name, or else the directory.
pub open spec fn parsed_skill(content: Seq<char>, dir_name: Seq<char>) -> (Seq<char>, Seq<char>) {
    match header_and_body(content) {
        None => (dir_name, content),
        Some((header, body)) => match first_field(lines(header), "name:"@) {
            Some(name) => if name.len() > 0 {
                (name, body)
            } else {
                (dir_name, body)
            },
            None => (dir_name, body),
        },
    }
}

/// The name of a skill and its text.
pub fn parse_skill_md_name_and_body(content: &str, dir_name: &str) -> (r: (String, String))
    ensures
        (r.0@, r.1@) == parsed_skill(content@, dir_name@),
{
    proof {
        reveal_strlit("---");
    }
    let after_open = match strip_prefix(content, "---") {
        Some(rest) => rest,
        None => {
            return (dir_name.to_owned(), content.to_owned());
        },
    };
    let (header, rest) = match split_at_text(after_open.as_str(), "\n---") {
        Some(pair) => pair,
        None => {
            return (dir_name.to_owned(), content.to_owned());
        },
    };
    let body = strip_leading_feeds(rest.as_str());
    let name = match find_field(header.as_str(), "name:") {
        Some(n) => if n.as_str().is_empty() {
            dir_name.to_owned()
        } else {
            n
        },
        None => dir_name.to_owned(),
    };
    (name, body)
}

/// A `SKILL.md`, with the name of the directory it stands in.
pub struct SkillFile {
    pub dir_name: String,
    pub content: String,
}

/// The names and texts of the skills that have a text.
pub open spec fn skill_bodies(files: Seq<SkillFile>) -> Seq<(Seq<char>, Seq<char>)>
    decreases files.len(),
{
    if files.len() == 0 {
        Seq::empty()
    } else {
        let before = skill_bodies(files.drop_last());
        let skill = parsed_skill(files.last().content@, files.last().dir_name@);
        if trim(skill.1).len() > 0 {
            before.push(skill)
        } else {
            before
        }
    }
}

/// The names and texts of the skills that have a text.
pub fn collect_skill_md_bodies(files: &Vec<SkillFile>) -> (r: Vec<(String, String)>)
    ensures
        pair_texts(r@) == skill_bodies(files@),
{
    let mut r: Vec<(String, String)> = Vec::new();
    let mut i: usize = 0;
    assert(pair_texts(r@) =~= skill_bodies(files@.take(0)));
    while i < files.len()
        invariant
            i <= files.len(),
            pair_texts(r@) == skill_bodies(files@.take(i as int)),
        decreases files.len() - i,
    {
        assert(files@.take(i + 1).drop_last() =~= files@.take(i as int));
        let skill = parse_skill_md_name_and_body(
            files[i].content.as_str(),
            files[i].dir_name.as_str(),
        );
        if !is_blank(skill.1.as_str()) {
            let ghost before = pair_texts(r@);
            let ghost added = (skill.0@, skill.1@);
            r.push(skill);
            assert(pair_texts(r@) =~= before.push(added));
        }
        i += 1;
    }
    assert(files@.take(i as int) =~= files@);
    r
}

/// What stands in a place for the channel counts before what stands in a place for the project,
/// and what stands in the repository before what stands in the directory of the project.
pub proof fn earlier_places_count_first(
    paths: Seq<Seq<char>>,
    existing: Seq<Seq<char>>,
    i: int,
)
    requires
        0 <= i < paths.len(),
        existing.contains(paths[i]),
        forall|j: int| 0 <= j < i ==> !existing.contains(#[trigger] paths[j]),
    ensures
        first_existing(paths, existing) == Some(paths[i]),
    decreases i,
{
    if i > 0 {
        assert(!existing.contains(paths[0]));
        let rest = paths.skip(1);
        assert forall|j: int| 0 <= j < i - 1 implies !existing.contains(#[trigger] rest[j]) by {
            assert(rest[j] == paths[j + 1]);
        }
        earlier_places_count_first(rest, existing, i - 1);
    }
}

/// A file is looked for in the repository before the directory of the project, and for the
/// channel before the whole project.
pub proof fn files_are_looked_for_in_four_places(
    root: Seq<char>,
    project: Seq<char>,
    channel: Seq<char>,
    name: Seq<char>,
)
    ensures
        places(root, project, Some(channel), name) == seq![
            join_path(join_path(join_path(join_path(root, ".midtown"@), "channels"@), channel), name),
            join_path(join_path(join_path(project, "channels"@), channel), name),
            join_path(join_path(root, ".midtown"@), name),
            join_path(project, name),
        ],
        places(root, project, None, name) == seq![
            join_path(join_path(root, ".midtown"@), name),
            join_path(project, name),
        ],
{
}

/// Nothing is found only where none of the places exists.
pub proof fn nothing_is_found_where_nothing_exists(
    paths: Seq<Seq<char>>,
    existing: Seq<Seq<char>>,
)
    ensures
        first_existing(paths, existing) is None <==> forall|i: int|
            0 <= i < paths.len() ==> !existing.contains(#[trigger] paths[i]),
        first_existing(paths, existing) matches Some(p) ==> paths.contains(p) && existing.contains(p),
    decreases paths.len(),
{
    if paths.len() > 0 && !existing.contains(paths[0]) {
        let rest = paths.skip(1);
        nothing_is_found_where_nothing_exists(rest, existing);
        if first_existing(rest, existing) is None {
            assert forall|i: int| 0 <= i < paths.len() implies !existing.contains(
                #[trigger] paths[i],
            ) by {
                if i > 0 {
                    assert(rest[i - 1] == paths[i]);
                }
            }
        } else {
            let p = first_existing(rest, existing)->0;
            let i = choose|i: int| 0 <= i < rest.len() && rest[i] == p;
            assert(paths[i + 1] == p);
            assert(existing.contains(paths[i + 1]));
        }
    } else if paths.len() > 0 {
        assert(paths.contains(paths[0]));
    }
}

/// A file is a plugin where it is Python and not private, and a directory where it has a skill.
pub proof fn plugins_are_scripts_or_skills(entry: PluginEntry)
    ensures
        entry.is_dir ==> (is_plugin(entry) <==> entry.has_skill),
        !entry.is_dir ==> (is_plugin(entry) <==> ends(entry.name@, ".py"@) && !starts(
            entry.name@,
            "_"@,
        )),
{
}

/// The directories that offer plugins are those, in their order, of which one of the given
/// directories has the path and holds a plugin.
pub proof fn directories_offer_the_plugins_they_hold(
    paths: Seq<Seq<char>>,
    dirs: Seq<PluginDir>,
)
    ensures
        chosen(
            paths,
            |path: Seq<char>|
                exists|i: int, k: int|
                    0 <= i < dirs.len() && 0 <= k < dirs[i].entries@.len() && (#[trigger] dirs[i]).path@
                        == path && is_plugin(#[trigger] dirs[i].entries@[k]),
            with_plugins(paths, dirs),
        ),
    decreases paths.len(),
{
    let wanted = |path: Seq<char>|
        exists|i: int, k: int|
            0 <= i < dirs.len() && 0 <= k < dirs[i].entries@.len() && (#[trigger] dirs[i]).path@
                == path && is_plugin(#[trigger] dirs[i].entries@[k]);
    if paths.len() == 0 {
        nothing_is_chosen_from_nothing(wanted);
        assert(paths =~= Seq::<Seq<char>>::empty());
        assert(with_plugins(paths, dirs) =~= Seq::<Seq<char>>::empty());
    } else {
        let init = paths.drop_last();
        let path = paths.last();
        directories_offer_the_plugins_they_hold(init, dirs);
        assert(paths =~= init.push(path));
        choosing_goes_item_by_item(init, path, wanted, with_plugins(init, dirs));
        if offers_plugins(dirs, path) {
            let i = choose|i: int|
                0 <= i < dirs.len() && (#[trigger] dirs[i]).path@ == path && has_plugins(
                    dirs[i].entries@,
                );
            let k = choose|k: int|
                0 <= k < dirs[i].entries@.len() && is_plugin(#[trigger] dirs[i].entries@[k]);
            assert(dirs[i].path@ == path && is_plugin(dirs[i].entries@[k]));
            assert(wanted(path));
        }
        if wanted(path) {
            let (i, k) = choose|i: int, k: int|
                0 <= i < dirs.len() && 0 <= k < dirs[i].entries@.len() && (#[trigger] dirs[i]).path@
                    == path && is_plugin(#[trigger] dirs[i].entries@[k]);
            assert(has_plugins(dirs[i].entries@));
        }
    }
}

/// The first file that says something counts, and what it says is told as it stands.
pub proof fn the_first_file_that_says_something_counts(
    paths: Seq<Seq<char>>,
    files: Map<Seq<char>, Seq<char>>,
    i: int,
)
    ensures
        0 <= i < paths.len() && files.contains_key(paths[i]) && trim(files[paths[i]]).len() > 0 && (
        forall|j: int|
            0 <= j < i ==> !(files.contains_key(#[trigger] paths[j]) && trim(files[paths[j]]).len()
                > 0)) ==> first_content(paths, files) == Some(files[paths[i]]),
        (forall|j: int|
            0 <= j < paths.len() ==> !(files.contains_key(#[trigger] paths[j]) && trim(
                files[paths[j]],
            ).len() > 0)) ==> first_content(paths, files) is None,
    decreases paths.len(),
{
    if paths.len() > 0 {
        let rest = paths.skip(1);
        the_first_file_that_says_something_counts(rest, files, i - 1);
        assert(forall|j: int| 0 <= j < rest.len() ==> #[trigger] rest[j] == paths[j + 1]);
        if i > 0 && i < paths.len() {
            assert(rest[i - 1] == paths[i]);
        }
        if files.contains_key(paths[0]) && trim(files[paths[0]]).len() > 0 {
        } else {
            if 0 < i < paths.len() && (forall|j: int|
                0 <= j < i ==> !(files.contains_key(#[trigger] paths[j]) && trim(
                    files[paths[j]],
                ).len() > 0)) {
                assert forall|j: int| 0 <= j < i - 1 implies !(files.contains_key(
                    #[trigger] rest[j],
                ) && trim(files[rest[j]]).len() > 0) by {
                    assert(!(files.contains_key(paths[j + 1]) && trim(files[paths[j + 1]]).len()
                        > 0));
                }
            }
            if forall|j: int|
                0 <= j < paths.len() ==> !(files.contains_key(#[trigger] paths[j]) && trim(
                    files[paths[j]],
                ).len() > 0) {
                assert forall|j: int| 0 <= j < rest.len() implies !(files.contains_key(
                    #[trigger] rest[j],
                ) && trim(files[rest[j]]).len() > 0) by {
                    assert(!(files.contains_key(paths[j + 1]) && trim(files[paths[j + 1]]).len()
                        > 0));
                }
            }
        }
    }
}

/// Only line feeds at the front are dropped, and all of them.
pub proof fn only_line_feeds_at_the_front_are_dropped(s: Seq<char>)
    ensures
        exists|k: int| #![trigger s.skip(k)]
            0 <= k <= s.len() && without_leading_feeds(s) == s.skip(k) && (forall|i: int|
                0 <= i < k ==> #[trigger] s[i] == '\n') && (k < s.len() ==> s[k] != '\n'),
    decreases s.len(),
{
    if s.len() > 0 && s[0] == '\n' {
        let rest = s.skip(1);
        only_line_feeds_at_the_front_are_dropped(rest);
        let k = choose|k: int| #![trigger rest.skip(k)]
            0 <= k <= rest.len() && without_leading_feeds(rest) == rest.skip(k) && (forall|i: int|
                0 <= i < k ==> #[trigger] rest[i] == '\n') && (k < rest.len() ==> rest[k] != '\n');
        assert(rest.skip(k) =~= s.skip(k + 1));
        assert forall|i: int| 0 <= i < k + 1 implies #[trigger] s[i] == '\n' by {
            if i > 0 {
                assert(rest[i - 1] == s[i]);
            }
        }
        if k + 1 < s.len() {
            assert(rest[k] == s[k + 1]);
        }
    } else {
        assert(s.skip(0) =~= s);
    }
}

/// A field is what the first line that begins with its name says behind that.
pub proof fn fields_are_told_by_the_first_line(
    before: Seq<Seq<char>>,
    line: Seq<char>,
    behind: Seq<Seq<char>>,
    start: Seq<char>,
    rest: Seq<char>,
)
    requires
        forall|i: int| 0 <= i < before.len() ==> !starts(trim(#[trigger] before[i]), start),
    ensures
        trim(line) == start + rest ==> first_field(before.push(line) + behind, start) == Some(
            trim(rest),
        ),
        first_field(before, start) is None,
    decreases before.len(),
{
    let all = before.push(line) + behind;
    if before.len() == 0 {
        assert(all[0] == line);
        if trim(line) == start + rest {
            assert(trim(line).subrange(0, start.len() as int) =~= start);
            assert(trim(line).skip(start.len() as int) =~= rest);
        }
    } else {
        let inner = before.skip(1);
        assert(!starts(trim(before[0]), start));
        assert forall|i: int| 0 <= i < inner.len() implies !starts(
            trim(#[trigger] inner[i]),
            start,
        ) by {
            assert(inner[i] == before[i + 1]);
        }
        fields_are_told_by_the_first_line(inner, line, behind, start, rest);
        assert(all[0] == before[0]);
        assert(all.skip(1) =~= inner.push(line) + behind);
    }
}

/// A skill has a header where it begins with three hyphens and three hyphens begin a further
/// line: the header is what stands between the two, and the text what stands behind, without
/// the line feeds at its front.
pub proof fn headers_stand_between_hyphens(content: Seq<char>, header: Seq<char>, rest: Seq<char>)
    ensures
        content == "---"@ + header + "\n---"@ + rest && !crate::text::occurs(
            (header + "\n---"@).drop_last(),
            "\n---"@,
        ) ==> header_and_body(content) == Some((header, without_leading_feeds(rest))),
        header_and_body(content) is None <==> !starts(content, "---"@) || !crate::text::occurs(
            content.skip(3),
            "\n---"@,
        ),
{
    reveal_strlit("---");
    reveal_strlit("\n---");
    let inner = content.skip(3);
    let end = "\n---"@;
    assert("---"@.len() == 3 && end.len() == 4);
    crate::text::cutting_drops_the_first_pattern(inner, end);
    let short = (header + end).drop_last();
    if content == "---"@ + header + end + rest && !crate::text::occurs(short, end) {
        assert(content.subrange(0, 3) =~= "---"@);
        assert(inner =~= header + end + rest);
        let n = header.len() as int;
        assert(inner.subrange(n, n + 4) =~= end);
        assert(crate::text::occurs_at(inner, end, n));
        assert(crate::text::occurs(inner, end));
        let (a, b) = cut_at(inner, end)->0;
        let k = a.len() as int;
        assert(inner == a + end + b);
        if k < n {
            assert(inner.subrange(k, k + 4) =~= short.subrange(k, k + 4));
            assert(crate::text::occurs_at(short, end, k));
        }
        assert(k == n);
        assert(a =~= inner.take(n));
        assert(header =~= inner.take(n));
        assert(b =~= inner.skip(n + 4));
        assert(rest =~= inner.skip(n + 4));
    }
}

/// A skill bears the name in its header, and without one that of its directory. Without a header
/// its text is all that it says.
pub proof fn skills_are_named_by_their_header(content: Seq<char>, dir_name: Seq<char>)
    ensures
        header_and_body(content) is None ==> parsed_skill(content, dir_name) == (dir_name, content),
        header_and_body(content) matches Some((header, body)) ==> {
            let name = first_field(lines(header), "name:"@);
            &&& parsed_skill(content, dir_name).1 == body
            &&& (name is Some && name->0.len() > 0) ==> parsed_skill(content, dir_name).0 == name->0
            &&& !(name is Some && name->0.len() > 0) ==> parsed_skill(content, dir_name).0
                == dir_name
        },
{
}

/// The skills that count are those with a text that is not blank, in their order.
pub proof fn skills_without_a_text_do_not_count(files: Seq<SkillFile>)
    ensures
        gathers(
            files,
            |f: SkillFile| trim(parsed_skill(f.content@, f.dir_name@).1).len() > 0,
            |f: SkillFile| parsed_skill(f.content@, f.dir_name@),
            skill_bodies(files),
        ),
    decreases files.len(),
{
    let wanted = |f: SkillFile| trim(parsed_skill(f.content@, f.dir_name@).1).len() > 0;
    let told = |f: SkillFile| parsed_skill(f.content@, f.dir_name@);
    if files.len() == 0 {
        gathering_goes_item_by_item(
            files,
            files[0],
            wanted,
            told,
            Seq::<(Seq<char>, Seq<char>)>::empty(),
        );
        assert(files =~= Seq::<SkillFile>::empty());
        assert(skill_bodies(files) =~= Seq::<(Seq<char>, Seq<char>)>::empty());
    } else {
        let init = files.drop_last();
        skills_without_a_text_do_not_count(init);
        assert(files =~= init.push(files.last()));
        gathering_goes_item_by_item(init, files.last(), wanted, told, skill_bodies(init));
    }
}

} // verus!
