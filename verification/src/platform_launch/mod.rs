//! What is done before a program of a platform is started: its plugins are installed, or its
//! skills are copied to where it looks for them.

pub mod sync;

use vstd::prelude::*;

use crate::auth::AuthProvider;
use crate::json::{items_view, Json, JsonView};
use crate::json_text::{parse, parsed_text};
use crate::names::Names;
use crate::path::{join_path, joined_path};
use crate::paths::home_dir;
use crate::platform::Platform;
use crate::selection::{choosing_goes_item_by_item, chosen, nothing_is_chosen_from_nothing};
use crate::text::{concat2, concat3, copied, list_has, occurs, opt, opt_str, texts, trim, trimmed};

verus! {

/// The plugins that are needed where the settings name none.
pub const REQUIRED_PLUGINS: [&'static str; 7] = [
    "superpowers",
    "code-review",
    "pr-review-toolkit",
    "commit-commands",
    "feature-dev",
    "explanatory-output-style",
    "code-simplifier",
];

/// A plugin by its full name, which tells the place from which it comes.
pub open spec fn official(plugin: Seq<char>, names: Names) -> Seq<char> {
    plugin + "@"@ + names.marketplace()
}

/// The place from which the plugins come, and the name under which it is known once it has
/// been added.
pub fn official_marketplace(names: &Names) -> (r: (String, String))
    ensures
        r.0@ == "anthropics/"@ + names.marketplace(),
        r.1@ == names.marketplace(),
{
    let name = concat2(names.program.as_str(), "-plugins-official");
    (concat2("anthropics/", name.as_str()), name)
}

pub open spec fn usual_plugins(names: Names) -> Seq<Seq<char>> {
    seq![
        official("superpowers"@, names),
        official("code-review"@, names),
        official("pr-review-toolkit"@, names),
        official("commit-commands"@, names),
        official("feature-dev"@, names),
        official("explanatory-output-style"@, names),
        official("code-simplifier"@, names),
    ]
}

/// The plugins that are needed: those that the settings name, else the usual ones.
pub fn required_claude_plugins(configured: &Vec<String>, names: &Names) -> (r: Vec<String>)
    ensures
        texts(r@) == (if configured@.len() == 0 {
            usual_plugins(*names)
        } else {
            texts(configured@)
        }),
{
    if configured.len() > 0 {
        return copied(configured);
    }
    let (_, place) = official_marketplace(names);
    let mut r: Vec<String> = Vec::new();
    r.push(concat3(REQUIRED_PLUGINS[0], "@", place.as_str()));
    r.push(concat3(REQUIRED_PLUGINS[1], "@", place.as_str()));
    r.push(concat3(REQUIRED_PLUGINS[2], "@", place.as_str()));
    r.push(concat3(REQUIRED_PLUGINS[3], "@", place.as_str()));
    r.push(concat3(REQUIRED_PLUGINS[4], "@", place.as_str()));
    r.push(concat3(REQUIRED_PLUGINS[5], "@", place.as_str()));
    r.push(concat3(REQUIRED_PLUGINS[6], "@", place.as_str()));
    assert(texts(r@) =~= usual_plugins(*names));
    r
}

/// What is done before a program is started.
pub enum PrelaunchStep {
    Nothing,
    InstallPlugins,
    SyncSkills,
}

/// What is done before the program of a provider is started. Plugins are installed once.
pub fn run_platform_prelaunch_hook(provider: AuthProvider, plugins_installed: bool) -> (r:
    PrelaunchStep)
    ensures
        match r {
            PrelaunchStep::Nothing => Platform::of(provider) == Platform::Claude
                && plugins_installed,
            PrelaunchStep::InstallPlugins => Platform::of(provider) == Platform::Claude
                && !plugins_installed,
            PrelaunchStep::SyncSkills => Platform::of(provider) == Platform::Codex,
        },
{
    match Platform::from_provider(provider) {
        Platform::Claude => if plugins_installed {
            PrelaunchStep::Nothing
        } else {
            PrelaunchStep::InstallPlugins
        },
        Platform::Codex => PrelaunchStep::SyncSkills,
    }
}

/// Where a session looks for its skills: in its profile directory.
pub open spec fn skills_destination(profile_dir: Option<Seq<char>>, current: Seq<char>) -> Seq<
    char,
> {
    match profile_dir {
        Some(dir) => join_path(dir, "skills"@),
        None => join_path(current, "skills"@),
    }
}

/// Where a session looks for its skills: in the profile directory given, else in the current
/// one.
pub fn codex_destination_skills_dir(profile_dir: Option<&str>, current_profile_dir: &str) -> (r:
    String)
    ensures
        r@ == skills_destination(opt_str(profile_dir), current_profile_dir@),
{
    match profile_dir {
        Some(dir) => joined_path(dir, "skills"),
        None => joined_path(current_profile_dir, "skills"),
    }
}

/// The skills of a home directory.
pub open spec fn skills_source(home: Seq<char>) -> Seq<char> {
    join_path(join_path(home, ".codex"@), "skills"@)
}

/// Where skills are copied from, and to. There is nothing to copy without a home directory.
pub fn skills_to_sync(
    home: Option<String>,
    profile_dir: Option<&str>,
    current_profile_dir: &str,
) -> (r: Option<(String, String)>)
    ensures
        match r {
            Some((from, to)) => opt(home) is Some && from@ == skills_source(opt(home)->0) && to@
                == skills_destination(opt_str(profile_dir), current_profile_dir@),
            None => home is None,
        },
{
    match home {
        Some(h) => Some(
            (
                joined_path(joined_path(h.as_str(), ".codex").as_str(), "skills"),
                codex_destination_skills_dir(profile_dir, current_profile_dir),
            ),
        ),
        None => None,
    }
}

/// Where skills are copied from, and to, where there is a home directory.
pub fn ensure_codex_skills_synced(profile_dir: Option<&str>, current_profile_dir: &str) -> (r:
    Option<(String, String)>)
    ensures
        r matches Some((from, to)) ==> (exists|home: Seq<char>|
            from@ == #[trigger] skills_source(home)) && to@ == skills_destination(
            opt_str(profile_dir),
            current_profile_dir@,
        ),
{
    skills_to_sync(home_dir(), profile_dir, current_profile_dir)
}

/// The names of the first list that the second lacks.
pub open spec fn missing(required: Seq<Seq<char>>, installed: Seq<Seq<char>>) -> Seq<Seq<char>>
    decreases required.len(),
{
    if required.len() == 0 {
        Seq::empty()
    } else if installed.contains(required.last()) {
        missing(required.drop_last(), installed)
    } else {
        missing(required.drop_last(), installed).push(required.last())
    }
}

/// The plugins that are to be installed, in their order.
pub fn missing_plugins(required: &Vec<String>, installed: &Vec<String>) -> (r: Vec<String>)
    ensures
        texts(r@) == missing(texts(required@), texts(installed@)),
{
    let ghost all = texts(required@);
    let mut r: Vec<String> = Vec::new();
    let mut i: usize = 0;
    assert(texts(r@) =~= missing(all.take(0), texts(installed@)));
    while i < required.len()
        invariant
            i <= required.len(),
            all == texts(required@),
            texts(r@) == missing(all.take(i as int), texts(installed@)),
        decreases required.len() - i,
    {
        proof {
            assert(all.take(i + 1).drop_last() =~= all.take(i as int));
            assert(all.take(i + 1).last() == required@[i as int]@);
        }
        if !list_has(installed, required[i].as_str()) {
            let ghost before = texts(r@);
            r.push(required[i].clone());
            assert(texts(r@) =~= before.push(required@[i as int]@));
        }
        i += 1;
    }
    assert(all.take(i as int) =~= all);
    r
}

/// Whether the place from which plugins come is to be added: the list of places lacks it.
pub fn marketplace_is_missing(listed: &str, names: &Names) -> (r: bool)
    ensures
        r == !occurs(listed@, names.marketplace()),
{
    let (_, place) = official_marketplace(names);
    !crate::text::contains(listed, place.as_str())
}

/// What marks an installation as abandoned.
pub open spec fn orphan_mark(dir: Seq<char>) -> Seq<char> {
    join_path(dir, ".orphaned_at"@)
}

/// Where the description of a plugin may stand.
pub open spec fn manifest(dir: Seq<char>, names: Names) -> Seq<char> {
    join_path(join_path(dir, names.directory() + "-plugin"@), "plugin.json"@)
}

fn manifest_path(dir: &str, names: &Names) -> (r: String)
    ensures
        r@ == manifest(dir@, *names),
{
    let own = concat3(".", names.program.as_str(), "-plugin");
    joined_path(joined_path(dir, own.as_str()).as_str(), "plugin.json")
}

pub open spec fn root_manifest(dir: Seq<char>) -> Seq<char> {
    join_path(dir, "plugin.json"@)
}

/// The text of a field.
pub open spec fn text_field(j: JsonView, key: Seq<char>) -> Option<Seq<char>> {
    crate::json::text_of(j.field(key))
}

/// The name of a plugin whose installation can be loaded: it is not abandoned, and a
/// description is there.
pub open spec fn healthy(plugin: JsonView, existing: Seq<Seq<char>>, names: Names) -> Option<
    Seq<char>,
> {
    match (text_field(plugin, "id"@), text_field(plugin, "installPath"@)) {
        (Some(id), Some(dir)) => if !existing.contains(orphan_mark(dir)) && (existing.contains(
            manifest(dir, names),
        ) || existing.contains(root_manifest(dir))) {
            Some(id)
        } else {
            None
        },
        _ => None,
    }
}

fn text_of_field<'a>(j: &'a Json, key: &str) -> (r: Option<&'a str>)
    ensures
        opt_str(r) == text_field(j.jv(), key@),
{
    match j.get(key) {
        Some(v) => v.as_str(),
        None => None,
    }
}

fn healthy_plugin(plugin: &Json, existing: &Vec<String>, names: &Names) -> (r: Option<String>)
    ensures
        opt(r) == healthy(plugin.jv(), texts(existing@), *names),
{
    let id = match text_of_field(plugin, "id") {
        Some(id) => id,
        None => {
            return None;
        },
    };
    let dir = match text_of_field(plugin, "installPath") {
        Some(dir) => dir,
        None => {
            return None;
        },
    };
    if list_has(existing, joined_path(dir, ".orphaned_at").as_str()) {
        return None;
    }
    let inner = manifest_path(dir, names);
    if !list_has(existing, inner.as_str()) && !list_has(
        existing,
        joined_path(dir, "plugin.json").as_str(),
    ) {
        return None;
    }
    Some(id.to_owned())
}

/// The paths that decide whether a plugin can be loaded.
pub open spec fn marks(plugin: JsonView, names: Names) -> Seq<Seq<char>> {
    match text_field(plugin, "installPath"@) {
        Some(dir) => seq![orphan_mark(dir), manifest(dir, names), root_manifest(dir)],
        None => Seq::empty(),
    }
}

/// The paths that decide whether plugins can be loaded, plugin by plugin.
pub open spec fn all_marks(plugins: Seq<JsonView>, names: Names) -> Seq<Seq<char>>
    decreases plugins.len(),
{
    if plugins.len() == 0 {
        Seq::empty()
    } else {
        all_marks(plugins.drop_last(), names) + marks(plugins.last(), names)
    }
}

/// The paths that decide whether plugins can be loaded.
pub fn plugin_marks(plugins: &Vec<Json>, names: &Names) -> (r: Vec<String>)
    ensures
        texts(r@) == all_marks(items_view(plugins@), *names),
{
    let ghost all = items_view(plugins@);
    let mut r: Vec<String> = Vec::new();
    let mut i: usize = 0;
    assert(texts(r@) =~= Seq::<Seq<char>>::empty());
    assert(all.take(0) =~= Seq::<JsonView>::empty());
    while i < plugins.len()
        invariant
            i <= plugins.len(),
            all == items_view(plugins@),
            all.len() == plugins@.len(),
            texts(r@) == all_marks(all.take(i as int), *names),
        decreases plugins.len() - i,
    {
        let ghost before = texts(r@);
        proof {
            assert(all.take(i + 1).drop_last() =~= all.take(i as int));
            assert(all.take(i + 1).last() == plugins@[i as int].jv());
        }
        if let Some(dir) = text_of_field(&plugins[i], "installPath") {
            r.push(joined_path(dir, ".orphaned_at"));
            r.push(manifest_path(dir, names));
            r.push(joined_path(dir, "plugin.json"));
        }
        assert(texts(r@) =~= before + marks(plugins@[i as int].jv(), *names));
        i += 1;
    }
    assert(all.take(i as int) =~= all);
    r
}

/// The names of the plugins that can be loaded, each once. `existing` are the paths that exist.
pub fn filter_healthy_plugins(
    plugins: &Vec<Json>,
    existing: &Vec<String>,
    names: &Names,
) -> (r: Vec<String>)
    ensures
        texts(r@).no_duplicates(),
        forall|id: Seq<char>| #[trigger]
            texts(r@).contains(id) <==> exists|i: int|
                0 <= i < plugins@.len() && healthy(
                    (#[trigger] plugins@[i]).jv(),
                    texts(existing@),
                    *names,
                ) == Some(id),
{
    let mut r: Vec<String> = Vec::new();
    let mut i: usize = 0;
    while i < plugins.len()
        invariant
            i <= plugins.len(),
            texts(r@).no_duplicates(),
            forall|id: Seq<char>| #[trigger]
                texts(r@).contains(id) <==> exists|k: int|
                    0 <= k < i && healthy(
                        (#[trigger] plugins@[k]).jv(),
                        texts(existing@),
                        *names,
                    ) == Some(id),
        decreases plugins.len() - i,
    {
        let ghost before = texts(r@);
        let found = healthy_plugin(&plugins[i], existing, names);
        let ghost name = opt(found);
        if let Some(id) = found {
            if !list_has(&r, id.as_str()) {
                r.push(id);
                assert(texts(r@) =~= before.push(id@));
            }
        }
        proof {
            let now = texts(r@);
            if name is Some && !before.contains(name->0) {
                assert(now == before.push(name->0));
                assert(now[before.len() as int] == name->0);
            }
            assert forall|id: Seq<char>| #[trigger]
                now.contains(id) <==> exists|k: int|
                    0 <= k < i + 1 && healthy(
                        (#[trigger] plugins@[k]).jv(),
                        texts(existing@),
                        *names,
                    ) == Some(id) by {
                assert(now.contains(id) <==> before.contains(id) || name == Some(id)) by {
                    if now.contains(id) {
                        let k = choose|k: int| 0 <= k < now.len() && now[k] == id;
                        if k < before.len() {
                            assert(before[k] == id);
                        }
                    }
                    if before.contains(id) {
                        let k = choose|k: int| 0 <= k < before.len() && before[k] == id;
                        assert(now[k] == id);
                    }
                }
                if name == Some(id) {
                    assert(healthy(plugins@[i as int].jv(), texts(existing@), *names) == Some(id));
                }
                if before.contains(id) {
                    let k = choose|k: int|
                        0 <= k < i && healthy(
                            (#[trigger] plugins@[k]).jv(),
                            texts(existing@),
                            *names,
                        ) == Some(id);
                    assert(0 <= k < i + 1);
                }
            }
        }
        i += 1;
    }
    r
}

/// Why the list of plugins could not be had.
#[derive(Debug)]
pub enum PluginListError {
    /// The command failed, with what it said.
    CommandFailed(String),
    /// What the command printed is no list.
    NotAList,
}

/// The list of plugins that a command printed.
pub fn get_installed_plugins(
    succeeded: bool,
    stdout: &str,
    stderr: &str,
    names: &Names,
) -> (r: Result<Vec<Json>, PluginListError>)
    ensures
        match r {
            Ok(plugins) => succeeded && if trim(stdout@).len() == 0 {
                plugins@.len() == 0
            } else {
                parsed_text(trim(stdout@)) == Some(JsonView::Arr(items_view(plugins@)))
            },
            Err(PluginListError::CommandFailed(message)) => !succeeded && message@
                == names.program@ + " plugin list failed: "@ + trim(stderr@),
            Err(PluginListError::NotAList) => succeeded && trim(stdout@).len() > 0 && !(
            parsed_text(trim(stdout@)) matches Some(j) && j is Arr),
        },
{
    if !succeeded {
        return Err(
            PluginListError::CommandFailed(
                concat3(
                    names.program.as_str(),
                    " plugin list failed: ",
                    trimmed(stderr).as_str(),
                ),
            ),
        );
    }
    let text = trimmed(stdout);
    if text.as_str().is_empty() {
        return Ok(Vec::new());
    }
    match parse(text.as_str()) {
        Some(Json::Arr(plugins)) => Ok(plugins),
        _ => Err(PluginListError::NotAList),
    }
}

/// A plugin that is needed and not installed is installed, and no other is.
pub proof fn what_is_missing_is_installed(
    required: Seq<Seq<char>>,
    installed: Seq<Seq<char>>,
    name: Seq<char>,
)
    ensures
        missing(required, installed).contains(name) <==> required.contains(name)
            && !installed.contains(name),
    decreases required.len(),
{
    if required.len() > 0 {
        let init = required.drop_last();
        let rest = missing(init, installed);
        what_is_missing_is_installed(init, installed, name);
        let all = missing(required, installed);
        if all.contains(name) {
            let i = choose|i: int| 0 <= i < all.len() && all[i] == name;
            if i < rest.len() {
                assert(rest[i] == name);
                let k = choose|k: int| 0 <= k < init.len() && init[k] == name;
                assert(required[k] == name);
            } else {
                assert(required[required.len() - 1] == name);
            }
        }
        if required.contains(name) && !installed.contains(name) {
            let k = choose|k: int| 0 <= k < required.len() && required[k] == name;
            if k < init.len() {
                assert(init[k] == name);
                let i = choose|i: int| 0 <= i < rest.len() && rest[i] == name;
                assert(all[i] == name);
            } else {
                assert(all[rest.len() as int] == name);
            }
        }
    }
}

/// A plugin is named with the place from which it comes, and seven are usual.
pub proof fn seven_plugins_are_usual(plugin: Seq<char>, names: Names)
    ensures
        official(plugin, names) == plugin + "@"@ + names.program@ + "-plugins-official"@,
        usual_plugins(names).len() == 7,
        usual_plugins(names)[0] == official("superpowers"@, names),
        usual_plugins(names)[1] == official("code-review"@, names),
        usual_plugins(names)[2] == official("pr-review-toolkit"@, names),
        usual_plugins(names)[3] == official("commit-commands"@, names),
        usual_plugins(names)[4] == official("feature-dev"@, names),
        usual_plugins(names)[5] == official("explanatory-output-style"@, names),
        usual_plugins(names)[6] == official("code-simplifier"@, names),
{
    assert(official(plugin, names) =~= plugin + "@"@ + names.program@ + "-plugins-official"@);
}

/// Skills are copied from the home directory into the profile that is given, and without one
/// into the current one.
pub proof fn skills_are_copied_into_the_profile(
    home: Seq<char>,
    profile: Seq<char>,
    current: Seq<char>,
)
    ensures
        skills_source(home) == join_path(join_path(home, ".codex"@), "skills"@),
        skills_destination(Some(profile), current) == join_path(profile, "skills"@),
        skills_destination(None, current) == join_path(current, "skills"@),
{
}

/// What is missing keeps the order in which it is needed, each as often as it is needed.
pub proof fn missing_plugins_keep_their_order(
    required: Seq<Seq<char>>,
    installed: Seq<Seq<char>>,
)
    ensures
        chosen(
            required,
            |name: Seq<char>| !installed.contains(name),
            missing(required, installed),
        ),
    decreases required.len(),
{
    let wanted = |name: Seq<char>| !installed.contains(name);
    if required.len() == 0 {
        nothing_is_chosen_from_nothing(wanted);
        assert(required =~= Seq::<Seq<char>>::empty());
        assert(missing(required, installed) =~= Seq::<Seq<char>>::empty());
    } else {
        let init = required.drop_last();
        missing_plugins_keep_their_order(init, installed);
        assert(required =~= init.push(required.last()));
        choosing_goes_item_by_item(init, required.last(), wanted, missing(init, installed));
    }
}

/// A plugin can be loaded where it has a name and a directory, nothing marks that as abandoned,
/// and it holds a description in one of two places.
pub proof fn plugins_are_loaded_with_a_description(
    plugin: JsonView,
    existing: Seq<Seq<char>>,
    names: Names,
    id: Seq<char>,
    dir: Seq<char>,
)
    ensures
        plugin.field("id"@) == Some(JsonView::Str(id)) && plugin.field("installPath"@) == Some(
            JsonView::Str(dir),
        ) ==> (healthy(plugin, existing, names) == Some(id) <==> !existing.contains(
            join_path(dir, ".orphaned_at"@),
        ) && (existing.contains(
            join_path(join_path(dir, "."@ + names.program@ + "-plugin"@), "plugin.json"@),
        ) || existing.contains(join_path(dir, "plugin.json"@)))),
        healthy(plugin, existing, names) matches Some(found) ==> plugin.field("id"@) == Some(
            JsonView::Str(found),
        ) && (plugin.field("installPath"@) matches Some(p) && p is Str),
        plugin.field("installPath"@) == Some(JsonView::Str(dir)) ==> marks(plugin, names) == seq![
            join_path(dir, ".orphaned_at"@),
            join_path(join_path(dir, "."@ + names.program@ + "-plugin"@), "plugin.json"@),
            join_path(dir, "plugin.json"@),
        ],
        !(plugin.field("installPath"@) matches Some(p) && p is Str) ==> marks(plugin, names).len()
            == 0,
        text_field(plugin, "id"@) == crate::json::text_of(plugin.field("id"@)),
{
}

/// The paths that decide are those of each plugin, one plugin after the other.
pub proof fn plugins_are_examined_one_by_one(plugins: Seq<JsonView>, plugin: JsonView, names: Names)
    ensures
        all_marks(Seq::<JsonView>::empty(), names).len() == 0,
        all_marks(plugins.push(plugin), names) == all_marks(plugins, names) + marks(plugin, names),
{
    assert(plugins.push(plugin).drop_last() =~= plugins);
}

} // verus!
