//! A bridge between the channels of a project and the rooms of a Matrix server.

pub mod as_server;
pub mod client;
pub mod inbound;
pub mod state;
pub mod sync;

use vstd::prelude::*;

use crate::hex::{is_token, random_token};
use crate::path::{join_path, joined_path};
use crate::paths::{base_of, midtown_base_dir};
use crate::text::{
    concat2, concat3, decimal, join, joined, list_has, opt, opt_str, same, texts, to_decimal,
};
use crate::text_set::{add_name, in_strict_order, lists_set};

verus! {

/// The settings of the bridge.
#[derive(Debug)]
pub struct MatrixBridgeConfig {
    pub matrix_dir: String,
    pub server_name: String,
    pub matrix_port: u16,
    pub as_port: u16,
}

impl MatrixBridgeConfig {
    pub open spec fn is_usual(self, matrix_dir: Seq<char>) -> bool {
        &&& self.matrix_dir@ == matrix_dir
        &&& self.server_name@ == "matrix.local"@
        &&& self.matrix_port == 6167
        &&& self.as_port == 47025
    }

    pub fn new(matrix_dir: &str) -> (r: MatrixBridgeConfig)
        ensures
            r.is_usual(matrix_dir@),
    {
        MatrixBridgeConfig {
            matrix_dir: matrix_dir.to_owned(),
            server_name: "matrix.local".to_owned(),
            matrix_port: 6167,
            as_port: 47025,
        }
    }

    /// The settings of the server.
    pub fn conduit_config_path(&self) -> (r: String)
        ensures
            r@ == join_path(self.matrix_dir@, "conduit.toml"@),
    {
        joined_path(self.matrix_dir.as_str(), "conduit.toml")
    }

    /// What the server is told of the bridge.
    pub fn as_registration_path(&self) -> (r: String)
        ensures
            r@ == join_path(self.matrix_dir@, "as-registration.yaml"@),
    {
        joined_path(self.matrix_dir.as_str(), "as-registration.yaml")
    }

    /// What the bridge remembers.
    pub fn state_path(&self) -> (r: String)
        ensures
            r@ == join_path(self.matrix_dir@, "state.json"@),
    {
        joined_path(self.matrix_dir.as_str(), "state.json")
    }

    /// The program of the server, where the environment names no other.
    pub fn conduit_binary(&self, given: Option<&str>) -> (r: String)
        ensures
            r@ == match given {
                Some(path) => path@,
                None => join_path(join_path(self.matrix_dir@, "bin"@), "conduit"@),
            },
    {
        match given {
            Some(path) => path.to_owned(),
            None => joined_path(joined_path(self.matrix_dir.as_str(), "bin").as_str(), "conduit"),
        }
    }
}

impl Default for MatrixBridgeConfig {
    fn default() -> (r: MatrixBridgeConfig)
        ensures
            exists|home: Option<Seq<char>>|
                r.is_usual(join_path(#[trigger] base_of(home), "matrix"@)),
    {
        let base = midtown_base_dir();
        MatrixBridgeConfig::new(joined_path(base.as_str(), "matrix").as_str())
    }
}

/// The settings with which the bridge of a project runs: its server goes by the name of the
/// project.
pub fn run(config: MatrixBridgeConfig, project_name: Option<&str>) -> (r: Result<
    MatrixBridgeConfig,
    String,
>)
    ensures
        match r {
            Ok(c) => project_name is Some && c.server_name@ == project_name->0@ + ".local"@ && c
                == (MatrixBridgeConfig { server_name: c.server_name, ..config }),
            Err(message) => project_name is None && message@
                == "Cannot determine project name for matrix bridge startup"@,
        },
{
    match project_name {
        Some(name) => Ok(MatrixBridgeConfig { server_name: concat2(name, ".local"), ..config }),
        None => Err("Cannot determine project name for matrix bridge startup".to_owned()),
    }
}

/// The settings of the server.
pub open spec fn conduit_text(config: MatrixBridgeConfig) -> Seq<char> {
    "[global]\nserver_name = \""@ + config.server_name@
        + "\"\ndatabase_backend = \"rocksdb\"\ndatabase_path = \""@ + join_path(
        config.matrix_dir@,
        "db"@,
    ) + "\"\nport = "@ + decimal(config.matrix_port as nat)
        + "\nallow_registration = false\nallow_federation = false\n"@
}

/// The settings of the server.
pub fn default_conduit_config(config: &MatrixBridgeConfig) -> (r: String)
    ensures
        r@ == conduit_text(*config),
{
    let mut r = "[global]\nserver_name = \"".to_owned();
    r.append(config.server_name.as_str());
    r.append("\"\ndatabase_backend = \"rocksdb\"\ndatabase_path = \"");
    r.append(joined_path(config.matrix_dir.as_str(), "db").as_str());
    r.append("\"\nport = ");
    r.append(to_decimal(config.matrix_port as u64).as_str());
    r.append("\nallow_registration = false\nallow_federation = false\n");
    r
}

/// The character has a meaning of its own in a regular expression.
pub open spec fn is_meta(c: char) -> bool {
    ||| c == '\\'
    ||| c == '.'
    ||| c == '+'
    ||| c == '*'
    ||| c == '?'
    ||| c == '('
    ||| c == ')'
    ||| c == '|'
    ||| c == '['
    ||| c == ']'
    ||| c == '{'
    ||| c == '}'
    ||| c == '^'
    ||| c == '$'
    ||| c == '#'
    ||| c == '&'
    ||| c == '-'
    ||| c == '~'
}

/// A text as a regular expression that it alone matches: with a backslash before each
/// character that has a meaning of its own.
pub open spec fn escaped(s: Seq<char>) -> Seq<char>
    decreases s.len(),
{
    if s.len() == 0 {
        Seq::empty()
    } else if is_meta(s.last()) {
        escaped(s.drop_last()).push('\\').push(s.last())
    } else {
        escaped(s.drop_last()).push(s.last())
    }
}

/// `regex::escape`: puts a backslash before each character that has a meaning of its own in a
/// regular expression, and keeps all others.
#[verifier::external_body]
fn regex_escape(s: &str) -> (r: String)
    ensures
        r@ == escaped(s@),
{
    regex::escape(s)
}

pub open spec fn all_escaped(names: Seq<Seq<char>>) -> Seq<Seq<char>> {
    names.map_values(|name: Seq<char>| escaped(name))
}

/// A regular expression for some names, or for all where there are none.
pub open spec fn pattern_of(names: Seq<Seq<char>>) -> Seq<char> {
    if names.len() == 0 {
        ".*"@
    } else if names.len() == 1 {
        escaped(names[0])
    } else {
        "(?:"@ + join(all_escaped(names), "|"@) + ")"@
    }
}

/// A regular expression for some names, or for all where there are none.
pub fn regex_pattern(names: &Vec<String>) -> (r: String)
    ensures
        r@ == pattern_of(texts(names@)),
{
    let ghost all = texts(names@);
    let mut parts: Vec<String> = Vec::new();
    let mut i: usize = 0;
    assert(texts(parts@) =~= all_escaped(all.take(0)));
    while i < names.len()
        invariant
            i <= names.len(),
            all == texts(names@),
            texts(parts@) == all_escaped(all.take(i as int)),
        decreases names.len() - i,
    {
        let ghost before = texts(parts@);
        let part = regex_escape(names[i].as_str());
        parts.push(part);
        assert(texts(parts@) =~= before.push(part@));
        assert(all_escaped(all.take(i + 1)) =~= all_escaped(all.take(i as int)).push(part@));
        i += 1;
    }
    assert(all.take(i as int) =~= all);
    if parts.len() == 0 {
        ".*".to_owned()
    } else if parts.len() == 1 {
        assert(texts(parts@)[0] == parts@[0]@);
        parts[0].clone()
    } else {
        concat3("(?:", joined(&parts, "|").as_str(), ")")
    }
}

/// What the server is told of the bridge.
pub open spec fn registration_text(
    config: MatrixBridgeConfig,
    project_name: Seq<char>,
    users: Seq<Seq<char>>,
    channels: Seq<Seq<char>>,
    as_token: Seq<char>,
    hs_token: Seq<char>,
) -> Seq<char> {
    "id: midtown-bridge-"@ + project_name + "\nurl: http://localhost:"@ + decimal(
        config.as_port as nat,
    ) + "\nas_token: "@ + as_token + "\nhs_token: "@ + hs_token + "\nsender_localpart: "@
        + project_name + "\nnamespaces:\n  users:\n    - exclusive: true\n      regex: \"@("@
        + pattern_of(users) + "):"@ + config.server_name@
        + "\"\n  rooms: []\n  aliases:\n    - exclusive: false\n      regex: \"#("@ + pattern_of(
        channels,
    ) + "):"@ + config.server_name@ + "\"\n"@
}

/// What the server is told of the bridge, with given tokens.
pub fn registration_config(
    config: &MatrixBridgeConfig,
    project_name: &str,
    users: &Vec<String>,
    channels: &Vec<String>,
    as_token: &str,
    hs_token: &str,
) -> (r: String)
    ensures
        r@ == registration_text(
            *config,
            project_name@,
            texts(users@),
            texts(channels@),
            as_token@,
            hs_token@,
        ),
{
    let mut r = "id: midtown-bridge-".to_owned();
    r.append(project_name);
    r.append("\nurl: http://localhost:");
    r.append(to_decimal(config.as_port as u64).as_str());
    r.append("\nas_token: ");
    r.append(as_token);
    r.append("\nhs_token: ");
    r.append(hs_token);
    r.append("\nsender_localpart: ");
    r.append(project_name);
    r.append("\nnamespaces:\n  users:\n    - exclusive: true\n      regex: \"@(");
    r.append(regex_pattern(users).as_str());
    r.append("):");
    r.append(config.server_name.as_str());
    r.append("\"\n  rooms: []\n  aliases:\n    - exclusive: false\n      regex: \"#(");
    r.append(regex_pattern(channels).as_str());
    r.append("):");
    r.append(config.server_name.as_str());
    r.append("\"\n");
    r
}

/// What the server is told of the bridge, with random tokens.
pub fn default_as_registration_config(
    config: &MatrixBridgeConfig,
    project_name: &str,
    users: &Vec<String>,
    channels: &Vec<String>,
) -> (r: String)
    ensures
        exists|as_token: Seq<char>, hs_token: Seq<char>|
            is_token(as_token) && is_token(hs_token) && r@ == #[trigger] registration_text(
                *config,
                project_name@,
                texts(users@),
                texts(channels@),
                as_token,
                hs_token,
            ),
{
    let as_token = random_token();
    let hs_token = random_token();
    registration_config(
        config,
        project_name,
        users,
        channels,
        as_token.as_str(),
        hs_token.as_str(),
    )
}

/// A session that the daemon remembers.
pub struct SavedSession {
    pub coworker_type: Option<String>,
    pub name: Option<String>,
}

/// The session is that of a coworker with a known name.
pub open spec fn is_coworker_session(session: SavedSession, known: Seq<Seq<char>>) -> bool {
    &&& opt(session.coworker_type) != Some("channel-lead"@)
    &&& session.name matches Some(name) && known.contains(name@)
}

/// A set with the names of the coworkers among some sessions.
pub open spec fn with_sessions(
    set: Set<Seq<char>>,
    sessions: Seq<SavedSession>,
    known: Seq<Seq<char>>,
) -> Set<Seq<char>>
    decreases sessions.len(),
{
    if sessions.len() == 0 {
        set
    } else {
        let before = with_sessions(set, sessions.drop_last(), known);
        if is_coworker_session(sessions.last(), known) {
            before.insert(sessions.last().name->0@)
        } else {
            before
        }
    }
}

/// A set with those of some names that are known.
pub open spec fn with_known(
    set: Set<Seq<char>>,
    names: Seq<Seq<char>>,
    known: Seq<Seq<char>>,
) -> Set<Seq<char>>
    decreases names.len(),
{
    if names.len() == 0 {
        set
    } else {
        let before = with_known(set, names.drop_last(), known);
        if known.contains(names.last()) {
            before.insert(names.last())
        } else {
            before
        }
    }
}

/// The names that the bridge speaks for: those of the coworkers that the daemon remembers, or
/// all names of coworkers where it remembers nothing; those of the directories of coworkers;
/// and the project.
pub open spec fn identities(
    project_name: Seq<char>,
    saved: Option<Seq<SavedSession>>,
    dirs: Seq<Seq<char>>,
    known: Seq<Seq<char>>,
) -> Set<Seq<char>> {
    let remembered = match saved {
        Some(sessions) => with_sessions(Set::empty(), sessions, known),
        None => with_known(Set::empty(), known, known),
    };
    with_known(remembered, dirs, known).insert(project_name)
}

pub open spec fn sessions_view(saved: Option<&Vec<SavedSession>>) -> Option<Seq<SavedSession>> {
    match saved {
        Some(v) => Some(v@),
        None => None,
    }
}

fn add_sessions(
    names: &mut Vec<String>,
    sessions: &Vec<SavedSession>,
    known: &Vec<String>,
    Ghost(set): Ghost<Set<Seq<char>>>,
)
    requires
        lists_set(texts(old(names)@), set),
    ensures
        lists_set(texts(final(names)@), with_sessions(set, sessions@, texts(known@))),
{
    let mut i: usize = 0;
    assert(sessions@.take(0) =~= Seq::<SavedSession>::empty());
    while i < sessions.len()
        invariant
            i <= sessions.len(),
            lists_set(
                texts(names@),
                with_sessions(set, sessions@.take(i as int), texts(known@)),
            ),
        decreases sessions.len() - i,
    {
        assert(sessions@.take(i + 1).drop_last() =~= sessions@.take(i as int));
        assert(sessions@.take(i + 1).last() == sessions@[i as int]);
        let session = &sessions[i];
        let is_lead = match &session.coworker_type {
            Some(t) => same(t.as_str(), "channel-lead"),
            None => false,
        };
        if !is_lead {
            if let Some(name) = &session.name {
                if list_has(known, name.as_str()) {
                    add_name(names, name.as_str());
                }
            }
        }
        i += 1;
    }
    assert(sessions@.take(i as int) =~= sessions@);
}

fn add_known(
    names: &mut Vec<String>,
    more: &Vec<String>,
    known: &Vec<String>,
    Ghost(set): Ghost<Set<Seq<char>>>,
)
    requires
        lists_set(texts(old(names)@), set),
    ensures
        lists_set(texts(final(names)@), with_known(set, texts(more@), texts(known@))),
{
    let ghost all = texts(more@);
    let mut i: usize = 0;
    assert(all.take(0) =~= Seq::<Seq<char>>::empty());
    while i < more.len()
        invariant
            i <= more.len(),
            all == texts(more@),
            lists_set(texts(names@), with_known(set, all.take(i as int), texts(known@))),
        decreases more.len() - i,
    {
        assert(all.take(i + 1).drop_last() =~= all.take(i as int));
        assert(all.take(i + 1).last() == more@[i as int]@);
        if list_has(known, more[i].as_str()) {
            add_name(names, more[i].as_str());
        }
        i += 1;
    }
    assert(all.take(i as int) =~= all);
}

/// The names that the bridge speaks for, in their order. `saved` are the sessions that the
/// daemon remembers, where that could be read; `dirs` the directories of coworkers; `known`
/// the names that coworkers can have.
pub fn collect_coworker_identities(
    project_name: &str,
    saved: Option<&Vec<SavedSession>>,
    dirs: &Vec<String>,
    known: &Vec<String>,
) -> (r: Vec<String>)
    ensures
        lists_set(
            texts(r@),
            identities(project_name@, sessions_view(saved), texts(dirs@), texts(known@)),
        ),
{
    let mut names: Vec<String> = Vec::new();
    let ghost set = Set::<Seq<char>>::empty();
    assert(texts(names@) =~= Seq::<Seq<char>>::empty());
    assert(lists_set(texts(names@), set));
    match saved {
        Some(sessions) => add_sessions(&mut names, sessions, known, Ghost(set)),
        None => add_known(&mut names, known, known, Ghost(set)),
    }
    let ghost remembered = match saved {
        Some(sessions) => with_sessions(set, sessions@, texts(known@)),
        None => with_known(set, texts(known@), texts(known@)),
    };
    add_known(&mut names, dirs, known, Ghost(remembered));
    add_name(&mut names, project_name);
    names
}

/// The name can be that of a channel.
pub open spec fn is_channel_name(name: Seq<char>) -> bool {
    &&& name.len() > 0
    &&& name != "notes"@
    &&& name != "history"@
    &&& name != "cursors"@
    &&& forall|i: int| 0 <= i < name.len() ==> is_channel_char(#[trigger] name[i])
}

pub open spec fn is_channel_char(c: char) -> bool {
    ||| ('0' <= c && c <= '9')
    ||| ('A' <= c && c <= 'Z')
    ||| ('a' <= c && c <= 'z')
    ||| c == '_'
    ||| c == '-'
}

/// Whether a name can be that of a channel.
pub fn is_channel_dir_name(name: &str) -> (r: bool)
    ensures
        r == is_channel_name(name@),
{
    if name.is_empty() || same(name, "notes") || same(name, "history") || same(name, "cursors") {
        return false;
    }
    let v = crate::text::chars_of(name);
    let mut i: usize = 0;
    while i < v.len()
        invariant
            i <= v.len(),
            v@ == name@,
            forall|k: int| 0 <= k < i ==> is_channel_char(#[trigger] name@[k]),
        decreases v.len() - i,
    {
        let c = v[i];
        if !(('0' <= c && c <= '9') || ('A' <= c && c <= 'Z') || ('a' <= c && c <= 'z') || c == '_'
            || c == '-') {
            assert(!is_channel_char(name@[i as int]));
            return false;
        }
        i += 1;
    }
    true
}

/// A set with those of some names that can be names of channels.
pub open spec fn with_channels(set: Set<Seq<char>>, names: Seq<Seq<char>>) -> Set<Seq<char>>
    decreases names.len(),
{
    if names.len() == 0 {
        set
    } else {
        let before = with_channels(set, names.drop_last());
        if is_channel_name(names.last()) {
            before.insert(names.last())
        } else {
            before
        }
    }
}

pub open spec fn leads_view(leads: Option<&Vec<String>>) -> Seq<Seq<char>> {
    match leads {
        Some(v) => texts(v@),
        None => Seq::empty(),
    }
}

/// The channels that the bridge serves, in the order of their names: those that have a lead,
/// and the one of the project. `leads` are the channels that have a lead, where that could be
/// read.
pub fn collect_channel_names(project_name: &str, leads: Option<&Vec<String>>) -> (r: Vec<String>)
    ensures
        lists_set(
            texts(r@),
            with_channels(Set::empty(), leads_view(leads)).insert(project_name@),
        ),
{
    let mut names: Vec<String> = Vec::new();
    let ghost set = Set::<Seq<char>>::empty();
    assert(texts(names@) =~= Seq::<Seq<char>>::empty());
    assert(lists_set(texts(names@), set));
    if let Some(channels) = leads {
        let ghost all = texts(channels@);
        let mut i: usize = 0;
        assert(all.take(0) =~= Seq::<Seq<char>>::empty());
        while i < channels.len()
            invariant
                i <= channels.len(),
                all == texts(channels@),
                lists_set(texts(names@), with_channels(set, all.take(i as int))),
            decreases channels.len() - i,
        {
            assert(all.take(i + 1).drop_last() =~= all.take(i as int));
            assert(all.take(i + 1).last() == channels@[i as int]@);
            if is_channel_dir_name(channels[i].as_str()) {
                add_name(&mut names, channels[i].as_str());
            }
            i += 1;
        }
        assert(all.take(i as int) =~= all);
    }
    add_name(&mut names, project_name);
    names
}

/// The usual settings of the bridge.
pub proof fn the_bridge_has_its_usual_ports(c: MatrixBridgeConfig, dir: Seq<char>)
    ensures
        c.is_usual(dir) <==> c.matrix_dir@ == dir && c.server_name@ == "matrix.local"@
            && c.matrix_port == 6167 && c.as_port == 47025,
{
}

/// The settings of the server tell its name, its database and its port, and let nobody register
/// and no other server in.
pub proof fn the_server_is_told_its_settings(config: MatrixBridgeConfig)
    ensures
        conduit_text(config) == "[global]\nserver_name = \""@ + config.server_name@
            + "\"\ndatabase_backend = \"rocksdb\"\ndatabase_path = \""@ + join_path(
            config.matrix_dir@,
            "db"@,
        ) + "\"\nport = "@ + decimal(config.matrix_port as nat)
            + "\nallow_registration = false\nallow_federation = false\n"@,
{
}

/// The characters that have a meaning of their own in a regular expression.
pub proof fn signs_have_a_meaning_of_their_own(c: char)
    ensures
        is_meta(c) <==> "\\.+*?()|[]{}^$#&-~"@.contains(c),
        'a' <= c <= 'z' || 'A' <= c <= 'Z' || '0' <= c <= '9' || c == '_' ==> !is_meta(c),
{
    let own = "\\.+*?()|[]{}^$#&-~"@;
    reveal_strlit("\\.+*?()|[]{}^$#&-~");
    assert(own.len() == 18);
    assert(own[0] == '\\');
    assert(own[1] == '.');
    assert(own[2] == '+');
    assert(own[3] == '*');
    assert(own[4] == '?');
    assert(own[5] == '(');
    assert(own[6] == ')');
    assert(own[7] == '|');
    assert(own[8] == '[');
    assert(own[9] == ']');
    assert(own[10] == '{');
    assert(own[11] == '}');
    assert(own[12] == '^');
    assert(own[13] == '$');
    assert(own[14] == '#');
    assert(own[15] == '&');
    assert(own[16] == '-');
    assert(own[17] == '~');
}

/// A text is escaped character by character; one without signs stays as it is.
pub proof fn texts_are_escaped_character_by_character(s: Seq<char>, c: char)
    ensures
        escaped(Seq::<char>::empty()).len() == 0,
        is_meta(c) ==> escaped(s.push(c)) == escaped(s) + seq!['\\', c],
        !is_meta(c) ==> escaped(s.push(c)) == escaped(s) + seq![c],
{
    assert(s.push(c).drop_last() =~= s);
    assert(escaped(s).push('\\').push(c) =~= escaped(s) + seq!['\\', c]);
    assert(escaped(s).push(c) =~= escaped(s) + seq![c]);
}

/// Without names everything is meant; one name is meant alone, and of several each.
pub proof fn patterns_mean_the_given_names(names: Seq<Seq<char>>)
    ensures
        names.len() == 0 ==> pattern_of(names) == ".*"@,
        names.len() == 1 ==> pattern_of(names) == escaped(names[0]),
        names.len() >= 2 ==> pattern_of(names) == "(?:"@ + join(all_escaped(names), "|"@) + ")"@,
        all_escaped(names).len() == names.len(),
        forall|i: int|
            0 <= i < names.len() ==> #[trigger] all_escaped(names)[i] == escaped(names[i]),
{
}

/// The server is told where the bridge listens, both tokens, in whose name it speaks, and which
/// users and channels are its own.
pub proof fn the_server_is_told_of_the_bridge(
    config: MatrixBridgeConfig,
    project_name: Seq<char>,
    users: Seq<Seq<char>>,
    channels: Seq<Seq<char>>,
    as_token: Seq<char>,
    hs_token: Seq<char>,
)
    ensures
        registration_text(config, project_name, users, channels, as_token, hs_token)
            == "id: midtown-bridge-"@ + project_name + "\nurl: http://localhost:"@ + decimal(
            config.as_port as nat,
        ) + "\nas_token: "@ + as_token + "\nhs_token: "@ + hs_token + "\nsender_localpart: "@
            + project_name + "\nnamespaces:\n  users:\n    - exclusive: true\n      regex: \"@("@
            + pattern_of(users) + "):"@ + config.server_name@
            + "\"\n  rooms: []\n  aliases:\n    - exclusive: false\n      regex: \"#("@ + pattern_of(
            channels,
        ) + "):"@ + config.server_name@ + "\"\n"@,
{
}

/// The coworkers among some sessions are those with a known name that are no leads of a channel.
pub proof fn sessions_tell_the_coworkers(
    set: Set<Seq<char>>,
    sessions: Seq<SavedSession>,
    known: Seq<Seq<char>>,
    name: Seq<char>,
)
    ensures
        with_sessions(set, sessions, known).contains(name) <==> set.contains(name) || (
        known.contains(name) && exists|i: int|
            0 <= i < sessions.len() && opt((#[trigger] sessions[i]).name) == Some(name) && opt(
                sessions[i].coworker_type,
            ) != Some("channel-lead"@)),
    decreases sessions.len(),
{
    if sessions.len() > 0 {
        let init = sessions.drop_last();
        let last = sessions.last();
        sessions_tell_the_coworkers(set, init, known, name);
        assert(sessions[sessions.len() - 1] == last);
        if known.contains(name) && exists|i: int|
            0 <= i < init.len() && opt((#[trigger] init[i]).name) == Some(name) && opt(
                init[i].coworker_type,
            ) != Some("channel-lead"@) {
            let i = choose|i: int|
                0 <= i < init.len() && opt((#[trigger] init[i]).name) == Some(name) && opt(
                    init[i].coworker_type,
                ) != Some("channel-lead"@);
            assert(sessions[i] == init[i]);
        }
        if known.contains(name) && exists|i: int|
            0 <= i < sessions.len() && opt((#[trigger] sessions[i]).name) == Some(name) && opt(
                sessions[i].coworker_type,
            ) != Some("channel-lead"@) {
            let i = choose|i: int|
                0 <= i < sessions.len() && opt((#[trigger] sessions[i]).name) == Some(name) && opt(
                    sessions[i].coworker_type,
                ) != Some("channel-lead"@);
            if i < init.len() {
                assert(init[i] == sessions[i]);
            }
        }
    }
}

proof fn lemma_last_or_before(names: Seq<Seq<char>>, name: Seq<char>)
    requires
        names.len() > 0,
    ensures
        names.contains(name) <==> names.drop_last().contains(name) || names.last() == name,
{
    let init = names.drop_last();
    if names.contains(name) {
        let i = choose|i: int| 0 <= i < names.len() && names[i] == name;
        if i < init.len() {
            assert(init[i] == name);
        }
    }
    if init.contains(name) {
        let i = choose|i: int| 0 <= i < init.len() && init[i] == name;
        assert(names[i] == name);
    }
    assert(names[names.len() - 1] == names.last());
}

/// Of some names those are added that are known.
pub proof fn known_names_are_added(
    set: Set<Seq<char>>,
    names: Seq<Seq<char>>,
    known: Seq<Seq<char>>,
    name: Seq<char>,
)
    ensures
        with_known(set, names, known).contains(name) <==> set.contains(name) || (names.contains(name)
            && known.contains(name)),
    decreases names.len(),
{
    if names.len() > 0 {
        known_names_are_added(set, names.drop_last(), known, name);
        lemma_last_or_before(names, name);
    }
}

/// The bridge speaks for the project; for every known name of a directory; and for every known
/// coworker that the daemon remembers, or for all known names where it remembers nothing.
pub proof fn the_bridge_speaks_for_coworkers_and_the_project(
    project_name: Seq<char>,
    sessions: Seq<SavedSession>,
    dirs: Seq<Seq<char>>,
    known: Seq<Seq<char>>,
    name: Seq<char>,
)
    ensures
        identities(project_name, None, dirs, known).contains(name) <==> name == project_name
            || known.contains(name),
        identities(project_name, Some(sessions), dirs, known).contains(name) <==> name
            == project_name || (known.contains(name) && (dirs.contains(name) || exists|i: int|
            0 <= i < sessions.len() && opt((#[trigger] sessions[i]).name) == Some(name) && opt(
                sessions[i].coworker_type,
            ) != Some("channel-lead"@))),
{
    let none = Set::<Seq<char>>::empty();
    sessions_tell_the_coworkers(none, sessions, known, name);
    known_names_are_added(none, known, known, name);
    known_names_are_added(with_sessions(none, sessions, known), dirs, known, name);
    known_names_are_added(with_known(none, known, known), dirs, known, name);
}

/// A channel is named with letters, digits, underscores and hyphens, and not like one of the
/// directories beside it.
pub proof fn channels_are_named_plainly(name: Seq<char>)
    ensures
        is_channel_name(name) <==> {
            &&& name.len() > 0
            &&& name != "notes"@
            &&& name != "history"@
            &&& name != "cursors"@
            &&& forall|i: int|
                0 <= i < name.len() ==> {
                    ||| '0' <= #[trigger] name[i] <= '9'
                    ||| 'A' <= name[i] <= 'Z'
                    ||| 'a' <= name[i] <= 'z'
                    ||| name[i] == '_'
                    ||| name[i] == '-'
                }
        },
{
}

/// Of some names those are added that can be names of channels.
pub proof fn names_of_channels_are_added(
    set: Set<Seq<char>>,
    names: Seq<Seq<char>>,
    name: Seq<char>,
)
    ensures
        with_channels(set, names).contains(name) <==> set.contains(name) || (names.contains(name)
            && is_channel_name(name)),
    decreases names.len(),
{
    if names.len() > 0 {
        names_of_channels_are_added(set, names.drop_last(), name);
        lemma_last_or_before(names, name);
    }
}

} // verus!
