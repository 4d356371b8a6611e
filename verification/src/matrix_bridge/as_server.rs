//! Events that a Matrix server hands to the bridge.

use vstd::prelude::*;

use crate::json::{text_of, Json, JsonView};
use crate::matrix_bridge::state::MatrixBridgeState;
use crate::matrix_bridge::sync::room_for_channel_name;
use crate::selection::{
    choosing_goes_item_by_item, chosen, chosen_at, nothing_is_chosen_from_nothing,
};
use crate::text::{cut, cutting_drops_the_first_separator, opt, same, split_once, starts, strip_prefix, trim, trimmed};
use crate::text_map::{entries_tell_the_map, tells_map};

verus! {

/// Whom the bridge serves.
#[derive(Debug)]
pub struct MatrixApplicationServiceState {
    pub project_name: String,
    pub homeserver_domain: String,
}

/// Events that the server hands over at once.
pub struct MatrixTransaction {
    pub events: Vec<MatrixEvent>,
}

/// An event in a room.
pub struct MatrixEvent {
    pub event_type: String,
    pub sender: String,
    pub room_id: String,
    pub content: Json,
}

/// A message that is to be posted in a channel.
pub struct InboundPost {
    pub channel: String,
    pub from: String,
    pub body: String,
}

/// The name of a user of a server.
pub open spec fn localpart(sender: Seq<char>, domain: Seq<char>) -> Option<Seq<char>> {
    if starts(sender, "@"@) {
        match cut(sender.skip(1), ':') {
            Some((name, at)) => if at == domain {
                Some(name)
            } else {
                None
            },
            None => None,
        }
    } else {
        None
    }
}

/// The name of a user of a server.
pub fn matrix_user_localpart(sender: &str, homeserver_domain: &str) -> (r: Option<String>)
    ensures
        opt(r) == localpart(sender@, homeserver_domain@),
{
    proof {
        reveal_strlit("@");
    }
    let rest = match strip_prefix(sender, "@") {
        Some(rest) => rest,
        None => {
            return None;
        },
    };
    match split_once(rest.as_str(), ':') {
        Some((name, domain)) => if same(domain.as_str(), homeserver_domain) {
            Some(name)
        } else {
            None
        },
        None => None,
    }
}

/// The bridge has made this user.
pub open spec fn is_bridge_user(
    users: Map<Seq<char>, Seq<char>>,
    name: Seq<char>,
    user: Seq<char>,
) -> bool {
    users.contains_key(name) || exists|k: Seq<char>| #[trigger]
        users.contains_key(k) && users[k] == user
}

/// A person sent the event: a user of the server, but neither the bridge nor a user that the
/// bridge has made. `users` are those that it remembers.
pub open spec fn is_person(
    sender: Seq<char>,
    app: MatrixApplicationServiceState,
    users: Option<Map<Seq<char>, Seq<char>>>,
) -> bool {
    match localpart(sender, app.homeserver_domain@) {
        Some(name) => name != app.project_name@ && match users {
            Some(known) => !is_bridge_user(known, name, sender),
            None => true,
        },
        None => false,
    }
}

pub open spec fn users_of(state: Option<&MatrixBridgeState>) -> Option<
    Map<Seq<char>, Seq<char>>,
> {
    match state {
        Some(s) => Some(s.users@),
        None => None,
    }
}

fn has_value(map: &crate::text_map::TextMap, value: &str) -> (r: bool)
    ensures
        r == exists|k: Seq<char>| #[trigger] map@.contains_key(k) && map@[k] == value@,
{
    let entries = map.entries();
    let mut i: usize = 0;
    proof {
        entries_tell_the_map(entries@);
    }
    while i < entries.len()
        invariant
            i <= entries.len(),
            tells_map(entries@, map@),
            forall|k: int| 0 <= k < i ==> (#[trigger] entries@[k]).1@ != value@,
        decreases entries.len() - i,
    {
        if same(entries[i].1.as_str(), value) {
            assert(map@.contains_key(entries@[i as int].0@));
            return true;
        }
        i += 1;
    }
    false
}

/// Whether a person sent an event.
pub fn is_real_user(
    sender: &str,
    app: &MatrixApplicationServiceState,
    state: Option<&MatrixBridgeState>,
) -> (r: bool)
    ensures
        r == is_person(sender@, *app, users_of(state)),
{
    let name = match matrix_user_localpart(sender, app.homeserver_domain.as_str()) {
        Some(name) => name,
        None => {
            return false;
        },
    };
    if same(name.as_str(), app.project_name.as_str()) {
        return false;
    }
    match state {
        Some(s) => !s.users.contains_key(name.as_str()) && !has_value(&s.users, sender),
        None => true,
    }
}

/// What a message says, without the white space around it, where something is left.
pub open spec fn said(content: JsonView) -> Option<Seq<char>> {
    match text_of(content.field("body"@)) {
        Some(s) => if trim(s).len() > 0 {
            Some(trim(s))
        } else {
            None
        },
        None => None,
    }
}

/// What a message says.
pub fn extract_message_body(content: &Json) -> (r: Option<String>)
    ensures
        opt(r) == said(content.jv()),
{
    match content.get("body") {
        Some(v) => match v.as_str() {
            Some(s) => {
                let body = trimmed(s);
                if body.as_str().is_empty() {
                    None
                } else {
                    Some(body)
                }
            },
            None => None,
        },
        None => None,
    }
}

/// The event is posted, as this.
pub open spec fn posts(
    event: MatrixEvent,
    app: MatrixApplicationServiceState,
    state: Option<&MatrixBridgeState>,
    post: InboundPost,
) -> bool {
    &&& is_posted(event, app, state)
    &&& state matches Some(s) && s.rooms@.contains_key(post.channel@) && s.rooms@[post.channel@]
        == event.room_id@
    &&& Some(post.from@) == localpart(event.sender@, app.homeserver_domain@)
    &&& Some(post.body@) == said(event.content.jv())
}

/// The event is posted: it is a message of a person, says something, and came in the room of a
/// channel.
pub open spec fn is_posted(
    event: MatrixEvent,
    app: MatrixApplicationServiceState,
    state: Option<&MatrixBridgeState>,
) -> bool {
    &&& event.event_type@ == "m.room.message"@
    &&& is_person(event.sender@, app, users_of(state))
    &&& said(event.content.jv()) is Some
    &&& state matches Some(s) && exists|channel: Seq<char>| #[trigger]
        s.rooms@.contains_key(channel) && s.rooms@[channel] == event.room_id@
}

fn post_of(
    event: &MatrixEvent,
    app: &MatrixApplicationServiceState,
    state: Option<&MatrixBridgeState>,
) -> (r: Option<InboundPost>)
    ensures
        match r {
            Some(post) => posts(*event, *app, state, post),
            None => !is_posted(*event, *app, state),
        },
{
    if !same(event.event_type.as_str(), "m.room.message") {
        return None;
    }
    if !is_real_user(event.sender.as_str(), app, state) {
        return None;
    }
    let body = match extract_message_body(&event.content) {
        Some(body) => body,
        None => {
            return None;
        },
    };
    let known = match state {
        Some(known) => known,
        None => {
            return None;
        },
    };
    let channel = match room_for_channel_name(known, event.room_id.as_str()) {
        Some(channel) => channel.to_owned(),
        None => {
            return None;
        },
    };
    match matrix_user_localpart(event.sender.as_str(), app.homeserver_domain.as_str()) {
        Some(from) => Some(InboundPost { channel, from, body }),
        None => None,
    }
}

/// The events that are posted.
pub open spec fn posted(
    events: Seq<MatrixEvent>,
    app: MatrixApplicationServiceState,
    state: Option<&MatrixBridgeState>,
) -> Seq<MatrixEvent>
    decreases events.len(),
{
    if events.len() == 0 {
        Seq::empty()
    } else if is_posted(events.last(), app, state) {
        posted(events.drop_last(), app, state).push(events.last())
    } else {
        posted(events.drop_last(), app, state)
    }
}

/// The messages that are to be posted for a transaction, in the order of the events. `state`
/// is what the bridge remembers, where that could be read.
pub fn handle_transaction(
    transaction: &MatrixTransaction,
    app: &MatrixApplicationServiceState,
    state: Option<&MatrixBridgeState>,
) -> (r: Vec<InboundPost>)
    ensures
        r@.len() == posted(transaction.events@, *app, state).len(),
        forall|i: int|
            0 <= i < r@.len() ==> posts(
                posted(transaction.events@, *app, state)[i],
                *app,
                state,
                #[trigger] r@[i],
            ),
        exists|places: Seq<int>| #![trigger places.len()]
            chosen_at(
                transaction.events@,
                |e: MatrixEvent| is_posted(e, *app, state),
                posted(transaction.events@, *app, state),
                places,
            ) && places.len() == r@.len() && forall|k: int|
                0 <= k < r@.len() ==> posts(
                    transaction.events@[places[k]],
                    *app,
                    state,
                    #[trigger] r@[k],
                ),
{
    let events = &transaction.events;
    let mut r: Vec<InboundPost> = Vec::new();
    let mut i: usize = 0;
    assert(events@.take(0) =~= Seq::<MatrixEvent>::empty());
    while i < events.len()
        invariant
            i <= events.len(),
            events@ == transaction.events@,
            r@.len() == posted(events@.take(i as int), *app, state).len(),
            forall|k: int|
                0 <= k < r@.len() ==> posts(
                    posted(events@.take(i as int), *app, state)[k],
                    *app,
                    state,
                    #[trigger] r@[k],
                ),
        decreases events.len() - i,
    {
        assert(events@.take(i + 1).drop_last() =~= events@.take(i as int));
        assert(events@.take(i + 1).last() == events@[i as int]);
        if let Some(post) = post_of(&events[i], app, state) {
            r.push(post);
        }
        i += 1;
    }
    assert(events@.take(i as int) =~= events@);
    proof {
        let wanted = |e: MatrixEvent| is_posted(e, *app, state);
        every_message_has_a_post_of_its_own(events@, *app, state);
        let places = choose|places: Seq<int>|
            chosen_at(events@, wanted, posted(events@, *app, state), places);
        assert(chosen_at(events@, wanted, posted(events@, *app, state), places));
        assert(places.len() == r@.len());
        assert forall|k: int| 0 <= k < r@.len() implies posts(
            events@[places[k]],
            *app,
            state,
            #[trigger] r@[k],
        ) by {
            assert(posted(events@, *app, state)[k] == events@[places[k]]);
        }
    }
    r
}

/// What the bridge itself has sent does not come back: neither from its own user nor from a
/// user that it has made.
pub proof fn the_bridge_does_not_answer_itself(
    event: MatrixEvent,
    app: MatrixApplicationServiceState,
    state: &MatrixBridgeState,
)
    requires
        localpart(event.sender@, app.homeserver_domain@) == Some(app.project_name@) || exists|
            k: Seq<char>,
        | #[trigger]
            state.users@.contains_key(k) && state.users@[k] == event.sender@,
    ensures
        !is_posted(event, app, Some(state)),
{
    if is_posted(event, app, Some(state)) {
        assert(is_person(event.sender@, app, Some(state.users@)));
    }
}

/// Every event that is to be posted has a post of its own, and the posts keep the order of the
/// events: they stand, one for one, at rising places of the transaction, which are those of the
/// events to be posted and no others.
pub proof fn every_message_has_a_post_of_its_own(
    events: Seq<MatrixEvent>,
    app: MatrixApplicationServiceState,
    state: Option<&MatrixBridgeState>,
)
    ensures
        chosen(events, |e: MatrixEvent| is_posted(e, app, state), posted(events, app, state)),
    decreases events.len(),
{
    let wanted = |e: MatrixEvent| is_posted(e, app, state);
    if events.len() == 0 {
        nothing_is_chosen_from_nothing(wanted);
        assert(events =~= Seq::<MatrixEvent>::empty());
        assert(posted(events, app, state) =~= Seq::<MatrixEvent>::empty());
    } else {
        let init = events.drop_last();
        every_message_has_a_post_of_its_own(init, app, state);
        assert(events =~= init.push(events.last()));
        choosing_goes_item_by_item(init, events.last(), wanted, posted(init, app, state));
    }
}

/// An event more is posted behind the others where it is to be posted, and changes nothing
/// about them.
pub proof fn posts_come_event_by_event(
    events: Seq<MatrixEvent>,
    event: MatrixEvent,
    app: MatrixApplicationServiceState,
    state: Option<&MatrixBridgeState>,
)
    ensures
        posted(Seq::<MatrixEvent>::empty(), app, state).len() == 0,
        is_posted(event, app, state) ==> posted(events.push(event), app, state) == posted(
            events,
            app,
            state,
        ).push(event),
        !is_posted(event, app, state) ==> posted(events.push(event), app, state) == posted(
            events,
            app,
            state,
        ),
{
    assert(events.push(event).drop_last() =~= events);
}

/// The name of a user stands between the sign at the front and the first colon, and the server
/// behind that: who is called so has this name, and nobody else has it.
pub proof fn users_are_called_by_name_and_server(
    sender: Seq<char>,
    name: Seq<char>,
    domain: Seq<char>,
)
    ensures
        localpart(sender, domain) == Some(name) <==> !name.contains(':') && sender == seq!['@']
            + name + seq![':'] + domain,
        localpart(sender, domain) matches Some(own) ==> !own.contains(':') && sender == seq!['@']
            + own + seq![':'] + domain,
{
    reveal_strlit("@");
    assert("@"@ =~= seq!['@']);
    let rest = sender.skip(1);
    cutting_drops_the_first_separator(rest, ':');
    if starts(sender, "@"@) {
        assert(sender.subrange(0, 1)[0] == sender[0]);
        assert(sender =~= seq!['@'] + rest);
    }
    if let Some(own) = localpart(sender, domain) {
        assert(sender =~= seq!['@'] + own + seq![':'] + domain);
    }
    if !name.contains(':') && sender == seq!['@'] + name + seq![':'] + domain {
        assert(sender.subrange(0, 1) =~= "@"@);
        assert(starts(sender, "@"@));
        assert(rest =~= name + seq![':'] + domain);
        assert(rest[name.len() as int] == ':');
        let (a, b) = cut(rest, ':')->0;
        assert(rest == a + seq![':'] + b);
        assert(rest[a.len() as int] == ':');
        if a.len() < name.len() {
            assert(name[a.len() as int] == ':');
        }
        if name.len() < a.len() {
            assert(a[name.len() as int] == ':');
        }
        assert(a =~= name) by {
            assert forall|i: int| 0 <= i < a.len() implies a[i] == name[i] by {
                assert(rest[i] == a[i]);
            }
        }
        assert(b =~= domain) by {
            assert forall|i: int| 0 <= i < b.len() implies b[i] == domain[i] by {
                assert(rest[a.len() + 1 + i] == b[i]);
            }
        }
    }
}

/// An event is posted exactly where it is a message, its sender is a user of the server who is
/// neither the bridge nor one that the bridge has made, it says something, and it came in the
/// room of a channel.
pub proof fn messages_of_people_in_rooms_are_posted(
    event: MatrixEvent,
    app: MatrixApplicationServiceState,
    state: &MatrixBridgeState,
    name: Seq<char>,
)
    requires
        !name.contains(':'),
        event.sender@ == seq!['@'] + name + seq![':'] + app.homeserver_domain@,
    ensures
        is_posted(event, app, Some(state)) <==> {
            &&& event.event_type@ == "m.room.message"@
            &&& name != app.project_name@
            &&& !state.users@.contains_key(name)
            &&& forall|k: Seq<char>| #[trigger]
                state.users@.contains_key(k) ==> state.users@[k] != event.sender@
            &&& (text_of(event.content.jv().field("body"@)) matches Some(b) && trim(b).len() > 0)
            &&& exists|channel: Seq<char>| #[trigger]
                state.rooms@.contains_key(channel) && state.rooms@[channel] == event.room_id@
        },
        !is_posted(event, app, None),
{
    users_are_called_by_name_and_server(event.sender@, name, app.homeserver_domain@);
}

/// Nothing is posted for a user of another server.
pub proof fn users_of_other_servers_are_not_posted(
    event: MatrixEvent,
    app: MatrixApplicationServiceState,
    state: Option<&MatrixBridgeState>,
)
    requires
        forall|name: Seq<char>|
            event.sender@ != #[trigger] (seq!['@'] + name) + seq![':'] + app.homeserver_domain@,
    ensures
        !is_posted(event, app, state),
{
    users_are_called_by_name_and_server(
        event.sender@,
        localpart(event.sender@, app.homeserver_domain@)->0,
        app.homeserver_domain@,
    );
    if let Some(own) = localpart(event.sender@, app.homeserver_domain@) {
        assert(event.sender@ == (seq!['@'] + own) + seq![':'] + app.homeserver_domain@);
    }
}

/// A post tells the sender by name, what was said without the white space around it, and the
/// channel of the room.
pub proof fn posts_tell_who_said_what_where(
    event: MatrixEvent,
    app: MatrixApplicationServiceState,
    state: &MatrixBridgeState,
    post: InboundPost,
)
    requires
        posts(event, app, Some(state), post),
    ensures
        event.event_type@ == "m.room.message"@,
        !post.from@.contains(':'),
        event.sender@ == seq!['@'] + post.from@ + seq![':'] + app.homeserver_domain@,
        text_of(event.content.jv().field("body"@)) matches Some(b) && post.body@ == trim(b),
        post.body@.len() > 0,
        state.rooms@.contains_key(post.channel@),
        state.rooms@[post.channel@] == event.room_id@,
{
    users_are_called_by_name_and_server(event.sender@, post.from@, app.homeserver_domain@);
}

/// A person is a user of the server who is not the bridge and whom the bridge has not made: no
/// user that it remembers has that name or that address. Where it remembers nothing, everyone
/// else is a person.
pub proof fn people_are_those_whom_the_bridge_has_not_made(
    sender: Seq<char>,
    name: Seq<char>,
    app: MatrixApplicationServiceState,
    users: Map<Seq<char>, Seq<char>>,
)
    requires
        !name.contains(':'),
        sender == seq!['@'] + name + seq![':'] + app.homeserver_domain@,
    ensures
        is_person(sender, app, None) <==> name != app.project_name@,
        is_person(sender, app, Some(users)) <==> name != app.project_name@ && !users.contains_key(
            name,
        ) && forall|k: Seq<char>| #[trigger] users.contains_key(k) ==> users[k] != sender,
{
    users_are_called_by_name_and_server(sender, name, app.homeserver_domain@);
}

/// What a message says is the text of its body without the white space around it, and nothing
/// where none is left.
pub proof fn messages_say_what_is_left_of_their_body(content: JsonView, body: Seq<char>)
    ensures
        content.field("body"@) == Some(JsonView::Str(body)) && trim(body).len() > 0 ==> said(content)
            == Some(trim(body)),
        content.field("body"@) == Some(JsonView::Str(body)) && trim(body).len() == 0 ==> said(
            content,
        ) is None,
        !(content.field("body"@) matches Some(b) && b is Str) ==> said(content) is None,
{
}

} // verus!
