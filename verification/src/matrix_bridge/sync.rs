//! Messages of channels, sent to their rooms.

use vstd::prelude::*;

use crate::json::{items_view, text_of, Json, JsonView};
use crate::json_text::{parse, parsed_text, pretty_text, print_pretty};
use crate::matrix_bridge::client::code_block;
use crate::matrix_bridge::state::MatrixBridgeState;
use crate::message::Message;
use crate::text::{concat3, is_blank, opt, opt_str, same, starts, starts_with, trim, trimmed};

verus! {

/// The time between two rounds, in milliseconds.
pub const OUTBOUND_SYNC_INTERVAL_MS: u64 = 1000;

/// Whether the messages of a project can be sent: it has to have a name.
pub fn run_outbound_sync(project: &str) -> (r: Result<(), String>)
    ensures
        match r {
            Ok(()) => trim(project@).len() > 0,
            Err(message) => trim(project@).len() == 0 && message@ == "project cannot be empty"@,
        },
{
    if is_blank(project) {
        Err("project cannot be empty".to_owned())
    } else {
        Ok(())
    }
}

/// The place behind the first message with an identifier, where there is one.
pub open spec fn place_behind(messages: Seq<Message>, id: Seq<char>) -> Option<nat>
    decreases messages.len(),
{
    if messages.len() == 0 {
        None
    } else if messages[0].id@ == id {
        Some(1)
    } else {
        match place_behind(messages.skip(1), id) {
            Some(n) => Some(n + 1),
            None => None,
        }
    }
}

/// The place of the first message that has not been sent: behind the one that was sent last,
/// where that is known and still there; else the first.
pub open spec fn first_unsynced(messages: Seq<Message>, last_synced: Option<Seq<char>>) -> nat {
    match last_synced {
        Some(id) => match place_behind(messages, id) {
            Some(n) => n,
            None => 0,
        },
        None => 0,
    }
}

proof fn lemma_place_behind(messages: Seq<Message>, id: Seq<char>, k: int)
    requires
        0 <= k < messages.len(),
        messages[k].id@ == id,
        forall|j: int| 0 <= j < k ==> (#[trigger] messages[j]).id@ != id,
    ensures
        place_behind(messages, id) == Some((k + 1) as nat),
    decreases k,
{
    if k > 0 {
        assert(messages[0].id@ != id);
        let rest = messages.skip(1);
        assert forall|j: int| 0 <= j < k - 1 implies (#[trigger] rest[j]).id@ != id by {
            assert(rest[j] == messages[j + 1]);
        }
        lemma_place_behind(rest, id, k - 1);
    }
}

proof fn lemma_place_missing(messages: Seq<Message>, id: Seq<char>)
    requires
        forall|j: int| 0 <= j < messages.len() ==> (#[trigger] messages[j]).id@ != id,
    ensures
        place_behind(messages, id) is None,
    decreases messages.len(),
{
    if messages.len() > 0 {
        assert(messages[0].id@ != id);
        let rest = messages.skip(1);
        assert forall|j: int| 0 <= j < rest.len() implies (#[trigger] rest[j]).id@ != id by {
            assert(rest[j] == messages[j + 1]);
        }
        lemma_place_missing(rest, id);
    }
}

/// The place of the first message that has not been sent.
pub fn first_unsynced_place(messages: &Vec<Message>, last_synced: Option<&str>) -> (r: usize)
    ensures
        r == first_unsynced(messages@, opt_str(last_synced)),
        r <= messages@.len(),
{
    if let Some(id) = last_synced {
        let mut i: usize = 0;
        while i < messages.len()
            invariant
                i <= messages.len(),
                last_synced == Some(id),
                forall|j: int| 0 <= j < i ==> (#[trigger] messages@[j]).id@ != id@,
            decreases messages.len() - i,
        {
            if same(messages[i].id.as_str(), id) {
                proof {
                    lemma_place_behind(messages@, id@, i as int);
                }
                return i + 1;
            }
            i += 1;
        }
        proof {
            lemma_place_missing(messages@, id@);
        }
    }
    0
}

/// The messages that have not been sent.
pub fn unsynced_messages<'a>(messages: &'a Vec<Message>, last_synced: Option<&str>) -> (r: Vec<
    &'a Message,
>)
    ensures
        ({
            let from = first_unsynced(messages@, opt_str(last_synced));
            &&& from <= messages@.len()
            &&& r@.len() == messages@.len() - from
            &&& forall|i: int| 0 <= i < r@.len() ==> *(#[trigger] r@[i]) == messages@[from + i]
        }),
{
    let from = first_unsynced_place(messages, last_synced);
    let mut r: Vec<&Message> = Vec::new();
    let mut i: usize = from;
    while i < messages.len()
        invariant
            from <= i <= messages.len(),
            r@.len() == i - from,
            forall|k: int| 0 <= k < r@.len() ==> *(#[trigger] r@[k]) == messages@[from + k],
        decreases messages.len() - i,
    {
        r.push(&messages[i]);
        i += 1;
    }
    r
}

/// What is done next for a channel.
pub enum ChannelStep {
    /// Its room is to be found or created.
    NeedRoom,
    /// A user is to be registered for a name.
    NeedUser(String),
    /// A message is to be sent.
    Send { room_id: String, sender_user_id: String, body: String, thread_parent: Option<String> },
    /// All messages have been sent.
    Done,
}

/// The message at a place is sent with these.
pub open spec fn sends_message(
    state: MatrixBridgeState,
    channel: Seq<char>,
    message: Message,
    step: ChannelStep,
) -> bool {
    step matches ChannelStep::Send { room_id, sender_user_id, body, thread_parent } && room_id@
        == state.rooms@[channel] && sender_user_id@ == state.users@[message.from@] && body@
        == matrix_body(message.content@) && opt(thread_parent) == thread_of(state, message)
}

/// The event of the message that a message replies to, where it was sent.
pub open spec fn thread_of(state: MatrixBridgeState, message: Message) -> Option<Seq<char>> {
    match message.thread_parent_id {
        Some(id) => if state.matrix_events@.contains_key(id@) {
            Some(state.matrix_events@[id@])
        } else {
            None
        },
        None => None,
    }
}

fn look_up(map: &crate::text_map::TextMap, name: &str) -> (r: Option<String>)
    ensures
        opt(r) == (if map@.contains_key(name@) {
            Some(map@[name@])
        } else {
            None
        }),
{
    match map.get(name) {
        Some(v) => Some(v.clone()),
        None => None,
    }
}

/// What is done next for a channel, whose messages before the place `at` have been sent: its
/// room comes first, then, for the message at the place, its user, and then the message itself.
pub fn sync_channel(
    state: &MatrixBridgeState,
    channel_name: &str,
    messages: &Vec<Message>,
    at: usize,
) -> (r: ChannelStep)
    ensures
        if messages@.len() == 0 {
            r is Done
        } else if !state.rooms@.contains_key(channel_name@) {
            r is NeedRoom
        } else if at >= messages@.len() {
            r is Done
        } else if !state.users@.contains_key(messages@[at as int].from@) {
            r matches ChannelStep::NeedUser(name) && name@ == messages@[at as int].from@
        } else {
            sends_message(*state, channel_name@, messages@[at as int], r)
        },
{
    if messages.len() == 0 {
        return ChannelStep::Done;
    }
    let room_id = match look_up(&state.rooms, channel_name) {
        Some(id) => id,
        None => {
            return ChannelStep::NeedRoom;
        },
    };
    if at >= messages.len() {
        return ChannelStep::Done;
    }
    let message = &messages[at];
    let sender_user_id = match look_up(&state.users, message.from.as_str()) {
        Some(id) => id,
        None => {
            return ChannelStep::NeedUser(message.from.clone());
        },
    };
    let thread_parent = match &message.thread_parent_id {
        Some(id) => look_up(&state.matrix_events, id.as_str()),
        None => None,
    };
    let body = format_matrix_body(message.content.as_str());
    ChannelStep::Send { room_id, sender_user_id, body, thread_parent }
}

/// Records the room of a channel.
pub fn room_for_channel(state: &mut MatrixBridgeState, channel_name: &str, room_id: &str)
    ensures
        final(state).rooms@ == old(state).rooms@.insert(channel_name@, room_id@),
        final(state).users == old(state).users,
        final(state).last_synced == old(state).last_synced,
        final(state).matrix_events == old(state).matrix_events,
{
    state.rooms.insert(channel_name, room_id);
}

/// Records the user of a name.
pub fn user_for_message(state: &mut MatrixBridgeState, username: &str, user_id: &str)
    ensures
        final(state).users@ == old(state).users@.insert(username@, user_id@),
        final(state).rooms == old(state).rooms,
        final(state).last_synced == old(state).last_synced,
        final(state).matrix_events == old(state).matrix_events,
{
    state.users.insert(username, user_id);
}

/// Records that a message of a channel was sent.
pub fn record_sent(
    state: &mut MatrixBridgeState,
    channel_name: &str,
    message: &Message,
    event_id: &str,
)
    ensures
        final(state).matrix_events@ == old(state).matrix_events@.insert(message.id@, event_id@),
        final(state).last_synced@ == old(state).last_synced@.insert(channel_name@, message.id@),
        final(state).rooms == old(state).rooms,
        final(state).users == old(state).users,
{
    state.matrix_events.insert(message.id.as_str(), event_id);
    state.last_synced.insert(channel_name, message.id.as_str());
}

/// The channel of a room: one that has this room.
pub fn room_for_channel_name<'a>(state: &'a MatrixBridgeState, room_id: &str) -> (r: Option<
    &'a str,
>)
    ensures
        match r {
            Some(channel) => state.rooms@.contains_key(channel@) && state.rooms@[channel@]
                == room_id@,
            None => forall|channel: Seq<char>| #[trigger]
                state.rooms@.contains_key(channel) ==> state.rooms@[channel] != room_id@,
        },
{
    let entries = state.rooms.entries();
    let mut i: usize = 0;
    proof {
        crate::text_map::entries_tell_the_map(entries@);
    }
    while i < entries.len()
        invariant
            i <= entries.len(),
            crate::text_map::tells_map(entries@, state.rooms@),
            forall|k: int| 0 <= k < i ==> (#[trigger] entries@[k]).1@ != room_id@,
        decreases entries.len() - i,
    {
        if same(entries[i].1.as_str(), room_id) {
            assert(entries@[i as int].1@ == room_id@);
            return Some(entries[i].0.as_str());
        }
        i += 1;
    }
    None
}

/// The value is a call of a tool or what came of one, or a list of such.
pub open spec fn is_tool(j: JsonView) -> bool
    decreases j,
{
    match j {
        JsonView::Obj(_) => text_of(j.field("type"@)) == Some("tool_use"@) || text_of(
            j.field("type"@),
        ) == Some("tool_result"@),
        JsonView::Arr(items) => forall|i: int| 0 <= i < items.len() ==> is_tool(#[trigger] items[i]),
        _ => false,
    }
}

proof fn lemma_one_is_no_tool(items: Seq<JsonView>, i: int)
    requires
        0 <= i < items.len(),
        !is_tool(items[i]),
    ensures
        !is_tool(JsonView::Arr(items)),
{
    reveal_with_fuel(is_tool, 2);
    let j = JsonView::Arr(items);
    assert(j is Arr);
    assert(j->Arr_0 == items);
    if is_tool(j) {
        assert(is_tool(j->Arr_0[i]));
    }
}

/// Whether a value is a call of a tool or what came of one, or a list of such.
pub fn is_tool_payload(content: &Json) -> (r: bool)
    ensures
        r == is_tool(content.jv()),
    decreases content,
{
    match content {
        Json::Obj(_) => match content.get("type") {
            Some(t) => match t.as_str() {
                Some(t) => same(t, "tool_use") || same(t, "tool_result"),
                None => false,
            },
            None => false,
        },
        Json::Arr(v) => {
            let mut i: usize = 0;
            while i < v.len()
                invariant
                    i <= v.len(),
                    *content == Json::Arr(*v),
                    content.jv() == JsonView::Arr(items_view(v@)),
                    items_view(v@).len() == v@.len(),
                    forall|k: int| 0 <= k < i ==> is_tool(#[trigger] items_view(v@)[k]),
                decreases v.len() - i,
            {
                proof {
                    assert(decreases_to!(*content => content->Arr_0));
                    assert(decreases_to!(*v => v@));
                    assert(decreases_to!(v@ => v@[i as int]));
                }
                assert(items_view(v@)[i as int] == v@[i as int].jv());
                if !is_tool_payload(&v[i]) {
                    proof {
                        lemma_one_is_no_tool(items_view(v@), i as int);
                    }
                    return false;
                }
                i += 1;
            }
            true
        },
        _ => false,
    }
}

/// A message as it is sent: a call of a tool as a block of code, and all else as it is.
pub open spec fn matrix_body(content: Seq<char>) -> Seq<char> {
    if starts(trim(content), "```"@) {
        content
    } else {
        match parsed_text(trim(content)) {
            Some(j) => if is_tool(j) && pretty_text(j) is Some {
                code_block(pretty_text(j)->0)
            } else {
                content
            },
            None => content,
        }
    }
}

/// A message as it is sent.
pub fn format_matrix_body(content: &str) -> (r: String)
    ensures
        r@ == matrix_body(content@),
{
    let text = trimmed(content);
    if starts_with(text.as_str(), "```") {
        return content.to_owned();
    }
    if let Some(payload) = parse(text.as_str()) {
        if is_tool_payload(&payload) {
            if let Some(pretty) = print_pretty(&payload) {
                return concat3("```json\n", pretty.as_str(), "\n```");
            }
        }
    }
    content.to_owned()
}

/// A message that was sent is not sent again, where no two messages have one identifier: what
/// comes next is the message behind it.
pub proof fn sent_messages_are_not_sent_again(messages: Seq<Message>, k: int)
    requires
        0 <= k < messages.len(),
        forall|i: int, j: int|
            0 <= i < j < messages.len() ==> (#[trigger] messages[i]).id@ != (
            #[trigger] messages[j]).id@,
    ensures
        first_unsynced(messages, Some(messages[k].id@)) == k + 1,
{
    lemma_place_behind(messages, messages[k].id@, k);
}

/// A message that was sent as a block of code is sent as it is from then on.
pub proof fn blocks_of_code_stay(content: Seq<char>)
    requires
        starts(trim(content), "```"@),
    ensures
        matrix_body(content) == content,
{
}

/// Messages are sent from the one behind the last that was sent. Where that is not known, or is
/// gone, they are sent from the first.
pub proof fn messages_are_sent_from_behind_the_last(messages: Seq<Message>, id: Seq<char>, k: int)
    ensures
        first_unsynced(messages, None) == 0,
        (forall|j: int| 0 <= j < messages.len() ==> (#[trigger] messages[j]).id@ != id)
            ==> first_unsynced(messages, Some(id)) == 0,
        0 <= k < messages.len() && messages[k].id@ == id && (forall|j: int|
            0 <= j < k ==> (#[trigger] messages[j]).id@ != id) ==> first_unsynced(
            messages,
            Some(id),
        ) == k + 1,
{
    if forall|j: int| 0 <= j < messages.len() ==> (#[trigger] messages[j]).id@ != id {
        lemma_place_missing(messages, id);
    }
    if 0 <= k < messages.len() && messages[k].id@ == id && (forall|j: int|
        0 <= j < k ==> (#[trigger] messages[j]).id@ != id) {
        lemma_place_behind(messages, id, k);
    }
}

/// A message goes to the room of its channel, in the name of the user of whoever wrote it, and
/// in the thread of the message that it replies to, where that was sent.
pub proof fn messages_go_to_the_room_of_their_channel(
    state: MatrixBridgeState,
    channel: Seq<char>,
    message: Message,
    step: ChannelStep,
)
    ensures
        sends_message(state, channel, message, step) <==> (step matches ChannelStep::Send {
            room_id,
            sender_user_id,
            body,
            thread_parent,
        } && room_id@ == state.rooms@[channel] && sender_user_id@ == state.users@[message.from@]
            && body@ == matrix_body(message.content@) && match message.thread_parent_id {
            Some(id) => if state.matrix_events@.contains_key(id@) {
                thread_parent is Some && thread_parent->0@ == state.matrix_events@[id@]
            } else {
                thread_parent is None
            },
            None => thread_parent is None,
        }),
{
}

/// An object is of a tool where its type says so, and a list where all its items are; nothing
/// else is.
pub proof fn tools_are_known_by_their_type(j: JsonView)
    ensures
        j is Obj ==> (is_tool(j) <==> j.field("type"@) == Some(JsonView::Str("tool_use"@)) || j.field(
            "type"@,
        ) == Some(JsonView::Str("tool_result"@))),
        j matches JsonView::Arr(items) ==> (is_tool(j) <==> forall|i: int|
            0 <= i < items.len() ==> is_tool(#[trigger] items[i])),
        !(j is Obj) && !(j is Arr) ==> !is_tool(j),
{
    if let JsonView::Arr(items) = j {
        if is_tool(j) {
            assert forall|i: int| 0 <= i < items.len() implies is_tool(#[trigger] items[i]) by {
                assert(is_tool(j->Arr_0[i]));
            }
        } else {
            let s = j->Arr_0;
            assert(!(forall|i: int| 0 <= i < s.len() ==> is_tool(#[trigger] s[i])));
        }
    }
}

/// A message is sent as a block of code exactly where it is JSON of a tool that can be written
/// out and no such block yet; every other message is sent as it is.
pub proof fn only_tools_become_blocks_of_code(content: Seq<char>, j: JsonView, text: Seq<char>)
    ensures
        !starts(trim(content), "```"@) && parsed_text(trim(content)) == Some(j) && is_tool(j)
            && pretty_text(j) == Some(text) ==> matrix_body(content) == "```json\n"@ + text
            + "\n```"@,
        starts(trim(content), "```"@) ==> matrix_body(content) == content,
        parsed_text(trim(content)) is None ==> matrix_body(content) == content,
        parsed_text(trim(content)) == Some(j) && (!is_tool(j) || pretty_text(j) is None)
            ==> matrix_body(content) == content,
        OUTBOUND_SYNC_INTERVAL_MS == 1000,
{
}

} // verus!
