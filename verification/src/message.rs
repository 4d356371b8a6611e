//! Messages in a channel.

use vstd::prelude::*;

use crate::stamp::{is_utc_time, is_uuid, new_uuid, now_rfc3339};
use crate::text::opt;

verus! {

/// The kinds of message.
#[derive(Debug, Clone, Copy, PartialEq, Eq, Structural)]
pub enum MessageType {
    Text,
    System,
    Command,
    Status,
    Error,
    /// What someone does, told in the third person.
    Action,
    /// A finding about the code.
    Insight,
}

impl Default for MessageType {
    fn default() -> (r: MessageType)
        ensures
            r is Text,
    {
        MessageType::Text
    }
}

/// A message in a channel.
#[derive(Debug)]
pub struct Message {
    pub id: String,
    /// The time of writing, in the form of RFC 3339.
    pub timestamp: String,
    pub from: String,
    pub content: String,
    pub message_type: MessageType,
    pub channel: Option<String>,
    /// The channel that the message was posted in first, where it was posted again.
    pub source_channel: Option<String>,
    /// The session that wrote the message.
    pub session_id: Option<String>,
    /// The message that this one replies to.
    pub thread_parent_id: Option<String>,
}

impl Message {
    /// The message says this, and is bound to no other message, session or channel.
    pub open spec fn says(
        self,
        from: Seq<char>,
        content: Seq<char>,
        message_type: MessageType,
        channel: Option<Seq<char>>,
    ) -> bool {
        &&& self.from@ == from
        &&& self.content@ == content
        &&& self.message_type == message_type
        &&& opt(self.channel) == channel
        &&& self.source_channel is None
        &&& self.session_id is None
        &&& self.thread_parent_id is None
    }

    /// The identifier and the time of the message have the form of those that are made up.
    pub open spec fn is_fresh(self) -> bool {
        &&& is_uuid(self.id@)
        &&& is_utc_time(self.timestamp@)
    }

    /// A message with the given identifier and time.
    pub fn stamped(
        id: String,
        timestamp: String,
        from: &str,
        content: &str,
        message_type: MessageType,
    ) -> (r: Message)
        ensures
            r.says(from@, content@, message_type, None),
            r.id == id,
            r.timestamp == timestamp,
    {
        Message {
            id,
            timestamp,
            from: from.to_owned(),
            content: content.to_owned(),
            message_type,
            channel: None,
            source_channel: None,
            session_id: None,
            thread_parent_id: None,
        }
    }

    /// A message written now.
    pub fn new(from: &str, content: &str, message_type: MessageType) -> (r: Message)
        ensures
            r.says(from@, content@, message_type, None),
            r.is_fresh(),
    {
        Message::stamped(new_uuid(), now_rfc3339(), from, content, message_type)
    }

    /// A message for a channel.
    pub fn for_channel(channel: &str, from: &str, content: &str, message_type: MessageType) -> (r:
        Message)
        ensures
            r.says(from@, content@, message_type, Some(channel@)),
            r.is_fresh(),
    {
        let mut msg = Message::new(from, content, message_type);
        msg.channel = Some(channel.to_owned());
        msg
    }

    /// A reply to another message of a channel.
    pub fn thread_reply(
        channel: &str,
        from: &str,
        content: &str,
        thread_parent_id: &str,
        message_type: MessageType,
    ) -> (r: Message)
        ensures
            opt(r.thread_parent_id) == Some(thread_parent_id@),
            (Message { thread_parent_id: None, ..r }).says(
                from@,
                content@,
                message_type,
                Some(channel@),
            ),
            r.is_fresh(),
    {
        let mut msg = Message::for_channel(channel, from, content, message_type);
        msg.thread_parent_id = Some(thread_parent_id.to_owned());
        msg
    }

    /// The channel that the message belongs to.
    pub open spec fn in_channel(self) -> Seq<char> {
        match opt(self.channel) {
            Some(c) => c,
            None => "midtown"@,
        }
    }

    pub fn channel_name(&self) -> (r: &str)
        ensures
            r@ == self.in_channel(),
    {
        match &self.channel {
            Some(c) => c.as_str(),
            None => "midtown",
        }
    }

    pub fn text(from: &str, content: &str) -> (r: Message)
        ensures
            r.says(from@, content@, MessageType::Text, None),
            r.is_fresh(),
    {
        Message::new(from, content, MessageType::Text)
    }

    /// A message of the daemon.
    pub fn system(content: &str) -> (r: Message)
        ensures
            r.says("daemon"@, content@, MessageType::System, None),
            r.is_fresh(),
    {
        Message::new("daemon", content, MessageType::System)
    }

    pub fn command(from: &str, content: &str) -> (r: Message)
        ensures
            r.says(from@, content@, MessageType::Command, None),
            r.is_fresh(),
    {
        Message::new(from, content, MessageType::Command)
    }

    pub fn status(from: &str, content: &str) -> (r: Message)
        ensures
            r.says(from@, content@, MessageType::Status, None),
            r.is_fresh(),
    {
        Message::new(from, content, MessageType::Status)
    }

    pub fn error(from: &str, content: &str) -> (r: Message)
        ensures
            r.says(from@, content@, MessageType::Error, None),
            r.is_fresh(),
    {
        Message::new(from, content, MessageType::Error)
    }

    pub fn action(from: &str, content: &str) -> (r: Message)
        ensures
            r.says(from@, content@, MessageType::Action, None),
            r.is_fresh(),
    {
        Message::new(from, content, MessageType::Action)
    }

    pub fn insight(from: &str, content: &str) -> (r: Message)
        ensures
            r.says(from@, content@, MessageType::Insight, None),
            r.is_fresh(),
    {
        Message::new(from, content, MessageType::Insight)
    }
}

/// A message that says something has that sender, that content, that kind and that channel, and
/// is bound to nothing else.
pub proof fn messages_say_who_wrote_what(
    m: Message,
    from: Seq<char>,
    content: Seq<char>,
    message_type: MessageType,
    channel: Option<Seq<char>>,
)
    requires
        m.says(from, content, message_type, channel),
    ensures
        m.from@ == from,
        m.content@ == content,
        m.message_type == message_type,
        channel matches Some(c) ==> (m.channel matches Some(own) && own@ == c),
        channel is None ==> m.channel is None,
        m.source_channel is None,
        m.session_id is None,
        m.thread_parent_id is None,
{
}

/// A message belongs to its channel, and one without a channel to that of the project.
pub proof fn messages_belong_to_a_channel(m: Message)
    ensures
        m.channel matches Some(c) ==> m.in_channel() == c@,
        m.channel is None ==> m.in_channel() == "midtown"@,
{
}

} // verus!
