//! Requests to a Matrix server, and what its replies mean.

use vstd::prelude::*;

use vstd::utf8::encode_utf8;

use crate::hex::{encoded, is_token, percent_encode, random_token};
use crate::json::{no_fields, text_of, Json, JsonView};
use crate::json_text::{pretty_text, print_pretty};
use crate::text::{
    concat2, concat3, concat4, is_blank, opt, opt_str, split, split_on, starts, strip_prefix, texts,
    trim,
};

verus! {

/// A client of a Matrix server.
#[derive(Debug)]
pub struct MatrixClient {
    pub homeserver_url: String,
    pub homeserver_domain: String,
    pub access_token: String,
}

pub enum HttpMethod {
    Get,
    Post,
    Put,
}

/// A request, which is sent with the access token.
pub struct HttpRequest {
    pub method: HttpMethod,
    pub url: String,
    pub body: Option<Json>,
}

/// The reply to a request.
pub struct HttpReply {
    pub status: u16,
    /// The status with what it means.
    pub status_text: String,
    /// What the reply says, or why that could not be read.
    pub body: Result<Json, String>,
}

impl HttpReply {
    pub open spec fn is_success(self) -> bool {
        200 <= self.status && self.status <= 299
    }

    /// The text of a field of the reply.
    pub open spec fn text_field(self, key: Seq<char>) -> Option<Seq<char>> {
        match self.body {
            Ok(j) => text_of(j.jv().field(key)),
            Err(_) => None,
        }
    }

    /// What the reply says of an error.
    pub open spec fn details(self) -> Seq<char> {
        match self.text_field("error"@) {
            Some(s) => s,
            None => "no details"@,
        }
    }

    fn succeeded(&self) -> (r: bool)
        ensures
            r == self.is_success(),
    {
        200 <= self.status && self.status <= 299
    }

    fn text_of_field(&self, key: &str) -> (r: Option<&str>)
        ensures
            opt_str(r) == self.text_field(key@),
    {
        match &self.body {
            Ok(j) => match j.get(key) {
                Some(v) => v.as_str(),
                None => None,
            },
            Err(_) => None,
        }
    }

    fn error_details(&self) -> (r: &str)
        ensures
            r@ == self.details(),
    {
        match self.text_of_field("error") {
            Some(s) => s,
            None => "no details",
        }
    }
}

/// `s` without the slashes at its end.
pub open spec fn without_end_slashes(s: Seq<char>) -> Seq<char>
    decreases s.len(),
{
    if s.len() > 0 && s.last() == '/' {
        without_end_slashes(s.drop_last())
    } else {
        s
    }
}

/// `s` without a start, as often as it stands there.
pub open spec fn without_starts(s: Seq<char>, start: Seq<char>) -> Seq<char>
    decreases s.len(),
{
    if start.len() > 0 && starts(s, start) {
        without_starts(s.skip(start.len() as int), start)
    } else {
        s
    }
}

/// The domain of a server: what stands in its address between the scheme and the path.
pub open spec fn domain_of(url: Seq<char>) -> Seq<char> {
    let without_scheme = without_starts(
        without_starts(without_end_slashes(url), "http://"@),
        "https://"@,
    );
    let domain = split(without_scheme, '/')[0];
    if domain.len() == 0 {
        "matrix.local"@
    } else {
        domain
    }
}

fn strip_end_slashes(s: &str) -> (r: String)
    ensures
        r@ == without_end_slashes(s@),
{
    let v = crate::text::chars_of(s);
    let mut n: usize = v.len();
    assert(s@.take(n as int) =~= s@);
    while n > 0 && v[n - 1] == '/'
        invariant
            n <= v.len(),
            v@ == s@,
            without_end_slashes(s@) == without_end_slashes(s@.take(n as int)),
        decreases n,
    {
        assert(s@.take(n as int).last() == '/');
        assert(s@.take(n as int).drop_last() =~= s@.take(n - 1));
        n -= 1;
    }
    let r = crate::text::slice(&v, 0, n);
    assert(r@ =~= s@.take(n as int));
    assert(n > 0 ==> s@.take(n as int).last() == v@[n - 1]);
    r
}

fn strip_starts(s: &str, start: &str) -> (r: String)
    requires
        start@.len() > 0,
    ensures
        r@ == without_starts(s@, start@),
{
    let mut r = s.to_owned();
    loop
        invariant
            start@.len() > 0,
            without_starts(r@, start@) == without_starts(s@, start@),
        ensures
            r@ == without_starts(s@, start@),
        decreases r@.len(),
    {
        match strip_prefix(r.as_str(), start) {
            Some(rest) => {
                r = rest;
            },
            None => {
                break;
            },
        }
    }
    r
}

/// The domain of a server.
pub fn infer_homeserver_domain(homeserver_url: &str) -> (r: String)
    ensures
        r@ == domain_of(homeserver_url@),
{
    proof {
        reveal_strlit("http://");
        reveal_strlit("https://");
    }
    let without_path = strip_end_slashes(homeserver_url);
    let without_http = strip_starts(without_path.as_str(), "http://");
    let without_scheme = strip_starts(without_http.as_str(), "https://");
    let parts = split_on(without_scheme.as_str(), '/');
    proof {
        assert(texts(parts@)[0] == parts@[0]@);
    }
    if parts[0].as_str().is_empty() {
        "matrix.local".to_owned()
    } else {
        parts[0].clone()
    }
}

/// Where a room is looked for by its alias.
pub open spec fn directory_url(base: Seq<char>, alias: Seq<char>) -> Seq<char> {
    base + "/_matrix/client/v3/directory/room/"@ + encoded(encode_utf8(alias))
}

/// Where a message is sent.
pub open spec fn send_url(base: Seq<char>, room_id: Seq<char>, txn_id: Seq<char>) -> Seq<char> {
    base + "/_matrix/client/v3/rooms/"@ + encoded(encode_utf8(room_id))
        + "/send/m.room.message/"@ + txn_id
}

/// The alias of a channel on a server.
pub open spec fn room_alias(channel: Seq<char>, domain: Seq<char>) -> Seq<char> {
    "#"@ + channel + ":"@ + domain
}

/// The user of a name on a server.
pub open spec fn user_of(name: Seq<char>, domain: Seq<char>) -> Seq<char> {
    "@"@ + name + ":"@ + domain
}

/// What registers a user.
pub open spec fn register_body(username: Seq<char>) -> JsonView {
    no_fields().with(
        "auth"@,
        no_fields().with("type"@, JsonView::Str("m.login.application_service"@)),
    ).with("username"@, JsonView::Str(username))
}

/// What creates a room.
pub open spec fn create_body(alias: Seq<char>, channel: Seq<char>) -> JsonView {
    no_fields().with("name"@, JsonView::Str(alias)).with(
        "room_alias_name"@,
        JsonView::Str(channel),
    ).with("preset"@, JsonView::Str("private_chat"@)).with(
        "visibility"@,
        JsonView::Str("private"@),
    )
}

/// What sends a message, in a thread where it replies to another.
pub open spec fn message_body(body: Seq<char>, parent: Option<Seq<char>>) -> JsonView {
    let plain = no_fields().with("msgtype"@, JsonView::Str("m.text"@)).with(
        "body"@,
        JsonView::Str(body),
    );
    match parent {
        Some(event) => plain.with(
            "m.relates_to"@,
            no_fields().with(
                "m.in_reply_to"@,
                no_fields().with("event_id"@, JsonView::Str(event)),
            ).with("rel_type"@, JsonView::Str("m.thread"@)),
        ),
        None => plain,
    }
}

/// The request is this one.
pub open spec fn asks(
    request: HttpRequest,
    method: HttpMethod,
    url: Seq<char>,
    body: Option<JsonView>,
) -> bool {
    &&& request.method == method
    &&& request.url@ == url
    &&& match request.body {
        Some(j) => body == Some(j.jv()),
        None => body is None,
    }
}

/// What is done for a room.
pub enum RoomStep {
    Found(String),
    Create(HttpRequest),
}

/// What is done to send a message.
pub enum SendStep {
    /// There is nothing to send.
    Nothing,
    Request(HttpRequest),
}

/// What is said of a request that was refused.
pub open spec fn refusal(what: Seq<char>, reply: HttpReply) -> Seq<char> {
    what + ": "@ + reply.status_text@ + " "@ + reply.details()
}

fn refusal_of(what: &str, reply: &HttpReply) -> (r: String)
    ensures
        r@ == refusal(what@, *reply),
{
    let start = concat4(what, ": ", reply.status_text.as_str(), " ");
    concat2(start.as_str(), reply.error_details())
}

impl MatrixClient {
    pub fn new(homeserver_url: &str, access_token: &str) -> (r: MatrixClient)
        ensures
            r.homeserver_url@ == without_end_slashes(homeserver_url@),
            r.homeserver_domain@ == domain_of(r.homeserver_url@),
            r.access_token@ == access_token@,
    {
        let homeserver_url = strip_end_slashes(homeserver_url);
        let homeserver_domain = infer_homeserver_domain(homeserver_url.as_str());
        MatrixClient { homeserver_url, homeserver_domain, access_token: access_token.to_owned() }
    }

    pub fn homeserver_domain(&self) -> (r: &str)
        ensures
            r@ == self.homeserver_domain@,
    {
        self.homeserver_domain.as_str()
    }

    /// The user of a name.
    pub fn user_id(&self, username: &str) -> (r: String)
        ensures
            r@ == user_of(username@, self.homeserver_domain@),
    {
        concat4("@", username, ":", self.homeserver_domain.as_str())
    }

    /// The request that registers a user for a name.
    pub fn ensure_virtual_user_exists(&self, username: &str) -> (r: Result<HttpRequest, String>)
        ensures
            match r {
                Ok(request) => trim(username@).len() > 0 && asks(
                    request,
                    HttpMethod::Post,
                    self.homeserver_url@ + "/_matrix/client/v3/register"@,
                    Some(register_body(username@)),
                ),
                Err(message) => trim(username@).len() == 0 && message@
                    == "username cannot be empty"@,
            },
    {
        if is_blank(username) {
            return Err("username cannot be empty".to_owned());
        }
        let auth = Json::object().with("type", Json::text("m.login.application_service"));
        let body = Json::object().with("auth", auth).with("username", Json::text(username));
        Ok(
            HttpRequest {
                method: HttpMethod::Post,
                url: concat2(self.homeserver_url.as_str(), "/_matrix/client/v3/register"),
                body: Some(body),
            },
        )
    }

    /// A user exists: it has been registered, or had been before.
    pub open spec fn user_is_there(reply: HttpReply) -> bool {
        reply.is_success() || (reply.status == 400 && reply.text_field("errcode"@) == Some(
            "M_USER_IN_USE"@,
        ))
    }

    /// What the reply to registering a user means.
    pub fn virtual_user_result(&self, username: &str, reply: Result<HttpReply, String>) -> (r:
        Result<(), String>)
        ensures
            match (reply, r) {
                (Ok(x), Ok(())) => MatrixClient::user_is_there(x),
                (Ok(x), Err(message)) => !MatrixClient::user_is_there(x) && message@ == refusal(
                    "failed to ensure virtual user '"@ + username@ + "'"@,
                    x,
                ),
                (Err(e), Ok(())) => false,
                (Err(e), Err(message)) => message@ == "failed to register virtual user '"@
                    + username@ + "': "@ + e@,
            },
    {
        match reply {
            Ok(x) => {
                if x.succeeded() {
                    return Ok(());
                }
                if x.status == 400 {
                    if let Some(code) = x.text_of_field("errcode") {
                        if crate::text::same(code, "M_USER_IN_USE") {
                            return Ok(());
                        }
                    }
                }
                let what = concat3("failed to ensure virtual user '", username, "'");
                Err(refusal_of(what.as_str(), &x))
            },
            Err(e) => Err(
                concat4("failed to register virtual user '", username, "': ", e.as_str()),
            ),
        }
    }

    /// The request that looks for the room of a channel.
    pub fn ensure_room_exists(&self, channel_name: &str) -> (r: Result<HttpRequest, String>)
        ensures
            match r {
                Ok(request) => trim(channel_name@).len() > 0 && asks(
                    request,
                    HttpMethod::Get,
                    directory_url(
                        self.homeserver_url@,
                        room_alias(channel_name@, self.homeserver_domain@),
                    ),
                    None,
                ),
                Err(message) => trim(channel_name@).len() == 0 && message@
                    == "channel name cannot be empty"@,
            },
    {
        if is_blank(channel_name) {
            return Err("channel name cannot be empty".to_owned());
        }
        let alias = concat4("#", channel_name, ":", self.homeserver_domain.as_str());
        Ok(
            HttpRequest {
                method: HttpMethod::Get,
                url: concat3(
                    self.homeserver_url.as_str(),
                    "/_matrix/client/v3/directory/room/",
                    percent_encode(alias.as_str()).as_str(),
                ),
                body: None,
            },
        )
    }

    /// What the reply to looking for a room means: it is there, it is to be created, or the
    /// reply is an error. A room whose name the reply does not tell is created.
    pub fn room_lookup_result(&self, channel_name: &str, reply: Result<HttpReply, String>) -> (r:
        Result<RoomStep, String>)
        ensures
            ({
                let alias = room_alias(channel_name@, self.homeserver_domain@);
                match reply {
                    Err(e) => r matches Err(message) && message@
                        == "failed to check room alias '"@ + alias + "': "@ + e@,
                    Ok(x) => if x.is_success() && x.body is Err {
                        r matches Err(message) && message@
                            == "failed to parse Matrix API response: "@ + x.body->Err_0@
                    } else if x.is_success() && x.text_field("room_id"@) is Some {
                        r matches Ok(RoomStep::Found(id)) && Some(id@) == x.text_field("room_id"@)
                    } else if x.is_success() || x.status == 404 {
                        r matches Ok(RoomStep::Create(request)) && asks(
                            request,
                            HttpMethod::Post,
                            self.homeserver_url@ + "/_matrix/client/v3/createRoom"@,
                            Some(create_body(alias, channel_name@)),
                        )
                    } else {
                        r matches Err(message) && message@ == refusal(
                            "failed to lookup room alias '"@ + alias + "'"@,
                            x,
                        )
                    },
                }
            }),
    {
        let alias = concat4("#", channel_name, ":", self.homeserver_domain.as_str());
        match reply {
            Err(e) => Err(
                concat4("failed to check room alias '", alias.as_str(), "': ", e.as_str()),
            ),
            Ok(x) => {
                if x.succeeded() {
                    if let Err(e) = &x.body {
                        return Err(concat2("failed to parse Matrix API response: ", e.as_str()));
                    }
                    if let Some(id) = x.text_of_field("room_id") {
                        return Ok(RoomStep::Found(id.to_owned()));
                    }
                } else if x.status != 404 {
                    let what = concat3("failed to lookup room alias '", alias.as_str(), "'");
                    return Err(refusal_of(what.as_str(), &x));
                }
                let body = Json::object().with("name", Json::text(alias.as_str())).with(
                    "room_alias_name",
                    Json::text(channel_name),
                ).with("preset", Json::text("private_chat")).with(
                    "visibility",
                    Json::text("private"),
                );
                Ok(
                    RoomStep::Create(
                        HttpRequest {
                            method: HttpMethod::Post,
                            url: concat2(
                                self.homeserver_url.as_str(),
                                "/_matrix/client/v3/createRoom",
                            ),
                            body: Some(body),
                        },
                    ),
                )
            },
        }
    }

    /// What the reply to creating a room means.
    pub fn room_creation_result(&self, channel_name: &str, reply: Result<HttpReply, String>) -> (r:
        Result<String, String>)
        ensures
            match reply {
                Err(e) => r matches Err(message) && message@ == "failed to create room '"@
                    + room_alias(channel_name@, self.homeserver_domain@) + "': "@ + e@,
                Ok(x) => if !x.is_success() {
                    r matches Err(message) && message@ == refusal(
                        "failed to create room '"@ + channel_name@ + "'"@,
                        x,
                    )
                } else if x.body is Err {
                    r matches Err(message) && message@
                        == "failed to parse Matrix API response: "@ + x.body->Err_0@
                } else {
                    match x.text_field("room_id"@) {
                        Some(id) => r matches Ok(found) && found@ == id,
                        None => r matches Err(message) && message@
                            == "room creation response missing room_id"@,
                    }
                },
            },
    {
        match reply {
            Err(e) => {
                let alias = concat4("#", channel_name, ":", self.homeserver_domain.as_str());
                Err(concat4("failed to create room '", alias.as_str(), "': ", e.as_str()))
            },
            Ok(x) => {
                if !x.succeeded() {
                    let what = concat3("failed to create room '", channel_name, "'");
                    return Err(refusal_of(what.as_str(), &x));
                }
                if let Err(e) = &x.body {
                    return Err(concat2("failed to parse Matrix API response: ", e.as_str()));
                }
                match x.text_of_field("room_id") {
                    Some(id) => Ok(id.to_owned()),
                    None => Err("room creation response missing room_id".to_owned()),
                }
            },
        }
    }

    /// The request with a given identifier that sends a message. A message that says nothing
    /// is not sent.
    pub fn message_request(
        &self,
        room_id: &str,
        sender_user_id: &str,
        body: &str,
        thread_parent_event_id: Option<&str>,
        txn_id: &str,
    ) -> (r: Result<SendStep, String>)
        ensures
            sends(
                self.homeserver_url@,
                room_id@,
                sender_user_id@,
                body@,
                opt_str(thread_parent_event_id),
                txn_id@,
                r,
            ),
    {
        if room_id.is_empty() || sender_user_id.is_empty() {
            return Err("room_id and sender_user_id are required".to_owned());
        }
        if body.is_empty() {
            return Ok(SendStep::Nothing);
        }
        let plain = Json::object().with("msgtype", Json::text("m.text")).with(
            "body",
            Json::text(body),
        );
        let payload = match thread_parent_event_id {
            Some(parent) if !parent.is_empty() => {
                let reply = Json::object().with("event_id", Json::text(parent));
                let relation = Json::object().with("m.in_reply_to", reply).with(
                    "rel_type",
                    Json::text("m.thread"),
                );
                plain.with("m.relates_to", relation)
            },
            _ => plain,
        };
        let start = concat3(
            self.homeserver_url.as_str(),
            "/_matrix/client/v3/rooms/",
            percent_encode(room_id).as_str(),
        );
        Ok(
            SendStep::Request(
                HttpRequest {
                    method: HttpMethod::Put,
                    url: concat3(start.as_str(), "/send/m.room.message/", txn_id),
                    body: Some(payload),
                },
            ),
        )
    }

    /// The request that sends a message.
    pub fn send_message(
        &self,
        room_id: &str,
        sender_user_id: &str,
        body: &str,
        thread_parent_event_id: Option<&str>,
    ) -> (r: Result<SendStep, String>)
        ensures
            exists|txn_id: Seq<char>| #[trigger]
                is_token(txn_id) && sends(
                    self.homeserver_url@,
                    room_id@,
                    sender_user_id@,
                    body@,
                    opt_str(thread_parent_event_id),
                    txn_id,
                    r,
                ),
    {
        let txn_id = random_token();
        self.message_request(
            room_id,
            sender_user_id,
            body,
            thread_parent_event_id,
            txn_id.as_str(),
        )
    }

    /// What the reply to sending a message means: the event that it became, or nothing where
    /// the reply does not tell.
    pub fn send_result(
        &self,
        room_id: &str,
        sender_user_id: &str,
        reply: Result<HttpReply, String>,
    ) -> (r: Result<String, String>)
        ensures
            ({
                let what = "failed to send Matrix message to "@ + room_id@ + " as "@
                    + sender_user_id@;
                match reply {
                    Err(e) => r matches Err(message) && message@ == what + ": "@ + e@,
                    Ok(x) => if !x.is_success() {
                        r matches Err(message) && message@ == refusal(what, x)
                    } else if x.body is Err {
                        r matches Err(message) && message@
                            == "failed to parse Matrix API response: "@ + x.body->Err_0@
                    } else {
                        r matches Ok(event) && event@ == match x.text_field("event_id"@) {
                            Some(id) => id,
                            None => Seq::empty(),
                        }
                    },
                }
            }),
    {
        let what = concat4("failed to send Matrix message to ", room_id, " as ", sender_user_id);
        match reply {
            Err(e) => Err(concat3(what.as_str(), ": ", e.as_str())),
            Ok(x) => {
                if !x.succeeded() {
                    return Err(refusal_of(what.as_str(), &x));
                }
                if let Err(e) = &x.body {
                    return Err(concat2("failed to parse Matrix API response: ", e.as_str()));
                }
                match x.text_of_field("event_id") {
                    Some(id) => Ok(id.to_owned()),
                    None => {
                        let nothing = String::new();
                        assert(nothing@ =~= Seq::<char>::empty());
                        Ok(nothing)
                    },
                }
            },
        }
    }

    /// The request that posts a value as a block of code, in the name of the bridge.
    pub fn post_tool_payload(&self, room_id: &str, payload: &Json) -> (r: Result<SendStep, String>)
        ensures
            if room_id@.len() == 0 {
                r matches Err(message) && message@ == "room_id is required"@
            } else if payload is Null {
                r matches Err(message) && message@ == "payload cannot be null"@
            } else {
                match pretty_text(payload.jv()) {
                    None => r matches Err(message) && message@ == "failed to serialize payload"@,
                    Some(text) => exists|txn_id: Seq<char>| #[trigger]
                        is_token(txn_id) && sends(
                            self.homeserver_url@,
                            room_id@,
                            user_of("midtown"@, self.homeserver_domain@),
                            code_block(text),
                            None,
                            txn_id,
                            r,
                        ),
                }
            },
    {
        if room_id.is_empty() {
            return Err("room_id is required".to_owned());
        }
        if let Json::Null = payload {
            return Err("payload cannot be null".to_owned());
        }
        match print_pretty(payload) {
            Some(text) => {
                let body = concat3("```json\n", text.as_str(), "\n```");
                let sender = self.user_id("midtown");
                self.send_message(room_id, sender.as_str(), body.as_str(), None)
            },
            None => Err("failed to serialize payload".to_owned()),
        }
    }
}

/// A block of code that holds a value.
pub open spec fn code_block(text: Seq<char>) -> Seq<char> {
    "```json\n"@ + text + "\n```"@
}

/// What is done to send a message, with a given identifier of the request.
pub open spec fn sends(
    base: Seq<char>,
    room_id: Seq<char>,
    sender: Seq<char>,
    body: Seq<char>,
    parent: Option<Seq<char>>,
    txn_id: Seq<char>,
    r: Result<SendStep, String>,
) -> bool {
    if room_id.len() == 0 || sender.len() == 0 {
        r matches Err(message) && message@ == "room_id and sender_user_id are required"@
    } else if body.len() == 0 {
        r matches Ok(step) && step is Nothing
    } else {
        let thread = match parent {
            Some(event) => if event.len() > 0 {
                Some(event)
            } else {
                None
            },
            None => None,
        };
        r matches Ok(SendStep::Request(request)) && asks(
            request,
            HttpMethod::Put,
            send_url(base, room_id, txn_id),
            Some(message_body(body, thread)),
        )
    }
}

/// A reply is a success from 200 to 299; its fields are those of what it says, and what it says
/// of an error is told.
pub proof fn replies_tell_how_it_went(reply: HttpReply, key: Seq<char>)
    ensures
        reply.is_success() <==> 200 <= reply.status < 300,
        reply.body is Err ==> reply.text_field(key) is None,
        reply.body matches Ok(j) ==> reply.text_field(key) == text_of(j.jv().field(key)),
        reply.text_field("error"@) matches Some(s) ==> reply.details() == s,
        reply.text_field("error"@) is None ==> reply.details() == "no details"@,
{
}

/// A refusal tells what was tried, the status and what the reply says of the error.
pub proof fn refusals_tell_what_was_tried(what: Seq<char>, reply: HttpReply)
    ensures
        refusal(what, reply) == what + ": "@ + reply.status_text@ + " "@ + reply.details(),
{
}

/// A user is there where registering it succeeded, or failed because the name is taken.
pub proof fn taken_names_are_users_that_are_there(reply: HttpReply)
    ensures
        MatrixClient::user_is_there(reply) <==> 200 <= reply.status < 300 || (reply.status == 400
            && reply.text_field("errcode"@) == Some("M_USER_IN_USE"@)),
{
}

/// Only slashes at the end are dropped, and all of them.
pub proof fn only_slashes_at_the_end_are_dropped(s: Seq<char>)
    ensures
        exists|k: int| #![trigger s.take(k)]
            0 <= k <= s.len() && without_end_slashes(s) == s.take(k) && (forall|i: int|
                k <= i < s.len() ==> #[trigger] s[i] == '/') && (k > 0 ==> s[k - 1] != '/'),
    decreases s.len(),
{
    if s.len() > 0 && s.last() == '/' {
        let init = s.drop_last();
        only_slashes_at_the_end_are_dropped(init);
        let k = choose|k: int| #![trigger init.take(k)]
            0 <= k <= init.len() && without_end_slashes(init) == init.take(k) && (forall|i: int|
                k <= i < init.len() ==> #[trigger] init[i] == '/') && (k > 0 ==> init[k - 1] != '/');
        assert(init.take(k) =~= s.take(k));
        assert forall|i: int| k <= i < s.len() implies #[trigger] s[i] == '/' by {
            if i < init.len() {
                assert(init[i] == s[i]);
            }
        }
        if k > 0 {
            assert(init[k - 1] == s[k - 1]);
        }
    } else {
        assert(s.take(s.len() as int) =~= s);
    }
}

/// A start is dropped as often as it stands there.
pub proof fn starts_are_dropped_as_often_as_they_stand(s: Seq<char>, start: Seq<char>)
    requires
        start.len() > 0,
    ensures
        without_starts(start + s, start) == without_starts(s, start),
        !starts(s, start) ==> without_starts(s, start) == s,
{
    assert((start + s).subrange(0, start.len() as int) =~= start);
    assert((start + s).skip(start.len() as int) =~= s);
}

proof fn lemma_first_piece(d: Seq<char>, rest: Seq<char>)
    requires
        !d.contains('/'),
    ensures
        split(d, '/') == seq![d],
        split(d + seq!['/'] + rest, '/').len() >= 2,
        split(d + seq!['/'] + rest, '/')[0] == d,
    decreases d.len(), rest.len(),
{
    if d.len() == 0 {
        assert(d =~= Seq::<char>::empty());
        assert(split(d, '/') =~= seq![d]);
    } else {
        let init = d.drop_last();
        assert forall|i: int| 0 <= i < init.len() implies init[i] != '/' by {
            assert(d.contains(d[i]));
        }
        assert(d.contains(d.last()));
        lemma_first_piece(init, Seq::<char>::empty());
        assert(init.push(d.last()) =~= d);
        assert(split(d, '/') =~= seq![d]);
    }
    let s = d + seq!['/'] + rest;
    if rest.len() == 0 {
        assert(s.drop_last() =~= d);
        assert(s.last() == '/');
    } else {
        lemma_first_piece(d, rest.drop_last());
        assert(s.drop_last() =~= d + seq!['/'] + rest.drop_last());
    }
}

proof fn lemma_no_scheme(s: Seq<char>, scheme: Seq<char>, k: int)
    requires
        0 <= k < scheme.len(),
        k < s.len() ==> s[k] != scheme[k],
    ensures
        !starts(s, scheme),
{
    if starts(s, scheme) {
        assert(s.subrange(0, scheme.len() as int)[k] == s[k]);
    }
}

/// The domain is what stands in an address between the scheme and the first slash behind it.
pub proof fn domains_stand_between_scheme_and_path(domain: Seq<char>, path: Seq<char>)
    requires
        domain.len() > 0,
        !domain.contains('/'),
        domain != "http:"@,
        domain != "https:"@,
        path.len() > 0,
        path.last() != '/',
    ensures
        domain_of("http://"@ + domain) == domain,
        domain_of("https://"@ + domain) == domain,
        domain_of("http://"@ + domain + seq!['/'] + path) == domain,
        domain_of("https://"@ + domain + seq!['/'] + path) == domain,
        domain_of("http://"@ + domain + seq!['/']) == domain,
        domain_of("https://"@ + domain + seq!['/']) == domain,
        domain_of(domain) == domain,
        domain_of(Seq::<char>::empty()) == "matrix.local"@,
{
    reveal_strlit("http://");
    reveal_strlit("https://");
    let h = "http://"@;
    let t = "https://"@;
    assert(h.len() == 7 && t.len() == 8);
    assert(h[4] == ':' && h[5] == '/' && t[4] == 's' && t[6] == '/' && h[6] == '/' && t[7] == '/');
    let long = domain + seq!['/'] + path;
    assert(domain.contains(domain.last()));
    lemma_first_piece(domain, path);
    lemma_first_piece(Seq::<char>::empty(), path);
    assert(domain.take(domain.len() as int) =~= domain);
    assert(long.take(domain.len() as int) =~= domain);
    lemma_bare(domain, domain);
    lemma_bare(domain, long);
    lemma_one_scheme(domain);
    lemma_one_scheme(long);
    assert(h + domain + seq!['/'] + path =~= h + long);
    assert(t + domain + seq!['/'] + path =~= t + long);
    assert((h + domain + seq!['/']).drop_last() =~= h + domain);
    assert((t + domain + seq!['/']).drop_last() =~= t + domain);
    assert((h + domain).last() == domain.last() && (t + domain).last() == domain.last());
    assert(without_end_slashes(h + domain) == h + domain);
    assert(without_end_slashes(t + domain) == t + domain);
    assert(without_end_slashes(h + domain + seq!['/']) == h + domain);
    assert(without_end_slashes(t + domain + seq!['/']) == t + domain);
    let none = Seq::<char>::empty();
    assert(without_starts(none, h) == none);
    assert(without_starts(none, t) == none);
}

proof fn lemma_bare(domain: Seq<char>, s: Seq<char>)
    requires
        domain.len() > 0,
        !domain.contains('/'),
        s.len() >= domain.len(),
        s.take(domain.len() as int) == domain,
        s.len() > domain.len() ==> s[domain.len() as int] == '/',
    ensures
        !starts(s, "http://"@) || domain == "http:"@,
        !starts(s, "https://"@) || domain == "https:"@,
{
    reveal_strlit("http://");
    reveal_strlit("https://");
    reveal_strlit("http:");
    reveal_strlit("https:");
    let n = domain.len() as int;
    assert forall|i: int| 0 <= i < n implies s[i] == #[trigger] domain[i] && domain[i] != '/' by {
        assert(s.take(n)[i] == s[i]);
        assert(domain.contains(domain[i]));
    }
    if starts(s, "http://"@) {
        let front = s.subrange(0, 7);
        assert(front[5] == s[5] && front[5] == '/');
        assert(front[0] == s[0] && front[1] == s[1] && front[2] == s[2] && front[3] == s[3]
            && front[4] == s[4]);
        if n > 5 {
            assert(domain[5] == s[5]);
        }
        if n < 5 {
            assert(s[n] == '/');
            assert(front[n] == s[n]);
        }
        assert(domain =~= "http:"@);
    }
    if starts(s, "https://"@) {
        let front = s.subrange(0, 8);
        assert(front[6] == s[6] && front[6] == '/');
        assert(front[0] == s[0] && front[1] == s[1] && front[2] == s[2] && front[3] == s[3]
            && front[4] == s[4] && front[5] == s[5]);
        if n > 6 {
            assert(domain[6] == s[6]);
        }
        if n < 6 {
            assert(s[n] == '/');
            assert(front[n] == s[n]);
        }
        assert(domain =~= "https:"@);
    }
}

proof fn lemma_one_scheme(s: Seq<char>)
    ensures
        !starts(s, "http://"@) && !starts(s, "https://"@) ==> without_starts(
            without_starts("http://"@ + s, "http://"@),
            "https://"@,
        ) == s && without_starts(without_starts("https://"@ + s, "http://"@), "https://"@) == s,
{
    reveal_strlit("http://");
    reveal_strlit("https://");
    starts_are_dropped_as_often_as_they_stand(s, "http://"@);
    starts_are_dropped_as_often_as_they_stand(s, "https://"@);
    lemma_no_scheme("https://"@ + s, "http://"@, 4);
}

/// Each request goes to its own address below that of the server, with what is not plain
/// encoded.
pub proof fn requests_have_their_address(
    base: Seq<char>,
    alias: Seq<char>,
    room: Seq<char>,
    txn: Seq<char>,
)
    ensures
        directory_url(base, alias) == base + "/_matrix/client/v3/directory/room/"@ + encoded(
            encode_utf8(alias),
        ),
        send_url(base, room, txn) == base + "/_matrix/client/v3/rooms/"@ + encoded(encode_utf8(room))
            + "/send/m.room.message/"@ + txn,
{
}

/// A channel and a user are named with a sign at the front and their server behind a colon.
pub proof fn channels_and_users_are_named_with_their_server(name: Seq<char>, domain: Seq<char>)
    ensures
        room_alias(name, domain) == seq!['#'] + name + seq![':'] + domain,
        user_of(name, domain) == seq!['@'] + name + seq![':'] + domain,
{
    reveal_strlit("#");
    reveal_strlit("@");
    reveal_strlit(":");
    assert("#"@ =~= seq!['#']);
    assert("@"@ =~= seq!['@']);
    assert(":"@ =~= seq![':']);
}

/// A user is registered as one of the bridge, under its name.
pub proof fn users_are_registered_by_the_bridge(username: Seq<char>)
    ensures
        register_body(username).field("username"@) == Some(JsonView::Str(username)),
        register_body(username).field("auth"@) matches Some(auth) && auth.field("type"@) == Some(
            JsonView::Str("m.login.application_service"@),
        ),
{
    reveal_strlit("username");
    reveal_strlit("auth");
    assert("username"@.len() == 8);
    assert("auth"@.len() == 4);
}

/// A room is created for those who are asked in alone, under the name of its channel.
pub proof fn rooms_are_created_for_their_channel(alias: Seq<char>, channel: Seq<char>)
    ensures
        create_body(alias, channel).field("name"@) == Some(JsonView::Str(alias)),
        create_body(alias, channel).field("room_alias_name"@) == Some(JsonView::Str(channel)),
        create_body(alias, channel).field("preset"@) == Some(JsonView::Str("private_chat"@)),
        create_body(alias, channel).field("visibility"@) == Some(JsonView::Str("private"@)),
{
    reveal_strlit("name");
    reveal_strlit("room_alias_name");
    reveal_strlit("preset");
    reveal_strlit("visibility");
    assert("name"@.len() == 4);
    assert("room_alias_name"@.len() == 15);
    assert("preset"@.len() == 6);
    assert("visibility"@.len() == 10);
}

/// A message is sent as text, and in a thread exactly where it replies to another.
pub proof fn messages_are_sent_as_text(body: Seq<char>, event: Seq<char>)
    ensures
        message_body(body, None).field("msgtype"@) == Some(JsonView::Str("m.text"@)),
        message_body(body, None).field("body"@) == Some(JsonView::Str(body)),
        message_body(body, None).field("m.relates_to"@) is None,
        message_body(body, Some(event)).field("msgtype"@) == Some(JsonView::Str("m.text"@)),
        message_body(body, Some(event)).field("body"@) == Some(JsonView::Str(body)),
        message_body(body, Some(event)).field("m.relates_to"@) matches Some(relation) && (
        relation.field("rel_type"@) == Some(JsonView::Str("m.thread"@))) && (relation.field(
            "m.in_reply_to"@,
        ) matches Some(reply) && reply.field("event_id"@) == Some(JsonView::Str(event))),
{
    reveal_strlit("msgtype");
    reveal_strlit("body");
    reveal_strlit("m.relates_to");
    reveal_strlit("rel_type");
    reveal_strlit("m.in_reply_to");
    assert("msgtype"@.len() == 7);
    assert("body"@.len() == 4);
    assert("m.relates_to"@.len() == 12);
    assert("rel_type"@.len() == 8);
    assert("m.in_reply_to"@.len() == 13);
}

/// A request asks what its method, its address and its body say.
pub proof fn requests_ask_by_method_address_and_body(
    request: HttpRequest,
    method: HttpMethod,
    url: Seq<char>,
    body: JsonView,
)
    ensures
        asks(request, method, url, Some(body)) <==> request.method == method && request.url@ == url
            && (request.body matches Some(j) && j.jv() == body),
        asks(request, method, url, None) <==> request.method == method && request.url@ == url
            && request.body is None,
{
}

/// A message needs a room and a sender, and something to say; then it is put to the room under
/// the identifier of the request. An empty event is no thread.
pub proof fn messages_need_a_room_a_sender_and_a_text(
    base: Seq<char>,
    room: Seq<char>,
    sender: Seq<char>,
    body: Seq<char>,
    event: Seq<char>,
    txn: Seq<char>,
    r: Result<SendStep, String>,
)
    ensures
        room.len() == 0 || sender.len() == 0 ==> (sends(
            base,
            room,
            sender,
            body,
            Some(event),
            txn,
            r,
        ) <==> (r matches Err(message) && message@ == "room_id and sender_user_id are required"@)),
        room.len() > 0 && sender.len() > 0 && body.len() == 0 ==> (sends(
            base,
            room,
            sender,
            body,
            Some(event),
            txn,
            r,
        ) <==> (r matches Ok(SendStep::Nothing))),
        room.len() > 0 && sender.len() > 0 && body.len() > 0 && event.len() > 0 ==> (sends(
            base,
            room,
            sender,
            body,
            Some(event),
            txn,
            r,
        ) <==> (r matches Ok(SendStep::Request(q)) && asks(
            q,
            HttpMethod::Put,
            send_url(base, room, txn),
            Some(message_body(body, Some(event))),
        ))),
        room.len() > 0 && sender.len() > 0 && body.len() > 0 ==> (sends(
            base,
            room,
            sender,
            body,
            None,
            txn,
            r,
        ) <==> (r matches Ok(SendStep::Request(q)) && asks(
            q,
            HttpMethod::Put,
            send_url(base, room, txn),
            Some(message_body(body, None)),
        ))),
        event.len() == 0 ==> (sends(base, room, sender, body, Some(event), txn, r) <==> sends(
            base,
            room,
            sender,
            body,
            None,
            txn,
            r,
        )),
        code_block(body) == "```json\n"@ + body + "\n```"@,
{
}

} // verus!
