use midtown::json::Json;
use midtown::json_text::parse;
use midtown::matrix_bridge::as_server::{
    extract_message_body, handle_transaction, is_real_user, matrix_user_localpart,
    MatrixApplicationServiceState, MatrixEvent, MatrixTransaction,
};
use midtown::matrix_bridge::client::{
    infer_homeserver_domain, HttpMethod, HttpReply, HttpRequest, MatrixClient, RoomStep, SendStep,
};
use midtown::matrix_bridge::inbound::run_inbound_sync;
use midtown::matrix_bridge::state::MatrixBridgeState;
use midtown::matrix_bridge::sync::{
    first_unsynced_place, format_matrix_body, is_tool_payload, record_sent, room_for_channel,
    room_for_channel_name, run_outbound_sync, sync_channel, unsynced_messages, user_for_message,
    ChannelStep,
};
use midtown::matrix_bridge::{
    collect_channel_names, collect_coworker_identities, default_as_registration_config,
    default_conduit_config, is_channel_dir_name, regex_pattern, registration_config, run,
    MatrixBridgeConfig, SavedSession,
};
use midtown::message::{Message, MessageType};

fn client() -> MatrixClient {
    MatrixClient::new("http://localhost:6167/", "token")
}

fn reply(status: u16, body: &str) -> Result<HttpReply, String> {
    Ok(HttpReply { status, status_text: format!("{status} X"), body: Ok(parse(body).unwrap()) })
}

fn names(list: &[&str]) -> Vec<String> {
    list.iter().map(|n| n.to_string()).collect()
}

fn request(step: SendStep) -> HttpRequest {
    match step {
        SendStep::Request(request) => request,
        SendStep::Nothing => panic!("nothing is sent"),
    }
}

#[test]
fn domains_come_from_addresses() {
    assert_eq!(infer_homeserver_domain("https://matrix.org/base/"), "matrix.org");
    assert_eq!(infer_homeserver_domain("/"), "matrix.local");
    assert_eq!(client().homeserver_domain(), "localhost:6167");
    assert_eq!(client().user_id("park"), "@park:localhost:6167");
}

#[test]
fn users_are_registered_under_their_names() {
    let request = client().ensure_virtual_user_exists("park").ok().unwrap();
    assert!(matches!(request.method, HttpMethod::Post));
    assert_eq!(request.url, "http://localhost:6167/_matrix/client/v3/register");
    let body = request.body.unwrap();
    assert_eq!(body.get("username").and_then(Json::as_str), Some("park"));
    assert_eq!(
        client().ensure_virtual_user_exists("  ").err(),
        Some("username cannot be empty".to_string())
    );
    let result = |r| client().virtual_user_result("park", r);
    assert!(result(reply(200, "{}")).is_ok());
    assert!(result(reply(400, r#"{"errcode": "M_USER_IN_USE"}"#)).is_ok());
    assert!(result(reply(400, r#"{"errcode": "M_OTHER"}"#)).is_err());
    assert_eq!(
        result(Err("refused".to_string())).err(),
        Some("failed to register virtual user 'park': refused".to_string())
    );
}

#[test]
fn rooms_are_found_or_created() {
    let request = client().ensure_room_exists("web").ok().unwrap();
    assert!(matches!(request.method, HttpMethod::Get));
    assert_eq!(
        request.url,
        "http://localhost:6167/_matrix/client/v3/directory/room/%23web%3Alocalhost%3A6167"
    );
    assert_eq!(
        client().ensure_room_exists("").err(),
        Some("channel name cannot be empty".to_string())
    );
    let lookup = |r| client().room_lookup_result("web", r);
    match lookup(reply(200, r#"{"room_id": "!r:x"}"#)) {
        Ok(RoomStep::Found(id)) => assert_eq!(id, "!r:x"),
        _ => panic!("the room is not found"),
    }
    match lookup(reply(404, "{}")) {
        Ok(RoomStep::Create(request)) => {
            assert_eq!(request.url, "http://localhost:6167/_matrix/client/v3/createRoom");
        }
        _ => panic!("the room is not created"),
    }
    assert!(lookup(reply(500, "{}")).is_err());
    assert!(lookup(Err("refused".to_string())).is_err());
    let creation = |r| client().room_creation_result("web", r);
    assert_eq!(creation(reply(200, r#"{"room_id": "!r:x"}"#)).ok(), Some("!r:x".to_string()));
    assert_eq!(
        creation(reply(200, "{}")).err(),
        Some("room creation response missing room_id".to_string())
    );
    assert!(creation(reply(403, "{}")).is_err());
}

#[test]
fn messages_are_put_into_rooms() {
    let send = |parent| client().message_request("!r:x", "@p:x", "hi", parent, "txn");
    let plain = request(send(None).ok().unwrap());
    assert!(matches!(plain.method, HttpMethod::Put));
    assert!(plain.url.contains("/rooms/%21r%3Ax/send/m.room.message/txn"), "{}", plain.url);
    let body = plain.body.unwrap();
    assert_eq!(body.get("body").and_then(Json::as_str), Some("hi"));
    assert!(body.get("m.relates_to").is_none());
    let reply_body = request(send(Some("$e")).ok().unwrap()).body.unwrap();
    let relation = reply_body.get("m.relates_to").unwrap();
    let parent = relation.get("m.in_reply_to").unwrap();
    assert_eq!(parent.get("event_id").and_then(Json::as_str), Some("$e"));
    assert_eq!(relation.get("rel_type").and_then(Json::as_str), Some("m.thread"));
    assert!(client().send_message("", "@p:x", "hi", None).is_err());
    assert!(matches!(
        client().send_message("!r:x", "@p:x", "", None).ok(),
        Some(SendStep::Nothing)
    ));
    let sent = |r| client().send_result("!r:x", "@p:x", r);
    assert_eq!(sent(reply(200, r#"{"event_id": "$1"}"#)).ok(), Some("$1".to_string()));
    assert_eq!(sent(reply(200, "{}")).ok(), Some("".to_string()));
    assert!(sent(reply(500, "{}")).is_err());
}

#[test]
fn payloads_are_sent_as_code() {
    let payload = parse(r#"{"type":"tool_use"}"#).unwrap();
    let sent = request(client().post_tool_payload("!r:x", &payload).ok().unwrap());
    let body = sent.body.unwrap();
    let text = body.get("body").and_then(Json::as_str).unwrap();
    assert!(text.starts_with("```json\n{\n  \"type\": \"tool_use\"\n}"), "{text}");
    assert_eq!(
        client().post_tool_payload("", &payload).err(),
        Some("room_id is required".to_string())
    );
    assert_eq!(
        client().post_tool_payload("!r:x", &Json::Null).err(),
        Some("payload cannot be null".to_string())
    );
}

#[test]
fn tool_payloads_become_blocks_of_code() {
    assert!(is_tool_payload(&parse(r#"[{"type":"tool_use"},{"type":"tool_result"}]"#).unwrap()));
    assert!(!is_tool_payload(&parse(r#"[{"type":"text"}]"#).unwrap()));
    assert_eq!(format_matrix_body("hello"), "hello");
    assert_eq!(format_matrix_body("```\n{}\n```"), "```\n{}\n```");
    let body = format_matrix_body(r#"{"type":"tool_result"}"#);
    assert!(body.starts_with("```json\n"), "{body}");
    assert_eq!(format_matrix_body(&body), body);
}

#[test]
fn channels_are_sent_message_by_message() {
    let mut state = MatrixBridgeState::default();
    let first = Message::for_channel("web", "park", "one", MessageType::Text);
    let second = Message::thread_reply("web", "park", "two", &first.id, MessageType::Text);
    let first_id = first.id.clone();
    let messages = vec![first, second];
    assert!(matches!(sync_channel(&state, "web", &vec![], 0), ChannelStep::Done));
    assert!(matches!(sync_channel(&state, "web", &messages, 0), ChannelStep::NeedRoom));
    room_for_channel(&mut state, "web", "!r:x");
    match sync_channel(&state, "web", &messages, 0) {
        ChannelStep::NeedUser(name) => assert_eq!(name, "park"),
        _ => panic!("the user is not registered"),
    }
    user_for_message(&mut state, "park", "@park:x");
    match sync_channel(&state, "web", &messages, 0) {
        ChannelStep::Send { room_id, sender_user_id, body, thread_parent } => {
            assert_eq!(room_id, "!r:x");
            assert_eq!(sender_user_id, "@park:x");
            assert_eq!(body, "one");
            assert_eq!(thread_parent, None);
        }
        _ => panic!("the message is not sent"),
    }
    record_sent(&mut state, "web", &messages[0], "$1");
    match sync_channel(&state, "web", &messages, 1) {
        ChannelStep::Send { thread_parent, .. } => {
            assert_eq!(thread_parent, Some("$1".to_string()));
        }
        _ => panic!("the reply is not sent"),
    }
    assert!(matches!(sync_channel(&state, "web", &messages, 2), ChannelStep::Done));
    let last = state.last_synced.get("web").unwrap();
    assert_eq!(last, &first_id);
    assert_eq!(first_unsynced_place(&messages, Some(last)), 1);
    assert_eq!(unsynced_messages(&messages, Some(last)).len(), 1);
    assert_eq!(unsynced_messages(&messages, Some("gone")).len(), 2);
    assert_eq!(unsynced_messages(&messages, None).len(), 2);
    assert_eq!(room_for_channel_name(&state, "!r:x"), Some("web"));
    assert_eq!(room_for_channel_name(&state, "!other:x"), None);
}

#[test]
fn synchronising_needs_a_project_and_a_room() {
    assert!(run_outbound_sync("midtown").is_ok());
    assert_eq!(run_outbound_sync(" ").err(), Some("project cannot be empty".to_string()));
    assert!(run_inbound_sync("!r:x").is_ok());
    assert!(run_inbound_sync("").is_err());
}

fn event(kind: &str, sender: &str, room: &str, body: &str) -> MatrixEvent {
    MatrixEvent {
        event_type: kind.to_string(),
        sender: sender.to_string(),
        room_id: room.to_string(),
        content: Json::object().with("body", Json::text(body)),
    }
}

#[test]
fn only_people_are_heard() {
    let app = MatrixApplicationServiceState {
        project_name: "midtown".to_string(),
        homeserver_domain: "x".to_string(),
    };
    let mut state = MatrixBridgeState::default();
    room_for_channel(&mut state, "web", "!r:x");
    user_for_message(&mut state, "park", "@park:x");
    assert_eq!(matrix_user_localpart("@ann:x", "x"), Some("ann".to_string()));
    assert_eq!(matrix_user_localpart("@ann:y", "x"), None);
    assert_eq!(matrix_user_localpart("ann:x", "x"), None);
    assert!(is_real_user("@ann:x", &app, Some(&state)));
    assert!(!is_real_user("@park:x", &app, Some(&state)));
    assert!(!is_real_user("@midtown:x", &app, None));
    assert_eq!(
        extract_message_body(&parse(r#"{"body": " hi "}"#).unwrap()),
        Some("hi".to_string())
    );
    assert_eq!(extract_message_body(&parse(r#"{"body": " "}"#).unwrap()), None);
    let transaction = MatrixTransaction {
        events: vec![
            event("m.room.message", "@ann:x", "!r:x", "hello"),
            event("m.room.message", "@park:x", "!r:x", "echo"),
            event("m.room.member", "@ann:x", "!r:x", "joined"),
            event("m.room.message", "@ann:x", "!other:x", "elsewhere"),
        ],
    };
    let posts = handle_transaction(&transaction, &app, Some(&state));
    assert_eq!(posts.len(), 1);
    assert_eq!(posts[0].channel, "web");
    assert_eq!(posts[0].from, "ann");
    assert_eq!(posts[0].body, "hello");
    assert!(handle_transaction(&transaction, &app, None).is_empty());
}

#[test]
fn bridges_run_for_a_project() {
    let config = run(MatrixBridgeConfig::new("/m"), Some("midtown")).ok().unwrap();
    assert_eq!(config.server_name, "midtown.local");
    assert_eq!(config.conduit_config_path(), "/m/conduit.toml");
    assert_eq!(config.as_registration_path(), "/m/as-registration.yaml");
    assert_eq!(config.state_path(), "/m/state.json");
    assert_eq!(config.conduit_binary(None), "/m/bin/conduit");
    assert_eq!(config.conduit_binary(Some("/usr/bin/conduit")), "/usr/bin/conduit");
    assert!(default_conduit_config(&config).contains("port = 6167\n"));
    assert_eq!(
        run(MatrixBridgeConfig::new("/m"), None).err(),
        Some("Cannot determine project name for matrix bridge startup".to_string())
    );
}

#[test]
fn registrations_quote_what_they_match() {
    assert_eq!(regex_pattern(&names(&[])), ".*");
    assert_eq!(regex_pattern(&names(&["a.b"])), r"a\.b");
    assert_eq!(regex_pattern(&names(&["a+", "b"])), r"(?:a\+|b)");
    let config = MatrixBridgeConfig::new("/m");
    let text = registration_config(&config, "midtown", &names(&["park"]), &names(&[]), "a", "h");
    assert!(text.starts_with("id: midtown-bridge-midtown\nurl: http://localhost:47025\n"));
    assert!(text.contains("as_token: a\nhs_token: h\n"));
    assert!(text.contains("regex: \"@(park):matrix.local\""));
    assert!(text.contains("regex: \"#(.*):matrix.local\""));
    let random = default_as_registration_config(&config, "midtown", &names(&[]), &names(&[]));
    assert_ne!(
        random,
        default_as_registration_config(&config, "midtown", &names(&[]), &names(&[]))
    );
}

#[test]
fn identities_are_those_of_known_coworkers() {
    let known = names(&["park", "york"]);
    let saved = vec![
        SavedSession { coworker_type: None, name: Some("park".to_string()) },
        SavedSession { coworker_type: None, name: Some("stranger".to_string()) },
        SavedSession {
            coworker_type: Some("channel-lead".to_string()),
            name: Some("york".to_string()),
        },
    ];
    let found = collect_coworker_identities("midtown", Some(&saved), &names(&[]), &known);
    assert_eq!(found, ["midtown", "park"]);
    let found = collect_coworker_identities("midtown", None, &names(&[]), &known);
    assert_eq!(found, ["midtown", "park", "york"]);
    let channels = names(&["web", "auth"]);
    assert_eq!(collect_channel_names("midtown", Some(&channels)), ["auth", "midtown", "web"]);
    assert!(is_channel_dir_name("web-2"));
    assert!(!is_channel_dir_name("notes"));
    assert!(!is_channel_dir_name("a b"));
}
