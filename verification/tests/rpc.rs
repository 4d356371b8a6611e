use midtown::json::Json;
use midtown::json_text::parse;
use midtown::rpc::{
    coworker_name_at, generate_coworker_name, handle_coworker_list, handle_coworker_shutdown,
    handle_coworker_spawn, handle_request, CreatedWorktree, ListedWorktree, Request, Response,
    RpcError, RpcStep, WorktreeFailure,
};

fn request(method: &str, params: Option<&str>) -> Request {
    Request {
        id: Json::uint(7),
        method: method.to_string(),
        params: params.map(|p| parse(p).unwrap()),
    }
}

fn reply(step: RpcStep) -> Response {
    match step {
        RpcStep::Reply(response) => response,
        _ => panic!("there is more to do than reply"),
    }
}

fn field<'a>(response: &'a Response, key: &str) -> Option<&'a str> {
    match &response.outcome {
        Ok(result) => result.get(key).and_then(Json::as_str),
        Err(_) => None,
    }
}

fn error(response: &Response) -> &RpcError {
    match &response.outcome {
        Ok(_) => panic!("the request succeeds"),
        Err(error) => error,
    }
}

#[test]
fn simple_requests_are_answered_at_once() {
    let pong = reply(handle_request(Some(&request("ping", None)), "1.2.3"));
    assert_eq!(pong.id.as_u64(), Some(7));
    assert_eq!(pong.outcome.ok().unwrap().as_str(), Some("pong"));
    let version = reply(handle_request(Some(&request("version", None)), "1.2.3"));
    assert_eq!(field(&version, "name"), Some("midtownd"));
    assert_eq!(field(&version, "version"), Some("1.2.3"));
    let shutdown = reply(handle_request(Some(&request("shutdown", None)), "1.2.3"));
    assert_eq!(field(&shutdown, "status"), Some("shutting_down"));
}

#[test]
fn requests_that_cannot_be_served_are_refused() {
    let unread = reply(handle_request(None, "1.2.3"));
    assert!(matches!(unread.id, Json::Null));
    assert_eq!(error(&unread).code, -32700);
    assert_eq!(error(&unread).message, "Parse error");
    let unknown = reply(handle_request(Some(&request("nothing", None)), "1.2.3"));
    assert_eq!(error(&unknown).code, -32601);
    assert_eq!(error(&unknown).message, "Method not found");
    let nameless = reply(handle_request(Some(&request("coworker.shutdown", Some("{}"))), "1"));
    assert_eq!(error(&nameless).code, -32602);
    assert_eq!(error(&nameless).message, "Invalid params");
}

#[test]
fn coworkers_are_spawned_under_a_name() {
    match handle_request(Some(&request("coworker.spawn", Some(r#"{"name":"park"}"#))), "1") {
        RpcStep::Spawn(name) => assert_eq!(name, "park"),
        _ => panic!("no coworker is spawned"),
    }
    assert!(matches!(
        handle_request(Some(&request("coworker.spawn", None)), "1"),
        RpcStep::Spawn(_)
    ));
    let tree = CreatedWorktree {
        path: "/w/park".to_string(),
        branch: "park".to_string(),
        repo: "midtown".to_string(),
    };
    let response = handle_coworker_spawn(&Json::uint(1), "park", Ok(tree));
    assert_eq!(field(&response, "name"), Some("park"));
    assert_eq!(field(&response, "worktree_path"), Some("/w/park"));
    assert_eq!(field(&response, "branch"), Some("park"));
    assert_eq!(field(&response, "repo"), Some("midtown"));
    let failure = Err(WorktreeFailure::Failed("disk full".to_string()));
    let response = handle_coworker_spawn(&Json::uint(1), "park", failure);
    assert_eq!(error(&response).code, -32001);
    assert_eq!(error(&response).message, "Failed to create worktree");
}

#[test]
fn coworkers_are_shut_down_by_name() {
    let params = r#"{"name":"park","force":true}"#;
    match handle_request(Some(&request("coworker.shutdown", Some(params))), "1") {
        RpcStep::Shutdown { name, force } => {
            assert_eq!(name, "park");
            assert!(force);
        }
        _ => panic!("no coworker is shut down"),
    }
    let response = handle_coworker_shutdown(&Json::uint(1), "park", Ok(()));
    assert_eq!(field(&response, "status"), Some("removed"));
    let failure = Err(WorktreeFailure::Failed("busy".to_string()));
    let response = handle_coworker_shutdown(&Json::uint(1), "park", failure);
    assert_eq!(error(&response).code, -32002);
}

#[test]
fn only_coworkers_are_listed() {
    assert!(matches!(
        handle_request(Some(&request("coworker.list", None)), "1"),
        RpcStep::List
    ));
    let trees = vec![
        ListedWorktree {
            is_coworker: false,
            coworker_name: None,
            path: "/repo".to_string(),
            branch: Some("main".to_string()),
        },
        ListedWorktree {
            is_coworker: true,
            coworker_name: Some("park".to_string()),
            path: "/w/park".to_string(),
            branch: None,
        },
    ];
    let response = handle_coworker_list(&Json::uint(1), Ok(trees));
    let result = response.outcome.ok().unwrap();
    assert_eq!(result.get("count").and_then(Json::as_u64), Some(1));
    let listed = result.get("coworkers").unwrap().as_array().unwrap();
    assert_eq!(listed.len(), 1);
    assert_eq!(listed[0].get("name").and_then(Json::as_str), Some("park"));
    let none = WorktreeFailure::NoRepository("not a repository".to_string());
    let response = handle_coworker_list(&Json::uint(1), Err(none));
    assert!(response.outcome.is_err());
}

#[test]
fn names_are_made_from_the_time() {
    assert_eq!(coworker_name_at(0), coworker_name_at(0));
    assert!(generate_coworker_name().contains('-'), "{}", generate_coworker_name());
}
