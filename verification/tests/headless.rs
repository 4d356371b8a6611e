use std::collections::VecDeque;

use midtown::config::ExecutionRole;
use midtown::names::Names;
use midtown::auth::AuthProvider;
use midtown::codex::{
    codex_begin_turn, codex_launch_plan_from_config, codex_mark_started, codex_queue_message,
    codex_read_line, codex_ready_requests, codex_request_line, codex_take_back_turn,
    codex_thread_init_request, codex_translate_event, is_stale_codex_thread_error,
    CodexPostAction, CodexProtocolState,
};
use midtown::headless::{
    claude_message_line, claude_spawn_plan, codex_spawn_plan, execute, keep_stderr_line,
    query_manners, resume_config, sandbox_project, sandbox_root, timeout_message, HeadlessConfig,
    HeadlessSession, Sandbox, StreamEvent,
};
use midtown::json::Json;
use midtown::json_text::parse;
use midtown::platform::build_claude_headless_args;
use midtown::text_map::TextMap;

fn names() -> Names {
    Names {
        program: format!("{:?}", AuthProvider::Claude).to_lowercase(),
        reader_agent: format!("midtown-code-{:?}", ExecutionRole::Reviewer).to_lowercase(),
    }
}

fn at<'a>(value: &'a Json, path: &[&str]) -> Option<&'a Json> {
    let mut here = value;
    for step in path {
        here = match step.parse::<usize>() {
            Ok(i) => here.as_array()?.get(i)?,
            Err(_) => here.get(step)?,
        };
    }
    Some(here)
}

fn test_config() -> HeadlessConfig {
    HeadlessConfig {
        model: "haiku".to_string(),
        system_prompt: "You are a test assistant.".to_string(),
        json_schema: None,
        cwd: None,
        project_name: Some("midtown".to_string()),
        max_budget_usd: None,
        allow_tools: false,
        persist_session: false,
        resume_session_id: None,
        session_id: None,
        inactivity_timeout: None,
        team_name: None,
        agent_id: None,
        agent_name: None,
        settings_path: None,
        setting_sources: None,
        auth_provider: AuthProvider::Claude,
        env: TextMap::new(),
        fork_session: false,
        disallowed_tools: vec![],
        additional_dirs: vec![],
    }
}

fn test_codex_state() -> CodexProtocolState {
    CodexProtocolState {
        initialized: true,
        start_request_id: Some(42),
        thread_id: None,
        turn_in_progress: true,
        next_request_id: 100,
        pending_messages: VecDeque::new(),
        latest_agent_message: None,
        resume_thread_id: None,
        fork_session: false,
        allow_tools: true,
        model: "gpt-5-codex".to_string(),
        cwd: None,
        system_prompt: String::new(),
        output_schema: None,
        start_phase: "thread/start".to_string(),
        retried_fresh_start: false,
    }
}

#[test]
fn test_headless_session_protocol_flags() {
    let claude_session = HeadlessSession::claude();
    let codex_session = HeadlessSession::codex(test_codex_state());

    assert!(!claude_session.is_codex_session());
    assert!(codex_session.is_codex_session());

    assert!(claude_session.should_wait_for_exit_on_result());
    assert!(!codex_session.should_wait_for_exit_on_result());
}

#[test]
fn test_codex_launch_plan_rejects_unsupported_fields() {
    let config = HeadlessConfig {
        auth_provider: AuthProvider::Codex,
        max_budget_usd: Some("1".to_string()),
        settings_path: Some("/tmp/settings.json".to_string()),
        setting_sources: Some("project,local".to_string()),
        session_id: Some("session-123".to_string()),
        disallowed_tools: vec!["Edit".to_string()],
        ..test_config()
    };

    let error = codex_launch_plan_from_config(&config).err().unwrap();
    assert!(
        error.contains("max_budget_usd")
            && error.contains("settings_path")
            && error.contains("setting_sources")
            && error.contains("session_id")
            && error.contains("disallowed_tools"),
        "Error should mention all unsupported fields, got: {}",
        error
    );
}

#[test]
fn test_codex_launch_plan_accepts_supported_fields() {
    let config = HeadlessConfig {
        auth_provider: AuthProvider::Codex,
        model: "gpt-5.3-codex".to_string(),
        system_prompt: "System".to_string(),
        json_schema: Some(parse(r#"{"type":"object"}"#).unwrap()),
        cwd: Some("/tmp/project".to_string()),
        resume_session_id: Some("thread-parent".to_string()),
        fork_session: true,
        allow_tools: false,
        ..test_config()
    };

    let plan = codex_launch_plan_from_config(&config).ok().unwrap();
    assert_eq!(plan.model, "gpt-5.3-codex");
    assert_eq!(plan.system_prompt, "System");
    assert_eq!(plan.cwd, Some("/tmp/project".to_string()));
    assert_eq!(plan.resume_thread_id, Some("thread-parent".to_string()));
    assert!(plan.fork_session);
    assert!(!plan.allow_tools);
    assert!(plan.output_schema.is_some());
}

#[test]
fn test_codex_translate_start_response_emits_init_and_dispatches() {
    let mut state = test_codex_state();
    let mut session_id = None;
    let parsed = parse(
        r#"{
        "jsonrpc": "2.0",
        "id": 42,
        "result": { "thread": { "id": "thread_123" } }
    }"#,
    )
    .unwrap();

    let (event, post_action) = codex_translate_event(&parsed, &mut state, &mut session_id);

    assert_eq!(session_id, Some("thread_123".to_string()));
    assert_eq!(state.thread_id, Some("thread_123".to_string()));
    assert!(post_action == CodexPostAction::DispatchPendingTurns);

    match event {
        Some(StreamEvent::System {
            subtype,
            session_id,
            model,
            ..
        }) => {
            assert_eq!(subtype, "init");
            assert_eq!(session_id, Some("thread_123".to_string()));
            assert_eq!(model, Some("gpt-5-codex".to_string()));
        }
        _ => panic!("Expected codex start response to emit init system event"),
    }
}

#[test]
fn test_codex_translate_start_response_error_emits_result_error() {
    let mut state = test_codex_state();
    let mut session_id = Some("existing".to_string());
    let parsed = parse(
        r#"{
        "jsonrpc": "2.0",
        "id": 42,
        "error": { "message": "start failed" }
    }"#,
    )
    .unwrap();

    let (event, post_action) = codex_translate_event(&parsed, &mut state, &mut session_id);

    assert!(post_action == CodexPostAction::Nothing);
    match event {
        Some(StreamEvent::Result {
            subtype,
            is_error,
            result,
            ..
        }) => {
            assert_eq!(subtype, "error");
            assert!(is_error);
            assert_eq!(result, Some("start failed".to_string()));
        }
        _ => panic!("Expected codex start error to emit result error event"),
    }
}

#[test]
fn test_codex_translate_turn_start_error_clears_in_flight_turn() {
    let mut state = test_codex_state();
    state.start_request_id = Some(42);
    state.turn_in_progress = true;
    let mut session_id = Some("thread_123".to_string());
    let parsed = parse(
        r#"{
        "jsonrpc": "2.0",
        "id": 99,
        "error": { "message": "turn failed" }
    }"#,
    )
    .unwrap();

    let (event, post_action) = codex_translate_event(&parsed, &mut state, &mut session_id);

    assert!(post_action == CodexPostAction::DispatchPendingTurns);
    assert!(!state.turn_in_progress);
    match event {
        Some(StreamEvent::Result {
            subtype,
            is_error,
            result,
            extra,
            ..
        }) => {
            assert_eq!(subtype, "error");
            assert!(is_error);
            assert_eq!(result, Some("turn failed".to_string()));
            assert_eq!(at(&extra, &["phase"]).and_then(Json::as_str), Some("turn/start"));
            assert_eq!(at(&extra, &["request_id"]).and_then(Json::as_u64), Some(99));
        }
        _ => panic!("Expected codex turn error to emit result error event"),
    }
}

#[test]
fn test_codex_translate_delta_then_turn_completed_uses_accumulated_text() {
    let mut state = test_codex_state();
    let mut session_id = Some("thread_123".to_string());
    let delta = parse(
        r#"{
        "jsonrpc": "2.0",
        "method": "item/agentMessage/delta",
        "params": { "delta": "Hello" }
    }"#,
    )
    .unwrap();
    let turn_completed = parse(
        r#"{
        "jsonrpc": "2.0",
        "method": "turn/completed",
        "params": { "turn": { "status": "completed" } }
    }"#,
    )
    .unwrap();

    let (delta_event, delta_action) = codex_translate_event(&delta, &mut state, &mut session_id);
    assert!(delta_action == CodexPostAction::Nothing);
    match delta_event {
        Some(StreamEvent::Assistant { .. }) => {}
        _ => panic!("Expected assistant delta event"),
    }
    assert_eq!(state.latest_agent_message, Some("Hello".to_string()));

    let (result_event, result_action) =
        codex_translate_event(&turn_completed, &mut state, &mut session_id);
    assert!(result_action == CodexPostAction::DispatchPendingTurns);
    assert!(!state.turn_in_progress);
    match result_event {
        Some(StreamEvent::Result {
            subtype,
            is_error,
            result,
            ..
        }) => {
            assert_eq!(subtype, "success");
            assert!(!is_error);
            assert_eq!(result, Some("Hello".to_string()));
        }
        _ => panic!("Expected result event after turn completion"),
    }
}

#[test]
fn test_codex_translate_unknown_event_emits_heartbeat() {
    let mut state = test_codex_state();
    let mut session_id = Some("thread_123".to_string());
    let parsed = parse(
        r#"{
        "jsonrpc": "2.0",
        "method": "item/thinking/delta",
        "params": { "delta": "..." }
    }"#,
    )
    .unwrap();

    let (event, post_action) = codex_translate_event(&parsed, &mut state, &mut session_id);
    assert!(post_action == CodexPostAction::Nothing);
    match event {
        Some(StreamEvent::System { subtype, extra, .. }) => {
            assert_eq!(subtype, "heartbeat");
            assert_eq!(at(&extra, &["provider"]).and_then(Json::as_str), Some("codex"));
            assert_eq!(at(&extra, &["event"]).and_then(Json::as_str), Some("heartbeat"));
            assert_eq!(at(&extra, &["detail", "method"]).and_then(Json::as_str), Some("item/thinking/delta"));
        }
        _ => panic!("Expected codex unknown event to emit heartbeat system event"),
    }
}

#[test]
fn test_codex_translate_command_execution_started_emits_tool_use() {
    let mut state = test_codex_state();
    let mut session_id = Some("thread_123".to_string());
    let parsed = parse(
        r#"{
        "jsonrpc": "2.0",
        "method": "item/started",
        "params": {
            "item": {
                "type": "commandExecution",
                "id": "call_abc",
                "commandActions": [{"type": "unknown", "command": "pwd"}]
            }
        }
    }"#,
    )
    .unwrap();

    let (event, post_action) = codex_translate_event(&parsed, &mut state, &mut session_id);
    assert!(post_action == CodexPostAction::Nothing);
    match event {
        Some(StreamEvent::Assistant { message, extra, .. }) => {
            assert_eq!(at(&extra, &["provider"]).and_then(Json::as_str), Some("codex"));
            assert_eq!(at(&extra, &["event"]).and_then(Json::as_str), Some("item/started"));
            assert_eq!(at(&message, &["role"]).and_then(Json::as_str), Some("assistant"));
            assert_eq!(at(&message, &["content", "0", "type"]).and_then(Json::as_str), Some("tool_use"));
            assert_eq!(at(&message, &["content", "0", "id"]).and_then(Json::as_str), Some("call_abc"));
            assert_eq!(at(&message, &["content", "0", "name"]).and_then(Json::as_str), Some("Bash"));
            assert_eq!(at(&message, &["content", "0", "input", "command"]).and_then(Json::as_str), Some("pwd"));
        }
        _ => panic!("Expected commandExecution start to emit assistant tool_use"),
    }
}

#[test]
fn test_codex_translate_command_execution_completed_emits_tool_result() {
    let mut state = test_codex_state();
    let mut session_id = Some("thread_123".to_string());
    let parsed = parse(
        r#"{
        "jsonrpc": "2.0",
        "method": "item/completed",
        "params": {
            "item": {
                "type": "commandExecution",
                "id": "call_abc",
                "aggregatedOutput": "/tmp\n",
                "exitCode": 0,
                "status": "completed"
            }
        }
    }"#,
    )
    .unwrap();

    let (event, post_action) = codex_translate_event(&parsed, &mut state, &mut session_id);
    assert!(post_action == CodexPostAction::Nothing);
    match event {
        Some(StreamEvent::User { message, extra, .. }) => {
            assert_eq!(at(&extra, &["provider"]).and_then(Json::as_str), Some("codex"));
            assert_eq!(at(&extra, &["event"]).and_then(Json::as_str), Some("item/completed"));
            assert_eq!(at(&message, &["role"]).and_then(Json::as_str), Some("user"));
            assert_eq!(at(&message, &["content", "0", "type"]).and_then(Json::as_str), Some("tool_result"));
            assert_eq!(at(&message, &["content", "0", "tool_use_id"]).and_then(Json::as_str), Some("call_abc"));
            assert_eq!(at(&message, &["content", "0", "content"]).and_then(Json::as_str), Some("/tmp\n"));
            assert_eq!(at(&message, &["content", "0", "is_error"]).and_then(Json::as_bool), Some(false));
        }
        _ => panic!("Expected commandExecution completion to emit user tool_result"),
    }
}

#[test]
fn test_codex_translate_command_execution_started_with_numeric_id() {
    let mut state = test_codex_state();
    let mut session_id = Some("thread_123".to_string());
    let parsed = parse(
        r#"{
        "jsonrpc": "2.0",
        "method": "item/started",
        "params": {
            "item": {
                "type": "commandExecution",
                "id": 1001,
                "command": "ls -la"
            }
        }
    }"#,
    )
    .unwrap();

    let (event, post_action) = codex_translate_event(&parsed, &mut state, &mut session_id);
    assert!(post_action == CodexPostAction::Nothing);
    match event {
        Some(StreamEvent::Assistant { message, extra, .. }) => {
            assert_eq!(at(&extra, &["provider"]).and_then(Json::as_str), Some("codex"));
            assert_eq!(at(&message, &["content", "0", "id"]).and_then(Json::as_str), Some("1001"));
            assert_eq!(at(&message, &["content", "0", "name"]).and_then(Json::as_str), Some("Bash"));
            assert_eq!(at(&message, &["content", "0", "input", "command"]).and_then(Json::as_str), Some("ls -la"));
        }
        _ => panic!("Expected commandExecution start to emit assistant tool_use"),
    }
}

#[test]
fn test_codex_translate_command_execution_started_without_type() {
    let mut state = test_codex_state();
    let mut session_id = Some("thread_123".to_string());
    let parsed = parse(
        r#"{
        "jsonrpc": "2.0",
        "method": "item/started",
        "params": {
            "item": {
                "call_id": "cmd-plain",
                "commandActions": [{ "command": "pwd" }]
            }
        }
    }"#,
    )
    .unwrap();

    let (event, post_action) = codex_translate_event(&parsed, &mut state, &mut session_id);
    assert!(post_action == CodexPostAction::Nothing);
    match event {
        Some(StreamEvent::Assistant { message, extra, .. }) => {
            assert_eq!(at(&extra, &["provider"]).and_then(Json::as_str), Some("codex"));
            assert_eq!(at(&message, &["content", "0", "id"]).and_then(Json::as_str), Some("cmd-plain"));
        }
        _ => panic!("Expected commandExecution start fallback path to emit tool_use"),
    }
}

#[test]
fn test_codex_translate_command_execution_completed_with_alt_id_field() {
    let mut state = test_codex_state();
    let mut session_id = Some("thread_123".to_string());
    let parsed = parse(
        r#"{
        "jsonrpc": "2.0",
        "method": "item/completed",
        "params": {
            "item": {
                "type": "commandExecution",
                "callId": "call_xyz",
                "aggregatedOutput": "ok\n",
                "exitCode": 0,
                "status": "completed"
            }
        }
    }"#,
    )
    .unwrap();

    let (event, post_action) = codex_translate_event(&parsed, &mut state, &mut session_id);
    assert!(post_action == CodexPostAction::Nothing);
    match event {
        Some(StreamEvent::User { message, .. }) => {
            assert_eq!(at(&message, &["content", "0", "tool_use_id"]).and_then(Json::as_str), Some("call_xyz"));
        }
        _ => panic!("Expected commandExecution completion with alt id to emit user tool_result"),
    }
}

#[test]
fn test_codex_translate_command_execution_failed_sets_tool_result_error() {
    let mut state = test_codex_state();
    let mut session_id = Some("thread_123".to_string());
    let parsed = parse(
        r#"{
        "jsonrpc": "2.0",
        "method": "item/completed",
        "params": {
            "item": {
                "type": "commandExecution",
                "id": "call_abc",
                "aggregatedOutput": "boom\\n",
                "exitCode": 1,
                "status": "failed"
            }
        }
    }"#,
    )
    .unwrap();

    let (event, post_action) = codex_translate_event(&parsed, &mut state, &mut session_id);
    assert!(post_action == CodexPostAction::Nothing);
    match event {
        Some(StreamEvent::User { message, .. }) => {
            assert_eq!(at(&message, &["content", "0", "is_error"]).and_then(Json::as_bool), Some(true));
        }
        _ => panic!("Expected commandExecution failure to emit user tool_result"),
    }
}

#[test]
fn test_codex_thread_init_request_selects_fork_for_resume_fork() {
    let (method, params) = codex_thread_init_request(
        Some("thread_parent"),
        true,
        true,
        Some("/tmp/project"),
        "gpt-5.3-codex",
        "system prompt",
    );

    assert_eq!(method, "thread/fork");
    assert_eq!(at(&params, &["threadId"]).and_then(Json::as_str), Some("thread_parent"));
    assert_eq!(at(&params, &["cwd"]).and_then(Json::as_str), Some("/tmp/project"));
    assert_eq!(at(&params, &["model"]).and_then(Json::as_str), Some("gpt-5.3-codex"));
    assert_eq!(at(&params, &["approvalPolicy"]).and_then(Json::as_str), Some("never"));
    assert_eq!(at(&params, &["sandbox"]).and_then(Json::as_str), Some("danger-full-access"));
    assert_eq!(at(&params, &["developerInstructions"]).and_then(Json::as_str), Some("system prompt"));
}

#[test]
fn test_codex_thread_init_request_selects_resume_without_fork() {
    let (method, params) = codex_thread_init_request(
        Some("thread_parent"),
        false,
        true,
        Some("/tmp/project"),
        "gpt-5.3-codex",
        "",
    );

    assert_eq!(method, "thread/resume");
    assert_eq!(at(&params, &["threadId"]).and_then(Json::as_str), Some("thread_parent"));
    assert!(matches!(at(&params, &["developerInstructions"]), Some(Json::Null)));
}

#[test]
fn test_codex_thread_init_request_selects_start_when_not_resuming() {
    let (method, params) =
        codex_thread_init_request(None, true, true, None, "gpt-5.3-codex", "system prompt");

    assert_eq!(method, "thread/start");
    assert!(params.get("threadId").is_none());
    assert!(matches!(at(&params, &["cwd"]), Some(Json::Null)));
    assert_eq!(at(&params, &["model"]).and_then(Json::as_str), Some("gpt-5.3-codex"));
}

#[test]
fn test_codex_thread_init_request_disables_tools_when_allow_tools_false() {
    let (method, params) = codex_thread_init_request(
        None,
        false,
        false,
        Some("/tmp/project"),
        "gpt-5.3-codex",
        "system prompt",
    );

    assert_eq!(method, "thread/start");
    assert_eq!(at(&params, &["approvalPolicy"]).and_then(Json::as_str), Some("never"));
    assert_eq!(at(&params, &["sandbox"]).and_then(Json::as_str), Some("read-only"));
}

#[test]
fn test_is_stale_codex_thread_error_detects_rollout_missing() {
    assert!(is_stale_codex_thread_error(
        "no rollout found for thread id abc-123"
    ));
}

#[test]
fn test_is_stale_codex_thread_error_case_insensitive() {
    assert!(is_stale_codex_thread_error(
        "No Rollout Found For Thread Id xyz"
    ));
}

#[test]
fn test_is_stale_codex_thread_error_ignores_generic_errors() {
    assert!(!is_stale_codex_thread_error("network timeout"));
    assert!(!is_stale_codex_thread_error("start failed"));
}

#[test]
fn test_codex_translate_stale_resume_triggers_retry() {
    let mut state = test_codex_state();
    state.start_phase = "thread/resume".to_string();
    state.resume_thread_id = Some("stale-thread-123".to_string());
    let mut session_id = None;

    let parsed = parse(
        r#"{
        "jsonrpc": "2.0",
        "id": 42,
        "error": { "message": "no rollout found for thread id stale-thread-123" }
    }"#,
    )
    .unwrap();

    let (event, post_action) = codex_translate_event(&parsed, &mut state, &mut session_id);

    // Should NOT emit an error event — swallowed for retry.
    assert!(event.is_none());
    assert!(post_action == CodexPostAction::RetryThreadStart);
    // State should be ready for a fresh thread/start (initialized stays true
    // because the process-level initialize handshake was already completed).
    assert!(state.initialized);
    assert!(state.start_request_id.is_none());
    assert!(state.resume_thread_id.is_none());
    assert!(state.retried_fresh_start);
}

#[test]
fn an_error_is_told_where_there_is_no_thread_to_resume() {
    for phase in ["thread/resume", "thread/fork"] {
        let mut state = test_codex_state();
        state.start_phase = phase.to_string();
        let mut session_id = None;
        let parsed = parse(
            r#"{ "id": 42, "error": { "message": "no rollout found for thread id t-1" } }"#,
        )
        .unwrap();
        let (event, post_action) = codex_translate_event(&parsed, &mut state, &mut session_id);
        assert!(event.is_some());
        assert!(post_action != CodexPostAction::RetryThreadStart);
        assert!(!state.retried_fresh_start);
    }
}

#[test]
fn pieces_of_a_message_add_up() {
    let mut state = test_codex_state();
    let mut session_id = None;
    for piece in ["One ", "", "two ", "three"] {
        let line = format!(
            r#"{{ "method": "item/agentMessage/delta", "params": {{ "delta": "{}" }} }}"#,
            piece
        );
        codex_translate_event(&parse(&line).unwrap(), &mut state, &mut session_id);
    }
    let end = parse(
        r#"{ "method": "turn/completed", "params": { "turn": { "status": "completed" } } }"#,
    )
    .unwrap();
    match codex_translate_event(&end, &mut state, &mut session_id).0 {
        Some(StreamEvent::Result { result, is_error, .. }) => {
            assert!(!is_error);
            assert_eq!(result, Some("One two three".to_string()));
        }
        _ => panic!("a result was due"),
    }
}

#[test]
fn test_codex_translate_stale_resume_only_retries_once() {
    let mut state = test_codex_state();
    state.start_phase = "thread/resume".to_string();
    state.resume_thread_id = Some("stale-thread-123".to_string());
    state.retried_fresh_start = true; // Already retried once.
    let mut session_id = None;

    let parsed = parse(
        r#"{
        "jsonrpc": "2.0",
        "id": 42,
        "error": { "message": "no rollout found for thread id stale-thread-123" }
    }"#,
    )
    .unwrap();

    let (event, post_action) = codex_translate_event(&parsed, &mut state, &mut session_id);

    // Second time: should NOT retry — emit the error normally.
    assert!(event.is_some());
    assert!(post_action != CodexPostAction::RetryThreadStart);
    match event {
        Some(StreamEvent::Result {
            is_error, result, ..
        }) => {
            assert!(is_error);
            assert!(result.unwrap().contains("no rollout found"));
        }
        _ => panic!("Expected error result event on second stale-thread attempt"),
    }
}

#[test]
fn test_codex_translate_non_resume_stale_error_not_retried() {
    let mut state = test_codex_state();
    state.start_phase = "thread/start".to_string(); // Not a resume or fork.
    let mut session_id = None;

    let parsed = parse(
        r#"{
        "jsonrpc": "2.0",
        "id": 42,
        "error": { "message": "no rollout found for thread id stale-thread-123" }
    }"#,
    )
    .unwrap();

    let (event, post_action) = codex_translate_event(&parsed, &mut state, &mut session_id);

    // Should NOT retry — this was a fresh start, not a resume or fork.
    assert!(event.is_some());
    assert!(post_action != CodexPostAction::RetryThreadStart);
}

#[test]
fn test_codex_translate_resume_generic_error_not_retried() {
    let mut state = test_codex_state();
    state.start_phase = "thread/resume".to_string();
    state.resume_thread_id = Some("thread-123".to_string());
    let mut session_id = None;

    let parsed = parse(
        r#"{
        "jsonrpc": "2.0",
        "id": 42,
        "error": { "message": "some other error" }
    }"#,
    )
    .unwrap();

    let (event, post_action) = codex_translate_event(&parsed, &mut state, &mut session_id);

    // Generic resume errors should NOT trigger retry.
    assert!(event.is_some());
    assert!(post_action != CodexPostAction::RetryThreadStart);
}

#[test]
fn test_is_stale_codex_thread_error_detects_thread_not_found() {
    assert!(is_stale_codex_thread_error("thread not found"));
    assert!(is_stale_codex_thread_error("Thread Not Found"));
    assert!(is_stale_codex_thread_error("thread_not_found"));
}

#[test]
fn test_codex_translate_stale_fork_triggers_retry() {
    let mut state = test_codex_state();
    state.start_phase = "thread/fork".to_string();
    state.resume_thread_id = Some("parent-thread-123".to_string());
    let mut session_id = None;

    let parsed = parse(
        r#"{
        "jsonrpc": "2.0",
        "id": 42,
        "error": { "message": "no rollout found for thread id parent-thread-123" }
    }"#,
    )
    .unwrap();

    let (event, post_action) = codex_translate_event(&parsed, &mut state, &mut session_id);

    // Fork with stale parent should trigger retry, just like resume.
    assert!(event.is_none());
    assert!(post_action == CodexPostAction::RetryThreadStart);
    assert!(state.retried_fresh_start);
    assert!(state.resume_thread_id.is_none());
}

#[test]
fn test_codex_translate_stale_fork_thread_not_found_triggers_retry() {
    let mut state = test_codex_state();
    state.start_phase = "thread/fork".to_string();
    state.resume_thread_id = Some("parent-thread-456".to_string());
    let mut session_id = None;

    let parsed = parse(
        r#"{
        "jsonrpc": "2.0",
        "id": 42,
        "error": { "message": "thread not found" }
    }"#,
    )
    .unwrap();

    let (event, post_action) = codex_translate_event(&parsed, &mut state, &mut session_id);

    assert!(event.is_none());
    assert!(post_action == CodexPostAction::RetryThreadStart);
}

#[test]
fn test_codex_translate_stale_fork_only_retries_once() {
    let mut state = test_codex_state();
    state.start_phase = "thread/fork".to_string();
    state.resume_thread_id = Some("parent-thread-123".to_string());
    state.retried_fresh_start = true; // Already retried once.
    let mut session_id = None;

    let parsed = parse(
        r#"{
        "jsonrpc": "2.0",
        "id": 42,
        "error": { "message": "no rollout found for thread id parent-thread-123" }
    }"#,
    )
    .unwrap();

    let (event, post_action) = codex_translate_event(&parsed, &mut state, &mut session_id);

    // Second time: should NOT retry — emit the error normally.
    assert!(event.is_some());
    assert!(post_action != CodexPostAction::RetryThreadStart);
}

#[test]
fn test_fresh_session_uses_append_system_prompt() {
    // This test documents that fresh headless sessions should use --append-system-prompt
    // so the system prompt merges with the notes of the project rather than replacing it.
    let config = HeadlessConfig {
        model: "haiku".to_string(),
        system_prompt: "test prompt".to_string(),
        settings_path: None,
        setting_sources: None,
        persist_session: false,
        resume_session_id: None,
        session_id: None,
        allow_tools: true,
        json_schema: None,
        cwd: None,
        project_name: Some("midtown".to_string()),
        max_budget_usd: None,
        inactivity_timeout: None,
        team_name: None,
        agent_id: None,
        agent_name: None,
        auth_provider: AuthProvider::Claude,
        env: TextMap::new(),
        fork_session: false,
        disallowed_tools: vec![],
        additional_dirs: vec![],
    };

    let args = build_claude_headless_args(&config);

    // Should use --append-system-prompt, not --system-prompt
    let append_count = args
        .iter()
        .filter(|a| *a == "--append-system-prompt")
        .count();
    let system_count = args.iter().filter(|a| *a == "--system-prompt").count();

    assert_eq!(
        append_count, 1,
        "Fresh session should use --append-system-prompt exactly once, found {}",
        append_count
    );
    assert_eq!(
        system_count, 0,
        "Fresh session should NOT use --system-prompt (should use --append-system-prompt instead), found {}",
        system_count
    );
}

#[test]
fn test_fresh_session_should_not_duplicate_settings_flag() {
    let config = HeadlessConfig {
        model: "haiku".to_string(),
        system_prompt: "test".to_string(),
        settings_path: Some("/tmp/settings.json".to_string()),
        setting_sources: Some("project,local".to_string()),
        persist_session: false,
        resume_session_id: None,
        session_id: None,
        allow_tools: false,
        json_schema: None,
        cwd: None,
        project_name: Some("midtown".to_string()),
        max_budget_usd: None,
        inactivity_timeout: None,
        team_name: None,
        agent_id: None,
        agent_name: None,
        auth_provider: AuthProvider::Claude,
        env: TextMap::new(),
        fork_session: false,
        disallowed_tools: vec![],
        additional_dirs: vec![],
    };

    let args = build_claude_headless_args(&config);

    // Count occurrences of --settings and --setting-sources
    let settings_count = args.iter().filter(|a| *a == "--settings").count();
    let setting_sources_count = args.iter().filter(|a| *a == "--setting-sources").count();

    // Should appear exactly once each, not twice
    assert_eq!(
        settings_count, 1,
        "Fresh session should have --settings flag exactly once, found {}",
        settings_count
    );
    assert_eq!(
        setting_sources_count, 1,
        "Fresh session should have --setting-sources flag exactly once, found {}",
        setting_sources_count
    );
}

#[test]
fn test_resume_session_should_omit_settings_flag() {
    let config = HeadlessConfig {
        model: "haiku".to_string(),
        system_prompt: "test".to_string(),
        settings_path: Some("/tmp/settings.json".to_string()),
        setting_sources: Some("project,local".to_string()),
        persist_session: true,
        resume_session_id: Some("session-123".to_string()),
        session_id: None,
        allow_tools: false,
        json_schema: None,
        cwd: None,
        project_name: Some("midtown".to_string()),
        max_budget_usd: None,
        inactivity_timeout: None,
        team_name: None,
        agent_id: None,
        agent_name: None,
        auth_provider: AuthProvider::Claude,
        env: TextMap::new(),
        fork_session: false,
        disallowed_tools: vec![],
        additional_dirs: vec![],
    };

    let args = build_claude_headless_args(&config);

    // Resume sessions should NOT have --settings (file path) to avoid "Tool names must be
    // unique" errors when plugins re-register from a settings file.
    // --setting-sources is always present (added by build_claude_common_args unconditionally).
    let settings_count = args.iter().filter(|a| *a == "--settings").count();
    let setting_sources_count = args.iter().filter(|a| *a == "--setting-sources").count();

    assert_eq!(
        settings_count, 0,
        "Resume session should NOT have --settings flag, found {}",
        settings_count
    );
    assert_eq!(
        setting_sources_count, 1,
        "--setting-sources is always added by build_claude_common_args, found {}",
        setting_sources_count
    );
}

#[test]
fn test_fresh_session_without_settings_path() {
    let config = HeadlessConfig {
        model: "haiku".to_string(),
        system_prompt: "test".to_string(),
        settings_path: None,
        setting_sources: None,
        persist_session: false,
        resume_session_id: None,
        session_id: None,
        allow_tools: false,
        json_schema: None,
        cwd: None,
        project_name: Some("midtown".to_string()),
        max_budget_usd: None,
        inactivity_timeout: None,
        team_name: None,
        agent_id: None,
        agent_name: None,
        auth_provider: AuthProvider::Claude,
        env: TextMap::new(),
        fork_session: false,
        disallowed_tools: vec![],
        additional_dirs: vec![],
    };

    let args = build_claude_headless_args(&config);

    // --settings should be absent when settings_path is None.
    // --setting-sources is always present (added unconditionally by build_claude_common_args).
    let settings_count = args.iter().filter(|a| *a == "--settings").count();
    let setting_sources_count = args.iter().filter(|a| *a == "--setting-sources").count();

    assert_eq!(settings_count, 0, "Should not add --settings when None");
    assert_eq!(
        setting_sources_count, 1,
        "--setting-sources is always added by build_claude_common_args, found {}",
        setting_sources_count
    );
}

#[test]
fn test_fresh_session_with_preassigned_session_id_includes_session_id_flag() {
    // When a session_id is pre-assigned on a fresh session, the CLI should receive
    // --session-id <uuid> so the daemon controls the session ID immediately without
    // waiting for the init event (eliminating the race window).
    let config = HeadlessConfig {
        model: "haiku".to_string(),
        system_prompt: "test prompt".to_string(),
        settings_path: None,
        setting_sources: None,
        persist_session: true,
        resume_session_id: None,
        session_id: Some("pre-assigned-uuid-1234".to_string()),
        allow_tools: true,
        json_schema: None,
        cwd: None,
        project_name: Some("midtown".to_string()),
        max_budget_usd: None,
        inactivity_timeout: None,
        team_name: None,
        agent_id: None,
        agent_name: None,
        auth_provider: AuthProvider::Claude,
        env: TextMap::new(),
        fork_session: false,
        disallowed_tools: vec![],
        additional_dirs: vec![],
    };

    let args = build_claude_headless_args(&config);

    let session_id_pos = args.iter().position(|a| a == "--session-id");
    assert!(
        session_id_pos.is_some(),
        "Fresh session with pre-assigned session_id should include --session-id flag"
    );
    if let Some(pos) = session_id_pos {
        assert_eq!(
            args.get(pos + 1).map(|s| s.as_str()),
            Some("pre-assigned-uuid-1234"),
            "--session-id should be followed by the pre-assigned UUID"
        );
    }
}

#[test]
fn test_fresh_session_without_preassigned_session_id_omits_session_id_flag() {
    // Without a pre-assigned session_id, fresh headless sessions should NOT include
    // --session-id (the program makes up its own).
    let config = HeadlessConfig {
        model: "haiku".to_string(),
        system_prompt: "test prompt".to_string(),
        settings_path: None,
        setting_sources: None,
        persist_session: true,
        resume_session_id: None,
        session_id: None,
        allow_tools: true,
        json_schema: None,
        cwd: None,
        project_name: Some("midtown".to_string()),
        max_budget_usd: None,
        inactivity_timeout: None,
        team_name: None,
        agent_id: None,
        agent_name: None,
        auth_provider: AuthProvider::Claude,
        env: TextMap::new(),
        fork_session: false,
        disallowed_tools: vec![],
        additional_dirs: vec![],
    };

    let args = build_claude_headless_args(&config);

    let has_session_id = args.iter().any(|a| a == "--session-id");
    assert!(
        !has_session_id,
        "Fresh session without pre-assigned session_id should NOT include --session-id flag"
    );
}

#[test]
fn test_resume_session_does_not_use_session_id_flag() {
    // Resume sessions use --resume <id>, not --session-id.
    // Even if session_id is set, it should be ignored for resume sessions.
    let config = HeadlessConfig {
        model: "haiku".to_string(),
        system_prompt: "test".to_string(),
        settings_path: None,
        setting_sources: None,
        persist_session: true,
        resume_session_id: Some("existing-session-456".to_string()),
        session_id: Some("should-be-ignored".to_string()),
        allow_tools: true,
        json_schema: None,
        cwd: None,
        project_name: Some("midtown".to_string()),
        max_budget_usd: None,
        inactivity_timeout: None,
        team_name: None,
        agent_id: None,
        agent_name: None,
        auth_provider: AuthProvider::Claude,
        env: TextMap::new(),
        fork_session: false,
        disallowed_tools: vec![],
        additional_dirs: vec![],
    };

    let args = build_claude_headless_args(&config);

    assert!(
        !args.iter().any(|a| a == "--session-id"),
        "Resume session should use --resume, not --session-id"
    );
    assert!(
        args.iter().any(|a| a == "--resume"),
        "Resume session should use --resume flag"
    );
}

fn result_event(text: &str, session_id: Option<&str>) -> StreamEvent {
    StreamEvent::Result {
        subtype: "success".to_string(),
        is_error: false,
        result: Some(text.to_string()),
        duration_ms: Some(1234),
        total_cost_usd: Some("0.001".to_string()),
        session_id: session_id.map(str::to_string),
        usage: None,
        extra: Json::Null,
    }
}

fn init_event(id: &str) -> StreamEvent {
    StreamEvent::System {
        subtype: "init".to_string(),
        session_id: Some(id.to_string()),
        model: Some("haiku".to_string()),
        extra: Json::Null,
    }
}

#[test]
fn the_first_result_answers_a_query() {
    let events = vec![
        (init_event("abc-123"), Some("abc-123".to_string())),
        (result_event("Hello!", Some("other")), Some("abc-123".to_string())),
        (result_event("too late", None), Some("abc-123".to_string())),
    ];
    let result = execute(events);
    assert_eq!(result.result, Some("Hello!".to_string()));
    assert_eq!(result.cost_usd, Some("0.001".to_string()));
    assert_eq!(result.duration_ms, Some(1234));
    assert!(!result.is_error);
    assert_eq!(result.session_id, Some("abc-123".to_string()));
}

#[test]
fn a_result_tells_the_session_where_no_event_did() {
    let result = execute(vec![(result_event("42", Some("own")), None)]);
    assert_eq!(result.session_id, Some("own".to_string()));
    assert!(execute(vec![]).result.is_none());
}

#[test]
fn claude_events_of_unknown_types_are_passed_over() {
    let mut session = HeadlessSession::claude();
    assert!(session.next_claude_event(None).is_none());
    assert!(session.next_claude_event(Some(StreamEvent::Unknown)).is_none());
    assert_eq!(session.session_id(), None);
    let progress = StreamEvent::Progress {
        data: Json::Null,
        parent_tool_use_id: Some("toolu_parent".to_string()),
        tool_use_id: None,
        extra: Json::Null,
    };
    assert!(session.next_claude_event(Some(progress)).is_some());
    assert!(session.next_claude_event(Some(init_event("abc-123"))).is_some());
    assert_eq!(session.session_id(), Some("abc-123"));
}

#[test]
fn queries_close_the_input_of_claude_alone() {
    let claude = query_manners(&HeadlessSession::claude());
    assert!(claude.close_input && claude.wait_for_exit);
    let codex = query_manners(&HeadlessSession::codex(test_codex_state()));
    assert!(!codex.close_input && !codex.wait_for_exit);
}

#[test]
fn messages_to_claude_are_lines_of_json() {
    let line = claude_message_line("say \"hi\"\nplease");
    assert!(line.ends_with('\n'));
    assert_eq!(line.matches('\n').count(), 1);
    let read = parse(line.trim()).unwrap();
    assert_eq!(at(&read, &["type"]).and_then(Json::as_str), Some("user"));
    assert_eq!(at(&read, &["message", "role"]).and_then(Json::as_str), Some("user"));
    assert_eq!(
        at(&read, &["message", "content"]).and_then(Json::as_str),
        Some("say \"hi\"\nplease")
    );
}

#[test]
fn resuming_keeps_the_session_on_disk() {
    let config = resume_config("s-1", test_config());
    assert_eq!(config.resume_session_id, Some("s-1".to_string()));
    assert!(config.persist_session);
    assert_eq!(config.system_prompt, "");
    assert_eq!(config.model, "haiku");
}

#[test]
fn sandboxes_wrap_the_program() {
    let config = HeadlessConfig { team_name: Some("t".to_string()), ..test_config() };
    let open = claude_spawn_plan(&config, &Sandbox::Open, &names());
    assert_eq!(open.program, names().program);
    assert_eq!(open.args, build_claude_headless_args(&config));
    assert_eq!(open.env_removed, ["MIDTOWN_AGENT", "CLAUDECODE"]);
    assert_eq!(
        open.env.get("CLAUDE_CODE_EXPERIMENTAL_AGENT_TEAMS"),
        Some(&"1".to_string())
    );
    let mac = claude_spawn_plan(&config, &Sandbox::SandboxExec(vec!["-p".to_string()]), &names());
    assert_eq!(mac.program, "sandbox-exec");
    assert_eq!(mac.args[..2], ["-p".to_string(), names().program]);
    let linux = claude_spawn_plan(&config, &Sandbox::Bubblewrap(vec!["/work".to_string()]), &names());
    assert_eq!(linux.program, "bwrap");
    assert_eq!(
        linux.args[..11].join(" "),
        "--ro-bind / / --bind /work /work --dev /dev --proc /proc --"
    );
    assert_eq!(linux.args[11], names().program);
    assert_eq!(sandbox_root(&config), "/tmp");
    assert_eq!(sandbox_project(&config), "midtown");
}

#[test]
fn codex_runs_as_a_server() {
    let plan = codex_spawn_plan();
    assert_eq!(plan.program, "codex");
    assert_eq!(plan.args, ["app-server"]);
    assert_eq!(plan.env.get("DISABLE_AUTOUPDATER"), Some(&"1".to_string()));
}

#[test]
fn timeouts_say_how_long_they_were() {
    assert_eq!(timeout_message(300), "headless session timed out after 300s");
}

#[test]
fn blank_lines_of_errors_are_dropped() {
    let mut lines = vec![];
    keep_stderr_line(&mut lines, "  warning: x \n");
    keep_stderr_line(&mut lines, "   \n");
    assert_eq!(lines, ["warning: x"]);
}

#[test]
fn codex_sessions_start_once() {
    let mut state = test_codex_state();
    state.initialized = false;
    state.resume_thread_id = Some("t-1".to_string());
    let (init, method, params) = codex_ready_requests(&state, "0.1.0").unwrap();
    assert_eq!(at(&init, &["clientInfo", "version"]).and_then(Json::as_str), Some("0.1.0"));
    assert_eq!(method, "thread/resume");
    assert_eq!(at(&params, &["threadId"]).and_then(Json::as_str), Some("t-1"));
    codex_mark_started(&mut state, 7, method);
    assert_eq!(state.start_request_id, Some(7));
    assert_eq!(state.start_phase, "thread/resume");
    assert!(codex_ready_requests(&state, "0.1.0").is_none());
}

#[test]
fn a_turn_taken_back_keeps_the_queue() {
    let mut state = test_codex_state();
    codex_queue_message(&mut state, "one");
    codex_queue_message(&mut state, "two");
    assert!(codex_begin_turn(&mut state).is_none());
    state.turn_in_progress = false;
    state.thread_id = Some("t-1".to_string());
    let (prompt, params) = codex_begin_turn(&mut state).unwrap();
    assert_eq!(prompt, "one");
    assert_eq!(at(&params, &["threadId"]).and_then(Json::as_str), Some("t-1"));
    assert!(state.turn_in_progress);
    codex_take_back_turn(&mut state, prompt);
    assert!(!state.turn_in_progress);
    assert_eq!(state.pending_messages, ["one", "two"]);
}

#[test]
fn codex_lines_are_read_as_they_are_written() {
    let line = codex_request_line(3, "turn/start", parse(r#"{"a":[1,null]}"#).unwrap());
    let read = codex_read_line(&line).unwrap();
    assert_eq!(at(&read, &["id"]).and_then(Json::as_u64), Some(3));
    assert_eq!(at(&read, &["method"]).and_then(Json::as_str), Some("turn/start"));
    assert_eq!(at(&read, &["params", "a", "0"]).and_then(Json::as_u64), Some(1));
    assert!(codex_read_line("  \n").is_none());
    assert!(codex_read_line("{").is_none());
}

#[test]
fn codex_sessions_are_driven_step_by_step() {
    let mut state = test_codex_state();
    state.initialized = false;
    state.start_request_id = None;
    state.turn_in_progress = false;
    let mut session = HeadlessSession::codex(state);
    assert_eq!(session.ensure_ready("0.1.0").unwrap().1, "thread/start");
    assert!(session.send_message("hello").is_none());
    assert!(matches!(session.codex_dispatch_pending_turns(), Ok(None)));
    codex_mark_started(session.codex.as_mut().unwrap(), 42, "thread/start");
    assert!(session.ensure_ready("0.1.0").is_none());
    let answer = parse(r#"{"id": 42, "result": {"thread": {"id": "t-1"}}}"#).unwrap();
    let (event, action) = session.next_codex_event(&answer);
    assert!(matches!(event, Some(StreamEvent::System { .. })));
    assert!(action == CodexPostAction::DispatchPendingTurns);
    assert_eq!(session.session_id(), Some("t-1"));
    match session.codex_dispatch_pending_turns() {
        Ok(Some((prompt, _))) => assert_eq!(prompt, "hello"),
        _ => panic!("no turn begins"),
    }
    assert!(matches!(session.codex_dispatch_pending_turns(), Ok(None)));
}

#[test]
fn sessions_with_a_process_have_no_thread() {
    let mut session = HeadlessSession::claude();
    assert!(session.ensure_ready("0.1.0").is_none());
    assert_eq!(session.send_message("hi"), Some(claude_message_line("hi")));
    assert_eq!(
        session.codex_dispatch_pending_turns().err(),
        Some("not a codex session".to_string())
    );
    let (event, action) = session.next_codex_event(&Json::Null);
    assert!(event.is_none());
    assert!(action == CodexPostAction::Nothing);
}
