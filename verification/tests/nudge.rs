use std::time::{SystemTime, UNIX_EPOCH};

use midtown::nudge::config::{NudgeConfig, NANOS_PER_SEC};
use midtown::nudge::state::{CoworkerNudgeState, NudgeTracker};
use midtown::nudge::tmux::{
    capture_pane, list_sessions, list_windows, listed_names, nudge_command, pane_of, send_nudge,
    send_nudge_to_pane, session_exists, window_exists, window_of, CommandOutcome, NudgeError,
    NudgePhase, NudgeStep,
};
use midtown::nudge::{
    format_nudge_message, Nudge, NudgeReason, NudgeService, DEFAULT_NUDGE_TEMPLATE,
};

#[test]
fn test_default_config() {
    let config = NudgeConfig::default();
    assert_eq!(config.interval, 300 * NANOS_PER_SEC);
    assert!(config.message_template.contains("{task}"));
    assert!(config.enabled);
}

#[test]
fn test_custom_config() {
    let config = NudgeConfig::new(60, "Custom: {task}");
    assert_eq!(config.interval, 60 * NANOS_PER_SEC);
    assert_eq!(config.message_template, "Custom: {task}");
}

#[test]
fn test_builder_pattern() {
    let config = NudgeConfig::default()
        .with_interval_secs(120)
        .with_template("Test: {task}")
        .with_enabled(false);

    assert_eq!(config.interval, 120 * NANOS_PER_SEC);
    assert_eq!(config.message_template, "Test: {task}");
    assert!(!config.enabled);
}

#[test]
fn test_disabled_config() {
    let config = NudgeConfig::disabled();
    assert!(!config.enabled);
    assert_eq!(config.interval, 300 * NANOS_PER_SEC);
}

#[test]
fn test_format_nudge_message_with_task() {
    let msg = format_nudge_message(DEFAULT_NUDGE_TEMPLATE, Some("fixing bug #123"));
    assert!(msg.contains("fixing bug #123"));
    assert!(msg.contains("midtown channel read"));
}

#[test]
fn test_format_nudge_message_without_task() {
    let msg = format_nudge_message(DEFAULT_NUDGE_TEMPLATE, None);
    assert!(msg.contains("your current task"));
}

#[test]
fn test_nudge_reason_description() {
    assert_eq!(NudgeReason::Heartbeat.description(), "periodic check-in");
    assert_eq!(
        NudgeReason::NewReview { pr_number: 42 }.description(),
        "new review on PR #42"
    );
    assert_eq!(
        NudgeReason::BlockerResolved {
            blocker_id: "BUG-1".to_string()
        }
        .description(),
        "blocker BUG-1 resolved"
    );
    assert_eq!(
        NudgeReason::Manual {
            from: "witness".to_string()
        }
        .description(),
        "nudge from witness"
    );
}

#[test]
fn test_nudge_creation() {
    let nudge = Nudge::new(
        "polecat1",
        Some("task-123".to_string()),
        NudgeReason::Heartbeat,
    );
    assert_eq!(nudge.coworker, "polecat1");
    assert_eq!(nudge.task, Some("task-123".to_string()));
    assert!(nudge.message.contains("task-123"));
}

#[test]
fn test_nudge_with_custom_template() {
    let nudge = Nudge::with_template(
        "polecat1",
        Some("task-456".to_string()),
        NudgeReason::Heartbeat,
        "Hey! Working on {task}? Check in!",
    );
    assert_eq!(nudge.message, "Hey! Working on task-456? Check in!");
}

#[test]
fn test_coworker_state_creation() {
    let state = CoworkerNudgeState::new("polecat1");
    assert_eq!(state.coworker, "polecat1");
    assert_eq!(state.nudge_count, 1);
}

#[test]
fn test_coworker_state_record_nudge() {
    let mut state = CoworkerNudgeState::new("polecat1");
    assert_eq!(state.nudge_count, 1);

    state.record_nudge();
    assert_eq!(state.nudge_count, 2);

    state.record_nudge();
    assert_eq!(state.nudge_count, 3);
}

#[test]
fn test_time_since_last_nudge() {
    let state = CoworkerNudgeState::new("polecat1");
    assert!(state.time_since_last_nudge() < NANOS_PER_SEC);
}

#[test]
fn test_tracker_new() {
    let tracker = NudgeTracker::new();
    assert!(tracker.is_empty());
    assert_eq!(tracker.len(), 0);
}

#[test]
fn test_tracker_record_and_get() {
    let mut tracker = NudgeTracker::new();

    tracker.record_nudge("polecat1");
    assert_eq!(tracker.len(), 1);
    assert!(tracker.get("polecat1").is_some());
    assert_eq!(tracker.get("polecat1").unwrap().nudge_count, 1);

    tracker.record_nudge("polecat1");
    assert_eq!(tracker.get("polecat1").unwrap().nudge_count, 2);

    tracker.record_nudge("polecat2");
    assert_eq!(tracker.len(), 2);
    assert_eq!(tracker.get("polecat2").unwrap().nudge_count, 1);
}

#[test]
fn test_tracker_coworkers() {
    let mut tracker = NudgeTracker::new();
    tracker.record_nudge("alice");
    tracker.record_nudge("bob");
    tracker.record_nudge("charlie");

    let coworkers = tracker.coworkers();
    assert_eq!(coworkers.len(), 3);
    assert!(coworkers.contains(&"alice".to_string()));
    assert!(coworkers.contains(&"bob".to_string()));
    assert!(coworkers.contains(&"charlie".to_string()));
}

#[test]
fn test_tracker_remove() {
    let mut tracker = NudgeTracker::new();
    tracker.record_nudge("polecat1");
    tracker.record_nudge("polecat2");

    let removed = tracker.remove("polecat1");
    assert!(removed.is_some());
    assert_eq!(removed.unwrap().coworker, "polecat1");
    assert_eq!(tracker.len(), 1);
    assert!(tracker.get("polecat1").is_none());
}

#[test]
fn test_tracker_clear() {
    let mut tracker = NudgeTracker::new();
    tracker.record_nudge("polecat1");
    tracker.record_nudge("polecat2");
    assert_eq!(tracker.len(), 2);

    tracker.clear();
    assert!(tracker.is_empty());
}

#[test]
fn reminders_wait_for_the_interval() {
    let mut service = NudgeService::with_config(NudgeConfig::new(60, "On {task}"));
    let start = 1_000 * NANOS_PER_SEC;
    let nudge = service.nudge_if_due("lex", Some("a"), start).unwrap();
    assert_eq!(nudge.message, "On a");
    service.send_nudge(&nudge, Ok(()), start).unwrap();
    assert!(service
        .nudge_if_due("lex", None, start + 60 * NANOS_PER_SEC - 1)
        .is_none());
    assert!(service
        .nudge_if_due("lex", None, start + 60 * NANOS_PER_SEC)
        .is_some());
    // A clock that has gone back counts as no time at all.
    assert!(service.nudge_if_due("lex", None, start - 1).is_none());
    assert!(service.nudge_if_due("park", None, start).is_some());
}

#[test]
fn reminders_that_fail_are_not_recorded() {
    let mut service = NudgeService::new();
    let nudge = service.nudge_if_due("lex", None, 5).unwrap();
    let sent = service.send_nudge(&nudge, Err(NudgeError::EnterFailed), 5);
    assert!(matches!(sent, Err(NudgeError::EnterFailed)));
    assert!(service.tracker().is_empty());
    assert!(service.should_nudge("lex"));
}

#[test]
fn clock_is_read_when_a_reminder_is_recorded() {
    let before = SystemTime::now().duration_since(UNIX_EPOCH).unwrap().as_nanos();
    let state = CoworkerNudgeState::new("lex");
    let after = SystemTime::now().duration_since(UNIX_EPOCH).unwrap().as_nanos();
    assert!(before <= state.last_nudge && state.last_nudge <= after);
    let service = NudgeService::new();
    assert!(service.should_nudge("lex"));
}

#[test]
fn test_send_nudge_to_nonexistent_session() {
    let target = window_of("__nonexistent_test_session_xyz123__", "window");
    assert_eq!(
        nudge_command(NudgePhase::Session, &target, "test message"),
        vec!["has-session", "-t", "__nonexistent_test_session_xyz123__"]
    );
    let refused = CommandOutcome::Refused("can't find session".to_string());
    match send_nudge(NudgePhase::Session, &target, refused) {
        NudgeStep::Fail(NudgeError::SessionNotFound(s)) => {
            assert_eq!(s, "__nonexistent_test_session_xyz123__")
        }
        _ => panic!("Expected error for nonexistent session"),
    }
}

#[test]
fn test_list_sessions_no_panic() {
    assert_eq!(
        list_sessions(),
        vec!["list-sessions", "-F", "#{session_name}"]
    );
    assert!(listed_names(false, "no server running").is_empty());
    assert_eq!(listed_names(true, " a \n\n b\n"), vec!["a", "b"]);
}

#[test]
fn test_session_exists_nonexistent() {
    assert_eq!(
        session_exists("__nonexistent_test_session_xyz123__"),
        vec!["has-session", "-t", "__nonexistent_test_session_xyz123__"]
    );
    assert_eq!(window_exists("s", "w"), vec!["has-session", "-t", "s:w"]);
    assert_eq!(
        list_windows("s"),
        vec!["list-windows", "-t", "s", "-F", "#{window_name}"]
    );
}

fn next(phase: NudgePhase, outcome: CommandOutcome) -> (u64, NudgePhase) {
    match send_nudge(phase, &window_of("s", "w"), outcome) {
        NudgeStep::Run { pause_ms, phase } => (pause_ms, phase),
        _ => panic!("a command should follow"),
    }
}

#[test]
fn reminder_is_typed_key_by_key() {
    let ok = || CommandOutcome::Succeeded;
    assert_eq!(next(NudgePhase::Session, ok()), (0, NudgePhase::Escape));
    let refused = CommandOutcome::Refused("x".to_string());
    assert_eq!(next(NudgePhase::Escape, refused), (200, NudgePhase::Insert));
    assert_eq!(next(NudgePhase::Insert, ok()), (100, NudgePhase::Text));
    assert_eq!(next(NudgePhase::Text, ok()), (100, NudgePhase::Enter(0)));
    let target = pane_of("s", "w", "1");
    assert_eq!(
        nudge_command(NudgePhase::Text, &target, "hello"),
        vec!["send-keys", "-t", "s:w.1", "-l", "# hello"]
    );
    assert_eq!(
        nudge_command(NudgePhase::Enter(0), &target, "hello"),
        vec!["send-keys", "-t", "s:w.1", "Enter"]
    );
    assert!(matches!(
        send_nudge_to_pane(NudgePhase::Enter(2), &target, ok()),
        NudgeStep::Done
    ));
}

#[test]
fn reminder_gives_up_after_three_keys() {
    let refused = || CommandOutcome::Refused("no".to_string());
    assert_eq!(next(NudgePhase::Enter(0), refused()), (200, NudgePhase::Enter(1)));
    assert_eq!(next(NudgePhase::Enter(1), refused()), (200, NudgePhase::Enter(2)));
    let target = window_of("s", "w");
    match send_nudge(NudgePhase::Enter(2), &target, refused()) {
        NudgeStep::Fail(e) => assert_eq!(e.to_text(), "failed to send Enter key after retries"),
        _ => panic!("the reminder should fail"),
    }
    match send_nudge(NudgePhase::Text, &target, refused()) {
        NudgeStep::Fail(e) => assert_eq!(e.to_text(), "tmux command failed: no"),
        _ => panic!("the reminder should fail"),
    }
    match send_nudge(NudgePhase::Escape, &target, CommandOutcome::NotRun("gone".to_string())) {
        NudgeStep::Fail(e) => assert_eq!(e.to_text(), "I/O error: gone"),
        _ => panic!("the reminder should fail"),
    }
    assert_eq!(NudgeError::TmuxNotFound.to_text(), "tmux not found in PATH");
    assert_eq!(
        NudgeError::SessionNotFound("s".to_string()).to_text(),
        "tmux session not found: s"
    );
    assert_eq!(
        NudgeError::WindowNotFound("w".to_string()).to_text(),
        "tmux window not found: w"
    );
}

#[test]
fn panes_are_read_with_a_command() {
    assert_eq!(capture_pane("s", "w"), ["capture-pane", "-t", "s:w", "-p"]);
}

#[test]
fn a_reminder_is_due_when_its_time_has_come() {
    let mut service = NudgeService::new();
    let nudge = service.nudge_if_due("park", None, 1_000).unwrap();
    assert!(service.send_nudge(&nudge, Ok(()), 1_000).is_ok());
    assert!(!service.should_nudge_at("park", 2_000));
    service.config_mut().interval = 10;
    assert!(service.should_nudge_at("park", 2_000));
    assert!(service.should_nudge_at("york", 2_000));
}

#[test]
fn a_service_that_is_switched_off_reminds_nobody() {
    let mut service = NudgeService::new();
    service.config_mut().enabled = false;
    service.config_mut().interval = 0;
    assert!(!service.should_nudge("park"));
    assert!(!service.should_nudge_at("park", 2_000));
    assert!(service.nudge_if_due("park", None, 2_000).is_none());
    assert!(service.tracker().is_empty());
    service.config_mut().enabled = true;
    assert!(service.should_nudge("park"));
    assert!(service.nudge_if_due("park", None, 2_000).is_some());
}
