use midtown::auth::AuthProvider;
use midtown::config::ExecutionRole;
use midtown::names::Names;
use midtown::mailbox::{
    agent_id, ensure_team_config, inbox_path, lock_path, team_name_for_repo, teams_dir,
    upsert_team_member, write_to_inbox, LockStep, MailboxMessage, MkdirLock, MkdirOutcome,
    TeamConfig, TeamMember, LOCK_ATTEMPTS, STALE_LOCK_MS,
};

fn names() -> Names {
    Names {
        program: format!("{:?}", AuthProvider::Claude).to_lowercase(),
        reader_agent: format!("midtown-code-{:?}", ExecutionRole::Reviewer).to_lowercase(),
    }
}

fn reader() -> String {
    format!("{:?}", ExecutionRole::Reviewer).to_lowercase()
}

fn member(name: &str, agent_type: &str) -> TeamMember {
    TeamMember {
        name: name.to_string(),
        agent_id: format!("{name}@midtown-repo"),
        agent_type: agent_type.to_string(),
    }
}

/// The steps of taking a lock, where each attempt has the same outcome.
fn take_lock(outcome: fn() -> MkdirOutcome, max_retries: u32) -> LockStep {
    let mut attempt = 0;
    loop {
        match MkdirLock::acquire(outcome(), attempt, max_retries) {
            LockStep::SleepAndRetry => attempt += 1,
            step => return step,
        }
    }
}

const NAMES: [&str; 10] = [
    "lexington",
    "park",
    "madison",
    "broadway",
    "amsterdam",
    "columbus",
    "riverside",
    "york",
    "pleasant",
    "vernon",
];

#[test]
fn mailbox_test_mailbox_message_new() {
    let msg = MailboxMessage::new("hello", "daemon");
    assert_eq!(msg.text, "hello");
    assert_eq!(msg.from, "daemon");
    assert!(!msg.read);
    assert!(msg.color.is_none());
    assert!(msg.summary.is_none());
}

#[test]
fn mailbox_test_mailbox_message_builder() {
    let msg = MailboxMessage::new("hello", "daemon")
        .with_color("blue")
        .with_summary("Test message");
    assert_eq!(msg.color.as_deref(), Some("blue"));
    assert_eq!(msg.summary.as_deref(), Some("Test message"));
}

#[test]
fn mailbox_test_team_name_for_repo() {
    assert_eq!(team_name_for_repo("midtown"), "midtown-midtown");
    assert_eq!(team_name_for_repo("my-project"), "midtown-my-project");
}

#[test]
fn mailbox_test_agent_id() {
    assert_eq!(
        agent_id("lexington", "midtown-repo"),
        "lexington@midtown-repo"
    );
}

#[test]
fn mailbox_test_mkdir_lock_acquire_release() {
    assert_eq!(take_lock(|| MkdirOutcome::Created, 5), LockStep::Acquired);
}

#[test]
fn mailbox_test_mkdir_lock_contention() {
    assert_eq!(take_lock(|| MkdirOutcome::Exists(Some(0)), 2), LockStep::GiveUp);
}

#[test]
fn mailbox_test_write_to_inbox_creates_file() {
    let parsed = write_to_inbox(None, MailboxMessage::new("hello", "daemon"));
    assert_eq!(parsed.len(), 1);
    assert_eq!(parsed[0].text, "hello");
    assert_eq!(parsed[0].from, "daemon");
    assert!(!parsed[0].read);
}

#[test]
fn mailbox_test_write_to_inbox_appends() {
    let inbox = write_to_inbox(None, MailboxMessage::new("first", "daemon"));
    let parsed = write_to_inbox(Some(inbox), MailboxMessage::new("second", "daemon"));
    assert_eq!(parsed.len(), 2);
    assert_eq!(parsed[0].text, "first");
    assert_eq!(parsed[1].text, "second");
}

#[test]
fn mailbox_test_ensure_team_config() {
    let members = vec![member("lexington", "coworker"), member("park", "coworker")];
    let parsed = ensure_team_config(members);
    assert_eq!(parsed.members.len(), 2);
    assert_eq!(parsed.members[0].name, "lexington");
    assert_eq!(parsed.members[1].agent_id, "park@midtown-repo");
}

#[test]
fn mailbox_test_upsert_team_member_creates_config() {
    let config = upsert_team_member(None, member("lexington", "coworker"));
    let parsed = upsert_team_member(Some(config), member("park", "coworker"));
    assert_eq!(parsed.members.len(), 2);
    assert_eq!(parsed.members[0].name, "lexington");
    assert_eq!(parsed.members[1].name, "park");
}

#[test]
fn mailbox_test_upsert_team_member_updates_existing() {
    let config = upsert_team_member(None, member("lexington", "coworker"));
    let parsed = upsert_team_member(Some(config), member("lexington", &reader()));
    assert_eq!(parsed.members.len(), 1);
    assert_eq!(parsed.members[0].agent_type, reader());
}

#[test]
fn mailbox_test_upsert_team_member_concurrent_no_lost_members() {
    let mut config: Option<TeamConfig> = None;
    for name in NAMES {
        config = Some(upsert_team_member(config, member(name, "coworker")));
    }
    let parsed = config.unwrap();
    assert_eq!(parsed.members.len(), 10);
    let mut found_names: Vec<&str> = parsed.members.iter().map(|m| m.name.as_str()).collect();
    found_names.sort();
    let mut expected_names = NAMES.to_vec();
    expected_names.sort();
    assert_eq!(found_names, expected_names);
}

#[test]
fn mailbox_test_stale_lock_recovery() {
    let step = take_lock(|| MkdirOutcome::Exists(Some(0)), 2);
    assert_eq!(step, LockStep::GiveUp, "Fresh lock should not be treated as stale");
}

#[test]
fn mailbox_tests_test_mailbox_message_new() {
    let msg = MailboxMessage::new("hello", "daemon");
    assert_eq!(msg.text, "hello");
    assert_eq!(msg.from, "daemon");
    assert!(!msg.read);
    assert!(msg.color.is_none());
    assert!(msg.summary.is_none());
}

#[test]
fn mailbox_tests_test_mailbox_message_builder() {
    let msg = MailboxMessage::new("hello", "daemon")
        .with_color("blue")
        .with_summary("Test message");
    assert_eq!(msg.color.as_deref(), Some("blue"));
    assert_eq!(msg.summary.as_deref(), Some("Test message"));
}

#[test]
fn mailbox_tests_test_team_name_for_repo() {
    assert_eq!(team_name_for_repo("midtown"), "midtown-midtown");
    assert_eq!(team_name_for_repo("my-project"), "midtown-my-project");
}

#[test]
fn mailbox_tests_test_agent_id() {
    assert_eq!(
        agent_id("lexington", "midtown-repo"),
        "lexington@midtown-repo"
    );
}

#[test]
fn mailbox_tests_test_mkdir_lock_acquire_release() {
    assert_eq!(take_lock(|| MkdirOutcome::Created, 5), LockStep::Acquired);
}

#[test]
fn mailbox_tests_test_mkdir_lock_contention() {
    assert_eq!(take_lock(|| MkdirOutcome::Exists(Some(0)), 2), LockStep::GiveUp);
}

#[test]
fn mailbox_tests_test_write_to_inbox_creates_file() {
    let parsed = write_to_inbox(None, MailboxMessage::new("hello", "daemon"));
    assert_eq!(parsed.len(), 1);
    assert_eq!(parsed[0].text, "hello");
    assert_eq!(parsed[0].from, "daemon");
    assert!(!parsed[0].read);
}

#[test]
fn mailbox_tests_test_write_to_inbox_appends() {
    let inbox = write_to_inbox(None, MailboxMessage::new("first", "daemon"));
    let parsed = write_to_inbox(Some(inbox), MailboxMessage::new("second", "daemon"));
    assert_eq!(parsed.len(), 2);
    assert_eq!(parsed[0].text, "first");
    assert_eq!(parsed[1].text, "second");
}

#[test]
fn mailbox_tests_test_ensure_team_config() {
    let members = vec![member("lexington", "coworker"), member("park", "coworker")];
    let parsed = ensure_team_config(members);
    assert_eq!(parsed.members.len(), 2);
    assert_eq!(parsed.members[0].name, "lexington");
    assert_eq!(parsed.members[1].agent_id, "park@midtown-repo");
}

#[test]
fn mailbox_tests_test_upsert_team_member_creates_config() {
    let config = upsert_team_member(None, member("lexington", "coworker"));
    let parsed = upsert_team_member(Some(config), member("park", "coworker"));
    assert_eq!(parsed.members.len(), 2);
    assert_eq!(parsed.members[0].name, "lexington");
    assert_eq!(parsed.members[1].name, "park");
}

#[test]
fn mailbox_tests_test_upsert_team_member_updates_existing() {
    let config = upsert_team_member(None, member("lexington", "coworker"));
    let parsed = upsert_team_member(Some(config), member("lexington", &reader()));
    assert_eq!(parsed.members.len(), 1);
    assert_eq!(parsed.members[0].agent_type, reader());
}

#[test]
fn mailbox_tests_test_upsert_team_member_concurrent_no_lost_members() {
    let mut config: Option<TeamConfig> = None;
    for name in NAMES {
        config = Some(upsert_team_member(config, member(name, "coworker")));
    }
    let parsed = config.unwrap();
    assert_eq!(parsed.members.len(), 10);
    let mut found_names: Vec<&str> = parsed.members.iter().map(|m| m.name.as_str()).collect();
    found_names.sort();
    let mut expected_names = NAMES.to_vec();
    expected_names.sort();
    assert_eq!(found_names, expected_names);
}

#[test]
fn mailbox_tests_test_stale_lock_recovery() {
    let step = take_lock(|| MkdirOutcome::Exists(Some(0)), 2);
    assert_eq!(step, LockStep::GiveUp, "Fresh lock should not be treated as stale");
}

#[test]
fn stale_locks_are_replaced() {
    let old = MkdirOutcome::Exists(Some(STALE_LOCK_MS + 1));
    assert_eq!(MkdirLock::acquire(old, 0, 2), LockStep::RemoveStale);
    let old = MkdirOutcome::Exists(Some(STALE_LOCK_MS));
    assert_eq!(MkdirLock::acquire(old, 0, 2), LockStep::SleepAndRetry);
    assert_eq!(MkdirLock::removed_stale(true, 0, 2), LockStep::Acquired);
    assert_eq!(MkdirLock::removed_stale(false, 1, 2), LockStep::GiveUp);
    assert_eq!(MkdirLock::acquire(MkdirOutcome::Failed, 0, 2), LockStep::Fail);
    let unknown = MkdirOutcome::Exists(None);
    assert_eq!(MkdirLock::acquire(unknown, LOCK_ATTEMPTS - 1, LOCK_ATTEMPTS), LockStep::GiveUp);
    assert_eq!(
        MkdirLock::refusal("/t/x.lock", 20),
        "Failed to acquire lock at /t/x.lock after 20 retries"
    );
}

#[test]
fn inboxes_stand_below_the_team() {
    let base = format!("/home/me/.{}/teams/midtown-r", names().program);
    assert_eq!(teams_dir("/home/me", "midtown-r", &names()), base);
    assert_eq!(
        inbox_path("/home/me", "midtown-r", "park", &names()),
        format!("{base}/inboxes/park.json")
    );
    assert_eq!(
        lock_path("/home/me", "midtown-r", "park", &names()),
        format!("{base}/inboxes/park.json.lock")
    );
}

#[test]
fn messages_bear_the_time() {
    let msg = MailboxMessage::new("hello", "daemon");
    assert!(chrono::DateTime::parse_from_rfc3339(&msg.timestamp).is_ok());
    let msg = MailboxMessage::written_at("hello", "daemon", "t".to_string());
    assert_eq!(msg.timestamp, "t");
}

#[test]
fn a_message_in_an_inbox_tells_when_it_was_written() {
    let message = MailboxMessage::new("hello", "daemon");
    assert!(chrono::DateTime::parse_from_rfc3339(&message.timestamp).is_ok());
    assert!(message.timestamp.ends_with("+00:00"));
}
