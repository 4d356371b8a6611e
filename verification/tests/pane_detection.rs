use midtown::auth::AuthProvider;
use midtown::pane_detection::{
    has_api_error_pattern, has_usage_limit_pattern, is_ui_chrome, is_ui_chrome_char,
};

// Usage limit detection tests

/// The name of the product that panes show.
fn product() -> String {
    format!("{:?}", AuthProvider::Claude)
}

#[test]
fn usage_limit_code_content_should_not_trigger_detection() {
    let code_content = r#"
            // Health checks: idle shutdown, stuck detection, usage limits.
            fn check_health() {
                // Handle rate limit errors gracefully
                if self.rate_limit_exceeded {
                    return Err("rate limit hit");
                }
            }
        "#;

    assert!(
        !has_usage_limit_pattern(code_content),
        "code containing 'usage limits' in comments should NOT trigger detection"
    );
}

#[test]
fn usage_limit_actual_screen_should_trigger_detection() {
    let actual_usage_limit_screen = format!(
        r#"
            You've reached your usage limit for {} Opus 4.5.

            Your limit will reset in 2 hours 30 minutes.

            Options:
            - /upgrade to increase your limit
            - /compact to reduce context
            - Wait for the limit to reset
        "#,
        product()
    );

    assert!(
        has_usage_limit_pattern(&actual_usage_limit_screen),
        "actual usage limit screen with '/upgrade' should trigger detection"
    );
}

#[test]
fn usage_limit_recovery_detected_after_activity() {
    let recovered_pane = r#"
You've reached your usage limit. /upgrade to increase.
Your limit will reset in 2 hours.

> User response resumed

⏺ I'll continue with the task.

Let me read the file first.

⏺ Read(file_path: "/src/main.rs")

Now I'll implement the fix.

⏺ Edit(file_path: "/src/main.rs")
"#;

    assert!(
        !has_usage_limit_pattern(recovered_pane),
        "coworker with significant activity after usage limit should NOT be detected as limited"
    );
}

#[test]
fn usage_limit_still_stuck_at_limit() {
    let stuck_at_limit = format!(
        r#"
You've reached your usage limit for {} Opus 4.5.

Your limit will reset in 2 hours.

Options:
- /upgrade to increase your limit
- /compact to reduce context
"#,
        product()
    );

    assert!(
        has_usage_limit_pattern(&stuck_at_limit),
        "coworker still at usage limit screen should be detected as limited"
    );
}

#[test]
fn usage_limit_minimal_activity_still_limited() {
    let minimal_after = r#"
- /upgrade to increase your limit

(waiting for limit to reset)
"#;

    assert!(
        has_usage_limit_pattern(minimal_after),
        "minimal activity after limit should still be considered limited"
    );
}

#[test]
fn usage_limit_case_insensitive() {
    let uppercase = "Your limit reached. - /UPGRADE to increase your limit.";
    let mixed_case = "Your limit reached. - /Upgrade to increase your limit.";

    assert!(
        has_usage_limit_pattern(uppercase),
        "uppercase '/UPGRADE' should trigger detection"
    );
    assert!(
        has_usage_limit_pattern(mixed_case),
        "mixed case '/Upgrade' should trigger detection"
    );
}

#[test]
fn usage_limit_code_with_upgrade_should_not_trigger() {
    let code_with_upgrade = r#"
            // Test fixture for usage limit detection
            const PATTERN: &str = "/upgrade";

            fn test_usage_limit() {
                let pane = "some content with /upgrade in it";
                assert!(has_pattern(pane));
            }
        "#;

    assert!(
        !has_usage_limit_pattern(code_with_upgrade),
        "code containing '/upgrade' without context should NOT trigger detection"
    );
}

#[test]
fn usage_limit_ui_chrome_should_not_count_as_activity() {
    let limit_with_pure_chrome = format!(
        r#"
You've reached your usage limit for {} Opus 4.5.

- /upgrade to increase your limit

───────────────────────────
━━━━━━━━━━━━━━━━━━━━━━━━━━━
========================
❯
❯
"#,
        product()
    );

    assert!(
        has_usage_limit_pattern(&limit_with_pure_chrome),
        "pure UI chrome after usage limit should not count as recovery activity"
    );
}

#[test]
fn usage_limit_real_activity_means_recovered() {
    let recovered_with_real_output = format!(
        r#"
You've reached your usage limit for {} Opus 4.5.

- /upgrade to increase your limit

OK I'll continue working.
Let me read the file.
⏺ Read(file_path: "/src/main.rs")
Got it, here are the contents.
Now implementing the fix.
⏺ Edit(file_path: "/src/main.rs")
"#,
        product()
    );

    assert!(
        !has_usage_limit_pattern(&recovered_with_real_output),
        "real activity after usage limit should indicate recovery"
    );
}

#[test]
fn usage_limit_extra_usage_with_claude_code_ui() {
    let pane = format!(
        r#"
  ⎿  You've hit your limit · resets 11pm (America/Chicago)
     /extra-usage to finish what you're working on.

✻ Worked for 1m 49s

  6 tasks (3 done, 1 in progress, 2 open) · ctrl+t to hide tasks
  ◼ Run 5 parallel code review agents
  ◻ Score and filter issues
  ◻ Post review comment on PR
  ✔ Check PR #702 eligibility
  ✔ Find relevant {}.md files
  ✔ Get PR #702 summary

─────────────────────────────────────────────
❯
─────────────────────────────────────────────
  ⏵⏵ bypass permissions on (shift+tab to cycle) · ctrl+t to hide tasks
"#,
        product().to_uppercase()
    );

    assert!(
        has_usage_limit_pattern(&pane),
        "usage limit with UI chrome after /extra-usage should be detected"
    );
}

// UI chrome detection tests

#[test]
fn ui_chrome_detects_task_list_items() {
    assert!(is_ui_chrome("◼ Run 5 parallel code review agents"));
    assert!(is_ui_chrome("◻ Score and filter issues"));
    assert!(is_ui_chrome("✔ Check PR #702 eligibility"));
    assert!(is_ui_chrome("  ◼ Run 5 parallel code review agents"));
}

#[test]
fn ui_chrome_detects_cogitation_and_status() {
    assert!(is_ui_chrome("✻ Worked for 1m 49s"));
    assert!(is_ui_chrome(
        "✻ Running parallel code reviews… (2m 4s · ↓ 4.1k tokens)"
    ));
    assert!(is_ui_chrome(
        "⏵⏵ bypass permissions on (shift+tab to cycle) · ctrl+t to hide tasks"
    ));
}

#[test]
fn ui_chrome_detects_ctrl_key_hints() {
    assert!(is_ui_chrome(
        "6 tasks (3 done, 1 in progress, 2 open) · ctrl+t to hide tasks"
    ));
    assert!(is_ui_chrome("ctrl+b ctrl+b (twice) to run in background"));
}

#[test]
fn ui_chrome_does_not_match_real_content() {
    assert!(!is_ui_chrome("Reading file src/main.rs"));
    assert!(!is_ui_chrome("OK I'll continue working."));
    assert!(!is_ui_chrome("Let me read the file."));
    assert!(!is_ui_chrome("Now implementing the fix."));
}

// API error detection tests

#[test]
fn api_error_detects_500_error() {
    let api_error_pane = r#"
I'll read the file now.
⏺ Read(file_path: "/src/main.rs")

API Error: 500 {"type":"error","error":{"type":"api_error","message":"Internal server error"},"request_id":"req_123"}
"#;

    assert!(
        has_api_error_pattern(api_error_pane),
        "should detect API Error: 500 pattern"
    );
}

#[test]
fn api_error_detects_overloaded_error() {
    let overloaded_pane = r#"
Working on the task.

API Error: 529 {"type":"error","error":{"type":"overloaded_error","message":"Overloaded"},"request_id":"req_456"}
"#;

    assert!(
        has_api_error_pattern(overloaded_pane),
        "should detect overloaded_error pattern"
    );
}

#[test]
fn api_error_detects_internal_server_error_message() {
    let internal_error_pane = "Something went wrong. Internal server error. Please try again.";

    assert!(
        has_api_error_pattern(internal_error_pane),
        "should detect 'Internal server error' message"
    );
}

#[test]
fn api_error_detection_is_case_insensitive() {
    assert!(
        has_api_error_pattern("API ERROR: 500"),
        "should detect uppercase 'API ERROR'"
    );
    assert!(
        has_api_error_pattern("api error: 500"),
        "should detect lowercase 'api error'"
    );
    assert!(
        has_api_error_pattern("INTERNAL SERVER ERROR"),
        "should detect uppercase 'INTERNAL SERVER ERROR'"
    );
    assert!(
        has_api_error_pattern("internal server error"),
        "should detect lowercase 'internal server error'"
    );
}

#[test]
fn api_error_code_content_should_not_trigger_detection() {
    let code_content = r#"
// Handle API errors gracefully
// API Error: 500 is a server error
fn handle_api_error(status: u16) {
    match status {
        500 => log!("Internal server error"),
        _ => log!("Unknown error"),
    }
}

// Now implement the actual handler
fn process_request() {
    let result = make_api_call();
    handle_response(result);
    validate_output();
    send_notification();
    cleanup_resources();
}
"#;

    assert!(
        !has_api_error_pattern(code_content),
        "code with API error strings followed by activity should NOT trigger detection"
    );
}

#[test]
fn api_error_recovers_after_real_activity() {
    let recovered_pane = r#"
API Error: 500 {"type":"error","error":{"type":"api_error","message":"Internal server error"}}

Retrying the request...
⏺ Read(file_path: "/src/main.rs")
Got the file contents.
Now editing.
⏺ Edit(file_path: "/src/main.rs")
Done with the edit.
"#;

    assert!(
        !has_api_error_pattern(recovered_pane),
        "real activity after API error should indicate recovery"
    );
}

#[test]
fn api_error_still_stuck_with_only_ui_chrome() {
    let stuck_with_chrome = r#"
API Error: 502 {"type":"error","error":{"type":"api_error","message":"Bad gateway"}}

───────────────────────────
❯
"#;

    assert!(
        has_api_error_pattern(stuck_with_chrome),
        "UI chrome after API error should not count as recovery"
    );
}

#[test]
fn patterns_are_found_whatever_letters_stand_before_them() {
    assert!(has_usage_limit_pattern(
        "You've reached your usage limit.\n- /UPGRADE to increase your limit"
    ));
    assert!(has_api_error_pattern("api ERROR: 529"));
    assert!(!has_usage_limit_pattern("nothing to see"));
    assert!(!has_api_error_pattern("nothing to see"));
    // Letters whose lower case takes more or fewer bytes than they do.
    assert!(has_usage_limit_pattern("\u{130}- /upgrade"));
    let grown = "\u{130}".repeat(40);
    assert!(has_usage_limit_pattern(&format!("{}- /upgrade", grown)));
    let five = "\none\ntwo\nthree\nfour\nfive";
    assert!(has_usage_limit_pattern(&format!("\u{212a}- /upgrade{}", five)));
    assert!(!has_usage_limit_pattern(&format!("\u{212a}- /upgrade{}\nsix", five)));
}

#[test]
fn white_space_does_not_make_a_line_chrome() {
    assert!(!is_ui_chrome("a b c d e f"));
    assert!(is_ui_chrome("- - - -"));
    assert!(is_ui_chrome("──── x"));
    assert!(!is_ui_chrome("─── x"));
    assert!(is_ui_chrome_char('─'));
    assert!(!is_ui_chrome_char('a'));
}
