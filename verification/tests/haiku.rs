use midtown::haiku::{
    build_scoring_prompt, filter_by_threshold, parse_score_response, score_from_json,
    score_from_words, score_issue, score_issues, summarize_pr_context, PrIssueType, ScoredIssue,
    ScoringReply,
};
use midtown::json_text::parse;

#[test]
fn test_score_threshold() {
    let high_score = ScoredIssue {
        issue_type: PrIssueType::CiFailed,
        score: 85,
        reasoning: "Critical failure".to_string(),
    };
    assert!(high_score.passes_threshold());

    let low_score = ScoredIssue {
        issue_type: PrIssueType::CiFailed,
        score: 50,
        reasoning: "Flaky test".to_string(),
    };
    assert!(!low_score.passes_threshold());

    let boundary_score = ScoredIssue {
        issue_type: PrIssueType::MergeConflict,
        score: 80,
        reasoning: "At threshold".to_string(),
    };
    assert!(boundary_score.passes_threshold());
}

#[test]
fn test_filter_by_threshold() {
    let issues = vec![
        ScoredIssue {
            issue_type: PrIssueType::CiFailed,
            score: 90,
            reasoning: "High".to_string(),
        },
        ScoredIssue {
            issue_type: PrIssueType::MergeConflict,
            score: 60,
            reasoning: "Medium".to_string(),
        },
        ScoredIssue {
            issue_type: PrIssueType::Approved,
            score: 85,
            reasoning: "High".to_string(),
        },
    ];

    let filtered = filter_by_threshold(issues);
    assert_eq!(filtered.len(), 2);
    assert!(filtered.iter().all(|i| i.score >= 80));
    let again = filter_by_threshold(filtered);
    assert_eq!(again.len(), 2);
}

#[test]
fn test_parse_score_response_json() {
    let response = r#"{"score": 75, "reasoning": "Test failure looks flaky"}"#;
    let result = parse_score_response(response, PrIssueType::CiFailed).unwrap();
    assert_eq!(result.score, 75);
    assert_eq!(result.reasoning, "Test failure looks flaky");
}

#[test]
fn test_parse_score_response_fallback() {
    let response = "The score is 85 because this is critical";
    let result = parse_score_response(response, PrIssueType::CiFailed).unwrap();
    assert_eq!(result.score, 85);
}

#[test]
fn test_build_scoring_prompt() {
    let pr = parse(
        r#"{"mergeable": "CONFLICTING", "createdAt": "2024-01-15T10:00:00Z"}"#,
    )
    .unwrap();
    let prompt = build_scoring_prompt(42, "Fix auth bug", PrIssueType::MergeConflict, &pr);
    assert!(prompt.contains("PR #42"));
    assert!(prompt.contains("Fix auth bug"));
    assert!(prompt.contains("merge conflict"));
    assert!(prompt.contains("CONFLICTING"));
}

#[test]
fn issues_without_a_score_pass() {
    let scored = score_issues(vec![
        (PrIssueType::CiFailed, ScoringReply::NoKey),
        (PrIssueType::MergeConflict, ScoringReply::Failed("down".to_string())),
        (PrIssueType::Approved, ScoringReply::Answer(r#"{"score": 10}"#.to_string())),
    ]);
    assert_eq!(scored.len(), 3);
    assert_eq!(scored[0].score, 100);
    assert_eq!(scored[0].reasoning, "Scoring skipped (no API key)");
    assert!(scored[1].passes_threshold());
    assert_eq!(scored[2].score, 10);
    assert_eq!(filter_by_threshold(scored).len(), 2);
}

#[test]
fn scores_come_from_values_or_words() {
    let parsed = parse(r#"{"score": 7, "reasoning": "minor"}"#).unwrap();
    let scored = score_from_json(&parsed, PrIssueType::CiFailed);
    assert_eq!((scored.score, scored.reasoning.as_str()), (7, "minor"));
    assert_eq!(score_from_words("about 42 points", PrIssueType::CiFailed).score, 42);
    let answer = ScoringReply::Answer("nothing to count".to_string());
    let scored = score_issue(PrIssueType::CiFailed, answer).unwrap();
    assert_eq!(scored.reasoning, "Could not parse structured response");
}

#[test]
fn no_score_is_above_a_hundred() {
    for given in ["101", "200", "255", "256", "300", "18446744073709551615"] {
        let answer = format!(r#"{{"score": {}, "reasoning": "high"}}"#, given);
        let scored = parse_score_response(&answer, PrIssueType::CiFailed).unwrap();
        assert_eq!((scored.score, scored.reasoning.as_str()), (100, "high"));
    }
    let scored = parse_score_response(r#"{"score": 100}"#, PrIssueType::CiFailed).unwrap();
    assert_eq!((scored.score, scored.reasoning.as_str()), (100, "No reasoning provided"));
    for given in ["I say 101", "I say 200", "I say 999", "I say nothing"] {
        let scored = parse_score_response(given, PrIssueType::CiFailed).unwrap();
        assert_eq!(scored.score, 100);
    }
    assert_eq!(score_from_words("I say 99", PrIssueType::CiFailed).score, 99);
}

#[test]
fn each_issue_gets_the_score_of_its_own_answer() {
    let scored = score_issues(vec![
        (
            PrIssueType::CiFailed,
            ScoringReply::Answer(r#"{"score": 15, "reasoning": "flaky"}"#.to_string()),
        ),
        (PrIssueType::MergeConflict, ScoringReply::Failed("down".to_string())),
        (PrIssueType::Approved, ScoringReply::Answer("about 60".to_string())),
    ]);
    assert_eq!(scored[0].issue_type, PrIssueType::CiFailed);
    assert_eq!((scored[0].score, scored[0].reasoning.as_str()), (15, "flaky"));
    assert_eq!(scored[1].score, 100);
    assert_eq!(
        scored[1].reasoning,
        score_issue(PrIssueType::CiFailed, ScoringReply::Failed("down".to_string()))
            .unwrap()
            .reasoning
    );
    assert_eq!(scored[2].issue_type, PrIssueType::Approved);
    assert_eq!(
        (scored[2].score, scored[2].reasoning.as_str()),
        (60, "Could not parse structured response")
    );
}

#[test]
fn summaries_tell_what_the_issue_is_about() {
    let pr = parse(
        r#"{"mergeable": "CONFLICTING", "reviewDecision": "APPROVED", "additions": 3, "deletions": 1}"#,
    )
    .unwrap();
    let text = summarize_pr_context(&pr, PrIssueType::Approved);
    assert!(text.contains("Review decision: APPROVED"), "{text}");
    let text = summarize_pr_context(&parse("{}").unwrap(), PrIssueType::Approved);
    assert!(text.contains("Review decision: none"), "{text}");
}
