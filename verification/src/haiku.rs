//! How urgent the issues of a pull request are, as judged by a small model.

use vstd::prelude::*;

use crate::json::{items_view, text_of, Json, JsonView};
use crate::json_ext::ValueExt;
use crate::json_text::{parse, parsed_text};
use crate::selection::{
    choosing_goes_item_by_item, chosen, chosen_items_are_the_wanted_ones,
    nothing_is_chosen_from_nothing,
};
use crate::text::{
    chars_of, concat2, concat3, concat4, decimal, is_digit, parse_unsigned, slice, to_decimal,
    unsigned_value,
};

verus! {

/// What is the matter with a pull request.
#[derive(Debug, Clone, Copy, PartialEq, Eq, Structural)]
pub enum PrIssueType {
    MergeConflict,
    CiFailed,
    ChangesRequested,
    Approved,
    NeedsReview,
    ReviewComment,
}

impl PrIssueType {
    /// What the issue is called.
    pub open spec fn called(self) -> Seq<char> {
        match self {
            PrIssueType::MergeConflict => "merge conflict"@,
            PrIssueType::CiFailed => "CI failure"@,
            PrIssueType::ChangesRequested => "changes requested"@,
            PrIssueType::Approved => "approved"@,
            PrIssueType::NeedsReview => "needs review"@,
            PrIssueType::ReviewComment => "review comment"@,
        }
    }

    pub fn as_str(self) -> (r: &'static str)
        ensures
            r@ == self.called(),
    {
        match self {
            PrIssueType::MergeConflict => "merge conflict",
            PrIssueType::CiFailed => "CI failure",
            PrIssueType::ChangesRequested => "changes requested",
            PrIssueType::Approved => "approved",
            PrIssueType::NeedsReview => "needs review",
            PrIssueType::ReviewComment => "review comment",
        }
    }
}

/// The score from which on an issue is acted upon.
pub const SCORE_THRESHOLD: u8 = 80;

/// An issue with its score.
#[derive(Debug)]
pub struct ScoredIssue {
    pub issue_type: PrIssueType,
    pub score: u8,
    pub reasoning: String,
}

impl ScoredIssue {
    pub fn passes_threshold(&self) -> (r: bool)
        ensures
            r == (self.score >= SCORE_THRESHOLD),
    {
        self.score >= SCORE_THRESHOLD
    }
}

/// The issues whose score reaches the threshold, in their order.
pub open spec fn passing(s: Seq<ScoredIssue>) -> Seq<ScoredIssue>
    decreases s.len(),
{
    if s.len() == 0 {
        Seq::empty()
    } else if s.last().score >= SCORE_THRESHOLD {
        passing(s.drop_last()).push(s.last())
    } else {
        passing(s.drop_last())
    }
}

/// The issues whose score reaches the threshold.
pub fn filter_by_threshold(scored_issues: Vec<ScoredIssue>) -> (r: Vec<ScoredIssue>)
    ensures
        r@ == passing(scored_issues@),
        chosen(scored_issues@, |issue: ScoredIssue| issue.score >= 80, r@),
{
    let ghost all = scored_issues@;
    let mut r: Vec<ScoredIssue> = Vec::new();
    for issue in it: scored_issues
        invariant
            it.seq() == all,
            r@ == passing(all.take(it.index() as int)),
    {
        assert(all.take(it.index() + 1).drop_last() == all.take(it.index() as int));
        if issue.passes_threshold() {
            r.push(issue);
        }
    }
    assert(all.take(all.len() as int) == all);
    proof {
        issues_pass_from_eighty_on(all);
    }
    r
}

/// The text of a field, or a default.
pub open spec fn text_or(j: JsonView, key: Seq<char>, default: Seq<char>) -> Seq<char> {
    match text_of(j.field(key)) {
        Some(s) => s,
        None => default,
    }
}

/// One line for each check.
pub open spec fn check_lines(checks: Seq<JsonView>) -> Seq<char>
    decreases checks.len(),
{
    if checks.len() == 0 {
        Seq::empty()
    } else {
        let c = checks.last();
        check_lines(checks.drop_last()) + ("  - "@ + text_or(c, "name"@, "unknown"@) + ": "@
            + text_or(c, "conclusion"@, "pending"@) + "\n"@)
    }
}

/// The part of a pull request that bears on an issue.
pub open spec fn issue_context(pr: JsonView, issue: PrIssueType) -> Seq<char> {
    match issue {
        PrIssueType::MergeConflict => "Mergeable status: "@ + text_or(
            pr,
            "mergeable"@,
            "unknown"@,
        ) + "\n"@,
        PrIssueType::CiFailed => match pr.field("statusCheckRollup"@) {
            Some(j) => match j.items() {
                Some(checks) => "CI Check Results:\n"@ + check_lines(checks),
                None => Seq::empty(),
            },
            None => Seq::empty(),
        },
        PrIssueType::ChangesRequested | PrIssueType::Approved => "Review decision: "@ + text_or(
            pr,
            "reviewDecision"@,
            "none"@,
        ) + "\n"@,
        PrIssueType::NeedsReview | PrIssueType::ReviewComment => {
            let is_draft = match pr.field("isDraft"@) {
                Some(j) => j.boolean() == Some(true),
                None => false,
            };
            "Review decision: "@ + text_or(pr, "reviewDecision"@, "none"@) + "\n"@ + (
            "Is draft: "@ + (if is_draft {
                "true"@
            } else {
                "false"@
            }) + "\n"@)
        },
    }
}

/// What a prompt tells of a pull request: what bears on the issue, and since when it is open.
pub open spec fn pr_context(pr: JsonView, issue: PrIssueType) -> Seq<char> {
    issue_context(pr, issue) + (match text_of(pr.field("createdAt"@)) {
        Some(created) => "Created: "@ + created + "\n"@,
        None => Seq::empty(),
    })
}

fn check_list(checks: &Vec<Json>) -> (r: String)
    ensures
        r@ == check_lines(items_view(checks@)),
{
    let mut r = String::new();
    let mut i: usize = 0;
    let ghost all = items_view(checks@);
    assert(check_lines(all.take(0)) =~= Seq::<char>::empty());
    while i < checks.len()
        invariant
            i <= checks.len(),
            all == items_view(checks@),
            r@ == check_lines(all.take(i as int)),
        decreases checks.len() - i,
    {
        proof {
            assert(all.take(i + 1).drop_last() =~= all.take(i as int));
            assert(all.take(i + 1).last() == checks@[i as int].jv());
        }
        let c = &checks[i];
        let line = concat4("  - ", c.str_or("name", "unknown"), ": ", c.str_or("conclusion", "pending"));
        let line = concat2(line.as_str(), "\n");
        r.append(line.as_str());
        i += 1;
    }
    assert(all.take(i as int) =~= all);
    r
}

/// What a prompt tells of a pull request.
pub fn summarize_pr_context(pr: &Json, issue_type: PrIssueType) -> (r: String)
    ensures
        r@ == pr_context(pr.jv(), issue_type),
{
    let mut summary = match issue_type {
        PrIssueType::MergeConflict => concat3(
            "Mergeable status: ",
            pr.str_or("mergeable", "unknown"),
            "\n",
        ),
        PrIssueType::CiFailed => match pr.array_field("statusCheckRollup") {
            Some(checks) => concat2("CI Check Results:\n", check_list(checks).as_str()),
            None => String::new(),
        },
        PrIssueType::ChangesRequested | PrIssueType::Approved => concat3(
            "Review decision: ",
            pr.str_or("reviewDecision", "none"),
            "\n",
        ),
        PrIssueType::NeedsReview | PrIssueType::ReviewComment => {
            let decision = concat3("Review decision: ", pr.str_or("reviewDecision", "none"), "\n");
            let draft = if pr.bool_or("isDraft", false) {
                "true"
            } else {
                "false"
            };
            concat2(decision.as_str(), concat3("Is draft: ", draft, "\n").as_str())
        },
    };
    let ghost before = summary@;
    assert(before == issue_context(pr.jv(), issue_type));
    if let Some(created) = pr.str_field("createdAt") {
        summary.append(concat3("Created: ", created, "\n").as_str());
    } else {
        assert(before + Seq::<char>::empty() =~= before);
    }
    summary
}

/// The prompt that asks for the score of an issue.
pub open spec fn scoring_prompt(
    pr_number: nat,
    title: Seq<char>,
    issue: PrIssueType,
    pr: JsonView,
) -> Seq<char> {
    "You are scoring the priority of a PR issue to determine if it needs immediate attention.\n\nPR #"@
        + decimal(pr_number) + ": \""@ + title + "\"\nIssue Type: "@ + issue.called()
        + "\n\nContext:\n"@ + pr_context(pr, issue)
        + "\n\nScore this issue from 0-100 based on urgency and impact:\n- 0-39: Low priority (noise, transient, or self-resolving)\n- 40-79: Medium priority (should be addressed but not urgent)\n- 80-100: High priority (requires immediate attention)\n\nConsider:\n1. Is this a blocking issue or just informational?\n2. How long has this state persisted?\n3. Is human intervention actually needed?\n4. Could this resolve on its own (e.g., temporary CI flakiness)?\n\nRespond with ONLY a JSON object in this format:\n{\"score\": <number>, \"reasoning\": \"<brief explanation>\"}\n"@
}

/// The prompt that asks for the score of an issue.
pub fn build_scoring_prompt(pr_number: u64, pr_title: &str, issue_type: PrIssueType, pr: &Json) -> (r:
    String)
    ensures
        r@ == scoring_prompt(pr_number as nat, pr_title@, issue_type, pr.jv()),
{
    let mut s = concat4(
        "You are scoring the priority of a PR issue to determine if it needs immediate attention.\n\nPR #",
        to_decimal(pr_number).as_str(),
        ": \"",
        pr_title,
    );
    s.append("\"\nIssue Type: ");
    s.append(issue_type.as_str());
    s.append("\n\nContext:\n");
    s.append(summarize_pr_context(pr, issue_type).as_str());
    s.append(
        "\n\nScore this issue from 0-100 based on urgency and impact:\n- 0-39: Low priority (noise, transient, or self-resolving)\n- 40-79: Medium priority (should be addressed but not urgent)\n- 80-100: High priority (requires immediate attention)\n\nConsider:\n1. Is this a blocking issue or just informational?\n2. How long has this state persisted?\n3. Is human intervention actually needed?\n4. Could this resolve on its own (e.g., temporary CI flakiness)?\n\nRespond with ONLY a JSON object in this format:\n{\"score\": <number>, \"reasoning\": \"<brief explanation>\"}\n",
    );
    s
}

/// The highest score.
pub const MAX_SCORE: u8 = 100;

/// The score that an answer in JSON gives: the highest where it gives none, or more than that.
pub open spec fn json_score(j: JsonView) -> u8 {
    match j.field("score"@) {
        Some(s) => match s.uint() {
            Some(n) => if n <= MAX_SCORE {
                n as u8
            } else {
                MAX_SCORE
            },
            None => MAX_SCORE,
        },
        None => MAX_SCORE,
    }
}

/// The score and the reasoning of an answer in JSON.
pub fn score_from_json(parsed: &Json, issue_type: PrIssueType) -> (r: ScoredIssue)
    ensures
        r.issue_type == issue_type,
        r.score == json_score(parsed.jv()),
        r.reasoning@ == text_or(parsed.jv(), "reasoning"@, "No reasoning provided"@),
{
    let score: u8 = match parsed.u64_field("score") {
        Some(n) => if n <= 100 {
            n as u8
        } else {
            MAX_SCORE
        },
        None => MAX_SCORE,
    };
    ScoredIssue {
        issue_type,
        score,
        reasoning: parsed.str_or("reasoning", "No reasoning provided").to_owned(),
    }
}

/// The digits of a text, in their order.
pub open spec fn digits_of(s: Seq<char>) -> Seq<char>
    decreases s.len(),
{
    if s.len() == 0 {
        Seq::empty()
    } else if is_digit(s.last()) {
        digits_of(s.drop_last()).push(s.last())
    } else {
        digits_of(s.drop_last())
    }
}

/// The first three digits of a text.
pub open spec fn leading_digits(s: Seq<char>) -> Seq<char> {
    let d = digits_of(s);
    if d.len() > 3 {
        d.take(3)
    } else {
        d
    }
}

/// The score that an answer in words gives: the number that its first three digits make up, or
/// the highest where they make up none, or more than that.
pub open spec fn word_score(s: Seq<char>) -> u8 {
    match unsigned_value(leading_digits(s), MAX_SCORE as nat) {
        Some(n) => n as u8,
        None => MAX_SCORE,
    }
}

fn digit_text(s: &str) -> (r: String)
    ensures
        r@ == leading_digits(s@),
{
    let v = chars_of(s);
    let mut d: Vec<char> = Vec::new();
    let mut i: usize = 0;
    assert(digits_of(s@.take(0)) =~= Seq::<char>::empty());
    while i < v.len()
        invariant
            i <= v.len(),
            v@ == s@,
            d@ == digits_of(s@.take(i as int)),
        decreases v.len() - i,
    {
        assert(s@.take(i + 1).drop_last() == s@.take(i as int));
        if '0' <= v[i] && v[i] <= '9' {
            d.push(v[i]);
        }
        i += 1;
    }
    assert(s@.take(i as int) == s@);
    if d.len() > 3 {
        assert(d@.subrange(0, 3) == d@.take(3));
        slice(&d, 0, 3)
    } else {
        assert(d@.subrange(0, d@.len() as int) == d@);
        slice(&d, 0, d.len())
    }
}

/// The score of an answer in words.
pub fn score_from_words(response: &str, issue_type: PrIssueType) -> (r: ScoredIssue)
    ensures
        r.issue_type == issue_type,
        r.score == word_score(response@),
        r.reasoning@ == "Could not parse structured response"@,
{
    let score: u8 = match parse_unsigned(digit_text(response).as_str(), 100) {
        Some(n) => n as u8,
        None => MAX_SCORE,
    };
    ScoredIssue {
        issue_type,
        score,
        reasoning: "Could not parse structured response".to_owned(),
    }
}

/// The score and the reasoning of an answer: as JSON where it is JSON, else as words.
pub open spec fn answered(response: Seq<char>) -> (u8, Seq<char>) {
    match parsed_text(response) {
        Some(j) => (json_score(j), text_or(j, "reasoning"@, "No reasoning provided"@)),
        None => (word_score(response), "Could not parse structured response"@),
    }
}

/// The score of an answer: as JSON where it is JSON, else as words.
pub fn parse_score_response(response: &str, issue_type: PrIssueType) -> (r: Option<ScoredIssue>)
    ensures
        r is Some,
        r->0.issue_type == issue_type,
        (r->0.score, r->0.reasoning@) == answered(response@),
        r->0.score <= MAX_SCORE,
{
    match parse(response) {
        Some(j) => Some(score_from_json(&j, issue_type)),
        None => Some(score_from_words(response, issue_type)),
    }
}

/// What asking the model came to.
pub enum ScoringReply {
    /// There is no key to ask with.
    NoKey,
    Failed(String),
    Answer(String),
}

/// What an issue comes to without an answer.
pub open spec fn unscored_reason(reply: ScoringReply) -> Option<Seq<char>> {
    match reply {
        ScoringReply::NoKey => Some("Scoring skipped (no API key)"@),
        ScoringReply::Failed(e) => Some("Scoring failed: "@ + e@),
        ScoringReply::Answer(_) => None,
    }
}

/// The score and the reasoning that a reply comes to. An issue that could not be scored gets
/// the highest score.
pub open spec fn scored(reply: ScoringReply) -> (u8, Seq<char>) {
    match reply {
        ScoringReply::Answer(text) => answered(text@),
        _ => (MAX_SCORE, unscored_reason(reply)->0),
    }
}

/// The issue with its score. One that could not be scored gets the highest score.
pub fn score_issue(issue_type: PrIssueType, reply: ScoringReply) -> (r: Option<ScoredIssue>)
    ensures
        r is Some,
        r->0.issue_type == issue_type,
        (r->0.score, r->0.reasoning@) == scored(reply),
        r->0.score <= MAX_SCORE,
{
    match reply {
        ScoringReply::NoKey => Some(
            ScoredIssue {
                issue_type,
                score: MAX_SCORE,
                reasoning: "Scoring skipped (no API key)".to_owned(),
            },
        ),
        ScoringReply::Failed(e) => Some(
            ScoredIssue {
                issue_type,
                score: MAX_SCORE,
                reasoning: concat2("Scoring failed: ", e.as_str()),
            },
        ),
        ScoringReply::Answer(text) => parse_score_response(text.as_str(), issue_type),
    }
}

/// The issues with their scores, in their order.
pub fn score_issues(issues: Vec<(PrIssueType, ScoringReply)>) -> (r: Vec<ScoredIssue>)
    ensures
        r@.len() == issues@.len(),
        forall|i: int|
            0 <= i < r@.len() ==> (#[trigger] r@[i]).issue_type == issues@[i].0 && (
            r@[i].score,
            r@[i].reasoning@,
            ) == scored(issues@[i].1) && r@[i].score <= MAX_SCORE,
{
    let ghost all = issues@;
    let mut r: Vec<ScoredIssue> = Vec::new();
    for pair in it: issues
        invariant
            it.seq() == all,
            r@.len() == it.index(),
            forall|i: int|
                0 <= i < r@.len() ==> (#[trigger] r@[i]).issue_type == all[i].0 && (
                r@[i].score,
                r@[i].reasoning@,
                ) == scored(all[i].1) && r@[i].score <= MAX_SCORE,
    {
        let (issue_type, reply) = pair;
        if let Some(scored_issue) = score_issue(issue_type, reply) {
            r.push(scored_issue);
        }
    }
    r
}

/// An issue that could not be scored is acted upon.
pub proof fn unscored_issues_pass(s: ScoredIssue, reply: ScoringReply)
    requires
        unscored_reason(reply) is Some,
        (s.score, s.reasoning@) == scored(reply),
    ensures
        passing(seq![s]) == seq![s],
{
    assert(seq![s].drop_last() =~= Seq::<ScoredIssue>::empty());
    assert(passing(seq![s].drop_last()) =~= Seq::<ScoredIssue>::empty());
    assert(Seq::<ScoredIssue>::empty().push(s) =~= seq![s]);
}

/// Filtering again removes nothing.
pub proof fn filtering_again_removes_nothing(s: Seq<ScoredIssue>)
    ensures
        passing(passing(s)) == passing(s),
    decreases s.len(),
{
    if s.len() > 0 {
        filtering_again_removes_nothing(s.drop_last());
        if s.last().score >= SCORE_THRESHOLD {
            let p = passing(s.drop_last());
            assert(p.push(s.last()).drop_last() =~= p);
        }
    }
}

/// An issue passes exactly where its score is eighty or more, and those that pass keep their
/// order, each as often as it was given.
pub proof fn issues_pass_from_eighty_on(s: Seq<ScoredIssue>)
    ensures
        chosen(s, |issue: ScoredIssue| issue.score >= 80, passing(s)),
        forall|issue: ScoredIssue| #[trigger]
            passing(s).contains(issue) <==> s.contains(issue) && issue.score >= 80,
    decreases s.len(),
{
    let wanted = |issue: ScoredIssue| issue.score >= 80;
    if s.len() == 0 {
        nothing_is_chosen_from_nothing(wanted);
        assert(s =~= Seq::<ScoredIssue>::empty());
        assert(passing(s) =~= Seq::<ScoredIssue>::empty());
    } else {
        let init = s.drop_last();
        issues_pass_from_eighty_on(init);
        assert(s =~= init.push(s.last()));
        choosing_goes_item_by_item(init, s.last(), wanted, passing(init));
    }
    assert forall|issue: ScoredIssue| #[trigger]
        passing(s).contains(issue) <==> s.contains(issue) && issue.score >= 80 by {
        chosen_items_are_the_wanted_ones(s, wanted, passing(s), issue);
    }
}

/// No two kinds of issue have the same name, and each has its own.
pub proof fn issues_have_their_names(a: PrIssueType, b: PrIssueType)
    ensures
        a.called() == b.called() <==> a == b,
        PrIssueType::MergeConflict.called() == "merge conflict"@,
        PrIssueType::CiFailed.called() == "CI failure"@,
        PrIssueType::ChangesRequested.called() == "changes requested"@,
        PrIssueType::Approved.called() == "approved"@,
        PrIssueType::NeedsReview.called() == "needs review"@,
        PrIssueType::ReviewComment.called() == "review comment"@,
{
    reveal_strlit("merge conflict");
    reveal_strlit("CI failure");
    reveal_strlit("changes requested");
    reveal_strlit("approved");
    reveal_strlit("needs review");
    reveal_strlit("review comment");
    assert("merge conflict"@.len() == 14);
    assert("CI failure"@.len() == 10);
    assert("changes requested"@.len() == 17);
    assert("approved"@.len() == 8);
    assert("needs review"@.len() == 12);
    assert("review comment"@.len() == 14);
    assert("review comment"@[0] == 'r');
    assert("merge conflict"@[0] == 'm');
}

/// An answer in JSON gives its score where that is at most a hundred, and a hundred in every
/// other case.
pub proof fn scores_are_at_most_a_hundred(j: JsonView)
    ensures
        (j.field("score"@) matches Some(v) && v.uint() matches Some(given) && given <= 100)
            ==> Some(json_score(j) as u64) == j.field("score"@)->0.uint(),
        (j.field("score"@) matches Some(v) && v.uint() matches Some(given) && given > 100)
            ==> json_score(j) == 100,
        (j.field("score"@) matches Some(v) && v.uint() is None) ==> json_score(j) == 100,
        j.field("score"@) is None ==> json_score(j) == 100,
        json_score(j) <= 100,
{
}

/// The digits of an answer are all its digits, in their order.
pub proof fn digits_keep_their_order(s: Seq<char>)
    ensures
        chosen(s, |c: char| '0' <= c <= '9', digits_of(s)),
    decreases s.len(),
{
    let wanted = |c: char| '0' <= c <= '9';
    if s.len() == 0 {
        nothing_is_chosen_from_nothing(wanted);
        assert(s =~= Seq::<char>::empty());
        assert(digits_of(s) =~= Seq::<char>::empty());
    } else {
        let init = s.drop_last();
        digits_keep_their_order(init);
        assert(s =~= init.push(s.last()));
        choosing_goes_item_by_item(init, s.last(), wanted, digits_of(init));
    }
}

proof fn lemma_are_digits(s: Seq<char>)
    ensures
        forall|i: int| 0 <= i < digits_of(s).len() ==> '0' <= #[trigger] digits_of(s)[i] <= '9',
    decreases s.len(),
{
    if s.len() > 0 {
        let before = digits_of(s.drop_last());
        lemma_are_digits(s.drop_last());
        assert forall|i: int| 0 <= i < digits_of(s).len() implies '0' <= #[trigger] digits_of(s)[i]
            <= '9' by {
            if i < before.len() {
                assert(digits_of(s)[i] == before[i]);
            }
        }
    }
}

/// An answer in words without a digit scores a hundred. One with one or two digits scores the
/// number that they make up. One with more scores the number that the first three make up, or a
/// hundred where that is more.
pub proof fn words_score_by_their_first_digits(s: Seq<char>)
    ensures
        ({
            let d = digits_of(s);
            &&& d.len() == 0 ==> word_score(s) == 100
            &&& d.len() == 1 ==> word_score(s) == d[0] as int - '0' as int
            &&& d.len() == 2 ==> word_score(s) == 10 * (d[0] as int - '0' as int) + (d[1] as int
                - '0' as int)
            &&& d.len() >= 3 ==> ({
                let n = 100 * (d[0] as int - '0' as int) + 10 * (d[1] as int - '0' as int) + (
                d[2] as int - '0' as int);
                word_score(s) == (if n <= 100 {
                    n
                } else {
                    100
                })
            })
        }),
{
    let d = digits_of(s);
    let l = leading_digits(s);
    lemma_are_digits(s);
    assert(l.len() > 0 ==> l[0] != '+') by {
        if l.len() > 0 {
            assert(l[0] == d[0]);
        }
    }
    assert(crate::text::all_digits(l)) by {
        assert forall|i: int| 0 <= i < l.len() implies is_digit(#[trigger] l[i]) by {
            assert(l[i] == d[i]);
        }
    }
    if l.len() >= 1 {
        assert(l[0] == d[0]);
    }
    if l.len() >= 2 {
        assert(l[1] == d[1]);
    }
    if l.len() >= 3 {
        assert(l[2] == d[2]);
    }
    reveal_with_fuel(crate::text::digits_value, 5);
    if l.len() == 1 {
        assert(l.drop_last() =~= Seq::<char>::empty());
    } else if l.len() == 2 {
        assert(l.drop_last().drop_last() =~= Seq::<char>::empty());
        assert(l.drop_last().last() == l[0]);
    } else if l.len() == 3 {
        assert(l.drop_last().drop_last().drop_last() =~= Seq::<char>::empty());
        assert(l.drop_last().last() == l[1]);
        assert(l.drop_last().drop_last().last() == l[0]);
    }
}

/// An answer is taken as JSON exactly where it is JSON. Its reasoning is that of the answer, or
/// words that say that there is none.
pub proof fn answers_in_json_count_as_json(response: Seq<char>)
    ensures
        parsed_text(response) matches Some(j) ==> answered(response).0 == json_score(j),
        parsed_text(response) matches Some(j) ==> (text_of(j.field("reasoning"@)) matches Some(t)
            ==> answered(response).1 == t),
        parsed_text(response) matches Some(j) ==> (text_of(j.field("reasoning"@)) is None
            ==> answered(response).1 == "No reasoning provided"@),
        parsed_text(response) is None ==> answered(response) == (
            word_score(response),
            "Could not parse structured response"@,
        ),
{
}

/// An issue without an answer gets a hundred, and its reasoning says why there is none; one
/// with an answer gets what the answer says.
pub proof fn issues_without_an_answer_get_a_hundred(failure: String, answer: String)
    ensures
        scored(ScoringReply::NoKey) == (100u8, "Scoring skipped (no API key)"@),
        scored(ScoringReply::Failed(failure)) == (100u8, "Scoring failed: "@ + failure@),
        scored(ScoringReply::Answer(answer)) == answered(answer@),
{
}

/// Each check has a line of its own, with its name and how it ended.
pub proof fn checks_have_a_line_each(checks: Seq<JsonView>, c: JsonView)
    ensures
        check_lines(Seq::<JsonView>::empty()).len() == 0,
        check_lines(checks.push(c)) == check_lines(checks) + ("  - "@ + (match text_of(
            c.field("name"@),
        ) {
            Some(name) => name,
            None => "unknown"@,
        }) + ": "@ + (match text_of(c.field("conclusion"@)) {
            Some(end) => end,
            None => "pending"@,
        }) + "\n"@),
{
    assert(checks.push(c).drop_last() =~= checks);
}

/// What is told of a pull request is what bears on the issue: of a conflict, whether it can be
/// merged; of failed checks, the checks; of a review, what was decided; and, where a review is
/// awaited, whether it is a draft.
pub proof fn contexts_tell_what_bears_on_the_issue(pr: JsonView)
    ensures
        pr_context(pr, PrIssueType::MergeConflict) == "Mergeable status: "@ + (match text_of(
            pr.field("mergeable"@),
        ) {
            Some(t) => t,
            None => "unknown"@,
        }) + "\n"@ + since(pr),
        pr_context(pr, PrIssueType::CiFailed) == (match pr.field("statusCheckRollup"@) {
            Some(j) => match j.items() {
                Some(checks) => "CI Check Results:\n"@ + check_lines(checks),
                None => Seq::<char>::empty(),
            },
            None => Seq::<char>::empty(),
        }) + since(pr),
        pr_context(pr, PrIssueType::ChangesRequested) == decision(pr) + since(pr),
        pr_context(pr, PrIssueType::Approved) == decision(pr) + since(pr),
        pr_context(pr, PrIssueType::NeedsReview) == decision(pr) + draft(pr) + since(pr),
        pr_context(pr, PrIssueType::ReviewComment) == decision(pr) + draft(pr) + since(pr),
{
}

/// What is told of a review.
pub open spec fn decision(pr: JsonView) -> Seq<char> {
    "Review decision: "@ + (match text_of(pr.field("reviewDecision"@)) {
        Some(t) => t,
        None => "none"@,
    }) + "\n"@
}

/// What is told of a draft.
pub open spec fn draft(pr: JsonView) -> Seq<char> {
    "Is draft: "@ + (if pr.field("isDraft"@) matches Some(j) && j.boolean() == Some(true) {
        "true"@
    } else {
        "false"@
    }) + "\n"@
}

/// What is told of the age of a pull request.
pub open spec fn since(pr: JsonView) -> Seq<char> {
    match text_of(pr.field("createdAt"@)) {
        Some(t) => "Created: "@ + t + "\n"@,
        None => Seq::empty(),
    }
}

/// Every prompt is made of `front`, what is to be told of the issue, and `back`.
pub open spec fn frames(front: Seq<char>, back: Seq<char>) -> bool {
    forall|n: nat, title: Seq<char>, issue: PrIssueType, pr: JsonView| #[trigger]
        scoring_prompt(n, title, issue, pr) == front + decimal(n) + ": \""@ + title
            + "\"\nIssue Type: "@ + issue.called() + "\n\nContext:\n"@ + pr_context(pr, issue)
            + back
}

/// A prompt tells the number, the title and the kind of the issue and its context, within words
/// that are the same for every issue.
pub proof fn prompts_tell_the_issue()
    ensures
        exists|front: Seq<char>, back: Seq<char>| frames(front, back),
{
    let front = "You are scoring the priority of a PR issue to determine if it needs immediate attention.\n\nPR #"@;
    let back = "\n\nScore this issue from 0-100 based on urgency and impact:\n- 0-39: Low priority (noise, transient, or self-resolving)\n- 40-79: Medium priority (should be addressed but not urgent)\n- 80-100: High priority (requires immediate attention)\n\nConsider:\n1. Is this a blocking issue or just informational?\n2. How long has this state persisted?\n3. Is human intervention actually needed?\n4. Could this resolve on its own (e.g., temporary CI flakiness)?\n\nRespond with ONLY a JSON object in this format:\n{\"score\": <number>, \"reasoning\": \"<brief explanation>\"}\n"@;
    assert(frames(front, back));
}

} // verus!
