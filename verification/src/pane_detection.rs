//! What the text of a terminal pane shows: limits on use, errors of the service, and the
//! trimmings of the user interface around them.

use vstd::prelude::*;

use crate::selection::{counting_goes_item_by_item, counts};
use crate::text::{
    chars_of, contains, find_last, is_space, is_space_char, lines, lines_of, lower, lowered,
    occurs, occurs_at, slice, split, texts, trim, trim_front, trimmed, trimmed_front,
};

verus! {

/// What the screen of a limit on use shows.
pub open spec fn usage_limit_patterns() -> Seq<Seq<char>> {
    seq!["- /upgrade"@, "/upgrade to"@, "/upgrade or"@, "/extra-usage"@]
}

/// What an error of the service shows.
pub open spec fn api_error_patterns() -> Seq<Seq<char>> {
    seq![
        "API Error: 500"@,
        "API Error: 502"@,
        "API Error: 503"@,
        "API Error: 529"@,
        "\"type\":\"api_error\""@,
        "\"type\":\"overloaded_error\""@,
        "Internal server error"@,
    ]
}

/// The last position at which `pat` stands in `s`, from `i` down.
pub open spec fn last_at(s: Seq<char>, pat: Seq<char>, i: int) -> Option<int>
    decreases i + 1,
{
    if i < 0 {
        None
    } else if occurs_at(s, pat, i) {
        Some(i)
    } else {
        last_at(s, pat, i - 1)
    }
}

/// The last place in `low`, a text in lower case, at which one of the patterns stands, its ASCII
/// letters in lower case: the position, and the pattern. Of two patterns at one position the later in the list counts.
pub open spec fn last_match(low: Seq<char>, patterns: Seq<Seq<char>>) -> Option<(int, Seq<char>)>
    decreases patterns.len(),
{
    if patterns.len() == 0 {
        None
    } else {
        let best = last_match(low, patterns.drop_last());
        let pat = patterns.last();
        match last_at(low, lower(pat), low.len() - pat.len()) {
            Some(i) => match best {
                Some((k, p)) => if i >= k {
                    Some((i, pat))
                } else {
                    best
                },
                None => Some((i, pat)),
            },
            None => best,
        }
    }
}

pub open spec fn is_chrome_char(c: char) -> bool {
    ||| c == '─' || c == '━' || c == '=' || c == '-'
    ||| c == '│' || c == '┌' || c == '├' || c == '└' || c == '┐' || c == '┤' || c == '┘'
    ||| c == '┬' || c == '┴' || c == '┼' || c == '╭' || c == '╮' || c == '╯' || c == '╰'
    ||| c == '◼' || c == '◻' || c == '✔' || c == '●' || c == '○' || c == '■' || c == '□'
    ||| c == '▪' || c == '▫'
    ||| c == '❯' || c == '>' || c == '$' || c == '%'
    ||| c == ' '
}

pub open spec fn all_chrome(s: Seq<char>) -> bool {
    forall|i: int| 0 <= i < s.len() ==> is_chrome_char(#[trigger] s[i])
}

/// The number of characters of the user interface, white space apart.
pub open spec fn chrome_count(s: Seq<char>) -> nat
    decreases s.len(),
{
    if s.len() == 0 {
        0
    } else {
        chrome_count(s.drop_last()) + (if is_chrome_char(s.last()) && !is_space(s.last()) {
            1nat
        } else {
            0
        })
    }
}

/// The number of characters that are not white space.
pub open spec fn ink_count(s: Seq<char>) -> nat
    decreases s.len(),
{
    if s.len() == 0 {
        0
    } else {
        ink_count(s.drop_last()) + (if is_space(s.last()) {
            0nat
        } else {
            1
        })
    }
}

/// The marks with which task lists and status lines begin.
pub open spec fn is_status_mark(c: char) -> bool {
    c == '◼' || c == '◻' || c == '✔' || c == '✻' || c == '⏵'
}

/// A line that belongs to the user interface: it is made of its characters, begins with one of
/// its marks, tells a key, or at least eighty in a hundred of the characters that are not white
/// space are its own.
pub open spec fn is_chrome(line: Seq<char>) -> bool {
    let body = trim_front(line);
    ||| all_chrome(line)
    ||| body.len() > 0 && is_status_mark(body[0])
    ||| occurs(body, "ctrl+"@) && occurs(body, " to "@)
    ||| ink_count(line) > 0 && chrome_count(line) * 100 / ink_count(line) >= 80
}

/// A line that shows activity.
pub open spec fn is_significant(line: Seq<char>) -> bool {
    trim(line).len() > 0 && !is_chrome(trim(line))
}

pub open spec fn significant_count(ls: Seq<Seq<char>>) -> nat
    decreases ls.len(),
{
    if ls.len() == 0 {
        0
    } else {
        significant_count(ls.drop_last()) + (if is_significant(ls.last()) {
            1nat
        } else {
            0
        })
    }
}

/// The most lines of activity behind a pattern with which it still counts.
pub const MAX_ACTIVITY: usize = 5;

/// The content shows one of the patterns, whatever the case of its ASCII letters, and little
/// activity behind the last of them.
pub open spec fn shows(content: Seq<char>, patterns: Seq<Seq<char>>) -> bool {
    match last_match(lower(content), patterns) {
        Some((i, pat)) => significant_count(lines(content.skip(i + pat.len()))) <= MAX_ACTIVITY,
        None => false,
    }
}

proof fn lemma_last_at(s: Seq<char>, pat: Seq<char>, top: int, i: int)
    requires
        i <= top,
        forall|j: int| i < j <= top ==> !occurs_at(s, pat, j),
    ensures
        last_at(s, pat, top) == last_at(s, pat, i),
    decreases top - i,
{
    if i < top {
        lemma_last_at(s, pat, top - 1, i);
    }
}

fn find_last_match(low: &Vec<char>, patterns: &Vec<String>) -> (r: Option<(usize, usize)>)
    ensures
        match r {
            Some((i, k)) => k < patterns@.len() && last_match(low@, texts(patterns@)) == Some(
                (i as int, patterns@[k as int]@),
            ) && i + patterns@[k as int]@.len() <= low@.len(),
            None => last_match(low@, texts(patterns@)) is None,
        },
{
    let mut best: Option<(usize, usize)> = None;
    let mut k: usize = 0;
    let ghost all = texts(patterns@);
    assert(last_match(low@, all.take(0)) is None);
    while k < patterns.len()
        invariant
            k <= patterns.len(),
            all == texts(patterns@),
            match best {
                Some((i, n)) => n < k && last_match(low@, all.take(k as int)) == Some(
                    (i as int, patterns@[n as int]@),
                ) && i + patterns@[n as int]@.len() <= low@.len(),
                None => last_match(low@, all.take(k as int)) is None,
            },
        decreases patterns.len() - k,
    {
        let pat = chars_of(lowered(patterns[k].as_str()).as_str());
        proof {
            assert(all.take(k + 1).drop_last() =~= all.take(k as int));
            assert(all.take(k + 1).last() == patterns@[k as int]@);
            assert(pat@ == lower(patterns@[k as int]@));
            assert(pat@.len() == patterns@[k as int]@.len());
        }
        let found = find_last(low, &pat);
        proof {
            let top = low@.len() - pat@.len();
            match found {
                Some(i) => {
                    lemma_last_at(low@, pat@, top, i as int);
                },
                None => {
                    if top >= 0 {
                        assert forall|j: int| -1 < j <= top implies !occurs_at(low@, pat@, j) by {
                            if occurs_at(low@, pat@, j) {
                                assert(occurs(low@, pat@));
                            }
                        }
                        lemma_last_at(low@, pat@, top, -1);
                    }
                },
            }
        }
        if let Some(i) = found {
            let better = match best {
                Some((b, _)) => i >= b,
                None => true,
            };
            if better {
                best = Some((i, k));
            }
        }
        k += 1;
    }
    assert(all.take(k as int) =~= all);
    best
}

/// Whether a character belongs to the user interface.
pub fn is_ui_chrome_char(c: char) -> (r: bool)
    ensures
        r == is_chrome_char(c),
{
    c == '─' || c == '━' || c == '=' || c == '-' || c == '│' || c == '┌' || c == '├' || c == '└'
        || c == '┐' || c == '┤' || c == '┘' || c == '┬' || c == '┴' || c == '┼' || c == '╭'
        || c == '╮' || c == '╯' || c == '╰' || c == '◼' || c == '◻' || c == '✔' || c == '●'
        || c == '○' || c == '■' || c == '□' || c == '▪' || c == '▫' || c == '❯' || c == '>' || c
        == '$' || c == '%' || c == ' '
}

/// Whether a line belongs to the user interface.
pub fn is_ui_chrome(line: &str) -> (r: bool)
    ensures
        r == is_chrome(line@),
{
    let v = chars_of(line);
    let mut chrome: usize = 0;
    let mut ink: usize = 0;
    let mut only_chrome = true;
    let mut i: usize = 0;
    assert(line@.take(0) =~= Seq::<char>::empty());
    while i < v.len()
        invariant
            i <= v.len(),
            v@ == line@,
            chrome <= i,
            ink <= i,
            chrome == chrome_count(line@.take(i as int)),
            ink == ink_count(line@.take(i as int)),
            only_chrome == all_chrome(line@.take(i as int)),
        decreases v.len() - i,
    {
        proof {
            assert(line@.take(i + 1).drop_last() == line@.take(i as int));
            assert(line@.take(i + 1).last() == line@[i as int]);
            assert(all_chrome(line@.take(i + 1)) <==> all_chrome(line@.take(i as int))
                && is_chrome_char(line@[i as int])) by {
                if all_chrome(line@.take(i + 1)) {
                    assert(is_chrome_char(line@.take(i + 1)[i as int]));
                    assert forall|k: int| 0 <= k < i implies is_chrome_char(
                        #[trigger] line@.take(i as int)[k],
                    ) by {
                        assert(is_chrome_char(line@.take(i + 1)[k]));
                    }
                }
                if all_chrome(line@.take(i as int)) && is_chrome_char(line@[i as int]) {
                    assert forall|k: int| 0 <= k < i + 1 implies is_chrome_char(
                        #[trigger] line@.take(i + 1)[k],
                    ) by {
                        if k < i {
                            assert(is_chrome_char(line@.take(i as int)[k]));
                        }
                    }
                }
            }
        }
        let of_interface = is_ui_chrome_char(v[i]);
        if !of_interface {
            only_chrome = false;
        }
        if !is_space_char(v[i]) {
            ink += 1;
            if of_interface {
                chrome += 1;
            }
        }
        i += 1;
    }
    assert(line@.take(i as int) == line@);
    if only_chrome {
        return true;
    }
    let body = trimmed_front(line);
    let b = chars_of(body.as_str());
    if b.len() > 0 && (b[0] == '◼' || b[0] == '◻' || b[0] == '✔' || b[0] == '✻' || b[0] == '⏵') {
        return true;
    }
    if contains(body.as_str(), "ctrl+") && contains(body.as_str(), " to ") {
        return true;
    }
    ink > 0 && (chrome as u128) * 100 / (ink as u128) >= 80
}

fn count_significant(ls: &Vec<String>) -> (r: usize)
    ensures
        r == significant_count(texts(ls@)),
{
    let mut n: usize = 0;
    let mut i: usize = 0;
    let ghost all = texts(ls@);
    assert(significant_count(all.take(0)) == 0);
    while i < ls.len()
        invariant
            i <= ls.len(),
            n <= i,
            all == texts(ls@),
            n == significant_count(all.take(i as int)),
        decreases ls.len() - i,
    {
        proof {
            assert(all.take(i + 1).drop_last() =~= all.take(i as int));
            assert(all.take(i + 1).last() == ls@[i as int]@);
        }
        let line = trimmed(ls[i].as_str());
        if !line.as_str().is_empty() && !is_ui_chrome(line.as_str()) {
            n += 1;
        }
        i += 1;
    }
    assert(all.take(i as int) =~= all);
    n
}

/// Whether the content shows one of the patterns, whatever the case of its ASCII letters, and
/// little activity behind the last of them.
fn is_at_pattern(content: &str, patterns: &Vec<String>) -> (r: bool)
    ensures
        r == shows(content@, texts(patterns@)),
{
    let c = chars_of(content);
    let low = chars_of(lowered(content).as_str());
    match find_last_match(&low, patterns) {
        None => false,
        Some((i, k)) => {
            let pat = chars_of(patterns[k].as_str());
            assert(low.len() == low@.len());
            let from = i + pat.len();
            let tail = slice(&c, from, c.len());
            assert(tail@ == content@.skip(from as int));
            count_significant(&lines_of(tail.as_str())) <= MAX_ACTIVITY
        },
    }
}

fn pattern_list(patterns: &[&str]) -> (r: Vec<String>)
    ensures
        r@.len() == patterns@.len(),
        forall|i: int| 0 <= i < r@.len() ==> (#[trigger] r@[i])@ == patterns@[i]@,
{
    let mut r: Vec<String> = Vec::new();
    let mut i: usize = 0;
    while i < patterns.len()
        invariant
            i <= patterns@.len(),
            r@.len() == i,
            forall|k: int| 0 <= k < i ==> (#[trigger] r@[k])@ == patterns@[k]@,
        decreases patterns@.len() - i,
    {
        r.push(patterns[i].to_owned());
        i += 1;
    }
    r
}

fn usage_limit_list() -> (r: Vec<String>)
    ensures
        texts(r@) == usage_limit_patterns(),
{
    let r = pattern_list(&["- /upgrade", "/upgrade to", "/upgrade or", "/extra-usage"]);
    assert(texts(r@) =~= usage_limit_patterns());
    r
}

fn api_error_list() -> (r: Vec<String>)
    ensures
        texts(r@) == api_error_patterns(),
{
    let r = pattern_list(
        &[
            "API Error: 500",
            "API Error: 502",
            "API Error: 503",
            "API Error: 529",
            "\"type\":\"api_error\"",
            "\"type\":\"overloaded_error\"",
            "Internal server error",
        ],
    );
    assert(texts(r@) =~= api_error_patterns());
    r
}

/// Whether a pane shows a limit on use from which its session has not recovered.
pub fn has_usage_limit_pattern(pane_content: &str) -> (r: bool)
    ensures
        r == shows(pane_content@, usage_limit_patterns()),
{
    is_at_pattern(pane_content, &usage_limit_list())
}

/// Whether a pane shows an error of the service from which its session has not recovered.
pub fn has_api_error_pattern(pane_content: &str) -> (r: bool)
    ensures
        r == shows(pane_content@, api_error_patterns()),
{
    is_at_pattern(pane_content, &api_error_list())
}

proof fn lemma_last_at_is_last(s: Seq<char>, pat: Seq<char>, top: int)
    ensures
        last_at(s, pat, top) matches Some(i) ==> i <= top && occurs_at(s, pat, i) && forall|j: int|
            i < j <= top ==> !occurs_at(s, pat, j),
        last_at(s, pat, top) is None ==> forall|j: int| j <= top ==> !occurs_at(s, pat, j),
    decreases top + 1,
{
    if top >= 0 && !occurs_at(s, pat, top) {
        lemma_last_at_is_last(s, pat, top - 1);
    }
}

/// No pattern of the list stands behind the place that counts, and the one that counts stands
/// there: of several it is the last in the list. No place counts only where no pattern stands
/// anywhere.
pub proof fn the_last_place_of_all_patterns_counts(low: Seq<char>, patterns: Seq<Seq<char>>)
    ensures
        last_match(low, patterns) matches Some((i, pat)) ==> {
            &&& occurs_at(low, lower(pat), i)
            &&& forall|k: int, j: int|
                0 <= k < patterns.len() && i < j ==> !#[trigger] occurs_at(low, lower(patterns[k]), j)
            &&& exists|k: int|
                0 <= k < patterns.len() && #[trigger] patterns[k] == pat && forall|m: int|
                    k < m < patterns.len() ==> !occurs_at(low, lower(#[trigger] patterns[m]), i)
        },
        last_match(low, patterns) is None ==> forall|k: int, j: int|
            0 <= k < patterns.len() ==> !#[trigger] occurs_at(low, lower(patterns[k]), j),
    decreases patterns.len(),
{
    if patterns.len() > 0 {
        let init = patterns.drop_last();
        let n = init.len() as int;
        let pat = patterns.last();
        let top = low.len() - pat.len();
        the_last_place_of_all_patterns_counts(low, init);
        lemma_last_at_is_last(low, lower(pat), top);
        assert(patterns[n] == pat);
        assert forall|j: int| j > top implies !occurs_at(low, lower(pat), j) by {}
        assert forall|k: int| 0 <= k < n implies init[k] == #[trigger] patterns[k] by {}
        match last_match(low, patterns) {
            Some((i, p)) => {
                assert forall|k: int, j: int| 0 <= k < patterns.len() && i < j implies !#[trigger]
                occurs_at(low, lower(patterns[k]), j) by {
                    if k < n {
                        assert(!occurs_at(low, lower(init[k]), j));
                    }
                }
                if last_match(low, patterns) == last_match(low, init) && (last_at(
                    low,
                    lower(pat),
                    top,
                ) is None || last_at(low, lower(pat), top)->0 < i) {
                    let k = choose|k: int|
                        0 <= k < init.len() && #[trigger] init[k] == p && forall|m: int|
                            k < m < init.len() ==> !occurs_at(low, lower(#[trigger] init[m]), i);
                    assert(patterns[k] == p);
                    assert forall|m: int| k < m < patterns.len() implies !occurs_at(
                        low,
                        lower(#[trigger] patterns[m]),
                        i,
                    ) by {
                        if m < n {
                            assert(!occurs_at(low, lower(init[m]), i));
                        }
                    }
                } else {
                    assert(patterns[n] == p);
                }
            },
            None => {
                assert forall|k: int, j: int| 0 <= k < patterns.len() implies !#[trigger] occurs_at(
                    low,
                    lower(patterns[k]),
                    j,
                ) by {
                    if k < n {
                        assert(!occurs_at(low, lower(init[k]), j));
                    }
                }
            },
        }
    }
}

proof fn lemma_one_piece(s: Seq<char>)
    requires
        !s.contains('\n'),
    ensures
        split(s, '\n').len() == 1,
    decreases s.len(),
{
    if s.len() > 0 {
        let init = s.drop_last();
        assert forall|i: int| 0 <= i < init.len() implies init[i] != '\n' by {
            assert(init[i] == s[i]);
            assert(s.contains(s[i]));
        }
        assert(s.contains(s.last()));
        lemma_one_piece(init);
    }
}

/// The lines that show activity are counted one by one: they are those that are neither empty
/// nor of the user interface, white space around them apart.
pub proof fn activity_is_counted_line_by_line(ls: Seq<Seq<char>>)
    ensures
        counts(
            ls,
            |line: Seq<char>| trim(line).len() > 0 && !is_chrome(trim(line)),
            significant_count(ls),
        ),
        significant_count(ls) <= ls.len(),
    decreases ls.len(),
{
    let wanted = |line: Seq<char>| trim(line).len() > 0 && !is_chrome(trim(line));
    if ls.len() == 0 {
        counting_goes_item_by_item(ls, Seq::<char>::empty(), wanted, 0);
        assert(ls =~= Seq::<Seq<char>>::empty());
    } else {
        let init = ls.drop_last();
        activity_is_counted_line_by_line(init);
        assert(ls =~= init.push(ls.last()));
        counting_goes_item_by_item(init, ls.last(), wanted, significant_count(init));
    }
}

/// A pattern shows as long as at most five lines behind its last place show activity.
pub proof fn patterns_show_until_the_session_goes_on(
    content: Seq<char>,
    patterns: Seq<Seq<char>>,
    i: int,
    pat: Seq<char>,
)
    requires
        last_match(lower(content), patterns) == Some((i, pat)),
    ensures
        shows(content, patterns) <==> significant_count(lines(content.skip(i + pat.len()))) <= 5,
{
}

/// Where no pattern stands, none shows.
pub proof fn nothing_shows_without_a_pattern(content: Seq<char>, patterns: Seq<Seq<char>>)
    requires
        forall|k: int|
            0 <= k < patterns.len() ==> !occurs(lower(content), lower(#[trigger] patterns[k])),
    ensures
        !shows(content, patterns),
{
    the_last_place_of_all_patterns_counts(lower(content), patterns);
    if let Some((i, pat)) = last_match(lower(content), patterns) {
        let k = choose|k: int|
            0 <= k < patterns.len() && #[trigger] patterns[k] == pat && forall|m: int|
                k < m < patterns.len() ==> !occurs_at(
                    lower(content),
                    lower(#[trigger] patterns[m]),
                    i,
                );
        assert(occurs(lower(content), lower(patterns[k])));
    }
}

/// A pane that ends with one of the patterns, whatever the case of its ASCII letters, always
/// shows it.
pub proof fn panes_that_end_with_a_pattern_show_it(
    content: Seq<char>,
    before: Seq<char>,
    patterns: Seq<Seq<char>>,
    k: int,
)
    requires
        0 <= k < patterns.len(),
        !lower(patterns[k]).contains('\n'),
        lower(content) == before + lower(patterns[k]),
    ensures
        shows(content, patterns),
{
    let low = lower(content);
    let end = lower(patterns[k]);
    let at = before.len() as int;
    the_last_place_of_all_patterns_counts(low, patterns);
    assert(low.subrange(at, at + end.len()) =~= end);
    assert(occurs_at(low, lower(patterns[k]), at));
    let (i, pat) = last_match(low, patterns)->0;
    assert(i >= at);
    assert(occurs_at(low, lower(pat), i));
    let tail = content.skip(i + pat.len());
    assert forall|m: int| 0 <= m < tail.len() implies tail[m] != '\n' by {
        let n = i + pat.len() + m;
        assert(tail[m] == content[n]);
        assert(low[n] == end[n - at]);
        assert(end.contains(end[n - at]));
        assert(low[n] == crate::text::lower_char(content[n]));
    }
    lemma_one_piece(tail);
    activity_is_counted_line_by_line(lines(tail));
}

/// What is looked for on the screen of a limit on use, and in an error of the service.
pub proof fn patterns_are_those_of_limits_and_errors()
    ensures
        usage_limit_patterns().len() == 4,
        usage_limit_patterns()[0] == "- /upgrade"@,
        usage_limit_patterns()[1] == "/upgrade to"@,
        usage_limit_patterns()[2] == "/upgrade or"@,
        usage_limit_patterns()[3] == "/extra-usage"@,
        api_error_patterns().len() == 7,
        api_error_patterns()[0] == "API Error: 500"@,
        api_error_patterns()[1] == "API Error: 502"@,
        api_error_patterns()[2] == "API Error: 503"@,
        api_error_patterns()[3] == "API Error: 529"@,
        api_error_patterns()[4] == "\"type\":\"api_error\""@,
        api_error_patterns()[5] == "\"type\":\"overloaded_error\""@,
        api_error_patterns()[6] == "Internal server error"@,
{
}

/// The characters of the user interface. No ASCII letter or digit is among them.
pub proof fn the_interface_has_its_own_characters(c: char)
    ensures
        is_chrome_char(c) <==> "─━=-│┌├└┐┤┘┬┴┼╭╮╯╰◼◻✔●○■□▪▫❯>$% "@.contains(c),
        'a' <= c <= 'z' || 'A' <= c <= 'Z' || '0' <= c <= '9' ==> !is_chrome_char(c),
{
    let own = "─━=-│┌├└┐┤┘┬┴┼╭╮╯╰◼◻✔●○■□▪▫❯>$% "@;
    reveal_strlit("─━=-│┌├└┐┤┘┬┴┼╭╮╯╰◼◻✔●○■□▪▫❯>$% ");
    assert(own.len() == 32);
    assert(own[0] == '─');
    assert(own[1] == '━');
    assert(own[2] == '=');
    assert(own[3] == '-');
    assert(own[4] == '│');
    assert(own[5] == '┌');
    assert(own[6] == '├');
    assert(own[7] == '└');
    assert(own[8] == '┐');
    assert(own[9] == '┤');
    assert(own[10] == '┘');
    assert(own[11] == '┬');
    assert(own[12] == '┴');
    assert(own[13] == '┼');
    assert(own[14] == '╭');
    assert(own[15] == '╮');
    assert(own[16] == '╯');
    assert(own[17] == '╰');
    assert(own[18] == '◼');
    assert(own[19] == '◻');
    assert(own[20] == '✔');
    assert(own[21] == '●');
    assert(own[22] == '○');
    assert(own[23] == '■');
    assert(own[24] == '□');
    assert(own[25] == '▪');
    assert(own[26] == '▫');
    assert(own[27] == '❯');
    assert(own[28] == '>');
    assert(own[29] == '$');
    assert(own[30] == '%');
    assert(own[31] == ' ');
}

proof fn lemma_interface_characters(line: Seq<char>)
    ensures
        counts(line, |c: char| is_chrome_char(c) && !is_space(c), chrome_count(line)),
        counts(line, |c: char| !is_space(c), ink_count(line)),
    decreases line.len(),
{
    let own = |c: char| is_chrome_char(c) && !is_space(c);
    let ink = |c: char| !is_space(c);
    if line.len() == 0 {
        counting_goes_item_by_item(line, ' ', own, 0);
        counting_goes_item_by_item(line, ' ', ink, 0);
        assert(line =~= Seq::<char>::empty());
    } else {
        let init = line.drop_last();
        lemma_interface_characters(init);
        assert(line =~= init.push(line.last()));
        counting_goes_item_by_item(init, line.last(), own, chrome_count(init));
        counting_goes_item_by_item(init, line.last(), ink, ink_count(init));
    }
}

/// A line belongs to the user interface exactly where it is made of its characters alone, or
/// begins with a mark, or tells a key, or eighty of a hundred of the characters that can be seen
/// are its own.
pub proof fn lines_of_the_interface_are_mostly_its_own(line: Seq<char>)
    ensures
        counts(line, |c: char| is_chrome_char(c) && !is_space(c), chrome_count(line)),
        counts(line, |c: char| !is_space(c), ink_count(line)),
        is_chrome(line) <==> {
            ||| forall|i: int| 0 <= i < line.len() ==> is_chrome_char(#[trigger] line[i])
            ||| trim_front(line).len() > 0 && "◼◻✔✻⏵"@.contains(trim_front(line)[0])
            ||| occurs(trim_front(line), "ctrl+"@) && occurs(trim_front(line), " to "@)
            ||| ink_count(line) > 0 && 100 * chrome_count(line) >= 80 * ink_count(line)
        },
{
    reveal_strlit("◼◻✔✻⏵");
    let marks = "◼◻✔✻⏵"@;
    assert(marks.len() == 5);
    assert(marks[0] == '◼' && marks[1] == '◻' && marks[2] == '✔' && marks[3] == '✻' && marks[4]
        == '⏵');
    lemma_interface_characters(line);
    let a = chrome_count(line);
    let b = ink_count(line);
    if b > 0 {
        assert(a * 100 / b >= 80 <==> 100 * a >= 80 * b) by (nonlinear_arith)
            requires
                b > 0,
        ;
    }
}

/// A line shows activity exactly where something is left of it without the white space around
/// it, and that is not of the user interface.
pub proof fn activity_is_more_than_the_interface(line: Seq<char>)
    ensures
        is_significant(line) <==> trim(line).len() > 0 && !is_chrome(trim(line)),
{
}

proof fn lemma_limits_are_on_one_line(k: int)
    requires
        0 <= k < usage_limit_patterns().len(),
    ensures
        !lower(usage_limit_patterns()[k]).contains('\n'),
{
    reveal_strlit("- /upgrade");
    assert(!lower("- /upgrade"@).contains('\n')) by {
        let p = "- /upgrade"@;
        assert(p.len() == 10);
        assert forall|i: int| 0 <= i < p.len() implies lower(p)[i] != '\n' by {
            assert(lower(p)[i] == crate::text::lower_char(p[i]));
        }
    }
    reveal_strlit("/upgrade to");
    assert(!lower("/upgrade to"@).contains('\n')) by {
        let p = "/upgrade to"@;
        assert(p.len() == 11);
        assert forall|i: int| 0 <= i < p.len() implies lower(p)[i] != '\n' by {
            assert(lower(p)[i] == crate::text::lower_char(p[i]));
        }
    }
    reveal_strlit("/upgrade or");
    assert(!lower("/upgrade or"@).contains('\n')) by {
        let p = "/upgrade or"@;
        assert(p.len() == 11);
        assert forall|i: int| 0 <= i < p.len() implies lower(p)[i] != '\n' by {
            assert(lower(p)[i] == crate::text::lower_char(p[i]));
        }
    }
    reveal_strlit("/extra-usage");
    assert(!lower("/extra-usage"@).contains('\n')) by {
        let p = "/extra-usage"@;
        assert(p.len() == 12);
        assert forall|i: int| 0 <= i < p.len() implies lower(p)[i] != '\n' by {
            assert(lower(p)[i] == crate::text::lower_char(p[i]));
        }
    }
}

proof fn lemma_errors_are_on_one_line(k: int)
    requires
        0 <= k < api_error_patterns().len(),
    ensures
        !lower(api_error_patterns()[k]).contains('\n'),
{
    reveal_strlit("API Error: 500");
    assert(!lower("API Error: 500"@).contains('\n')) by {
        let p = "API Error: 500"@;
        assert(p.len() == 14);
        assert forall|i: int| 0 <= i < p.len() implies lower(p)[i] != '\n' by {
            assert(lower(p)[i] == crate::text::lower_char(p[i]));
        }
    }
    reveal_strlit("API Error: 502");
    assert(!lower("API Error: 502"@).contains('\n')) by {
        let p = "API Error: 502"@;
        assert(p.len() == 14);
        assert forall|i: int| 0 <= i < p.len() implies lower(p)[i] != '\n' by {
            assert(lower(p)[i] == crate::text::lower_char(p[i]));
        }
    }
    reveal_strlit("API Error: 503");
    assert(!lower("API Error: 503"@).contains('\n')) by {
        let p = "API Error: 503"@;
        assert(p.len() == 14);
        assert forall|i: int| 0 <= i < p.len() implies lower(p)[i] != '\n' by {
            assert(lower(p)[i] == crate::text::lower_char(p[i]));
        }
    }
    reveal_strlit("API Error: 529");
    assert(!lower("API Error: 529"@).contains('\n')) by {
        let p = "API Error: 529"@;
        assert(p.len() == 14);
        assert forall|i: int| 0 <= i < p.len() implies lower(p)[i] != '\n' by {
            assert(lower(p)[i] == crate::text::lower_char(p[i]));
        }
    }
    reveal_strlit("\"type\":\"api_error\"");
    assert(!lower("\"type\":\"api_error\""@).contains('\n')) by {
        let p = "\"type\":\"api_error\""@;
        assert(p.len() == 18);
        assert forall|i: int| 0 <= i < p.len() implies lower(p)[i] != '\n' by {
            assert(lower(p)[i] == crate::text::lower_char(p[i]));
        }
    }
    reveal_strlit("\"type\":\"overloaded_error\"");
    assert(!lower("\"type\":\"overloaded_error\""@).contains('\n')) by {
        let p = "\"type\":\"overloaded_error\""@;
        assert(p.len() == 25);
        assert forall|i: int| 0 <= i < p.len() implies lower(p)[i] != '\n' by {
            assert(lower(p)[i] == crate::text::lower_char(p[i]));
        }
    }
    reveal_strlit("Internal server error");
    assert(!lower("Internal server error"@).contains('\n')) by {
        let p = "Internal server error"@;
        assert(p.len() == 21);
        assert forall|i: int| 0 <= i < p.len() implies lower(p)[i] != '\n' by {
            assert(lower(p)[i] == crate::text::lower_char(p[i]));
        }
    }
}

/// A pane that ends with what the screen of a limit on use shows, or with an error of the
/// service, is always seen to, whatever stands before it and whatever the case of its ASCII
/// letters.
pub proof fn limits_and_errors_at_the_end_are_always_seen(content: Seq<char>, before: Seq<char>, k: int)
    ensures
        0 <= k < usage_limit_patterns().len() && lower(content) == before + lower(
            usage_limit_patterns()[k],
        ) ==> shows(content, usage_limit_patterns()),
        0 <= k < api_error_patterns().len() && lower(content) == before + lower(
            api_error_patterns()[k],
        ) ==> shows(content, api_error_patterns()),
{
    if 0 <= k < usage_limit_patterns().len() && lower(content) == before + lower(
        usage_limit_patterns()[k],
    ) {
        lemma_limits_are_on_one_line(k);
        panes_that_end_with_a_pattern_show_it(content, before, usage_limit_patterns(), k);
    }
    if 0 <= k < api_error_patterns().len() && lower(content) == before + lower(
        api_error_patterns()[k],
    ) {
        lemma_errors_are_on_one_line(k);
        panes_that_end_with_a_pattern_show_it(content, before, api_error_patterns(), k);
    }
}

} // verus!
