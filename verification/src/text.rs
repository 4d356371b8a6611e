//! Text as sequences of characters: the operations on strings that the rest of the
//! library is built from, each stated over `Seq<char>`.

use vstd::prelude::*;

verus! {

/// `String::push` appends one character at the end.
pub assume_specification[ String::push ](s: &mut String, c: char)
    ensures
        final(s)@ == old(s)@.push(c),
;

/// The characters with the Unicode property White_Space.
pub open spec fn is_space(c: char) -> bool {
    let n = c as u32;
    ||| 0x9 <= n <= 0xd
    ||| n == 0x20
    ||| n == 0x85
    ||| n == 0xa0
    ||| n == 0x1680
    ||| 0x2000 <= n <= 0x200a
    ||| n == 0x2028
    ||| n == 0x2029
    ||| n == 0x202f
    ||| n == 0x205f
    ||| n == 0x3000
}

pub open spec fn is_digit(c: char) -> bool {
    '0' <= c <= '9'
}

/// The lower-case form of an ASCII letter; every other character stays.
pub open spec fn lower_char(c: char) -> char {
    if 'A' <= c <= 'Z' {
        ((c as u8) + 32) as char
    } else {
        c
    }
}

pub open spec fn lower(s: Seq<char>) -> Seq<char> {
    Seq::new(s.len(), |i: int| lower_char(s[i]))
}

/// `pat` stands in `s` at position `i`.
pub open spec fn occurs_at(s: Seq<char>, pat: Seq<char>, i: int) -> bool {
    &&& 0 <= i
    &&& i + pat.len() <= s.len()
    &&& s.subrange(i, i + pat.len()) == pat
}

/// `pat` stands somewhere in `s`.
pub open spec fn occurs(s: Seq<char>, pat: Seq<char>) -> bool {
    exists|i: int| occurs_at(s, pat, i)
}

pub open spec fn starts(s: Seq<char>, pat: Seq<char>) -> bool {
    occurs_at(s, pat, 0)
}

pub open spec fn ends(s: Seq<char>, pat: Seq<char>) -> bool {
    occurs_at(s, pat, s.len() - pat.len())
}

/// `s` without the white space at its front.
pub open spec fn trim_front(s: Seq<char>) -> Seq<char>
    decreases s.len(),
{
    if s.len() > 0 && is_space(s[0]) {
        trim_front(s.skip(1))
    } else {
        s
    }
}

/// `s` without the white space at its back.
pub open spec fn trim_back(s: Seq<char>) -> Seq<char>
    decreases s.len(),
{
    if s.len() > 0 && is_space(s.last()) {
        trim_back(s.drop_last())
    } else {
        s
    }
}

pub open spec fn trim(s: Seq<char>) -> Seq<char> {
    trim_back(trim_front(s))
}

/// The pieces of `s` between the characters `sep`: one more than `sep` occurs.
pub open spec fn split(s: Seq<char>, sep: char) -> Seq<Seq<char>>
    decreases s.len(),
{
    if s.len() == 0 {
        seq![Seq::<char>::empty()]
    } else {
        let before = split(s.drop_last(), sep);
        if s.last() == sep {
            before.push(Seq::<char>::empty())
        } else {
            before.update(before.len() - 1, before.last().push(s.last()))
        }
    }
}

/// A line without the carriage return that ends it.
pub open spec fn without_cr(line: Seq<char>) -> Seq<char> {
    if line.len() > 0 && line.last() == '\r' {
        line.drop_last()
    } else {
        line
    }
}

/// The lines of `s`. A line ends with a line feed, which a carriage return may precede;
/// the last line needs no line feed, and is none when it is empty.
pub open spec fn lines(s: Seq<char>) -> Seq<Seq<char>> {
    let pieces = split(s, '\n');
    let full = pieces.drop_last().map_values(|line: Seq<char>| without_cr(line));
    if pieces.last().len() == 0 {
        full
    } else {
        full.push(pieces.last())
    }
}

/// The parts one after the other, with `sep` between each two.
pub open spec fn join(parts: Seq<Seq<char>>, sep: Seq<char>) -> Seq<char>
    decreases parts.len(),
{
    if parts.len() == 0 {
        Seq::empty()
    } else if parts.len() == 1 {
        parts[0]
    } else {
        join(parts.drop_last(), sep) + sep + parts.last()
    }
}

/// `s` with each occurrence of `pat`, found from the left without overlap, replaced.
pub open spec fn replaced(s: Seq<char>, pat: Seq<char>, with: Seq<char>) -> Seq<char>
    decreases s.len(),
{
    if pat.len() == 0 || s.len() < pat.len() {
        s
    } else if s.take(pat.len() as int) == pat {
        with + replaced(s.skip(pat.len() as int), pat, with)
    } else {
        seq![s[0]] + replaced(s.skip(1), pat, with)
    }
}

/// The digit that stands for `d`.
pub open spec fn digit(d: nat) -> char {
    (48 + d) as char
}

/// The decimal form of `n`.
pub open spec fn decimal(n: nat) -> Seq<char>
    decreases n,
{
    if n < 10 {
        seq![digit(n)]
    } else {
        decimal(n / 10).push(digit(n % 10))
    }
}

/// The number that a row of digits stands for.
pub open spec fn digits_value(s: Seq<char>) -> nat
    decreases s.len(),
{
    if s.len() == 0 {
        0
    } else {
        digits_value(s.drop_last()) * 10 + (s.last() as nat - 48) as nat
    }
}

/// The characters of an optional string.
pub open spec fn opt(o: Option<String>) -> Option<Seq<char>> {
    match o {
        Some(s) => Some(s@),
        None => None,
    }
}

/// The characters of an optional borrowed string.
pub open spec fn opt_str(o: Option<&str>) -> Option<Seq<char>> {
    match o {
        Some(s) => Some(s@),
        None => None,
    }
}

/// The characters of each string of a list.
pub open spec fn texts(v: Seq<String>) -> Seq<Seq<char>> {
    v.map_values(|s: String| s@)
}

pub fn chars_of(s: &str) -> (v: Vec<char>)
    ensures
        v@ == s@,
{
    let mut v: Vec<char> = Vec::new();
    for c in it: s.chars()
        invariant
            v@ == s@.take(it.index() as int),
            it.seq() == s@,
    {
        v.push(c);
    }
    v
}

pub fn same(a: &str, b: &str) -> (r: bool)
    ensures
        r == (a@ == b@),
{
    a.to_owned() == b.to_owned()
}

pub fn concat2(a: &str, b: &str) -> (r: String)
    ensures
        r@ == a@ + b@,
{
    let mut s = a.to_owned();
    s.append(b);
    s
}

pub fn concat3(a: &str, b: &str, c: &str) -> (r: String)
    ensures
        r@ == a@ + b@ + c@,
{
    let mut s = a.to_owned();
    s.append(b);
    s.append(c);
    s
}

pub fn concat4(a: &str, b: &str, c: &str, d: &str) -> (r: String)
    ensures
        r@ == a@ + b@ + c@ + d@,
{
    let mut s = a.to_owned();
    s.append(b);
    s.append(c);
    s.append(d);
    s
}

pub fn is_space_char(c: char) -> (r: bool)
    ensures
        r == is_space(c),
{
    let n: u32 = c as u32;
    (0x9 <= n && n <= 0xd) || n == 0x20 || n == 0x85 || n == 0xa0 || n == 0x1680 || (0x2000 <= n
        && n <= 0x200a) || n == 0x2028 || n == 0x2029 || n == 0x202f || n == 0x205f || n == 0x3000
}

pub fn lowered_char(c: char) -> (r: char)
    ensures
        r == lower_char(c),
{
    if 'A' <= c && c <= 'Z' {
        ((c as u8) + 32) as char
    } else {
        c
    }
}

pub fn lowered(s: &str) -> (r: String)
    ensures
        r@ == lower(s@),
{
    let v = chars_of(s);
    let mut r = String::new();
    let mut i: usize = 0;
    while i < v.len()
        invariant
            i <= v.len(),
            v@ == s@,
            r@ == lower(s@).take(i as int),
        decreases v.len() - i,
    {
        r.push(lowered_char(v[i]));
        i += 1;
    }
    r
}

/// The lower-case form of a text by the rules of Unicode.
pub uninterp spec fn unicode_lower(s: Seq<char>) -> Seq<char>;

/// `str::to_lowercase`: a function of the text. Of a text of ASCII characters it changes the
/// letters from `A` to `Z` alone.
#[verifier::external_body]
pub(crate) fn unicode_lowered(s: &str) -> (r: String)
    ensures
        r@ == unicode_lower(s@),
        vstd::utf8::is_ascii_chars(s@) ==> r@ == lower(s@),
{
    s.to_lowercase()
}

/// The bytes that a character takes in UTF-8.
pub open spec fn char_bytes(c: char) -> nat {
    if (c as u32) < 0x80 {
        1
    } else if (c as u32) < 0x800 {
        2
    } else if (c as u32) < 0x10000 {
        3
    } else {
        4
    }
}

/// The bytes that a text takes in UTF-8.
pub open spec fn text_bytes(s: Seq<char>) -> nat
    decreases s.len(),
{
    if s.len() == 0 {
        0
    } else {
        text_bytes(s.drop_last()) + char_bytes(s.last())
    }
}

pub fn bytes_of_char(c: char) -> (r: usize)
    ensures
        r == char_bytes(c),
{
    let n = c as u32;
    if n < 0x80 {
        1
    } else if n < 0x800 {
        2
    } else if n < 0x10000 {
        3
    } else {
        4
    }
}

/// Whether `pat` stands in `s` at position `i`.
pub fn matches_at(s: &[char], pat: &[char], i: usize) -> (r: bool)
    ensures
        r == occurs_at(s@, pat@, i as int),
{
    if i > s.len() || s.len() - i < pat.len() {
        return false;
    }
    let mut k: usize = 0;
    while k < pat.len()
        invariant
            k <= pat@.len(),
            i + pat@.len() <= s@.len(),
            s@.len() == s.len(),
            s@.subrange(i as int, i + k) == pat@.take(k as int),
        decreases pat@.len() - k,
    {
        if s[i + k] != pat[k] {
            assert(s@.subrange(i as int, i + pat@.len())[k as int] == s@[i + k]);
            return false;
        }
        assert(s@.subrange(i as int, i + k + 1) == s@.subrange(i as int, i + k).push(s@[i + k]));
        assert(pat@.take(k + 1) == pat@.take(k as int).push(pat@[k as int]));
        k += 1;
    }
    assert(pat@.take(k as int) == pat@);
    true
}

/// The first position from `from` on at which `pat` stands in `s`.
pub fn find_from(s: &[char], pat: &[char], from: usize) -> (r: Option<usize>)
    ensures
        match r {
            Some(i) => from <= i && occurs_at(s@, pat@, i as int) && forall|j: int|
                from <= j < i ==> !occurs_at(s@, pat@, j),
            None => forall|j: int| from <= j ==> !occurs_at(s@, pat@, j),
        },
{
    let mut i: usize = from;
    while i <= s.len() && pat.len() <= s.len() - i
        invariant
            from <= i,
            i <= s@.len() + 1 || i == from,
            forall|j: int| from <= j < i ==> !occurs_at(s@, pat@, j),
        decreases s@.len() + 1 - i,
    {
        if matches_at(s, pat, i) {
            return Some(i);
        }
        if i == s.len() {
            return None;
        }
        i += 1;
    }
    None
}

/// The last position at which `pat` stands in `s`.
pub fn find_last(s: &[char], pat: &[char]) -> (r: Option<usize>)
    ensures
        match r {
            Some(i) => occurs_at(s@, pat@, i as int) && forall|j: int|
                i < j ==> !occurs_at(s@, pat@, j),
            None => !occurs(s@, pat@),
        },
{
    if s.len() < pat.len() {
        return None;
    }
    let mut i: usize = s.len() - pat.len();
    loop
        invariant
            i + pat@.len() <= s@.len(),
            forall|j: int| i < j ==> !occurs_at(s@, pat@, j),
        decreases i,
    {
        if matches_at(s, pat, i) {
            return Some(i);
        }
        if i == 0 {
            return None;
        }
        i -= 1;
    }
}

pub fn contains(s: &str, pat: &str) -> (r: bool)
    ensures
        r == occurs(s@, pat@),
{
    find_from(&chars_of(s), &chars_of(pat), 0).is_some()
}

pub fn starts_with(s: &str, pat: &str) -> (r: bool)
    ensures
        r == starts(s@, pat@),
{
    matches_at(&chars_of(s), &chars_of(pat), 0)
}

pub fn ends_with(s: &str, pat: &str) -> (r: bool)
    ensures
        r == ends(s@, pat@),
{
    let s = chars_of(s);
    let pat = chars_of(pat);
    if s.len() < pat.len() {
        return false;
    }
    matches_at(&s, &pat, s.len() - pat.len())
}

/// `s` from position `from` up to `to`.
pub fn slice(s: &[char], from: usize, to: usize) -> (r: String)
    requires
        from <= to <= s@.len(),
    ensures
        r@ == s@.subrange(from as int, to as int),
{
    let mut r = String::new();
    let mut i: usize = from;
    while i < to
        invariant
            from <= i <= to <= s@.len(),
            r@ == s@.subrange(from as int, i as int),
        decreases to - i,
    {
        r.push(s[i]);
        i += 1;
    }
    r
}

/// What follows `pat` where `s` starts with it.
pub fn strip_prefix(s: &str, pat: &str) -> (r: Option<String>)
    ensures
        match r {
            Some(rest) => starts(s@, pat@) && rest@ == s@.skip(pat@.len() as int),
            None => !starts(s@, pat@),
        },
{
    let s = chars_of(s);
    let pat = chars_of(pat);
    if matches_at(&s, &pat, 0) {
        Some(slice(&s, pat.len(), s.len()))
    } else {
        None
    }
}

/// What precedes `pat` where `s` ends with it.
pub fn strip_suffix(s: &str, pat: &str) -> (r: Option<String>)
    ensures
        match r {
            Some(rest) => ends(s@, pat@) && rest@ == s@.take(s@.len() - pat@.len()),
            None => !ends(s@, pat@),
        },
{
    let s = chars_of(s);
    let pat = chars_of(pat);
    if s.len() < pat.len() {
        return None;
    }
    if matches_at(&s, &pat, s.len() - pat.len()) {
        Some(slice(&s, 0, s.len() - pat.len()))
    } else {
        None
    }
}

pub fn trimmed_front(s: &str) -> (r: String)
    ensures
        r@ == trim_front(s@),
{
    let v = chars_of(s);
    let mut i: usize = 0;
    assert(s@.skip(0) == s@);
    while i < v.len() && is_space_char(v[i])
        invariant
            i <= v.len(),
            v@ == s@,
            trim_front(s@) == trim_front(s@.skip(i as int)),
        decreases v.len() - i,
    {
        assert(s@.skip(i as int).skip(1) == s@.skip(i + 1));
        i += 1;
    }
    assert(s@.subrange(i as int, s@.len() as int) == s@.skip(i as int));
    slice(&v, i, v.len())
}

pub fn trimmed_back(s: &str) -> (r: String)
    ensures
        r@ == trim_back(s@),
{
    let v = chars_of(s);
    let mut i: usize = v.len();
    assert(s@.take(i as int) == s@);
    while i > 0 && is_space_char(v[i - 1])
        invariant
            i <= v.len(),
            v@ == s@,
            trim_back(s@) == trim_back(s@.take(i as int)),
        decreases i,
    {
        assert(s@.take(i as int).drop_last() == s@.take(i - 1));
        i -= 1;
    }
    assert(s@.subrange(0, i as int) == s@.take(i as int));
    slice(&v, 0, i)
}

pub fn trimmed(s: &str) -> (r: String)
    ensures
        r@ == trim(s@),
{
    let front = trimmed_front(s);
    trimmed_back(front.as_str())
}

/// Whether the text holds nothing but white space.
pub fn is_blank(s: &str) -> (r: bool)
    ensures
        r == (trim(s@).len() == 0),
{
    trimmed(s).as_str().is_empty()
}

proof fn lemma_split_some(s: Seq<char>, sep: char)
    ensures
        split(s, sep).len() > 0,
    decreases s.len(),
{
    if s.len() > 0 {
        lemma_split_some(s.drop_last(), sep);
    }
}

/// The pieces of `s` between the characters `sep`.
pub fn split_on(s: &str, sep: char) -> (r: Vec<String>)
    ensures
        texts(r@) == split(s@, sep),
        r@.len() > 0,
{
    let v = chars_of(s);
    let mut done: Vec<String> = Vec::new();
    let mut piece = String::new();
    let mut i: usize = 0;
    assert(texts(done@).push(piece@) =~= split(s@.take(0), sep));
    while i < v.len()
        invariant
            i <= v.len(),
            v@ == s@,
            texts(done@).push(piece@) == split(s@.take(i as int), sep),
        decreases v.len() - i,
    {
        proof {
            assert(s@.take(i + 1).drop_last() == s@.take(i as int));
            assert(s@.take(i + 1).last() == s@[i as int]);
        }
        let ghost before = texts(done@).push(piece@);
        if v[i] == sep {
            let ghost old_done = texts(done@);
            done.push(piece);
            piece = String::new();
            assert(texts(done@) =~= before);
            assert(texts(done@).push(piece@) =~= before.push(Seq::<char>::empty()));
        } else {
            piece.push(v[i]);
            assert(texts(done@).push(piece@) =~= before.update(
                before.len() - 1,
                before.last().push(s@[i as int]),
            ));
        }
        i += 1;
    }
    assert(s@.take(i as int) == s@);
    let ghost all = texts(done@).push(piece@);
    done.push(piece);
    assert(texts(done@) =~= all);
    done
}

/// The lines of `s`.
pub fn lines_of(s: &str) -> (r: Vec<String>)
    ensures
        texts(r@) == lines(s@),
{
    let mut pieces = split_on(s, '\n');
    let ghost all = split(s@, '\n');
    let last = pieces.pop().unwrap();
    assert(texts(pieces@) =~= all.drop_last());
    assert(last@ == all.last());
    let mut r: Vec<String> = Vec::new();
    let mut i: usize = 0;
    let ghost full = all.drop_last().map_values(|line: Seq<char>| without_cr(line));
    while i < pieces.len()
        invariant
            i <= pieces.len(),
            texts(pieces@) == all.drop_last(),
            full == all.drop_last().map_values(|line: Seq<char>| without_cr(line)),
            texts(r@) == full.take(i as int),
        decreases pieces.len() - i,
    {
        let ghost old_r = texts(r@);
        assert(texts(pieces@)[i as int] == pieces@[i as int]@);
        let line = line_body(pieces[i].as_str());
        r.push(line);
        assert(texts(r@) =~= old_r.push(line@));
        assert(full.take(i + 1) =~= full.take(i as int).push(full[i as int]));
        i += 1;
    }
    assert(full.take(i as int) =~= full);
    if !last.as_str().is_empty() {
        r.push(last);
        assert(texts(r@) =~= full.push(last@));
    }
    r
}

fn line_body(s: &str) -> (r: String)
    ensures
        r@ == without_cr(s@),
{
    let v = chars_of(s);
    if v.len() > 0 && v[v.len() - 1] == '\r' {
        assert(s@.subrange(0, s@.len() - 1) == s@.drop_last());
        slice(&v, 0, v.len() - 1)
    } else {
        s.to_owned()
    }
}

/// The parts one after the other, with `sep` between each two.
pub fn joined(parts: &Vec<String>, sep: &str) -> (r: String)
    ensures
        r@ == join(texts(parts@), sep@),
{
    let mut r = String::new();
    let mut i: usize = 0;
    assert(texts(parts@).take(0) =~= Seq::<Seq<char>>::empty());
    while i < parts.len()
        invariant
            i <= parts.len(),
            r@ == join(texts(parts@).take(i as int), sep@),
        decreases parts.len() - i,
    {
        proof {
            let all = texts(parts@);
            assert(all.take(i + 1).drop_last() =~= all.take(i as int));
            assert(all.take(i + 1).last() == parts@[i as int]@);
        }
        if i > 0 {
            r.append(sep);
        }
        r.append(parts[i].as_str());
        i += 1;
    }
    assert(texts(parts@).take(i as int) =~= texts(parts@));
    r
}

/// `s` with each occurrence of `pat`, found from the left without overlap, replaced.
pub fn replace_all(s: &str, pat: &str, with: &str) -> (r: String)
    requires
        pat@.len() > 0,
    ensures
        r@ == replaced(s@, pat@, with@),
{
    let v = chars_of(s);
    let p = chars_of(pat);
    let mut r = String::new();
    let mut i: usize = 0;
    assert(s@.skip(0) == s@);
    assert(r@ + replaced(s@, pat@, with@) =~= replaced(s@, pat@, with@));
    while p.len() <= v.len() - i
        invariant
            i <= v.len(),
            v@ == s@,
            p@ == pat@,
            pat@.len() > 0,
            r@ + replaced(s@.skip(i as int), pat@, with@) == replaced(s@, pat@, with@),
        decreases v.len() - i,
    {
        let ghost rest = s@.skip(i as int);
        assert(rest.take(pat@.len() as int) == s@.subrange(i as int, i + pat@.len()));
        if matches_at(&v, &p, i) {
            assert(rest.skip(pat@.len() as int) == s@.skip(i + pat@.len()));
            let ghost tail = replaced(s@.skip(i + pat@.len()), pat@, with@);
            assert(r@ + with@ + tail =~= r@ + (with@ + tail));
            r.append(with);
            i += p.len();
        } else {
            assert(rest.skip(1) == s@.skip(i + 1));
            let ghost tail = replaced(s@.skip(i + 1), pat@, with@);
            assert(r@.push(s@[i as int]) + tail =~= r@ + (seq![s@[i as int]] + tail));
            r.push(v[i]);
            i += 1;
        }
    }
    let tail = slice(&v, i, v.len());
    assert(tail@ == s@.skip(i as int));
    r.append(tail.as_str());
    r
}

fn digit_char(d: u64) -> (c: char)
    requires
        d < 10,
    ensures
        c == digit(d as nat),
{
    ((48 + d) as u8) as char
}

/// The decimal form of `n`.
pub fn to_decimal(n: u64) -> (r: String)
    ensures
        r@ == decimal(n as nat),
    decreases n,
{
    if n < 10 {
        let mut r = String::new();
        r.push(digit_char(n));
        assert(r@ =~= seq![digit(n as nat)]);
        r
    } else {
        let mut r = to_decimal(n / 10);
        r.push(digit_char(n % 10));
        r
    }
}

pub open spec fn all_digits(s: Seq<char>) -> bool {
    forall|i: int| 0 <= i < s.len() ==> is_digit(#[trigger] s[i])
}

/// The number that an unsigned decimal text stands for: digits, with or without a `+`
/// before them, and no more than `max`.
pub open spec fn unsigned_value(s: Seq<char>, max: nat) -> Option<nat> {
    let body = if s.len() > 1 && s[0] == '+' {
        s.skip(1)
    } else {
        s
    };
    if body.len() > 0 && all_digits(body) && digits_value(body) <= max {
        Some(digits_value(body))
    } else {
        None
    }
}

proof fn lemma_digits_grow(s: Seq<char>, k: int)
    requires
        0 <= k <= s.len(),
    ensures
        digits_value(s.take(k)) <= digits_value(s),
    decreases s.len() - k,
{
    if k < s.len() {
        lemma_digits_grow(s, k + 1);
        assert(s.take(k + 1).drop_last() == s.take(k));
    } else {
        assert(s.take(k) == s);
    }
}

/// The number that an unsigned decimal text stands for, where it is one that `max` allows.
pub fn parse_unsigned(s: &str, max: u64) -> (r: Option<u64>)
    ensures
        match r {
            Some(n) => unsigned_value(s@, max as nat) == Some(n as nat),
            None => unsigned_value(s@, max as nat) is None,
        },
{
    let v = chars_of(s);
    let start: usize = if v.len() > 1 && v[0] == '+' {
        1
    } else {
        0
    };
    let ghost body = s@.skip(start as int);
    proof {
        assert(s@.skip(0) == s@);
    }
    proof {
        let chosen = if s@.len() > 1 && s@[0] == '+' {
            s@.skip(1)
        } else {
            s@
        };
        assert(body == chosen);
    }
    if v.len() == start {
        return None;
    }
    let mut n: u64 = 0;
    let mut i: usize = start;
    while i < v.len()
        invariant
            start <= i <= v.len(),
            v@ == s@,
            body == s@.skip(start as int),
            forall|k: int| 0 <= k < i - start ==> is_digit(#[trigger] body[k]),
            n == digits_value(body.take(i - start)),
            n <= max,
            body.len() > 0,
            unsigned_value(s@, max as nat) == (if all_digits(body) && digits_value(body) <= max {
                Some(digits_value(body))
            } else {
                None
            }),
        decreases v.len() - i,
    {
        let c = v[i];
        assert(body[i - start] == c);
        if c < '0' || '9' < c {
            assert(!is_digit(body[i - start]));
            return None;
        }
        proof {
            assert(body.take(i - start + 1).drop_last() == body.take(i - start));
            lemma_digits_grow(body, i - start + 1);
        }
        let d: u64 = (c as u64) - 48;
        if n > max / 10 || d > max - n * 10 {
            return None;
        }
        n = n * 10 + d;
        i += 1;
    }
    assert(body.take(body.len() as int) == body);
    Some(n)
}

/// What stands before and behind the first `sep`.
pub open spec fn cut(s: Seq<char>, sep: char) -> Option<(Seq<char>, Seq<char>)> {
    match s.index_of_first(sep) {
        Some(i) => Some((s.take(i), s.skip(i + 1))),
        None => None,
    }
}

/// What stands before and behind the first `sep`.
pub fn split_once(s: &str, sep: char) -> (r: Option<(String, String)>)
    ensures
        match r {
            Some((a, b)) => cut(s@, sep) == Some((a@, b@)),
            None => cut(s@, sep) is None,
        },
{
    let v = chars_of(s);
    let mut i: usize = 0;
    proof {
        s@.index_of_first_ensures(sep);
    }
    while i < v.len()
        invariant
            i <= v.len(),
            v@ == s@,
            forall|k: int| 0 <= k < i ==> s@[k] != sep,
            match s@.index_of_first(sep) {
                Some(n) => 0 <= n < s@.len() && s@[n] == sep && forall|k: int|
                    0 <= k < n ==> s@[k] != sep,
                None => !s@.contains(sep),
            },
        decreases v.len() - i,
    {
        if v[i] == sep {
            assert(s@.contains(sep));
            let a = slice(&v, 0, i);
            let b = slice(&v, i + 1, v.len());
            assert(a@ == s@.take(i as int));
            assert(b@ == s@.skip(i + 1));
            return Some((a, b));
        }
        i += 1;
    }
    None
}

/// `pat` stands in `s` at `i` and nowhere before.
pub open spec fn is_first_at(s: Seq<char>, pat: Seq<char>, i: int) -> bool {
    occurs_at(s, pat, i) && forall|j: int| 0 <= j < i ==> !occurs_at(s, pat, j)
}

/// What stands before and behind the first `pat`.
pub open spec fn cut_at(s: Seq<char>, pat: Seq<char>) -> Option<(Seq<char>, Seq<char>)> {
    if occurs(s, pat) {
        let i = choose|i: int| is_first_at(s, pat, i);
        Some((s.take(i), s.skip(i + pat.len())))
    } else {
        None
    }
}

/// What stands before and behind the first `pat`.
pub fn split_at_text(s: &str, pat: &str) -> (r: Option<(String, String)>)
    ensures
        match r {
            Some((a, b)) => cut_at(s@, pat@) == Some((a@, b@)),
            None => cut_at(s@, pat@) is None,
        },
{
    let v = chars_of(s);
    let p = chars_of(pat);
    match find_from(&v, &p, 0) {
        Some(i) => {
            proof {
                assert(occurs_at(s@, pat@, i as int));
                assert(is_first_at(s@, pat@, i as int));
                let first = choose|i: int| is_first_at(s@, pat@, i);
                assert(first == i);
            }
            let len = p.len();
            let end = v.len();
            assert(i + len <= end);
            let a = slice(&v, 0, i);
            let b = slice(&v, i + len, end);
            assert(a@ == s@.take(i as int));
            assert(b@ == s@.skip(i + pat@.len()));
            Some((a, b))
        },
        None => None,
    }
}

/// Whether one of the strings reads `s`.
pub fn list_has(v: &Vec<String>, s: &str) -> (r: bool)
    ensures
        r == texts(v@).contains(s@),
{
    let mut i: usize = 0;
    while i < v.len()
        invariant
            i <= v.len(),
            forall|k: int| 0 <= k < i ==> (#[trigger] v@[k])@ != s@,
        decreases v.len() - i,
    {
        assert(texts(v@)[i as int] == v@[i as int]@);
        if same(v[i].as_str(), s) {
            return true;
        }
        i += 1;
    }
    proof {
        if texts(v@).contains(s@) {
            let k = choose|k: int| 0 <= k < texts(v@).len() && texts(v@)[k] == s@;
            assert(texts(v@)[k] == v@[k]@);
        }
    }
    false
}

/// A copy of a list of strings.
pub fn copied(v: &Vec<String>) -> (r: Vec<String>)
    ensures
        r@ == v@,
{
    let mut r: Vec<String> = Vec::new();
    let mut i: usize = 0;
    while i < v.len()
        invariant
            i <= v.len(),
            r@ == v@.take(i as int),
        decreases v.len() - i,
    {
        r.push(v[i].clone());
        i += 1;
    }
    r
}

/// Among the characters of ASCII, white space is the space and what lies from the tab to the
/// carriage return; no visible character is.
pub proof fn white_space_is_what_cannot_be_seen(c: char)
    ensures
        c == ' ' || c == '\t' || c == '\n' || c == '\r' ==> is_space(c),
        (c as u32) < 0x80 && is_space(c) ==> c == ' ' || '\t' <= c <= '\r',
        '!' <= c <= '~' ==> !is_space(c),
{
}

proof fn lemma_trim_front(s: Seq<char>)
    ensures
        trim_front(s).len() <= s.len(),
        trim_front(s) == s.skip(s.len() - trim_front(s).len()),
        forall|i: int| 0 <= i < s.len() - trim_front(s).len() ==> is_space(#[trigger] s[i]),
        trim_front(s).len() > 0 ==> !is_space(trim_front(s)[0]),
    decreases s.len(),
{
    if s.len() > 0 && is_space(s[0]) {
        let rest = s.skip(1);
        lemma_trim_front(rest);
        assert(trim_front(s) == trim_front(rest));
        assert(rest.skip(rest.len() - trim_front(rest).len()) =~= s.skip(
            s.len() - trim_front(s).len(),
        ));
        assert forall|i: int| 0 <= i < s.len() - trim_front(s).len() implies is_space(
            #[trigger] s[i],
        ) by {
            if i > 0 {
                assert(rest[i - 1] == s[i]);
            }
        }
    } else {
        assert(s.skip(0) =~= s);
    }
}

proof fn lemma_trim_back(s: Seq<char>)
    ensures
        trim_back(s).len() <= s.len(),
        trim_back(s) == s.take(trim_back(s).len() as int),
        forall|i: int| trim_back(s).len() <= i < s.len() ==> is_space(#[trigger] s[i]),
        trim_back(s).len() > 0 ==> !is_space(trim_back(s).last()),
    decreases s.len(),
{
    if s.len() > 0 && is_space(s.last()) {
        let rest = s.drop_last();
        lemma_trim_back(rest);
        assert(rest.take(trim_back(rest).len() as int) =~= s.take(trim_back(s).len() as int));
        assert forall|i: int| trim_back(s).len() <= i < s.len() implies is_space(
            #[trigger] s[i],
        ) by {
            if i < s.len() - 1 {
                assert(rest[i] == s[i]);
            }
        }
    } else {
        assert(s.take(s.len() as int) =~= s);
    }
}

/// Trimming takes white space away from both ends, all of it and nothing else.
pub proof fn trimming_takes_white_space_alone(s: Seq<char>)
    ensures
        exists|a: int, b: int| #![trigger s.subrange(a, b)]
            0 <= a <= b <= s.len() && trim(s) == s.subrange(a, b) && (forall|i: int|
                0 <= i < a ==> is_space(#[trigger] s[i])) && (forall|i: int|
                b <= i < s.len() ==> is_space(#[trigger] s[i])),
        trim(s).len() > 0 ==> !is_space(trim(s)[0]) && !is_space(trim(s).last()),
        trim(s).len() == 0 <==> forall|i: int| 0 <= i < s.len() ==> is_space(#[trigger] s[i]),
{
    let front = trim_front(s);
    lemma_trim_front(s);
    lemma_trim_back(front);
    let a = s.len() - front.len();
    let b = a + trim(s).len();
    assert(trim(s) =~= s.subrange(a, b));
    assert forall|i: int| b <= i < s.len() implies is_space(#[trigger] s[i]) by {
        assert(front[i - a] == s[i]);
    }
    if trim(s).len() > 0 {
        assert(trim(s)[0] == front[0]);
        assert(trim(s)[0] == s[a]);
    }
}

/// Trimming the front takes away the white space there, and nothing else.
pub proof fn trimming_the_front_keeps_the_back(s: Seq<char>)
    ensures
        exists|a: int| #![trigger s.skip(a)]
            0 <= a <= s.len() && trim_front(s) == s.skip(a) && forall|i: int|
                0 <= i < a ==> is_space(#[trigger] s[i]),
        trim_front(s).len() > 0 ==> !is_space(trim_front(s)[0]),
{
    lemma_trim_front(s);
    let a = s.len() - trim_front(s).len();
    assert(trim_front(s) == s.skip(a));
}

/// The lower-case form differs in the letters from `A` to `Z` alone, each of which becomes
/// the small letter of the same place in the alphabet.
pub proof fn lower_case_changes_capital_letters_alone(s: Seq<char>)
    ensures
        lower(s).len() == s.len(),
        forall|i: int| 0 <= i < s.len() && !('A' <= s[i] <= 'Z') ==> #[trigger] lower(s)[i] == s[i],
        forall|i: int|
            0 <= i < s.len() && 'A' <= s[i] <= 'Z' ==> (#[trigger] lower(s)[i]) as int - 'a' as int
                == s[i] as int - 'A' as int,
        lower(lower(s)) == lower(s),
{
    assert(lower(lower(s)) =~= lower(s));
}

/// A text stands in every text that has it between two others.
pub proof fn texts_occur_where_they_stand(before: Seq<char>, pat: Seq<char>, behind: Seq<char>)
    ensures
        occurs(before + pat + behind, pat),
        occurs_at(before + pat + behind, pat, before.len() as int),
        starts(pat + behind, pat),
        ends(before + pat, pat),
{
    let s = before + pat + behind;
    assert(s.subrange(before.len() as int, (before.len() + pat.len()) as int) =~= pat);
    assert(occurs_at(s, pat, before.len() as int));
    assert((pat + behind).subrange(0, pat.len() as int) =~= pat);
    assert((before + pat).subrange(before.len() as int, (before.len() + pat.len()) as int) =~= pat);
}

/// Where a text stands in another, it has a text before it and one behind it.
pub proof fn occurrences_have_surroundings(s: Seq<char>, pat: Seq<char>)
    ensures
        occurs(s, pat) ==> exists|i: int|
            0 <= i <= s.len() - pat.len() && s == #[trigger] s.take(i) + pat + s.skip(
                i + pat.len(),
            ),
        starts(s, pat) ==> s == pat + s.skip(pat.len() as int),
        ends(s, pat) ==> s == s.take(s.len() - pat.len()) + pat,
{
    if occurs(s, pat) {
        let i = choose|i: int| occurs_at(s, pat, i);
        assert(s =~= s.take(i) + s.subrange(i, i + pat.len()) + s.skip(i + pat.len()));
    }
    if starts(s, pat) {
        assert(s =~= s.subrange(0, pat.len() as int) + s.skip(pat.len() as int));
    }
    if ends(s, pat) {
        let n = s.len() - pat.len();
        assert(s =~= s.take(n) + s.subrange(n, n + pat.len()));
    }
}

/// Joining two lists of parts joins each and puts the separator between.
pub proof fn joining_goes_part_by_part(a: Seq<Seq<char>>, b: Seq<Seq<char>>, sep: Seq<char>)
    requires
        a.len() > 0,
    ensures
        b.len() > 0 ==> join(a + b, sep) == join(a, sep) + sep + join(b, sep),
        a.len() == 1 ==> join(a, sep) == a[0],
    decreases b.len(),
{
    if b.len() == 1 {
        assert((a + b).drop_last() =~= a);
        assert((a + b).last() == b[0]);
    } else if b.len() > 1 {
        joining_goes_part_by_part(a, b.drop_last(), sep);
        assert((a + b).drop_last() =~= a + b.drop_last());
        assert((a + b).last() == b.last());
        assert(join(a, sep) + sep + join(b.drop_last(), sep) + sep + b.last() =~= join(a, sep) + sep
            + (join(b.drop_last(), sep) + sep + b.last()));
    }
}

/// The pieces of a text, joined by the separator, are the text again, and none of them holds
/// the separator.
pub proof fn pieces_make_up_the_text(s: Seq<char>, sep: char)
    ensures
        split(s, sep).len() > 0,
        join(split(s, sep), seq![sep]) == s,
        forall|i: int, k: int|
            0 <= i < split(s, sep).len() && 0 <= k < split(s, sep)[i].len() ==> #[trigger] split(
                s,
                sep,
            )[i][k] != sep,
    decreases s.len(),
{
    if s.len() > 0 {
        let init = s.drop_last();
        let before = split(init, sep);
        let after = split(s, sep);
        pieces_make_up_the_text(init, sep);
        assert(s =~= init.push(s.last()));
        if s.last() == sep {
            assert(after.drop_last() =~= before);
            assert(join(before, seq![sep]) + seq![sep] + Seq::<char>::empty() =~= s);
        } else {
            let n = before.len() - 1;
            assert(after.drop_last() =~= before.drop_last());
            assert(after.last() == before.last().push(s.last()));
            if before.len() > 1 {
                assert(join(before.drop_last(), seq![sep]) + seq![sep] + before.last().push(s.last())
                    =~= s);
            }
            assert forall|i: int, k: int|
                0 <= i < after.len() && 0 <= k < after[i].len() implies #[trigger] after[i][k]
                != sep by {
                if i < n {
                    assert(after[i] == before[i]);
                } else if k < before[n].len() {
                    assert(after[i][k] == before[n][k]);
                }
            }
        }
        assert forall|i: int, k: int| 0 <= i < after.len() && 0 <= k < after[i].len() implies #[trigger] after[i][k]
            != sep by {
            if s.last() == sep && i < before.len() {
                assert(after[i] == before[i]);
            }
        }
    } else {
        assert(join(split(s, sep), seq![sep]) =~= s);
    }
}

/// The lines of a text are its pieces between line feeds, each without the carriage return that
/// a line feed followed. A last piece counts where it is not empty.
pub proof fn lines_are_what_line_feeds_end(s: Seq<char>)
    ensures
        ({
            let pieces = split(s, '\n');
            let open_end = pieces.last().len() > 0;
            &&& lines(s).len() == pieces.len() - (if open_end {
                0int
            } else {
                1
            })
            &&& open_end ==> lines(s).last() == pieces.last()
            &&& forall|i: int|
                0 <= i < pieces.len() - 1 ==> pieces[i] == #[trigger] lines(s)[i].push('\r')
                    || pieces[i] == lines(s)[i] && !(pieces[i].len() > 0 && pieces[i].last() == '\r')
        }),
{
    pieces_make_up_the_text(s, '\n');
    let pieces = split(s, '\n');
    assert forall|i: int| 0 <= i < pieces.len() - 1 implies pieces[i] == #[trigger] lines(s)[i].push(
        '\r',
    ) || pieces[i] == lines(s)[i] && !(pieces[i].len() > 0 && pieces[i].last() == '\r') by {
        let full = pieces.drop_last().map_values(|line: Seq<char>| without_cr(line));
        assert(full[i] == without_cr(pieces[i]));
        assert(lines(s)[i] == full[i]);
        if pieces[i].len() > 0 && pieces[i].last() == '\r' {
            assert(pieces[i] =~= pieces[i].drop_last().push('\r'));
        }
    }
}

/// A text in which the pattern does not occur stays; else its first occurrence is replaced, what
/// stands before it stays, and the same is done to what stands behind it.
pub proof fn replacing_goes_from_the_left(
    s: Seq<char>,
    pat: Seq<char>,
    with: Seq<char>,
    first: int,
)
    requires
        pat.len() > 0,
    ensures
        !occurs(s, pat) ==> replaced(s, pat, with) == s,
        is_first_at(s, pat, first) ==> replaced(s, pat, with) == s.take(first) + with + replaced(
            s.skip(first + pat.len()),
            pat,
            with,
        ),
    decreases s.len(),
{
    let n = pat.len() as int;
    if s.len() < n {
    } else if s.take(n) == pat {
        assert(s.subrange(0, n) =~= s.take(n));
        assert(occurs_at(s, pat, 0));
        if is_first_at(s, pat, first) {
            assert(first == 0);
            assert(s.take(0) + with =~= with);
        }
    } else {
        let rest = s.skip(1);
        replacing_goes_from_the_left(rest, pat, with, first - 1);
        assert(s =~= seq![s[0]] + rest);
        assert(!occurs_at(s, pat, 0)) by {
            assert(s.subrange(0, n) =~= s.take(n));
        }
        assert forall|j: int| occurs_at(rest, pat, j) implies occurs_at(s, pat, j + 1) by {
            assert(s.subrange(j + 1, j + 1 + n) =~= rest.subrange(j, j + n));
        }
        assert forall|j: int| 0 < j && occurs_at(s, pat, j) implies occurs_at(rest, pat, j - 1) by {
            assert(s.subrange(j, j + n) =~= rest.subrange(j - 1, j - 1 + n));
        }
        if !occurs(s, pat) {
            if occurs(rest, pat) {
                let j = choose|j: int| occurs_at(rest, pat, j);
                assert(occurs_at(s, pat, j + 1));
            }
        }
        if is_first_at(s, pat, first) {
            assert(first > 0);
            assert(occurs_at(rest, pat, first - 1));
            assert(is_first_at(rest, pat, first - 1));
            assert(rest.skip(first - 1 + n) =~= s.skip(first + n));
            let tail = replaced(s.skip(first + n), pat, with);
            assert(seq![s[0]] + (rest.take(first - 1) + with + tail) =~= s.take(first) + with
                + tail);
        }
    }
}

/// The decimal form of a number is made of digits, begins with a zero for zero alone, and
/// stands for the number; so it is read back where it is allowed.
pub proof fn decimal_form_is_read_back(n: nat, max: nat)
    ensures
        decimal(n).len() > 0,
        all_digits(decimal(n)),
        decimal(n)[0] == '0' ==> n == 0,
        digits_value(decimal(n)) == n,
        unsigned_value(decimal(n), max) == (if n <= max {
            Some(n)
        } else {
            None
        }),
    decreases n,
{
    if n < 10 {
        assert(decimal(n).drop_last() =~= Seq::<char>::empty());
        assert(digits_value(Seq::<char>::empty()) == 0);
    } else {
        decimal_form_is_read_back(n / 10, max);
        assert(decimal(n).drop_last() =~= decimal(n / 10));
        assert(decimal(n)[0] == decimal(n / 10)[0]);
    }
}

/// One more digit makes the number ten times as large, and adds its own worth.
pub proof fn digits_count_ten_times(s: Seq<char>, c: char)
    requires
        '0' <= c <= '9',
    ensures
        digits_value(s.push(c)) == 10 * digits_value(s) + (c as int - '0' as int),
        digits_value(Seq::<char>::empty()) == 0,
{
    assert(s.push(c).drop_last() =~= s);
}

/// A number is read from digits alone, with or without a plus sign, up to the largest allowed.
pub proof fn numbers_are_read_from_digits(s: Seq<char>, max: nat)
    ensures
        unsigned_value(s, max) matches Some(n) ==> n <= max && ((all_digits(s) && digits_value(s)
            == n) || (s.len() > 1 && s[0] == '+' && all_digits(s.skip(1)) && digits_value(s.skip(1))
            == n)),
        s.len() == 0 ==> unsigned_value(s, max) is None,
        s.len() > 0 && all_digits(s) && digits_value(s) <= max ==> unsigned_value(s, max) == Some(
            digits_value(s),
        ),
        s.len() > 0 && all_digits(s) ==> unsigned_value(seq!['+'] + s, max) == unsigned_value(s, max),
        (exists|i: int| 0 < i < s.len() && !is_digit(#[trigger] s[i])) ==> unsigned_value(s, max)
            is None,
        s == seq!['+'] ==> unsigned_value(s, max) is None,
{
    if s.len() > 0 && all_digits(s) {
        assert(is_digit(s[0]));
        assert((seq!['+'] + s).skip(1) =~= s);
    }
    if exists|i: int| 0 < i < s.len() && !is_digit(#[trigger] s[i]) {
        let i = choose|i: int| 0 < i < s.len() && !is_digit(#[trigger] s[i]);
        if s.len() > 1 && s[0] == '+' {
            assert(s.skip(1)[i - 1] == s[i]);
        }
    }
}

/// A text is cut at the first separator, which falls out, or not at all.
pub proof fn cutting_drops_the_first_separator(s: Seq<char>, sep: char)
    ensures
        cut(s, sep) is None <==> !s.contains(sep),
        cut(s, sep) matches Some((a, b)) ==> s == a + seq![sep] + b && !a.contains(sep),
{
    s.index_of_first_ensures(sep);
    if let Some(i) = s.index_of_first(sep) {
        assert(s =~= s.take(i) + seq![sep] + s.skip(i + 1));
    }
}

/// A text is cut at the first occurrence of a pattern, which falls out, or not at all.
pub proof fn cutting_drops_the_first_pattern(s: Seq<char>, pat: Seq<char>)
    ensures
        cut_at(s, pat) is None <==> !occurs(s, pat),
        cut_at(s, pat) matches Some((a, b)) ==> s == a + pat + b && is_first_at(
            s,
            pat,
            a.len() as int,
        ),
{
    if occurs(s, pat) {
        let n = choose|n: int| occurs_at(s, pat, n);
        lemma_first_exists(s, pat, n);
        let i = choose|i: int| is_first_at(s, pat, i);
        assert(s =~= s.take(i) + s.subrange(i, i + pat.len()) + s.skip(i + pat.len()));
    }
}

proof fn lemma_first_exists(s: Seq<char>, pat: Seq<char>, n: int)
    requires
        occurs_at(s, pat, n),
    ensures
        exists|i: int| is_first_at(s, pat, i),
    decreases n,
{
    if exists|j: int| 0 <= j < n && occurs_at(s, pat, j) {
        let j = choose|j: int| 0 <= j < n && occurs_at(s, pat, j);
        lemma_first_exists(s, pat, j);
    } else {
        assert(is_first_at(s, pat, n));
    }
}

proof fn lemma_first_bytes(s: Seq<char>)
    requires
        s.len() > 0,
    ensures
        text_bytes(s) == char_bytes(s[0]) + text_bytes(s.drop_first()),
    decreases s.len(),
{
    if s.len() > 1 {
        lemma_first_bytes(s.drop_last());
        assert(s.drop_first().drop_last() =~= s.drop_last().drop_first());
        assert(s.drop_first().last() == s.last());
    } else {
        assert(s.drop_last() =~= Seq::<char>::empty());
        assert(s.drop_first() =~= Seq::<char>::empty());
        assert(text_bytes(Seq::<char>::empty()) == 0);
    }
}

proof fn lemma_char_bytes(c: char)
    ensures
        vstd::utf8::encode_scalar(c as u32).len() == char_bytes(c),
{
}

/// A text takes as many bytes as its form in UTF-8.
pub proof fn bytes_are_those_of_utf8(s: Seq<char>)
    ensures
        text_bytes(s) == vstd::utf8::encode_utf8(s).len(),
    decreases s.len(),
{
    if s.len() > 0 {
        bytes_are_those_of_utf8(s.drop_first());
        lemma_char_bytes(s[0]);
        lemma_first_bytes(s);
    }
}

/// White space is what Unicode counts as such.
pub proof fn white_space_is_that_of_unicode(c: char)
    ensures
        is_space(c) <==> {
            ||| '\t' <= c <= '\r'
            ||| c == ' '
            ||| c == '\u{85}'
            ||| c == '\u{a0}'
            ||| c == '\u{1680}'
            ||| '\u{2000}' <= c <= '\u{200a}'
            ||| c == '\u{2028}'
            ||| c == '\u{2029}'
            ||| c == '\u{202f}'
            ||| c == '\u{205f}'
            ||| c == '\u{3000}'
        },
{
}

/// A text is made of digits where each of its characters is one of the ten.
pub proof fn digits_are_the_ten(s: Seq<char>, c: char)
    ensures
        is_digit(c) <==> c == '0' || c == '1' || c == '2' || c == '3' || c == '4' || c == '5' || c
            == '6' || c == '7' || c == '8' || c == '9',
        all_digits(s) <==> forall|i: int| 0 <= i < s.len() ==> '0' <= #[trigger] s[i] <= '9',
{
}

/// Strings are told one for one, in their order.
pub proof fn strings_keep_their_order(v: Seq<String>, s: String)
    ensures
        texts(v).len() == v.len(),
        forall|i: int| 0 <= i < v.len() ==> #[trigger] texts(v)[i] == v[i]@,
        opt(Some(s)) == Some(s@),
        opt(None) is None,
        opt_str(None) is None,
{
}

} // verus!
