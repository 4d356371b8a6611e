//! Hexadecimal text: random tokens, and the bytes of a text in a URL.

use vstd::prelude::*;

use vstd::utf8::encode_utf8;

verus! {

/// The digit that stands for `d`, in small letters.
pub open spec fn small_digit(d: nat) -> char {
    if d < 10 {
        (48 + d) as char
    } else {
        (87 + d) as char
    }
}

/// The digit that stands for `d`, in capital letters.
pub open spec fn capital_digit(d: nat) -> char {
    if d < 10 {
        (48 + d) as char
    } else {
        (55 + d) as char
    }
}

/// The last `k` digits of a number.
pub open spec fn last_digits(n: nat, k: nat) -> Seq<char>
    decreases k,
{
    if k == 0 {
        Seq::empty()
    } else {
        last_digits(n / 16, (k - 1) as nat).push(small_digit(n % 16))
    }
}

fn small_digit_char(d: u32) -> (c: char)
    requires
        d < 16,
    ensures
        c == small_digit(d as nat),
{
    if d < 10 {
        ((48 + d) as u8) as char
    } else {
        ((87 + d) as u8) as char
    }
}

fn capital_digit_char(d: u8) -> (c: char)
    requires
        d < 16,
    ensures
        c == capital_digit(d as nat),
{
    if d < 10 {
        (48 + d) as char
    } else {
        (55 + d) as char
    }
}

/// The last `k` digits of a number.
pub fn hex_digits(n: u32, k: u32) -> (r: String)
    ensures
        r@ == last_digits(n as nat, k as nat),
    decreases k,
{
    if k == 0 {
        let r = String::new();
        assert(r@ =~= Seq::<char>::empty());
        r
    } else {
        let mut r = hex_digits(n / 16, k - 1);
        r.push(small_digit_char(n % 16));
        r
    }
}

/// `fastrand::u32` over its whole range. Nothing is claimed of the result, which is random.
#[verifier::external_body]
fn random_u32() -> u32 {
    fastrand::u32(..)
}

/// A token made of three numbers.
pub open spec fn token_of(a: u32, b: u32, c: u32) -> Seq<char> {
    last_digits(a as nat, 8) + last_digits(b as nat, 8) + last_digits(c as nat, 8)
}

pub open spec fn is_token(s: Seq<char>) -> bool {
    exists|a: u32, b: u32, c: u32| s == #[trigger] token_of(a, b, c)
}

/// A token made of three numbers.
pub fn make_token(a: u32, b: u32, c: u32) -> (r: String)
    ensures
        r@ == token_of(a, b, c),
{
    crate::text::concat3(
        hex_digits(a, 8).as_str(),
        hex_digits(b, 8).as_str(),
        hex_digits(c, 8).as_str(),
    )
}

/// A random token.
pub fn random_token() -> (r: String)
    ensures
        is_token(r@),
{
    let a = random_u32();
    let b = random_u32();
    let c = random_u32();
    make_token(a, b, c)
}

proof fn lemma_digits(n: nat, k: nat)
    ensures
        last_digits(n, k).len() == k,
        forall|i: int| 0 <= i < k ==> is_small_hex(#[trigger] last_digits(n, k)[i]),
    decreases k,
{
    if k > 0 {
        lemma_digits(n / 16, (k - 1) as nat);
    }
}

/// The character is a hexadecimal digit.
pub open spec fn is_small_hex(c: char) -> bool {
    ('0' <= c && c <= '9') || ('a' <= c && c <= 'f')
}

/// A token is made of 24 hexadecimal digits.
pub proof fn tokens_are_hexadecimal(s: Seq<char>)
    requires
        is_token(s),
    ensures
        s.len() == 24,
        forall|i: int| 0 <= i < s.len() ==> is_small_hex(#[trigger] s[i]),
{
    let (a, b, c) = choose|a: u32, b: u32, c: u32| s == #[trigger] token_of(a, b, c);
    let (x, y, z) = (
        last_digits(a as nat, 8),
        last_digits(b as nat, 8),
        last_digits(c as nat, 8),
    );
    lemma_digits(a as nat, 8);
    lemma_digits(b as nat, 8);
    lemma_digits(c as nat, 8);
    assert forall|i: int| 0 <= i < s.len() implies is_small_hex(#[trigger] s[i]) by {
        if i < 8 {
            assert(s[i] == x[i]);
        } else if i < 16 {
            assert(s[i] == y[i - 8]);
        } else {
            assert(s[i] == z[i - 16]);
        }
    }
}

/// The byte stands for itself in a URL.
pub open spec fn is_unreserved(b: u8) -> bool {
    ||| (48 <= b && b <= 57)
    ||| (65 <= b && b <= 90)
    ||| (97 <= b && b <= 122)
    ||| b == 45
    ||| b == 95
    ||| b == 46
    ||| b == 126
}

/// A byte in a URL.
pub open spec fn encoded_byte(b: u8) -> Seq<char> {
    if is_unreserved(b) {
        seq![b as char]
    } else {
        seq!['%', capital_digit((b / 16) as nat), capital_digit((b % 16) as nat)]
    }
}

/// Bytes in a URL.
pub open spec fn encoded(bytes: Seq<u8>) -> Seq<char>
    decreases bytes.len(),
{
    if bytes.len() == 0 {
        Seq::empty()
    } else {
        encoded(bytes.drop_last()) + encoded_byte(bytes.last())
    }
}

/// A text in a URL: its bytes, those that have a meaning there as hexadecimal digits behind a
/// percent sign.
pub fn percent_encode(input: &str) -> (r: String)
    ensures
        r@ == encoded(encode_utf8(input@)),
{
    let bytes = input.as_bytes();
    let ghost all = encode_utf8(input@);
    let mut r = String::new();
    let mut i: usize = 0;
    assert(r@ =~= encoded(all.take(0)));
    while i < bytes.len()
        invariant
            i <= bytes@.len(),
            all == bytes@,
            r@ == encoded(all.take(i as int)),
        decreases bytes@.len() - i,
    {
        proof {
            assert(all.take(i + 1).drop_last() =~= all.take(i as int));
        }
        let b: u8 = bytes[i];
        let ghost before = r@;
        if (48 <= b && b <= 57) || (65 <= b && b <= 90) || (97 <= b && b <= 122) || b == 45 || b
            == 95 || b == 46 || b == 126 {
            r.push(b as char);
            assert(r@ =~= before + encoded_byte(b));
        } else {
            r.push('%');
            r.push(capital_digit_char(b / 16));
            r.push(capital_digit_char(b % 16));
            assert(r@ =~= before + encoded_byte(b));
        }
        i += 1;
    }
    assert(all.take(i as int) =~= all);
    r
}

/// Only characters without a meaning of their own in a URL are left, but for the percent sign.
pub proof fn encoded_text_is_plain(bytes: Seq<u8>, i: int)
    requires
        0 <= i < encoded(bytes).len(),
    ensures
        encoded(bytes)[i] == '%' || (encoded(bytes)[i] as u32 <= 127 && is_unreserved(
            encoded(bytes)[i] as u8,
        )),
    decreases bytes.len(),
{
    let rest = encoded(bytes.drop_last());
    if i < rest.len() {
        encoded_text_is_plain(bytes.drop_last(), i);
        assert(encoded(bytes)[i] == rest[i]);
    } else {
        assert(encoded(bytes)[i] == encoded_byte(bytes.last())[i - rest.len()]);
    }
}

proof fn lemma_encoded_front(bytes: Seq<u8>)
    requires
        bytes.len() > 0,
    ensures
        encoded(bytes) == encoded_byte(bytes[0]) + encoded(bytes.skip(1)),
    decreases bytes.len(),
{
    if bytes.len() == 1 {
        reveal_with_fuel(encoded, 2);
        assert(bytes.drop_last() =~= Seq::<u8>::empty());
        assert(bytes.skip(1) =~= Seq::<u8>::empty());
        assert(encoded(bytes) =~= encoded_byte(bytes[0]) + encoded(bytes.skip(1)));
    } else {
        let init = bytes.drop_last();
        lemma_encoded_front(init);
        assert(init.skip(1) =~= bytes.skip(1).drop_last());
        assert(encoded(bytes) =~= encoded_byte(bytes[0]) + (encoded(init.skip(1))
            + encoded_byte(bytes.last())));
    }
}

proof fn lemma_digit_pairs(a: u8, b: u8)
    requires
        capital_digit((a / 16) as nat) == capital_digit((b / 16) as nat),
        capital_digit((a % 16) as nat) == capital_digit((b % 16) as nat),
    ensures
        a == b,
{
    assert(a / 16 < 16 && b / 16 < 16);
}

/// Two texts read the same in a URL only where their bytes are the same.
pub proof fn encoding_keeps_texts_apart(a: Seq<u8>, b: Seq<u8>)
    requires
        encoded(a) == encoded(b),
    ensures
        a == b,
    decreases a.len(),
{
    if a.len() > 0 {
        lemma_encoded_front(a);
    }
    if b.len() > 0 {
        lemma_encoded_front(b);
    }
    if a.len() == 0 || b.len() == 0 {
        assert(encoded(Seq::<u8>::empty()).len() == 0);
        assert(a.len() == 0 && b.len() == 0);
        assert(a =~= b);
    } else {
        let (x, y) = (encoded_byte(a[0]), encoded_byte(b[0]));
        let (p, q) = (encoded(a.skip(1)), encoded(b.skip(1)));
        assert((x + p)[0] == x[0] && (y + q)[0] == y[0]);
        if is_unreserved(a[0]) {
            assert(is_unreserved(b[0]));
            assert(a[0] == b[0]);
        } else {
            assert(!is_unreserved(b[0]));
            assert((x + p)[1] == x[1] && (y + q)[1] == y[1]);
            assert((x + p)[2] == x[2] && (y + q)[2] == y[2]);
            lemma_digit_pairs(a[0], b[0]);
        }
        assert((x + p).skip(x.len() as int) =~= p);
        assert((y + q).skip(y.len() as int) =~= q);
        encoding_keeps_texts_apart(a.skip(1), b.skip(1));
        assert(a =~= seq![a[0]] + a.skip(1));
        assert(b =~= seq![b[0]] + b.skip(1));
    }
}

/// Each of the sixteen digits stands for its number, from `0` to `9` and from `a`, or `A`, on.
pub proof fn digits_stand_for_their_number(d: nat)
    requires
        d < 16,
    ensures
        d < 10 ==> small_digit(d) as int - '0' as int == d,
        d >= 10 ==> small_digit(d) as int - 'a' as int == d - 10,
        d < 10 ==> capital_digit(d) as int - '0' as int == d,
        d >= 10 ==> capital_digit(d) as int - 'A' as int == d - 10,
{
}

/// The last digits of a number are those of its sixteenth part, and one for what is left.
pub proof fn numbers_are_written_digit_by_digit(n: nat, d: nat, k: nat)
    requires
        d < 16,
    ensures
        last_digits(n, k).len() == k,
        last_digits(16 * n + d, k + 1) == last_digits(n, k).push(small_digit(d)),
    decreases k,
{
    assert((16 * n + d) / 16 == n && (16 * n + d) % 16 == d) by (nonlinear_arith)
        requires
            d < 16,
    ;
    if k > 0 {
        numbers_are_written_digit_by_digit(n / 16, n % 16, (k - 1) as nat);
    }
}

/// A token is made of the eight digits of each of its numbers, in their order.
pub proof fn tokens_are_made_of_three_numbers(a: u32, b: u32, c: u32)
    ensures
        token_of(a, b, c) == last_digits(a as nat, 8) + last_digits(b as nat, 8) + last_digits(
            c as nat,
            8,
        ),
{
}

/// Letters, digits and four signs stay as they are in a URL; every other byte is written as a
/// percent sign and its two digits, the higher one first.
pub proof fn bytes_are_written_plainly_or_in_digits(b: u8)
    ensures
        is_unreserved(b) <==> {
            ||| '0' as u8 <= b <= '9' as u8
            ||| 'A' as u8 <= b <= 'Z' as u8
            ||| 'a' as u8 <= b <= 'z' as u8
            ||| b == '-' as u8
            ||| b == '_' as u8
            ||| b == '.' as u8
            ||| b == '~' as u8
        },
        is_unreserved(b) ==> encoded_byte(b) == seq![b as char],
        !is_unreserved(b) ==> encoded_byte(b) == seq![
            '%',
            capital_digit((b / 16) as nat),
            capital_digit((b % 16) as nat),
        ],
{
}

/// What stands behind a text in a URL is written behind it.
pub proof fn texts_are_encoded_part_by_part(a: Seq<u8>, b: Seq<u8>, last: u8)
    ensures
        encoded(Seq::<u8>::empty()).len() == 0,
        encoded(a.push(last)) == encoded(a) + encoded_byte(last),
        encoded(a + b) == encoded(a) + encoded(b),
    decreases b.len(),
{
    assert(a.push(last).drop_last() =~= a);
    if b.len() == 0 {
        assert(a + b =~= a);
        assert(encoded(a) + encoded(b) =~= encoded(a));
    } else {
        texts_are_encoded_part_by_part(a, b.drop_last(), last);
        assert((a + b).drop_last() =~= a + b.drop_last());
        assert(encoded(a + b) =~= encoded(a) + encoded(b));
    }
}

} // verus!
