//! Identifiers and times that are made up when they are asked for.

use vstd::prelude::*;

use crate::hex::is_small_hex;
use crate::text::{ends, is_digit};

verus! {

/// A character at one of these places of an identifier is a hyphen.
pub open spec fn is_hyphen_place(i: int) -> bool {
    i == 8 || i == 13 || i == 18 || i == 23
}

/// The text form of a random identifier: 32 hexadecimal digits in five groups, two of which
/// begin with a digit that tells how the identifier was made.
pub open spec fn is_uuid(s: Seq<char>) -> bool {
    &&& s.len() == 36
    &&& forall|i: int|
        0 <= i < 36 ==> if is_hyphen_place(i) {
            #[trigger] s[i] == '-'
        } else {
            is_small_hex(s[i])
        }
    &&& s[14] == '4'
    &&& s[19] == '8' || s[19] == '9' || s[19] == 'a' || s[19] == 'b'
}

/// Two digits stand at the position `i`.
pub open spec fn two_digits(s: Seq<char>, i: int) -> bool {
    is_digit(s[i]) && is_digit(s[i + 1])
}

/// The text is a time of day in UTC behind a year that takes `y` characters.
pub open spec fn is_time_after_year(s: Seq<char>, y: int) -> bool {
    &&& 4 <= y
    &&& y + 21 <= s.len()
    &&& s[y] == '-' && two_digits(s, y + 1)
    &&& s[y + 3] == '-' && two_digits(s, y + 4)
    &&& s[y + 6] == 'T' && two_digits(s, y + 7)
    &&& s[y + 9] == ':' && two_digits(s, y + 10)
    &&& s[y + 12] == ':' && two_digits(s, y + 13)
    &&& ends(s, "+00:00"@)
}

/// A time in UTC in the form of RFC 3339, such as `2024-01-15T10:00:00+00:00`.
pub open spec fn is_utc_time(s: Seq<char>) -> bool {
    exists|y: int| #[trigger] is_time_after_year(s, y)
}

/// `uuid::Uuid::new_v4` in its text form. The result is random; claimed is the form that every
/// such text has.
#[verifier::external_body]
pub(crate) fn new_uuid() -> (r: String)
    ensures
        is_uuid(r@),
{
    uuid::Uuid::new_v4().to_string()
}

/// `chrono::Utc::now` in the form of `to_rfc3339`. The result is the time of the call; claimed
/// is the form that every such text has. The part of a second that may follow the seconds is
/// left unsaid.
#[verifier::external_body]
pub(crate) fn now_rfc3339() -> (r: String)
    ensures
        is_utc_time(r@),
{
    chrono::Utc::now().to_rfc3339()
}

/// An identifier is made of five groups of hexadecimal digits with hyphens between them, of
/// eight, four, four, four and twelve digits.
pub proof fn identifiers_are_made_of_five_groups(s: Seq<char>)
    requires
        is_uuid(s),
    ensures
        s.len() == 36,
        s[8] == '-' && s[13] == '-' && s[18] == '-' && s[23] == '-',
        s[14] == '4',
        forall|i: int|
            0 <= i < 36 && i != 8 && i != 13 && i != 18 && i != 23 ==> {
                ||| '0' <= #[trigger] s[i] <= '9'
                ||| 'a' <= s[i] <= 'f'
            },
{
    assert(is_hyphen_place(8) && is_hyphen_place(13) && is_hyphen_place(18) && is_hyphen_place(23));
    assert(s[8] == '-' && s[13] == '-' && s[18] == '-' && s[23] == '-');
}

/// A time tells the year, the month and the day, and behind a `T` the hour, the minute and the
/// second, and ends with the offset of UTC.
pub proof fn times_tell_day_and_hour(s: Seq<char>)
    requires
        is_utc_time(s),
    ensures
        ends(s, "+00:00"@),
        exists|y: int|
            #![trigger s[y]]
            4 <= y && y + 21 <= s.len() && s[y] == '-' && is_digit(s[y + 1]) && is_digit(s[y + 2])
                && s[y + 3] == '-' && is_digit(s[y + 4]) && is_digit(s[y + 5]) && s[y + 6] == 'T'
                && is_digit(s[y + 7]) && is_digit(s[y + 8]) && s[y + 9] == ':' && is_digit(s[y + 10])
                && is_digit(s[y + 11]) && s[y + 12] == ':' && is_digit(s[y + 13]) && is_digit(
                s[y + 14],
            ),
{
    let y = choose|y: int| #[trigger] is_time_after_year(s, y);
    assert(s[y] == '-');
}

} // verus!
