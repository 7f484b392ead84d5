//! Fresh identifiers and timestamps for new records.

use vstd::prelude::*;
use crate::text::hex_digit;

verus! {

/// The text of a hyphenated, lower-case UUID: 36 characters, hyphens at
/// positions 8, 13, 18 and 23, lower-case hexadecimal digits elsewhere.
pub open spec fn is_uuid_text(s: Seq<char>) -> bool {
    &&& s.len() == 36
    &&& forall|i: int|
        0 <= i < 36 ==> if i == 8 || i == 13 || i == 18 || i == 23 {
            s[i] == '-'
        } else {
            exists|d: nat| d < 16 && #[trigger] s[i] == hex_digit(d)
        }
}

/// The text of a random (version 4, RFC 4122 variant) UUID: version digit
/// `4`, variant digit one of `8`, `9`, `a`, `b`.
pub open spec fn is_v4_uuid_text(s: Seq<char>) -> bool {
    &&& is_uuid_text(s)
    &&& s[14] == '4'
    &&& (s[19] == '8' || s[19] == '9' || s[19] == 'a' || s[19] == 'b')
}

/// A random version-4 UUID as text (`uuid::Uuid::new_v4().to_string()`).
/// Claimed: the hyphenated lower-case form that `Uuid`'s `Display` writes,
/// with the version and variant digits that `new_v4` sets. Nothing is
/// claimed of the random digits.
#[verifier::external_body]
pub(crate) fn new_uuid() -> (s: String)
    ensures
        is_v4_uuid_text(s@),
{
    uuid::Uuid::new_v4().to_string()
}

/// An ASCII decimal digit.
pub open spec fn is_ascii_digit(c: char) -> bool {
    '0' <= c && c <= '9'
}

/// The year field of an RFC 3339 time: four digits, or, past year 9999, a
/// `+` and the digits of the year.
pub open spec fn is_year_text(y: Seq<char>) -> bool {
    ||| y.len() == 4 && forall|i: int| 0 <= i < 4 ==> is_ascii_digit(#[trigger] y[i])
    ||| y.len() >= 6 && y[0] == '+' && forall|i: int| 1 <= i < y.len() ==> is_ascii_digit(#[trigger] y[i])
}

/// What follows the year in `to_rfc3339` of a UTC time: `-MM-DDThh:mm:ss`,
/// a fraction of 0, 3, 6 or 9 digits after a `.` (none for 0), and `+00:00`.
pub open spec fn is_utc_time_tail(t: Seq<char>, frac: int) -> bool {
    &&& (frac == 0 || frac == 3 || frac == 6 || frac == 9)
    &&& t.len() == 21 + (if frac == 0 { 0 } else { frac + 1 })
    &&& t[0] == '-' && is_ascii_digit(t[1]) && is_ascii_digit(t[2])
    &&& t[3] == '-' && is_ascii_digit(t[4]) && is_ascii_digit(t[5])
    &&& t[6] == 'T' && is_ascii_digit(t[7]) && is_ascii_digit(t[8])
    &&& t[9] == ':' && is_ascii_digit(t[10]) && is_ascii_digit(t[11])
    &&& t[12] == ':' && is_ascii_digit(t[13]) && is_ascii_digit(t[14])
    &&& (frac > 0 ==> t[15] == '.' && forall|i: int| 16 <= i < 16 + frac ==> is_ascii_digit(#[trigger] t[i]))
    &&& t.skip(t.len() - 6) == "+00:00"@
}

/// The text `chrono` writes for a UTC time with `to_rfc3339`, e.g.
/// `2024-05-01T12:00:00.123+00:00`.
pub open spec fn is_utc_rfc3339(s: Seq<char>) -> bool {
    exists|p: int, frac: int|
        0 < p < s.len() && is_year_text(s.take(p)) && #[trigger] is_utc_time_tail(s.skip(p), frac)
}

/// The current time in RFC 3339 form (`chrono::Utc::now().to_rfc3339()`).
/// Claimed: the form `write_rfc3339` gives a UTC time (date, `T`, time with
/// an optional fraction, `+00:00`). Which time it is depends on the clock
/// and is not claimed.
#[verifier::external_body]
pub(crate) fn now_rfc3339() -> (s: String)
    ensures
        is_utc_rfc3339(s@),
{
    chrono::Utc::now().to_rfc3339()
}

} // verus!
