//! The timestamp that a record gets when it is created or updated.

use crate::decimal::is_digit;
use vstd::prelude::*;

verus! {

/// Whether `c` may occur in a timestamp: a digit, a sign, a space or a colon.
pub open spec fn is_timestamp_char(c: char) -> bool {
    is_digit(c) || c == '-' || c == '+' || c == ' ' || c == ':'
}

/// Whether `s` is made of the characters of a timestamp alone. Such a text
/// holds no delimiter and no line break.
pub open spec fn is_timestamp(s: Seq<char>) -> bool {
    forall|i: int| 0 <= i < s.len() ==> is_timestamp_char(#[trigger] s[i])
}

/// The local date and time to the minute, from `chrono::Local::now()`
/// formatted with `%Y-%m-%d %H:%M`: year, month and day with hyphens between
/// them, a space, hour and minute with a colon between them. The fields are
/// written in digits; a year outside 0 to 9999 gets a sign. Nothing is
/// claimed of which moment it is. The call does not return where the system
/// clock stands before 1970, nor where the time-zone data of the machine
/// gives no usable offset from universal time (one of a day or more).
#[verifier::external_body]
pub(crate) fn timestamp_now() -> (stamp: String)
    ensures
        is_timestamp(stamp@),
{
    chrono::Local::now().format("%Y-%m-%d %H:%M").to_string()
}

} // verus!
