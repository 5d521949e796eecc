//! The time of writing, in the form that a feed carries.

use crate::decimal::all_digits;
use chrono::Utc;
use vstd::prelude::*;

verus! {

/// Whether `s` is the short English name of a day of the week.
pub open spec fn is_weekday_name(s: Seq<char>) -> bool {
    s == seq!['S', 'u', 'n'] || s == seq!['M', 'o', 'n'] || s == seq!['T', 'u', 'e'] || s == seq![
        'W',
        'e',
        'd',
    ] || s == seq!['T', 'h', 'u'] || s == seq!['F', 'r', 'i'] || s == seq!['S', 'a', 't']
}

/// Whether `s` is the short English name of a month.
pub open spec fn is_month_name(s: Seq<char>) -> bool {
    s == seq!['J', 'a', 'n'] || s == seq!['F', 'e', 'b'] || s == seq!['M', 'a', 'r'] || s == seq![
        'A',
        'p',
        'r',
    ] || s == seq!['M', 'a', 'y'] || s == seq!['J', 'u', 'n'] || s == seq!['J', 'u', 'l'] || s
        == seq!['A', 'u', 'g'] || s == seq!['S', 'e', 'p'] || s == seq!['O', 'c', 't'] || s == seq![
        'N',
        'o',
        'v',
    ] || s == seq!['D', 'e', 'c']
}

/// Whether `s` has the shape of an RFC 2822 date and time in UTC, such as
/// `Tue, 1 Jul 2003 10:52:37 +0000`: the name of the day, the day of the
/// month in one or two digits, the name of the month, the year in four
/// digits, hours, minutes and seconds in two digits each, and the offset
/// `+0000`.
pub open spec fn is_rfc2822_utc(s: Seq<char>) -> bool {
    let k = s.len() - 30;
    &&& (k == 0 || k == 1)
    &&& is_weekday_name(s.subrange(0, 3))
    &&& s.subrange(3, 5) == seq![',', ' ']
    &&& all_digits(s.subrange(5, 6 + k))
    &&& s[6 + k] == ' '
    &&& is_month_name(s.subrange(7 + k, 10 + k))
    &&& s[10 + k] == ' '
    &&& all_digits(s.subrange(11 + k, 15 + k))
    &&& s[15 + k] == ' '
    &&& all_digits(s.subrange(16 + k, 18 + k))
    &&& s[18 + k] == ':'
    &&& all_digits(s.subrange(19 + k, 21 + k))
    &&& s[21 + k] == ':'
    &&& all_digits(s.subrange(22 + k, 24 + k))
    &&& s.subrange(24 + k, 30 + k) == seq![' ', '+', '0', '0', '0', '0']
}

/// `Utc::now` and `DateTime::to_rfc2822`: the current time as an RFC 2822
/// date in UTC. The text differs from call to call; only its shape is known.
/// The call panics where the system clock stands before 1970 or after the
/// year 9999.
#[verifier::external_body]
pub(crate) fn now_rfc2822() -> (r: String)
    ensures
        is_rfc2822_utc(r@),
{
    Utc::now().to_rfc2822()
}

} // verus!
