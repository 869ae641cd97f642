//! The time of day.

use chrono::Local;
use vstd::prelude::*;
use crate::text;

verus! {

/// `n` in two digits.
pub open spec fn two_digits(n: nat) -> Seq<char> {
    seq![text::digit(n / 10), text::digit(n % 10)]
}

/// A time of day as `HH:MM:SS`.
pub open spec fn time_of_day(h: nat, m: nat, s: nat) -> Seq<char> {
    two_digits(h) + ":"@ + two_digits(m) + ":"@ + two_digits(s)
}

/// Whether `t` is a time of day as `HH:MM:SS`; a leap second has the number
/// sixty.
pub open spec fn is_time_of_day(t: Seq<char>) -> bool {
    exists|h: nat, m: nat, s: nat|
        h < 24 && m < 60 && s <= 60 && #[trigger] time_of_day(h, m, s) == t
}

/// The local time by `chrono::Local::now` in the format `%H:%M:%S`: hours from
/// 00 to 23, minutes from 00 to 59 and seconds from 00 to 60, each in two
/// digits. Which time it is, is left to the clock. It panics where the clock
/// stands before 1970 or the time zone's rules have no offset for the time.
#[verifier::external_body]
fn local_time() -> (r: String)
    ensures
        is_time_of_day(r@),
{
    Local::now().format("%H:%M:%S").to_string()
}

/// Whether `t` is what the clock showed when it was read.
pub closed spec fn shown(t: Seq<char>) -> bool {
    exists|r: String| #[trigger] call_ensures(local_time, (), r) && r@ == t
}

/// The local time, read off the clock.
pub(crate) fn now() -> (r: String)
    ensures
        is_time_of_day(r@),
        shown(r@),
{
    local_time()
}

/// A time that the clock showed came from reading it.
proof fn shown_times_are_read(t: Seq<char>)
    requires
        shown(t),
    ensures
        exists|r: String| #[trigger] call_ensures(local_time, (), r) && r@ == t,
        is_time_of_day(t),
{
}

/// A time of day has eight characters: two digits each for the hour, the minute
/// and the second, and colons between them.
pub proof fn times_of_day_read_back(h: nat, m: nat, s: nat)
    requires
        h < 24,
        m < 60,
        s <= 60,
    ensures
        ({
            let t = time_of_day(h, m, s);
            &&& is_time_of_day(t)
            &&& t.len() == 8
            &&& t[2] == ':' && t[5] == ':'
            &&& forall|i: int|
                0 <= i < 8 && i != 2 && i != 5 ==> '0' <= #[trigger] t[i] <= '9'
            &&& (t[0] as int - '0' as int) * 10 + (t[1] as int - '0' as int) == h
            &&& (t[3] as int - '0' as int) * 10 + (t[4] as int - '0' as int) == m
            &&& (t[6] as int - '0' as int) * 10 + (t[7] as int - '0' as int) == s
        }),
{
    reveal_strlit(":");
    let t = time_of_day(h, m, s);
    assert(t =~= seq![
        text::digit(h / 10),
        text::digit(h % 10),
        ':',
        text::digit(m / 10),
        text::digit(m % 10),
        ':',
        text::digit(s / 10),
        text::digit(s % 10),
    ]);
    assert(h / 10 < 10 && m / 10 < 10 && s / 10 < 10);
}

} // verus!
