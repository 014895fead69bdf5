//! The time stamps written into generated files: their form, and the call
//! into chrono that reads the clock.

use vstd::prelude::*;

verus! {

/// The format of generation timestamps.
pub open spec fn stamp_format() -> Seq<char> {
    "%Y-%m-%d %H:%M:%S UTC"@
}

/// An ASCII decimal digit.
pub open spec fn is_digit(c: char) -> bool {
    '0' <= c && c <= '9'
}

/// The value of a decimal digit.
pub open spec fn digit_value(c: char) -> int {
    (c as int) - ('0' as int)
}

/// Two digits at `i` in `s`, whose value is between `lo` and `hi`.
pub open spec fn two_digit_field(s: Seq<char>, i: int, lo: int, hi: int) -> bool {
    &&& is_digit(s[i])
    &&& is_digit(s[i + 1])
    &&& lo <= 10 * digit_value(s[i]) + digit_value(s[i + 1]) <= hi
}

/// A year as `%Y` writes it: four digits, or a sign and at least four
/// digits for a year outside 0 to 9999.
pub open spec fn year_text(y: Seq<char>) -> bool {
    ||| y.len() == 4 && forall|k: int| 0 <= k < 4 ==> is_digit(#[trigger] y[k])
    ||| y.len() >= 5 && (y[0] == '+' || y[0] == '-') && forall|k: int|
        1 <= k < y.len() ==> is_digit(#[trigger] y[k])
}

/// A time in the format of `stamp_format`: a year, then `-MM-DD HH:MM:SS`
/// with month 01 to 12, day 01 to 31, hour 00 to 23, minute 00 to 59 and
/// second 00 to 60 (a leap second), then ` UTC`.
pub open spec fn stamp_text(r: Seq<char>) -> bool {
    let n = r.len();
    let t = r.subrange(n - 19, n as int);
    &&& n >= 23
    &&& year_text(r.subrange(0, n - 19))
    &&& t[0] == '-'
    &&& two_digit_field(t, 1, 1, 12)
    &&& t[3] == '-'
    &&& two_digit_field(t, 4, 1, 31)
    &&& t[6] == ' '
    &&& two_digit_field(t, 7, 0, 23)
    &&& t[9] == ':'
    &&& two_digit_field(t, 10, 0, 59)
    &&& t[12] == ':'
    &&& two_digit_field(t, 13, 0, 60)
    &&& t.subrange(15, 19) == " UTC"@
}

/// The text chrono writes for a UNIX time (`DateTime::from_timestamp`, then
/// `format` with `stamp_format`), or `None` when chrono refuses the time.
pub uninterp spec fn utc_time_text(secs: i64, nanos: u32) -> Option<Seq<char>>;

/// The view of an optional string.
pub open spec fn opt_text(o: Option<String>) -> Option<Seq<char>> {
    match o {
        Some(s) => Some(s@),
        None => None,
    }
}

/// A point in time of std's system clock.
#[verifier::external_type_specification]
#[verifier::external_body]
pub struct ExSystemTime(std::time::SystemTime);

/// The system clock now (`SystemTime::now`); nothing is stated of which
/// time it reads.
#[verifier::external_body]
fn system_now() -> std::time::SystemTime {
    std::time::SystemTime::now()
}

/// A point in time as a UNIX time: whole seconds and the nanoseconds past
/// them (`SystemTime::duration_since(UNIX_EPOCH)`, read out with `as_secs`
/// and `subsec_nanos`), or `None` for a time before 1970. std documents
/// that the nanoseconds are below one second.
#[verifier::external_body]
fn since_epoch(t: std::time::SystemTime) -> (r: Option<(u64, u32)>)
    ensures
        r matches Some((_, n)) ==> n < 1_000_000_000,
{
    match t.duration_since(std::time::UNIX_EPOCH) {
        Ok(d) => Some((d.as_secs(), d.subsec_nanos())),
        Err(_) => None,
    }
}

/// A UNIX time formatted by chrono (`DateTime::from_timestamp(secs,
/// nanos)`, then `format(fmt)`), or `None` when chrono refuses the time as
/// out of range. With the one format the library uses, chrono writes the
/// year (`%Y`: four digits, or a sign and at least four), the zero-padded
/// two-digit month, day, hour, minute and second in their ranges, and the
/// literal separators and ` UTC` as they stand.
#[verifier::external_body]
fn utc_text(secs: i64, nanos: u32, fmt: &str) -> (r: Option<String>)
    requires
        fmt@ == stamp_format(),
    ensures
        opt_text(r) == utc_time_text(secs, nanos),
        r matches Some(t) ==> stamp_text(t@),
{
    chrono::DateTime::from_timestamp(secs, nanos).map(|t| t.format(fmt).to_string())
}

/// The current UTC time in the form of `stamp_text`, or `None` when the
/// clock cannot be read as a time chrono accepts (set before 1970, or past
/// its range). Which time it is depends on the clock.
pub(crate) fn current_stamp() -> (r: Option<String>)
    ensures
        r matches Some(t) ==> stamp_text(t@),
{
    proof {
        reveal_strlit("%Y-%m-%d %H:%M:%S UTC");
    }
    match since_epoch(system_now()) {
        Some((secs, nanos)) => if secs <= 9_223_372_036_854_775_807 {
            utc_text(secs as i64, nanos, "%Y-%m-%d %H:%M:%S UTC")
        } else {
            None
        },
        None => None,
    }
}

} // verus!
