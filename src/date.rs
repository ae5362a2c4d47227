//! Durations and the date built-in functions.
use vstd::prelude::*;
use vstd::string::StringExecFns;
use std::fmt::Write;
use crate::numbers::{lemma_digits_nonneg, lemma_leading_digits_len, leading_digits, number_arg, number_ok, trunc_of};
use crate::text::{chars_of, digit_value, digits_value, is_digit};
use crate::value::{vals, Number, Val, Value};

verus! {

/// The longest duration accepted, in seconds: the range of a chrono duration.
pub const MAX_DURATION_SECONDS: u64 = 9223372036854775;

/// Seconds in one unit: `s`, `m`, `h` or `d`.
pub open spec fn unit_seconds(c: char) -> Option<int> {
    if c == 's' {
        Some(1)
    } else if c == 'm' {
        Some(60)
    } else if c == 'h' {
        Some(3600)
    } else if c == 'd' {
        Some(86400)
    } else {
        None
    }
}

/// The seconds of the duration text `s` from position `i`: a sequence of
/// `<digits><unit>` terms; `None` when malformed.
pub open spec fn duration_from(s: Seq<char>, i: int) -> Option<int>
    decreases s.len() - i,
{
    if i < 0 || i >= s.len() {
        Some(0)
    } else {
        let d = leading_digits(s.subrange(i, s.len() as int));
        let j = i + d.len();
        if d.len() == 0 || j >= s.len() {
            None
        } else {
            match (unit_seconds(s[j]), duration_from(s, j + 1)) {
                (Some(m), Some(rest)) => Some(digits_value(d) * m + rest),
                _ => None,
            }
        }
    }
}

/// The seconds of a duration text such as `1h30m`, if it is well formed and
/// within range.
pub open spec fn duration_seconds(s: Seq<char>) -> Option<int> {
    match duration_from(s, 0) {
        Some(t) => if t <= MAX_DURATION_SECONDS {
            Some(t)
        } else {
            None
        },
        None => None,
    }
}

/// Reads the duration text `s`; `Err` when it is malformed or too long.
pub fn parse_duration(s: &str) -> (r: Result<u64, String>)
    ensures
        match duration_seconds(s@) {
            Some(t) => r matches Ok(n) && n as int == t,
            None => r is Err,
        },
        r matches Ok(n) ==> n <= MAX_DURATION_SECONDS,
{
    let cs = chars_of(s);
    let n = cs.len();
    let mut total: u64 = 0;
    let mut i: usize = 0;
    while i < n
        invariant
            n == cs@.len(),
            cs@ == s@,
            i <= n,
            total <= MAX_DURATION_SECONDS,
            duration_from(s@, 0) == match duration_from(s@, i as int) {
                Some(t) => Some(total + t),
                None => None,
            },
        decreases n - i,
    {
        let ghost rest = cs@.subrange(i as int, n as int);
        let ghost d = leading_digits(rest);
        proof {
            lemma_leading_digits_len(rest);
        }
        // Read the digit run, keeping its value only while it stays in range.
        let mut j: usize = i;
        let mut value: u64 = 0;
        let mut big = false;
        while j < n && '0' <= cs[j] && cs[j] <= '9'
            invariant
                i <= j <= n,
                n == cs@.len(),
                rest == cs@.subrange(i as int, n as int),
                d == leading_digits(rest),
                d.len() <= rest.len(),
                forall|k: int| 0 <= k < d.len() ==> d[k] == rest[k] && is_digit(rest[k]),
                d.len() < rest.len() ==> !is_digit(rest[d.len() as int]),
                j - i <= d.len(),
                forall|k: int| i <= k < j ==> is_digit(cs@[k]),
                big ==> digits_value(cs@.subrange(i as int, j as int)) > MAX_DURATION_SECONDS,
                !big ==> value as int == digits_value(cs@.subrange(i as int, j as int)),
                value <= MAX_DURATION_SECONDS,
            decreases n - j,
        {
            let digit: u64 = (cs[j] as u32 - '0' as u32) as u64;
            let ghost prev = cs@.subrange(i as int, j as int);
            proof {
                assert(cs@.subrange(i as int, j + 1) =~= prev.push(cs@[j as int]));
                assert(prev.push(cs@[j as int]).drop_last() =~= prev);
                assert(rest[j - i] == cs@[j as int]);
                if j - i == d.len() {
                    assert(false);
                }
                lemma_digits_nonneg(prev);
            }
            if !big {
                if value > (MAX_DURATION_SECONDS - digit) / 10 {
                    big = true;
                } else {
                    value = value * 10 + digit;
                }
            } else {
                proof {
                    lemma_digits_nonneg(prev);
                    assert(digits_value(prev) * 10 + digit_value(cs@[j as int]) >= digits_value(prev));
                }
            }
            j = j + 1;
        }
        proof {
            assert(j - i == d.len()) by {
                if j - i < d.len() {
                    assert(rest[j - i] == cs@[j as int]);
                }
            }
            assert(cs@.subrange(i as int, j as int) =~= d);
        }
        if j == i || j >= n {
            return Err(String::from_str("Invalid duration: expected a number followed by a unit"));
        }
        let unit = cs[j];
        let mult: u64 = if unit == 's' {
            1
        } else if unit == 'm' {
            60
        } else if unit == 'h' {
            3600
        } else if unit == 'd' {
            86400
        } else {
            return Err(String::from_str("Invalid duration unit"));
        };
        proof {
            assert(cs@[j as int] == s@[j as int]);
        }
        if big || value > (MAX_DURATION_SECONDS - total) / mult {
            proof {
                let t = duration_from(s@, j + 1);
                if t is Some {
                    crate::date::lemma_duration_nonneg(s@, j + 1);
                    assert(digits_value(d) * mult > MAX_DURATION_SECONDS - total) by (nonlinear_arith)
                        requires
                            big ==> digits_value(d) > MAX_DURATION_SECONDS,
                            !big ==> value as int == digits_value(d) && value > (MAX_DURATION_SECONDS - total) / (mult as int),
                            mult >= 1,
                            total <= MAX_DURATION_SECONDS;
                }
            }
            return Err(String::from_str("Invalid duration: out of range"));
        }
        proof {
            assert(value * mult <= MAX_DURATION_SECONDS - total) by (nonlinear_arith)
                requires value <= (MAX_DURATION_SECONDS - total) / (mult as int), mult >= 1, total <= MAX_DURATION_SECONDS;
        }
        total = total + value * mult;
        i = j + 1;
    }
    proof {
        assert(duration_from(s@, i as int) == Some(0int));
    }
    Ok(total)
}

pub proof fn lemma_duration_nonneg(s: Seq<char>, i: int)
    ensures
        duration_from(s, i) matches Some(t) ==> t >= 0,
    decreases s.len() - i,
{
    if 0 <= i < s.len() {
        let d = leading_digits(s.subrange(i, s.len() as int));
        let j = i + d.len();
        lemma_leading_digits_len(s.subrange(i, s.len() as int));
        if d.len() > 0 && j < s.len() {
            lemma_duration_nonneg(s, j + 1);
            assert forall|k: int| 0 <= k < d.len() implies is_digit(d[k]) by {
                assert(d[k] == s.subrange(i, s.len() as int)[k]);
            }
            lemma_digits_nonneg(d);
        }
    }
}

/// The text chrono writes for the UTC instant `ts` (Unix seconds) with the
/// strftime-style `layout`; `None` when the instant is out of range or the
/// layout is invalid.
pub uninterp spec fn utc_format_of(layout: Seq<char>, ts: int) -> Option<Seq<char>>;

/// Relies on `chrono::DateTime::from_timestamp` and `DateTime::format`: the
/// formatted instant, or `None` where chrono reports an error.
#[verifier::external_body]
fn utc_format(layout: &str, ts: i64) -> (r: Option<String>)
    ensures
        match r {
            Some(t) => utc_format_of(layout@, ts as int) == Some(t@),
            None => utc_format_of(layout@, ts as int) is None,
        },
{
    let dt = chrono::DateTime::from_timestamp(ts, 0)?;
    let mut out = String::new();
    match write!(out, "{}", dt.format(layout)) {
        Ok(()) => Some(out),
        Err(_) => None,
    }
}

/// Whether chrono can represent the UTC instant `ts` (Unix seconds), that is
/// whether `chrono::DateTime::from_timestamp(ts, 0)` gives one.
pub uninterp spec fn utc_in_range(ts: int) -> bool;

/// Relies on `chrono::DateTime::from_timestamp`, `TimeDelta::try_seconds`
/// and `DateTime::checked_add_signed`: the instant `secs` seconds after `ts`,
/// when chrono can represent both (a delta up to `i64::MAX / 1000` seconds
/// always can).
#[verifier::external_body]
fn add_seconds(ts: i64, secs: i64) -> (r: Option<i64>)
    requires
        0 <= secs <= MAX_DURATION_SECONDS,
    ensures
        match r {
            Some(t) => utc_in_range(ts as int) && utc_in_range(ts + secs) && t == ts + secs,
            None => !(utc_in_range(ts as int) && utc_in_range(ts + secs)),
        },
{
    let start = chrono::DateTime::from_timestamp(ts, 0)?;
    let delta = chrono::TimeDelta::try_seconds(secs)?;
    start.checked_add_signed(delta).map(|d| d.timestamp())
}

/// Relies on `chrono::Utc::now`: the current Unix time in seconds.
#[verifier::external_body]
fn unix_now() -> i64 {
    chrono::Utc::now().timestamp()
}

/// `timestamp()`: the current Unix time in seconds.
pub fn timestamp(args: &Vec<Value>) -> (r: Result<Value, String>)
    ensures
        r matches Ok(v) && v@ is Int,
{
    Ok(Value::Number(Number::Int(unix_now())))
}

/// `parseduration(text)`: the seconds of a duration such as `1h30m`.
pub fn parseduration(args: &Vec<Value>) -> (r: Result<Value, String>)
    ensures
        ({
            let a = vals(args@);
            if a.len() == 0 || !(a[0] is Str) {
                r is Err
            } else {
                match duration_seconds(a[0]->Str_0) {
                    Some(t) => r matches Ok(v) && v@ == Val::Int(t),
                    None => r is Err,
                }
            }
        }),
{
    if args.len() == 0 {
        return Err(String::from_str("parseduration() requires a duration string"));
    }
    match &args[0] {
        Value::String(s) => {
            let secs = parse_duration(s.as_str())?;
            Ok(Value::Number(Number::Int(secs as i64)))
        },
        _ => Err(String::from_str("parseduration() requires a duration string")),
    }
}

/// `timeadd(ts, duration)`: the Unix time `duration` after `ts` (whose
/// fractional part is dropped).
///
/// Fails on arguments of the wrong type, a malformed duration, or when the
/// start or the result lies outside the calendar's range.
pub fn timeadd(args: &Vec<Value>) -> (r: Result<Value, String>)
    ensures
        ({
            let a = vals(args@);
            if a.len() < 2 || !number_ok(a[0]) || !(a[1] is Str) {
                r is Err
            } else {
                match duration_seconds(a[1]->Str_0) {
                    Some(d) => if utc_in_range(trunc_of(a[0])) && utc_in_range(trunc_of(a[0]) + d) {
                        r matches Ok(v) && v@ == Val::Int(trunc_of(a[0]) + d)
                    } else {
                        r is Err
                    },
                    None => r is Err,
                }
            }
        }),
{
    if args.len() < 2 {
        return Err(String::from_str("timeadd() requires a timestamp and a duration"));
    }
    let ts = match number_arg(&args[0]) {
        Some(n) => n,
        None => return Err(String::from_str("timeadd() requires a numeric timestamp")),
    };
    let d = match &args[1] {
        Value::String(s) => parse_duration(s.as_str())?,
        _ => return Err(String::from_str("timeadd() requires a duration string")),
    };
    match add_seconds(ts, d as i64) {
        Some(t) => Ok(Value::Number(Number::Int(t))),
        None => Err(String::from_str("Time overflow")),
    }
}

/// `formatdate(layout, ts)`: the UTC instant `ts` written with the
/// strftime-style `layout`.
pub fn formatdate(args: &Vec<Value>) -> (r: Result<Value, String>)
    ensures
        ({
            let a = vals(args@);
            if a.len() < 2 || !(a[0] is Str) || !number_ok(a[1]) {
                r is Err
            } else {
                match utc_format_of(a[0]->Str_0, trunc_of(a[1])) {
                    Some(t) => r matches Ok(v) && v@ == Val::Str(t),
                    None => r is Err,
                }
            }
        }),
{
    if args.len() < 2 {
        return Err(String::from_str("formatdate() requires a layout and a timestamp"));
    }
    let layout = match &args[0] {
        Value::String(s) => s,
        _ => return Err(String::from_str("formatdate() requires a layout string")),
    };
    let ts = match number_arg(&args[1]) {
        Some(n) => n,
        None => return Err(String::from_str("formatdate() requires a numeric timestamp")),
    };
    match utc_format(layout.as_str(), ts) {
        Some(t) => Ok(Value::String(t)),
        None => Err(String::from_str("Invalid date or layout")),
    }
}

} // verus!
