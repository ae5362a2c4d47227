//! Numbers: truncation of decimal text, and the numeric built-in functions.
use vstd::prelude::*;
use vstd::string::StringExecFns;
use crate::text::{chars_of, digit_value, digits_value, is_digit};
use crate::value::{vals, Number, Val, Value};

verus! {

/// The largest magnitude kept while reading digits: 2^63.
pub const MAGNITUDE_CAP: u64 = 9223372036854775808;

/// The run of decimal digits at the start of `s`.
pub open spec fn leading_digits(s: Seq<char>) -> Seq<char>
    decreases s.len(),
{
    if s.len() == 0 || !is_digit(s[0]) {
        Seq::empty()
    } else {
        seq![s[0]] + leading_digits(s.drop_first())
    }
}

/// `x` brought into the range of `i64`.
pub open spec fn clamp_i64(x: int) -> int {
    if x > i64::MAX {
        i64::MAX as int
    } else if x < i64::MIN {
        i64::MIN as int
    } else {
        x
    }
}

/// The integer part of a decimal text such as `-3.9` (here -3), brought into
/// the range of `i64`. A valid float text in exponent form (`1.5e-7`)
/// denotes a number smaller than one, whose integer part is 0.
pub open spec fn trunc_text(t: Seq<char>) -> int {
    let neg = t.len() > 0 && t[0] == '-';
    let body = if neg { t.drop_first() } else { t };
    if body.contains('e') {
        0
    } else if neg {
        clamp_i64(-digits_value(leading_digits(body)))
    } else {
        clamp_i64(digits_value(leading_digits(body)))
    }
}

/// The integer part of a number, toward zero.
pub open spec fn trunc_of(v: Val) -> int {
    match v {
        Val::Int(n) => n,
        Val::Float(t) => trunc_text(t),
        _ => 0,
    }
}

proof fn lemma_leading_digits_step(s: Seq<char>, i: int)
    requires
        0 <= i <= s.len(),
        forall|j: int| 0 <= j < i ==> is_digit(s[j]),
    ensures
        i < s.len() && is_digit(s[i]) ==> leading_digits(s.subrange(i, s.len() as int)) == seq![s[i]]
            + leading_digits(s.subrange(i + 1, s.len() as int)),
        leading_digits(s) == s.subrange(0, i) + leading_digits(s.subrange(i, s.len() as int)),
    decreases i,
{
    if i < s.len() && is_digit(s[i]) {
        assert(s.subrange(i, s.len() as int).drop_first() =~= s.subrange(i + 1, s.len() as int));
    }
    if i > 0 {
        lemma_leading_digits_step(s.drop_first(), i - 1);
        assert(s.drop_first().subrange(i - 1, s.len() - 1) =~= s.subrange(i, s.len() as int));
        assert(s.subrange(0, i) =~= seq![s[0]] + s.drop_first().subrange(0, i - 1));
    } else {
        assert(s.subrange(0, s.len() as int) =~= s);
    }
}

proof fn lemma_digits_push(s: Seq<char>, c: char)
    ensures
        digits_value(s.push(c)) == digits_value(s) * 10 + digit_value(c),
{
    assert(s.push(c).drop_last() =~= s);
}

pub proof fn lemma_digits_nonneg(s: Seq<char>)
    requires
        forall|j: int| 0 <= j < s.len() ==> is_digit(s[j]),
    ensures
        digits_value(s) >= 0,
    decreases s.len(),
{
    if s.len() > 0 {
        lemma_digits_nonneg(s.drop_last());
    }
}

/// The digits value of `cs[from..]`'s leading digit run, capped at 2^63, and
/// whether the text has an exponent.
fn read_magnitude(cs: &Vec<char>, from: usize) -> (r: u64)
    requires
        from <= cs@.len(),
    ensures
        r as int == if digits_value(leading_digits(cs@.subrange(from as int, cs@.len() as int))) > MAGNITUDE_CAP {
            MAGNITUDE_CAP as int
        } else {
            digits_value(leading_digits(cs@.subrange(from as int, cs@.len() as int)))
        },
{
    let ghost s = cs@.subrange(from as int, cs@.len() as int);
    let mut acc: u64 = 0;
    let mut i: usize = from;
    while i < cs.len() && '0' <= cs[i] && cs[i] <= '9'
        invariant
            from <= i <= cs@.len(),
            s == cs@.subrange(from as int, cs@.len() as int),
            forall|j: int| from <= j < i ==> is_digit(cs@[j]),
            acc <= MAGNITUDE_CAP,
            acc as int == if digits_value(cs@.subrange(from as int, i as int)) > MAGNITUDE_CAP {
                MAGNITUDE_CAP as int
            } else {
                digits_value(cs@.subrange(from as int, i as int))
            },
        decreases cs@.len() - i,
    {
        let d: u64 = (cs[i] as u32 - '0' as u32) as u64;
        let ghost prev = cs@.subrange(from as int, i as int);
        proof {
            assert(cs@.subrange(from as int, i + 1) =~= prev.push(cs@[i as int]));
            lemma_digits_push(prev, cs@[i as int]);
            assert forall|j: int| 0 <= j < prev.len() implies is_digit(prev[j]) by {
                assert(prev[j] == cs@[from + j]);
            }
            lemma_digits_nonneg(prev);
        }
        if acc >= MAGNITUDE_CAP / 10 + 1 {
            acc = MAGNITUDE_CAP;
        } else {
            acc = acc * 10 + d;
            if acc > MAGNITUDE_CAP {
                acc = MAGNITUDE_CAP;
            }
        }
        i = i + 1;
    }
    proof {
        let t = cs@.subrange(from as int, i as int);
        assert forall|j: int| 0 <= j < (i - from) implies is_digit(s[j]) by {
            assert(s[j] == cs@[from + j]);
        }
        lemma_leading_digits_step(s, i - from);
        assert(s.subrange(0, i - from) =~= t);
        let rest = s.subrange(i - from, s.len() as int);
        if rest.len() > 0 {
            assert(rest[0] == cs@[i as int]);
        }
        assert(leading_digits(rest) =~= Seq::<char>::empty());
        assert(t + Seq::<char>::empty() =~= t);
    }
    acc
}

/// Whether `cs` from position `from` holds an `e`.
fn has_exponent(cs: &Vec<char>, from: usize) -> (r: bool)
    requires
        from <= cs@.len(),
    ensures
        r == cs@.subrange(from as int, cs@.len() as int).contains('e'),
{
    let mut i: usize = from;
    while i < cs.len()
        invariant
            from <= i <= cs@.len(),
            forall|j: int| from <= j < i ==> cs@[j] != 'e',
        decreases cs@.len() - i,
    {
        if cs[i] == 'e' {
            assert(cs@.subrange(from as int, cs@.len() as int)[i - from] == 'e');
            return true;
        }
        i = i + 1;
    }
    proof {
        let s = cs@.subrange(from as int, cs@.len() as int);
        assert forall|j: int| 0 <= j < s.len() implies s[j] != 'e' by {
            assert(s[j] == cs@[from + j]);
        }
    }
    false
}

/// Whether a value is a valid number: an integer, or a float whose text is
/// that of a number with a non-zero fractional part.
pub open spec fn number_ok(v: Val) -> bool {
    v is Int || (v is Float && crate::project::float_text(v->Float_0))
}

/// The integer part of a valid number, toward zero; `None` for anything else.
pub fn number_arg(v: &Value) -> (r: Option<i64>)
    ensures
        number_ok(v@) ==> (r matches Some(n) && n as int == trunc_of(v@)),
        !number_ok(v@) ==> r is None,
{
    match v {
        Value::Number(Number::Int(i)) => Some(*i),
        Value::Number(Number::Float(t)) => if crate::project::is_float_text(t.as_str()) {
            Some(trunc_decimal(t.as_str()))
        } else {
            None
        },
        _ => None,
    }
}

/// The integer part of a decimal text, toward zero, within `i64`.
pub fn trunc_decimal(t: &str) -> (r: i64)
    ensures
        r as int == trunc_text(t@),
{
    let cs = chars_of(t);
    let neg = cs.len() > 0 && cs[0] == '-';
    let from: usize = if neg { 1 } else { 0 };
    proof {
        if neg {
            assert(cs@.subrange(1, cs@.len() as int) =~= t@.drop_first());
        } else {
            assert(cs@.subrange(0, cs@.len() as int) =~= t@);
        }
    }
    if has_exponent(&cs, from) {
        return 0;
    }
    let m = read_magnitude(&cs, from);
    if neg {
        if m == MAGNITUDE_CAP {
            i64::MIN
        } else {
            0 - (m as i64)
        }
    } else {
        if m > i64::MAX as u64 {
            i64::MAX
        } else {
            m as i64
        }
    }
}

/// The integer part of a number, toward zero.
pub fn trunc_number(n: &Number) -> (r: i64)
    ensures
        r as int == trunc_of(Value::Number(*n)@),
{
    match n {
        Number::Int(i) => *i,
        Number::Float(t) => trunc_decimal(t.as_str()),
    }
}

pub proof fn lemma_leading_digits_len(s: Seq<char>)
    ensures
        leading_digits(s).len() <= s.len(),
        forall|k: int| 0 <= k < leading_digits(s).len() ==> leading_digits(s)[k] == s[k] && is_digit(s[k]),
        leading_digits(s).len() < s.len() ==> !is_digit(s[leading_digits(s).len() as int]),
    decreases s.len(),
{
    if s.len() > 0 && is_digit(s[0]) {
        let t = s.drop_first();
        lemma_leading_digits_len(t);
        assert(leading_digits(s) == seq![s[0]] + leading_digits(t));
        assert forall|k: int| 0 <= k < leading_digits(s).len() implies leading_digits(s)[k] == s[k] && is_digit(s[k]) by {
            if k > 0 {
                assert(leading_digits(s)[k] == leading_digits(t)[k - 1]);
                assert(t[k - 1] == s[k]);
            }
        }
        if leading_digits(s).len() < s.len() {
            assert(t[leading_digits(t).len() as int] == s[leading_digits(s).len() as int]);
        }
    }
}

/// A digit run ending at `r` is the leading digit run.
pub proof fn lemma_digit_run(s: Seq<char>, r: int)
    requires
        0 <= r <= s.len(),
        forall|k: int| 0 <= k < r ==> is_digit(#[trigger] s[k]),
        r < s.len() ==> !is_digit(s[r]),
    ensures
        leading_digits(s).len() == r,
{
    lemma_leading_digits_len(s);
    let l = leading_digits(s).len() as int;
    if l < r {
        assert(is_digit(s[l]));
    }
    if r < l {
        assert(leading_digits(s)[r] == s[r]);
    }
}

/// The integer written `s`: an optional `+` or `-`, then at least one
/// decimal digit, within the range of `i64`.
pub open spec fn int_of_text(s: Seq<char>) -> Option<int> {
    let neg = s.len() > 0 && s[0] == '-';
    let signed = s.len() > 0 && (s[0] == '-' || s[0] == '+');
    let body = if signed { s.drop_first() } else { s };
    let v = if neg { -digits_value(body) } else { digits_value(body) };
    if body.len() > 0 && crate::text::all_digits(body) && i64::MIN <= v <= i64::MAX {
        Some(v)
    } else {
        None
    }
}

/// Reads a decimal integer as `i64::from_str` does.
pub fn parse_i64(s: &str) -> (r: Option<i64>)
    ensures
        match int_of_text(s@) {
            Some(v) => r == Some(v as i64),
            None => r is None,
        },
{
    let cs = chars_of(s);
    let n = cs.len();
    let neg = n > 0 && cs[0] == '-';
    let start: usize = if n > 0 && (cs[0] == '-' || cs[0] == '+') { 1 } else { 0 };
    let ghost body = cs@.subrange(start as int, n as int);
    proof {
        if start == 1 {
            assert(body =~= s@.drop_first());
        } else {
            assert(body =~= s@);
        }
    }
    if start == n {
        return None;
    }
    let mut acc: u64 = 0;
    let mut i: usize = start;
    while i < n
        invariant
            start <= i <= n == cs@.len(),
            cs@ == s@,
            body == cs@.subrange(start as int, n as int),
            body == (if s@.len() > 0 && (s@[0] == '-' || s@[0] == '+') { s@.drop_first() } else { s@ }),
            crate::text::all_digits(cs@.subrange(start as int, i as int)),
            acc as int == digits_value(cs@.subrange(start as int, i as int)),
            acc <= MAGNITUDE_CAP,
        decreases n - i,
    {
        let c = cs[i];
        let ghost prev = cs@.subrange(start as int, i as int);
        proof {
            assert(cs@.subrange(start as int, i + 1) =~= prev.push(c));
            lemma_digits_push(prev, c);
        }
        if c < '0' || c > '9' {
            proof {
                assert(body[i - start] == c);
                assert(!is_digit(body[i - start]));
                assert(!crate::text::all_digits(body));
            }
            return None;
        }
        let d: u64 = (c as u32 - '0' as u32) as u64;
        if acc > (MAGNITUDE_CAP - d) / 10 {
            proof {
                assert(acc * 10 + d > MAGNITUDE_CAP);
                assert(digits_value(cs@.subrange(start as int, i + 1)) > MAGNITUDE_CAP);
                if crate::text::all_digits(body) {
                    lemma_digits_prefix_bound(body, i + 1 - start);
                    assert(body.subrange(0, i + 1 - start) =~= cs@.subrange(start as int, i + 1));
                    assert(digits_value(body) > MAGNITUDE_CAP);
                }
            }
            return None;
        }
        acc = acc * 10 + d;
        i = i + 1;
    }
    proof {
        assert(cs@.subrange(start as int, n as int) =~= body);
    }
    if neg {
        if acc == MAGNITUDE_CAP {
            Some(i64::MIN)
        } else {
            Some(0 - (acc as i64))
        }
    } else {
        if acc > i64::MAX as u64 {
            None
        } else {
            Some(acc as i64)
        }
    }
}

/// A digit text is worth at least its prefixes, when all its characters
/// are digits; otherwise it is not read at all.
proof fn lemma_digits_prefix_bound(s: Seq<char>, k: int)
    requires
        0 <= k <= s.len(),
    ensures
        crate::text::all_digits(s) ==> digits_value(s.subrange(0, k)) <= digits_value(s),
    decreases s.len(),
{
    if crate::text::all_digits(s) && k < s.len() {
        let t = s.drop_last();
        assert(crate::text::all_digits(t)) by {
            assert forall|i: int| 0 <= i < t.len() implies is_digit(#[trigger] t[i]) by {
                assert(t[i] == s[i]);
            }
        }
        lemma_digits_prefix_bound(t, k);
        assert(t.subrange(0, k) =~= s.subrange(0, k));
        lemma_digits_nonneg(t);
    }
    if k == s.len() {
        assert(s.subrange(0, k) =~= s);
    }
}

/// `parseint(s)`: the integer written in decimal in `s`.
pub fn parseint(args: &Vec<Value>) -> (r: Result<Value, String>)
    ensures
        ({
            let a = vals(args@);
            if a.len() == 0 || !(a[0] is Str) {
                r is Err
            } else {
                match int_of_text(a[0]->Str_0) {
                    Some(v) => r matches Ok(x) && x@ == Val::Int(v),
                    None => r is Err,
                }
            }
        }),
{
    if args.len() == 0 {
        return Err(String::from_str("parseint() requires a string"));
    }
    match &args[0] {
        Value::String(s) => match parse_i64(s.as_str()) {
            Some(v) => Ok(Value::Number(Number::Int(v))),
            None => Err(String::from_str("Failed to parse integer")),
        },
        _ => Err(String::from_str("parseint() requires a string")),
    }
}

/// The magnitude of a number: integers saturate at `i64::MAX`, decimals lose
/// their sign.
pub open spec fn abs_of(v: Val) -> Val {
    match v {
        Val::Int(n) => Val::Int(if n < 0 { clamp_i64(-n) } else { n }),
        Val::Float(t) => Val::Float(if t.len() > 0 && t[0] == '-' { t.drop_first() } else { t }),
        _ => v,
    }
}

/// `abs(n)`: the magnitude of `n`.
pub fn abs(args: &Vec<Value>) -> (r: Result<Value, String>)
    ensures
        ({
            let a = vals(args@);
            if a.len() == 0 || !number_ok(a[0]) {
                r is Err
            } else {
                r matches Ok(x) && x@ == abs_of(a[0])
            }
        }),
{
    if args.len() == 0 {
        return Err(String::from_str("abs() requires number argument"));
    }
    match &args[0] {
        Value::Number(Number::Int(n)) => {
            let m = if *n == i64::MIN {
                i64::MAX
            } else if *n < 0 {
                -*n
            } else {
                *n
            };
            Ok(Value::Number(Number::Int(m)))
        },
        Value::Number(Number::Float(t)) => {
            if !crate::project::is_float_text(t.as_str()) {
                return Err(String::from_str("abs() requires number argument"));
            }
            let cs = chars_of(t.as_str());
            if cs.len() > 0 && cs[0] == '-' {
                let u = crate::text::substring(&cs, 1, cs.len());
                proof {
                    assert(u@ =~= t@.drop_first());
                }
                Ok(Value::Number(Number::Float(u)))
            } else {
                Ok(Value::Number(Number::Float(t.clone())))
            }
        },
        _ => Err(String::from_str("abs() requires number argument")),
    }
}

} // verus!
