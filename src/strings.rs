//! The string built-in functions.
use vstd::prelude::*;
use vstd::string::StringExecFns;
use crate::numbers::{number_arg, trunc_of};
use crate::render::{number_string, number_text, text_of, text_string};
use crate::text::{chars_of, i64_text, int_text, push_char, push_str};
use crate::value::{lemma_array_view, vals, Val, Value};

verus! {

/// Prepends `p` to a successful result.
pub open spec fn prepend(p: Seq<char>, r: Option<Seq<char>>) -> Option<Seq<char>> {
    match r {
        Some(t) => Some(p + t),
        None => None,
    }
}

/// Whether a value is a number.
pub open spec fn is_number(v: Val) -> bool {
    crate::numbers::number_ok(v)
}

/// The expansion of `f` from position `i`, the next argument being `args[k]`;
/// `None` when the format is invalid.
pub open spec fn expand_from(f: Seq<char>, args: Seq<Val>, i: int, k: int) -> Option<Seq<char>>
    decreases f.len() - i,
{
    if i < 0 || i >= f.len() {
        Some(Seq::empty())
    } else if f[i] != '%' {
        prepend(seq![f[i]], expand_from(f, args, i + 1, k))
    } else if i + 1 >= f.len() {
        None
    } else if f[i + 1] == '%' {
        prepend(seq!['%'], expand_from(f, args, i + 2, k))
    } else if k < 0 || k >= args.len() {
        None
    } else if f[i + 1] == 's' {
        prepend(text_of(args[k]), expand_from(f, args, i + 2, k + 1))
    } else if f[i + 1] == 'd' && is_number(args[k]) {
        prepend(int_text(trunc_of(args[k])), expand_from(f, args, i + 2, k + 1))
    } else if f[i + 1] == 'f' && is_number(args[k]) {
        prepend(number_text(args[k]), expand_from(f, args, i + 2, k + 1))
    } else {
        None
    }
}

/// The expansion of a format string: `%s` the text of the next argument,
/// `%d` its integer part, `%f` its decimal text, `%%` a `%`. Arguments left
/// over are ignored.
pub open spec fn expand(f: Seq<char>, args: Seq<Val>) -> Option<Seq<char>> {
    expand_from(f, args, 0, 0)
}

/// The arguments after the first.
pub open spec fn rest(args: Seq<Val>) -> Seq<Val> {
    args.subrange(1, args.len() as int)
}

/// `format(fmt, args...)`: expands `%s`, `%d`, `%f` and `%%` in `fmt`.
///
/// Fails when `fmt` is missing or not a string, on an unknown specifier or a
/// `%` at the end, when a numeric specifier meets a non-number, and when there
/// are more specifiers than arguments.
pub fn format(args: &Vec<Value>) -> (r: Result<Value, String>)
    ensures
        ({
            let a = vals(args@);
            if a.len() == 0 || !(a[0] is Str) {
                r is Err
            } else {
                match expand(a[0]->Str_0, rest(a)) {
                    Some(t) => r matches Ok(v) && v@ == Val::Str(t),
                    None => r is Err,
                }
            }
        }),
{
    let ghost a = vals(args@);
    if args.len() == 0 {
        return Err(String::from_str("format() requires at least one argument"));
    }
    let fmt = match &args[0] {
        Value::String(s) => s,
        _ => return Err(String::from_str("format() requires a string as first argument")),
    };
    let f = chars_of(fmt.as_str());
    let ghost ra = rest(a);
    let mut out = String::new();
    let mut i: usize = 0;
    let mut k: usize = 1;
    while i < f.len()
        invariant
            f@ == a[0]->Str_0,
            a == vals(args@),
            ra == rest(a),
            a.len() == args@.len(),
            1 <= k <= args@.len() + 1,
            i <= f@.len(),
            expand(f@, ra) == prepend(out@, expand_from(f@, ra, i as int, k - 1)),
        decreases f@.len() - i,
    {
        let c = f[i];
        if c != '%' {
            push_char(&mut out, c);
            i = i + 1;
            proof {
                assert(expand(f@, ra) == prepend(out@, expand_from(f@, ra, i as int, k - 1))) by {
                    let e = expand_from(f@, ra, i as int, k - 1);
                    if e is Some {
                        assert(out@.drop_last() + (seq![c] + e->Some_0) =~= out@ + e->Some_0);
                    }
                }
            }
        } else if i + 1 >= f.len() {
            return Err(String::from_str("Invalid format string: % at end of string"));
        } else {
            let spec_char = f[i + 1];
            if spec_char == '%' {
                push_char(&mut out, '%');
                i = i + 2;
                proof {
                    let e = expand_from(f@, ra, i as int, k - 1);
                    if e is Some {
                        assert(out@.drop_last() + (seq!['%'] + e->Some_0) =~= out@ + e->Some_0);
                    }
                }
            } else if k >= args.len() {
                return Err(String::from_str("Not enough arguments for format string"));
            } else {
                proof {
                    assert(ra[k - 1] == a[k as int]);
                }
                let piece = if spec_char == 's' {
                    text_string(&args[k])
                } else if spec_char == 'd' {
                    match number_arg(&args[k]) {
                        Some(n) => i64_text(n),
                        None => return Err(String::from_str("Expected number for %d format")),
                    }
                } else if spec_char == 'f' {
                    match &args[k] {
                        Value::Number(n) => {
                            if number_arg(&args[k]).is_none() {
                                return Err(String::from_str("Expected number for %f format"));
                            }
                            number_string(n)
                        },
                        _ => return Err(String::from_str("Expected number for %f format")),
                    }
                } else {
                    return Err(String::from_str("Unknown format specifier"));
                };
                let ghost before = out@;
                push_str(&mut out, piece.as_str());
                i = i + 2;
                k = k + 1;
                proof {
                    let e = expand_from(f@, ra, i as int, k - 1);
                    if e is Some {
                        assert(before + (piece@ + e->Some_0) =~= out@ + e->Some_0);
                    }
                }
            }
        }
    }
    Ok(Value::String(out))
}

/// `format("%d", x)` writes the integer part of any valid number `x`,
/// truncated toward zero (3.9 gives 3, -3.9 gives -3), never rounded.
pub proof fn lemma_format_d_truncates(x: Val)
    requires
        crate::numbers::number_ok(x),
    ensures
        expand("%d"@, seq![x]) == Some(int_text(trunc_of(x))),
        x is Float && !x->Float_0.contains('e') ==> trunc_of(x) == crate::numbers::clamp_i64(
            if x->Float_0[0] == '-' {
                -crate::text::digits_value(crate::numbers::leading_digits(x->Float_0.drop_first()))
            } else {
                crate::text::digits_value(crate::numbers::leading_digits(x->Float_0))
            },
        ),
{
    reveal_strlit("%d");
    let f = "%d"@;
    let a = seq![x];
    assert(f.len() == 2 && f[0] == '%' && f[1] == 'd');
    assert(expand_from(f, a, 2, 1) == Some(Seq::<char>::empty()));
    assert(int_text(trunc_of(x)) + Seq::<char>::empty() =~= int_text(trunc_of(x)));
    if x is Float && !x->Float_0.contains('e') {
        let t = x->Float_0;
        if t.len() > 0 && t[0] == '-' {
            assert forall|i: int| 0 <= i < t.drop_first().len() implies t.drop_first()[i] != 'e' by {
                assert(t.drop_first()[i] == t[i + 1]);
            }
        }
    }
}

/// The upper-case form of `s`, by Unicode rules.
pub uninterp spec fn upper_of(s: Seq<char>) -> Seq<char>;

/// The lower-case form of `s`, by Unicode rules.
pub uninterp spec fn lower_of(s: Seq<char>) -> Seq<char>;

/// The characters with the Unicode `White_Space` property.
pub open spec fn white_space() -> Seq<char> {
    seq!['\u{9}', '\u{a}', '\u{b}', '\u{c}', '\u{d}', '\u{20}', '\u{85}', '\u{a0}', '\u{1680}', '\u{2000}', '\u{2001}', '\u{2002}', '\u{2003}', '\u{2004}', '\u{2005}', '\u{2006}', '\u{2007}', '\u{2008}', '\u{2009}', '\u{200a}', '\u{2028}', '\u{2029}', '\u{202f}', '\u{205f}', '\u{3000}']
}

/// Relies on `str::to_uppercase`.
#[verifier::external_body]
fn to_upper(s: &str) -> (r: String)
    ensures
        r@ == upper_of(s@),
{
    s.to_uppercase()
}

/// Relies on `str::to_lowercase`.
#[verifier::external_body]
fn to_lower(s: &str) -> (r: String)
    ensures
        r@ == lower_of(s@),
{
    s.to_lowercase()
}

/// The characters with the Unicode `White_Space` property.
fn white_space_chars() -> (r: Vec<char>)
    ensures
        r@ == white_space(),
{
    let mut r: Vec<char> = Vec::new();
    r.push('\u{9}');
    r.push('\u{a}');
    r.push('\u{b}');
    r.push('\u{c}');
    r.push('\u{d}');
    r.push('\u{20}');
    r.push('\u{85}');
    r.push('\u{a0}');
    r.push('\u{1680}');
    r.push('\u{2000}');
    r.push('\u{2001}');
    r.push('\u{2002}');
    r.push('\u{2003}');
    r.push('\u{2004}');
    r.push('\u{2005}');
    r.push('\u{2006}');
    r.push('\u{2007}');
    r.push('\u{2008}');
    r.push('\u{2009}');
    r.push('\u{200a}');
    r.push('\u{2028}');
    r.push('\u{2029}');
    r.push('\u{202f}');
    r.push('\u{205f}');
    r.push('\u{3000}');
    assert(r@ =~= white_space());
    r
}

/// The string arguments at positions `i` and `i + 1`.
pub open spec fn str_pair(a: Seq<Val>) -> Option<(Seq<char>, Seq<char>)> {
    if a.len() >= 2 && a[0] is Str && a[1] is Str {
        Some((a[0]->Str_0, a[1]->Str_0))
    } else {
        None
    }
}

/// The first argument, when it is a string.
pub open spec fn first_text(a: Seq<Val>) -> Option<Seq<char>> {
    if a.len() > 0 && a[0] is Str {
        Some(a[0]->Str_0)
    } else {
        None
    }
}

fn string_arg(args: &Vec<Value>, i: usize) -> (r: Result<&String, String>)
    ensures
        i < vals(args@).len() && vals(args@)[i as int] is Str ==> (r matches Ok(t) && t@ == vals(args@)[i as int]->Str_0),
        !(i < vals(args@).len() && vals(args@)[i as int] is Str) ==> r is Err,
{
    if i >= args.len() {
        return Err(String::from_str("missing string argument"));
    }
    match &args[i] {
        Value::String(s) => Ok(s),
        _ => Err(String::from_str("expected a string argument")),
    }
}

/// `upper(s)`: `s` in upper case.
pub fn upper(args: &Vec<Value>) -> (r: Result<Value, String>)
    ensures
        match first_text(vals(args@)) {
            Some(s) => r matches Ok(v) && v@ == Val::Str(upper_of(s)),
            None => r is Err,
        },
{
    let s = string_arg(args, 0)?;
    Ok(Value::String(to_upper(s.as_str())))
}

/// `lower(s)`: `s` in lower case.
pub fn lower(args: &Vec<Value>) -> (r: Result<Value, String>)
    ensures
        match first_text(vals(args@)) {
            Some(s) => r matches Ok(v) && v@ == Val::Str(lower_of(s)),
            None => r is Err,
        },
{
    let s = string_arg(args, 0)?;
    Ok(Value::String(to_lower(s.as_str())))
}

/// `trimspace(s)`: `s` without leading and trailing Unicode white space, as
/// `str::trim` removes it.
pub fn trimspace(args: &Vec<Value>) -> (r: Result<Value, String>)
    ensures
        match first_text(vals(args@)) {
            Some(s) => r matches Ok(v) && v@ == Val::Str(trimmed(s, white_space())),
            None => r is Err,
        },
{
    let s = string_arg(args, 0)?;
    Ok(Value::String(trim_chars(s.as_str(), &white_space_chars())))
}

/// `s` without the prefix `p`, if it has it.
pub open spec fn without_prefix(s: Seq<char>, p: Seq<char>) -> Seq<char> {
    if crate::text::starts_with(s, p) {
        s.subrange(p.len() as int, s.len() as int)
    } else {
        s
    }
}

/// `s` without the suffix `p`, if it has it.
pub open spec fn without_suffix(s: Seq<char>, p: Seq<char>) -> Seq<char> {
    if crate::text::ends_with(s, p) {
        s.subrange(0, s.len() - p.len())
    } else {
        s
    }
}

/// `trimprefix(s, prefix)`: `s` without `prefix` at its start, if there.
pub fn trimprefix(args: &Vec<Value>) -> (r: Result<Value, String>)
    ensures
        match str_pair(vals(args@)) {
            Some((s, p)) => r matches Ok(v) && v@ == Val::Str(without_prefix(s, p)),
            None => r is Err,
        },
{
    let s = string_arg(args, 0)?;
    let p = string_arg(args, 1)?;
    let sc = chars_of(s.as_str());
    let pc = chars_of(p.as_str());
    if crate::text::matches_at(sc.as_slice(), pc.as_slice(), 0) {
        Ok(Value::String(crate::text::substring(&sc, pc.len(), sc.len())))
    } else {
        Ok(Value::String(s.clone()))
    }
}

/// `trimsuffix(s, suffix)`: `s` without `suffix` at its end, if there.
pub fn trimsuffix(args: &Vec<Value>) -> (r: Result<Value, String>)
    ensures
        match str_pair(vals(args@)) {
            Some((s, p)) => r matches Ok(v) && v@ == Val::Str(without_suffix(s, p)),
            None => r is Err,
        },
{
    let s = string_arg(args, 0)?;
    let p = string_arg(args, 1)?;
    let sc = chars_of(s.as_str());
    let pc = chars_of(p.as_str());
    if pc.len() <= sc.len() && crate::text::matches_at(sc.as_slice(), pc.as_slice(), sc.len() - pc.len()) {
        Ok(Value::String(crate::text::substring(&sc, 0, sc.len() - pc.len())))
    } else {
        proof {
            if pc@.len() > sc@.len() {
                assert(!crate::text::ends_with(s@, p@));
            }
        }
        Ok(Value::String(s.clone()))
    }
}

/// How many characters at the start of `s` are in `set`.
pub open spec fn lead_in(s: Seq<char>, set: Seq<char>) -> int
    decreases s.len(),
{
    if s.len() > 0 && set.contains(s[0]) {
        1 + lead_in(s.drop_first(), set)
    } else {
        0
    }
}

/// How many characters at the end of `s` are in `set`.
pub open spec fn trail_in(s: Seq<char>, set: Seq<char>) -> int
    decreases s.len(),
{
    if s.len() > 0 && set.contains(s.last()) {
        1 + trail_in(s.drop_last(), set)
    } else {
        0
    }
}

/// `s` without the characters of `set` at either end.
pub open spec fn trimmed(s: Seq<char>, set: Seq<char>) -> Seq<char> {
    let l = lead_in(s, set);
    if l >= s.len() {
        Seq::empty()
    } else {
        s.subrange(l, s.len() - trail_in(s, set))
    }
}

fn in_set(set: &Vec<char>, c: char) -> (r: bool)
    ensures
        r == set@.contains(c),
{
    let mut i: usize = 0;
    while i < set.len()
        invariant
            i <= set@.len(),
            forall|j: int| 0 <= j < i ==> set@[j] != c,
        decreases set@.len() - i,
    {
        if set[i] == c {
            assert(set@[i as int] == c);
            return true;
        }
        i = i + 1;
    }
    false
}

proof fn lemma_lead_in(s: Seq<char>, set: Seq<char>, i: int)
    requires
        0 <= i <= s.len(),
        forall|j: int| 0 <= j < i ==> set.contains(#[trigger] s[j]),
    ensures
        lead_in(s, set) == i + lead_in(s.subrange(i, s.len() as int), set),
    decreases i,
{
    if i > 0 {
        lemma_lead_in(s.drop_first(), set, i - 1);
        assert(s.drop_first().subrange(i - 1, s.len() - 1) =~= s.subrange(i, s.len() as int));
    } else {
        assert(s.subrange(0, s.len() as int) =~= s);
    }
}

proof fn lemma_trail_in(s: Seq<char>, set: Seq<char>, k: int)
    requires
        0 <= k <= s.len(),
        forall|j: int| s.len() - k <= j < s.len() ==> set.contains(#[trigger] s[j]),
    ensures
        trail_in(s, set) == k + trail_in(s.subrange(0, s.len() - k), set),
    decreases k,
{
    if k > 0 {
        lemma_trail_in(s.drop_last(), set, k - 1);
        assert(s.drop_last().subrange(0, s.len() - 1 - (k - 1)) =~= s.subrange(0, s.len() - k));
    } else {
        assert(s.subrange(0, s.len() as int) =~= s);
    }
}

proof fn lemma_trail_bound(s: Seq<char>, set: Seq<char>)
    ensures
        0 <= trail_in(s, set) <= s.len(),
    decreases s.len(),
{
    if s.len() > 0 {
        lemma_trail_bound(s.drop_last(), set);
    }
}

/// `trim(s, cutset)`: `s` without the characters of `cutset` at either end.
pub fn trim(args: &Vec<Value>) -> (r: Result<Value, String>)
    ensures
        match str_pair(vals(args@)) {
            Some((s, set)) => r matches Ok(v) && v@ == Val::Str(trimmed(s, set)),
            None => r is Err,
        },
{
    let s = string_arg(args, 0)?;
    let set = string_arg(args, 1)?;
    let cut = chars_of(set.as_str());
    Ok(Value::String(trim_chars(s.as_str(), &cut)))
}

/// `s` without the characters of `cut` at either end.
fn trim_chars(s: &str, cut: &Vec<char>) -> (r: String)
    ensures
        r@ == trimmed(s@, cut@),
{
    let sc = chars_of(s);
    let n = sc.len();
    let mut l: usize = 0;
    while l < n && in_set(&cut, sc[l])
        invariant
            l <= n == sc@.len(),
            forall|j: int| 0 <= j < l ==> cut@.contains(#[trigger] sc@[j]),
        decreases n - l,
    {
        l = l + 1;
    }
    proof {
        lemma_lead_in(sc@, cut@, l as int);
        let rest = sc@.subrange(l as int, n as int);
        if l < n {
            assert(rest[0] == sc@[l as int]);
        }
    }
    if l == n {
        return String::new();
    }
    let mut e: usize = n;
    while e > l && in_set(&cut, sc[e - 1])
        invariant
            l < n == sc@.len(),
            l <= e <= n,
            forall|j: int| e <= j < n ==> cut@.contains(#[trigger] sc@[j]),
        decreases e,
    {
        e = e - 1;
    }
    proof {
        lemma_trail_in(sc@, cut@, n - e);
        let front = sc@.subrange(0, e as int);
        if e > l {
            assert(front.last() == sc@[e - 1]);
        } else {
            assert(cut@.contains(sc@[l as int]));
            assert(false);
        }
        lemma_trail_bound(sc@, cut@);
    }
    crate::text::substring(&sc, l, e)
}

/// All arguments are strings; their concatenation.
pub open spec fn concat_all(a: Seq<Val>) -> Option<Seq<char>>
    decreases a.len(),
{
    if a.len() == 0 {
        Some(Seq::empty())
    } else {
        match (concat_all(a.drop_last()), a.last()) {
            (Some(p), Val::Str(s)) => Some(p + s),
            _ => None,
        }
    }
}

/// `concat(strings...)`: the strings one after another.
pub fn concat(args: &Vec<Value>) -> (r: Result<Value, String>)
    ensures
        match concat_all(vals(args@)) {
            Some(t) => r matches Ok(v) && v@ == Val::Str(t),
            None => r is Err,
        },
{
    let ghost a = vals(args@);
    let mut out = String::new();
    let mut i: usize = 0;
    proof {
        assert(a.subrange(0, 0) =~= Seq::<Val>::empty());
    }
    while i < args.len()
        invariant
            i <= args@.len(),
            a == vals(args@),
            concat_all(a.subrange(0, i as int)) == Some(out@),
        decreases args@.len() - i,
    {
        proof {
            assert(a.subrange(0, i + 1).drop_last() =~= a.subrange(0, i as int));
        }
        match &args[i] {
            Value::String(s) => push_str(&mut out, s.as_str()),
            _ => {
                proof {
                    lemma_concat_none(a, i as int);
                }
                return Err(String::from_str("concat() requires string arguments"));
            },
        }
        i = i + 1;
    }
    proof {
        assert(a.subrange(0, args@.len() as int) =~= a);
    }
    Ok(Value::String(out))
}

proof fn lemma_concat_none(a: Seq<Val>, i: int)
    requires
        0 <= i < a.len(),
        !(a[i] is Str),
    ensures
        concat_all(a) is None,
    decreases a.len(),
{
    if i < a.len() - 1 {
        assert(a.drop_last()[i] == a[i]);
        lemma_concat_none(a.drop_last(), i);
    }
}

/// `join(array, separator)`: the texts of the items with `separator` between
/// neighbours.
pub fn join(args: &Vec<Value>) -> (r: Result<Value, String>)
    ensures
        ({
            let a = vals(args@);
            if a.len() >= 2 && a[0] is Array && a[1] is Str {
                r matches Ok(v) && v@ == Val::Str(
                    crate::render::join_with(
                        Seq::new(a[0]->Array_0.len(), |i: int| text_of(a[0]->Array_0[i])),
                        a[1]->Str_0,
                    ),
                )
            } else {
                r is Err
            }
        }),
{
    if args.len() < 2 {
        return Err(String::from_str("join() requires array and separator string arguments"));
    }
    match (&args[0], &args[1]) {
        (Value::Array(items), Value::String(sep)) => {
            proof {
                lemma_array_view(*items);
            }
            let mut parts: Vec<String> = Vec::new();
            let mut i: usize = 0;
            while i < items.len()
                invariant
                    i <= items@.len(),
                    parts@.len() == i,
                    forall|j: int| 0 <= j < i ==> #[trigger] parts@[j]@ == text_of(items@[j]@),
                decreases items@.len() - i,
            {
                parts.push(text_string(&items[i]));
                i = i + 1;
            }
            let out = crate::render::join_strings(&parts, sep.as_str());
            proof {
                let av = vals(items@);
                assert(Seq::new(parts@.len(), |i: int| parts@[i]@) =~= Seq::new(av.len(), |i: int| text_of(av[i])));
            }
            Ok(Value::String(out))
        },
        _ => Err(String::from_str("join() requires array and separator string arguments")),
    }
}

/// `tostring(v)`: the text of `v`.
pub fn tostring(args: &Vec<Value>) -> (r: Result<Value, String>)
    ensures
        vals(args@).len() == 0 ==> r is Err,
        vals(args@).len() > 0 ==> (r matches Ok(v) && v@ == Val::Str(text_of(vals(args@)[0]))),
{
    if args.len() == 0 {
        return Err(String::from_str("tostring() requires an argument"));
    }
    Ok(Value::String(text_string(&args[0])))
}

/// The first position at or after `k` where `d` occurs in `s`, or -1.
pub open spec fn occurrence_from(s: Seq<char>, d: Seq<char>, k: int) -> int
    decreases s.len() + 1 - k,
{
    if k < 0 || k > s.len() {
        -1
    } else if crate::text::occurs_at(s, d, k) {
        k
    } else {
        occurrence_from(s, d, k + 1)
    }
}

/// The pieces of `s` from position `k` between the leftmost non-overlapping
/// occurrences of the non-empty `d`.
pub open spec fn pieces_from(s: Seq<char>, d: Seq<char>, k: int) -> Seq<Seq<char>>
    decreases s.len() + 1 - k,
{
    if d.len() == 0 || k < 0 || k > s.len() {
        Seq::empty()
    } else {
        let i = occurrence_from(s, d, k);
        if i < k || i + d.len() > s.len() {
            seq![s.subrange(k, s.len() as int)]
        } else {
            seq![s.subrange(k, i)] + pieces_from(s, d, i + d.len())
        }
    }
}

/// `s` split at `d`: between the occurrences of a non-empty `d`, or around
/// every character (with an empty piece at each end) for an empty `d`.
pub open spec fn split_text(s: Seq<char>, d: Seq<char>) -> Seq<Seq<char>> {
    if d.len() == 0 {
        seq![Seq::empty()] + Seq::new(s.len(), |i: int| seq![s[i]]) + seq![Seq::empty()]
    } else {
        pieces_from(s, d, 0)
    }
}

proof fn lemma_occurrence_from(s: Seq<char>, d: Seq<char>, k: int, i: int)
    requires
        0 <= k <= i <= s.len(),
        crate::text::occurs_at(s, d, i),
        forall|j: int| k <= j < i ==> !crate::text::occurs_at(s, d, j),
    ensures
        occurrence_from(s, d, k) == i,
    decreases i - k,
{
    if k < i {
        lemma_occurrence_from(s, d, k + 1, i);
    }
}

proof fn lemma_no_occurrence_from(s: Seq<char>, d: Seq<char>, k: int)
    requires
        0 <= k,
        forall|j: int| k <= j <= s.len() ==> !crate::text::occurs_at(s, d, j),
    ensures
        occurrence_from(s, d, k) == -1,
    decreases s.len() + 1 - k,
{
    if k <= s.len() {
        lemma_no_occurrence_from(s, d, k + 1);
    }
}

proof fn lemma_occurrence_bounds(s: Seq<char>, d: Seq<char>, k: int)
    requires
        0 <= k,
    ensures
        occurrence_from(s, d, k) == -1 || (k <= occurrence_from(s, d, k) && crate::text::occurs_at(
            s,
            d,
            occurrence_from(s, d, k),
        )),
    decreases s.len() + 1 - k,
{
    if k <= s.len() && !crate::text::occurs_at(s, d, k) {
        lemma_occurrence_bounds(s, d, k + 1);
    }
}

fn text_value(t: String) -> (r: Value)
    ensures
        r@ == Val::Str(t@),
{
    Value::String(t)
}

/// `split(s, separator)`: the pieces of `s` between the occurrences of
/// `separator`.
pub fn split(args: &Vec<Value>) -> (r: Result<Value, String>)
    ensures
        match str_pair(vals(args@)) {
            Some((s, d)) => r matches Ok(v) && v@ == Val::Array(
                Seq::new(split_text(s, d).len(), |i: int| Val::Str(split_text(s, d)[i])),
            ),
            None => r is Err,
        },
{
    let s = string_arg(args, 0)?;
    let d = string_arg(args, 1)?;
    let sc = chars_of(s.as_str());
    let dc = chars_of(d.as_str());
    let n = sc.len();
    let mut out: Vec<Value> = Vec::new();
    let ghost want = split_text(s@, d@);
    if dc.len() == 0 {
        out.push(text_value(String::new()));
        let mut i: usize = 0;
        while i < n
            invariant
                i <= n == sc@.len(),
                sc@ == s@,
                want == split_text(s@, d@),
                d@.len() == 0,
                out@.len() == i + 1,
                forall|j: int| 0 <= j <= i ==> #[trigger] out@[j]@ == Val::Str(want[j]),
            decreases n - i,
        {
            let mut piece = String::new();
            crate::text::push_char(&mut piece, sc[i]);
            out.push(text_value(piece));
            proof {
                assert(piece@ =~= seq![s@[i as int]]);
                assert(want[i + 1] == seq![s@[i as int]]);
            }
            i = i + 1;
        }
        out.push(text_value(String::new()));
        proof {
            lemma_array_view(out);
            assert(vals(out@) =~= Seq::new(want.len(), |i: int| Val::Str(want[i])));
        }
        return Ok(Value::Array(out));
    }
    let mut k: usize = 0;
    let ghost done: Seq<Seq<char>> = Seq::empty();
    loop
        invariant
            k <= n == sc@.len(),
            sc@ == s@,
            dc@ == d@,
            str_pair(vals(args@)) == Some((s@, d@)),
            d@.len() > 0,
            want == split_text(s@, d@),
            want == done + pieces_from(s@, d@, k as int),
            out@.len() == done.len(),
            forall|j: int| 0 <= j < done.len() ==> #[trigger] out@[j]@ == Val::Str(done[j]),
        decreases n - k,
    {
        proof {
            lemma_occurrence_bounds(s@, d@, k as int);
        }
        match crate::text::find_from(sc.as_slice(), dc.as_slice(), k) {
            Some(i) => {
                proof {
                    lemma_occurrence_from(s@, d@, k as int, i as int);
                }
                let piece = crate::text::substring(&sc, k, i);
                out.push(text_value(piece));
                proof {
                    done = done.push(s@.subrange(k as int, i as int));
                    assert(want =~= done + pieces_from(s@, d@, i + d@.len()));
                }
                k = i + dc.len();
            },
            None => {
                proof {
                    lemma_no_occurrence_from(s@, d@, k as int);
                }
                let piece = crate::text::substring(&sc, k, n);
                out.push(text_value(piece));
                proof {
                    done = done.push(s@.subrange(k as int, n as int));
                    assert(want =~= done);
                    lemma_array_view(out);
                    assert(vals(out@) =~= Seq::new(want.len(), |i: int| Val::Str(want[i])));
                }
                return Ok(Value::Array(out));
            },
        }
    }
}

} // verus!
