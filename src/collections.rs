//! The collection built-in functions.
use vstd::prelude::*;
use vstd::string::StringExecFns;
use crate::numbers::{number_arg, number_ok, trunc_of};
use crate::value::{
    copy_values, entries, extend, extend_entries, has_key, lemma_array_view, lemma_extend, lemma_extend_takes_later,
    lemma_index_of, lemma_object_view, lookup, unique_keys, vals, Entry, Number, Val, Value,
};

verus! {

/// The name of a value's type.
pub open spec fn kind_name(v: Val) -> Seq<char> {
    match v {
        Val::Null => "null"@,
        Val::Bool(_) => "boolean"@,
        Val::Int(_) | Val::Float(_) => "number"@,
        Val::Str(_) => "string"@,
        Val::Array(_) => "array"@,
        Val::Object(_) => "object"@,
    }
}

/// `type_of(v)`: the name of the type of `v`.
pub fn type_of(args: &Vec<Value>) -> (r: Result<Value, String>)
    ensures
        vals(args@).len() == 0 ==> r is Err,
        vals(args@).len() > 0 ==> (r matches Ok(v) && v@ == Val::Str(kind_name(vals(args@)[0]))),
{
    if args.len() == 0 {
        return Err(String::from_str("type_of() requires an argument"));
    }
    let name = match &args[0] {
        Value::Null => "null",
        Value::Bool(_) => "boolean",
        Value::Number(_) => "number",
        Value::String(_) => "string",
        Value::Array(_) => "array",
        Value::Object(_) => "object",
    };
    Ok(Value::String(String::from_str(name)))
}

/// `tovec(args...)` (also `list` and `tuple`): the arguments as an array.
pub fn tovec(args: &Vec<Value>) -> (r: Result<Value, String>)
    ensures
        r matches Ok(v) && v@ == Val::Array(vals(args@)),
{
    let items = copy_values(args);
    proof {
        lemma_array_view(items);
    }
    Ok(Value::Array(items))
}

/// The entries of all the objects merged in order, later keys winning; `None`
/// when one of them is not an object.
pub open spec fn merge_all(a: Seq<Val>) -> Option<Seq<Entry>>
    decreases a.len(),
{
    if a.len() == 0 {
        Some(Seq::empty())
    } else {
        match (merge_all(a.drop_last()), a.last()) {
            (Some(m), Val::Object(o)) => Some(extend(m, o)),
            _ => None,
        }
    }
}

/// `merge(objects...)`: one object holding the entries of all, later
/// arguments overwriting the values of earlier ones; keys keep the place of
/// their first appearance.
pub fn merge(args: &Vec<Value>) -> (r: Result<Value, String>)
    ensures
        match merge_all(vals(args@)) {
            Some(m) => r matches Ok(v) && v@ == Val::Object(m),
            None => r is Err,
        },
{
    let ghost a = vals(args@);
    let mut out: Vec<(String, Value)> = Vec::new();
    let mut i: usize = 0;
    proof {
        assert(a.subrange(0, 0) =~= Seq::<Val>::empty());
        assert(entries(out@) =~= Seq::<Entry>::empty());
    }
    while i < args.len()
        invariant
            i <= args@.len(),
            a == vals(args@),
            merge_all(a.subrange(0, i as int)) == Some(entries(out@)),
        decreases args@.len() - i,
    {
        proof {
            assert(a.subrange(0, i + 1).drop_last() =~= a.subrange(0, i as int));
        }
        match &args[i] {
            Value::Object(o) => {
                proof {
                    lemma_object_view(*o);
                }
                extend_entries(&mut out, o);
            },
            _ => {
                proof {
                    lemma_merge_none(a, i as int);
                }
                return Err(String::from_str("merge() requires map arguments"));
            },
        }
        i = i + 1;
    }
    proof {
        assert(a.subrange(0, args@.len() as int) =~= a);
        lemma_object_view(out);
    }
    Ok(Value::Object(out))
}

proof fn lemma_merge_none(a: Seq<Val>, i: int)
    requires
        0 <= i < a.len(),
        !(a[i] is Object),
    ensures
        merge_all(a) is None,
    decreases a.len(),
{
    if i < a.len() - 1 {
        assert(a.drop_last()[i] == a[i]);
        lemma_merge_none(a.drop_last(), i);
    }
}

/// In `merge(x, y)` the later object wins: a key of `y` takes its value from
/// `y`, any other key of `x` keeps its value from `x`, and no key repeats.
pub proof fn lemma_merge_later_wins(x: Seq<Entry>, y: Seq<Entry>)
    requires
        unique_keys(x),
        unique_keys(y),
    ensures
        merge_all(seq![Val::Object(x), Val::Object(y)]) matches Some(m) && unique_keys(m)
            && (forall|k: Seq<char>| has_key(y, k) ==> lookup(m, k) == lookup(y, k))
            && (forall|k: Seq<char>| !has_key(y, k) ==> lookup(m, k) == lookup(x, k))
            && (forall|k: Seq<char>| has_key(m, k) <==> has_key(x, k) || has_key(y, k)),
{
    let s = seq![Val::Object(x), Val::Object(y)];
    assert(s.drop_last() =~= seq![Val::Object(x)]);
    assert(seq![Val::Object(x)].drop_last() =~= Seq::<Val>::empty());
    let e = Seq::<Entry>::empty();
    assert(unique_keys(e));
    assert(merge_all(Seq::<Val>::empty()) == Some(e));
    assert(merge_all(seq![Val::Object(x)]) == Some(extend(e, x)));
    assert(merge_all(s) == Some(extend(extend(e, x), y)));
    assert(forall|k: Seq<char>| !has_key(e, k));
    lemma_extend_takes_later(e, x);
    lemma_extend(e, x);
    lemma_extend_takes_later(extend(e, x), y);
    lemma_extend(extend(e, x), y);
    assert forall|k: Seq<char>| !has_key(y, k) implies lookup(extend(extend(e, x), y), k) == lookup(x, k) by {
        if !has_key(x, k) {
            lemma_index_of(x, k);
            lemma_index_of(extend(e, x), k);
        }
    }
}

/// Every item is an object without repeated keys.
pub open spec fn all_objects(a: Seq<Val>) -> bool {
    forall|i: int| 0 <= i < a.len() ==> #[trigger] a[i] is Object && unique_keys(a[i]->Object_0)
}

/// The position of the last object of `a` that holds key `k`, or -1.
pub open spec fn last_holder(a: Seq<Val>, k: Seq<char>) -> int
    decreases a.len(),
{
    if a.len() == 0 {
        -1
    } else if a.last() is Object && has_key(a.last()->Object_0, k) {
        a.len() - 1
    } else {
        last_holder(a.drop_last(), k)
    }
}

/// In `merge(objects...)` the last object holding a key gives its value: the
/// result holds exactly the keys of the arguments, each once, with the value
/// of the last argument that has it.
pub proof fn lemma_merge_last_wins(a: Seq<Val>)
    requires
        all_objects(a),
    ensures
        merge_all(a) matches Some(m) && unique_keys(m)
            && (forall|k: Seq<char>| has_key(m, k) <==> last_holder(a, k) >= 0)
            && (forall|k: Seq<char>| last_holder(a, k) >= 0 ==> 0 <= last_holder(a, k) < a.len()
                && lookup(m, k) == lookup(a[last_holder(a, k)]->Object_0, k)),
    decreases a.len(),
{
    if a.len() == 0 {
        assert(unique_keys(Seq::<Entry>::empty()));
    } else {
        let p = a.drop_last();
        assert forall|i: int| 0 <= i < p.len() implies #[trigger] p[i] is Object && unique_keys(p[i]->Object_0) by {
            assert(p[i] == a[i]);
        }
        lemma_merge_last_wins(p);
        let m0 = merge_all(p)->Some_0;
        assert(a[a.len() - 1] is Object);
        let o = a.last()->Object_0;
        lemma_extend(m0, o);
        lemma_extend_takes_later(m0, o);
        assert forall|k: Seq<char>| last_holder(a, k) >= 0 implies 0 <= last_holder(a, k) < a.len() && lookup(
            extend(m0, o),
            k,
        ) == lookup(a[last_holder(a, k)]->Object_0, k) by {
            if !has_key(o, k) {
                assert(a[last_holder(p, k)] == p[last_holder(p, k)]);
            }
        }
    }
}

/// The integers `start, start + 1, ..., end - 1`.
pub open spec fn int_range(start: int, end: int) -> Seq<Val> {
    if end <= start {
        Seq::empty()
    } else {
        Seq::new((end - start) as nat, |i: int| Val::Int(start + i))
    }
}

/// `range(start, end)`: the integers from `start` up to but excluding `end`;
/// fractional bounds are truncated toward zero.
pub fn range(args: &Vec<Value>) -> (r: Result<Value, String>)
    ensures
        ({
            let a = vals(args@);
            if a.len() < 2 || !number_ok(a[0]) || !number_ok(a[1]) {
                r is Err
            } else {
                r matches Ok(v) && v@ == Val::Array(int_range(trunc_of(a[0]), trunc_of(a[1])))
            }
        }),
{
    if args.len() < 2 {
        return Err(String::from_str("range() requires a start and an end"));
    }
    let start = match number_arg(&args[0]) {
        Some(n) => n,
        None => return Err(String::from_str("range() requires numeric bounds")),
    };
    let end = match number_arg(&args[1]) {
        Some(n) => n,
        None => return Err(String::from_str("range() requires numeric bounds")),
    };
    let mut out: Vec<Value> = Vec::new();
    let mut n = start;
    while n < end
        invariant
            start <= n <= end || (end <= start && n == start),
            out@.len() == n - start,
            forall|j: int| 0 <= j < out@.len() ==> #[trigger] out@[j]@ == Val::Int(start + j),
        decreases end - n,
    {
        out.push(Value::Number(Number::Int(n)));
        n = n + 1;
    }
    proof {
        lemma_array_view(out);
        assert(vals(out@) =~= int_range(start as int, end as int));
    }
    Ok(Value::Array(out))
}

/// The items in reverse order.
pub open spec fn reversed<A>(a: Seq<A>) -> Seq<A> {
    Seq::new(a.len(), |i: int| a[a.len() - 1 - i])
}

/// `reverse(v)`: an array's items, or a string's characters, in reverse order.
pub fn reverse(args: &Vec<Value>) -> (r: Result<Value, String>)
    ensures
        ({
            let a = vals(args@);
            if a.len() > 0 && a[0] is Array {
                r matches Ok(v) && v@ == Val::Array(reversed(a[0]->Array_0))
            } else if a.len() > 0 && a[0] is Str {
                r matches Ok(v) && v@ == Val::Str(reversed(a[0]->Str_0))
            } else {
                r is Err
            }
        }),
{
    if args.len() == 0 {
        return Err(String::from_str("reverse() requires array or string argument"));
    }
    match &args[0] {
        Value::Array(items) => {
            proof {
                lemma_array_view(*items);
            }
            let mut out: Vec<Value> = Vec::new();
            let mut i: usize = items.len();
            while i > 0
                invariant
                    i <= items@.len(),
                    out@.len() == items@.len() - i,
                    forall|j: int| 0 <= j < out@.len() ==> #[trigger] out@[j]@ == items@[items@.len() - 1 - j]@,
                decreases i,
            {
                out.push(items[i - 1].copy());
                i = i - 1;
            }
            proof {
                lemma_array_view(out);
                assert(vals(out@) =~= reversed(vals(items@)));
            }
            Ok(Value::Array(out))
        },
        Value::String(s) => {
            let cs = crate::text::chars_of(s.as_str());
            let mut out = String::new();
            let mut i: usize = cs.len();
            while i > 0
                invariant
                    i <= cs@.len(),
                    out@.len() == cs@.len() - i,
                    forall|j: int| 0 <= j < out@.len() ==> #[trigger] out@[j] == cs@[cs@.len() - 1 - j],
                decreases i,
            {
                crate::text::push_char(&mut out, cs[i - 1]);
                i = i - 1;
            }
            proof {
                assert(out@ =~= reversed(s@));
            }
            Ok(Value::String(out))
        },
        _ => Err(String::from_str("reverse() requires array or string argument")),
    }
}

/// The items without repeats, each kept where it first appears.
pub open spec fn dedup(a: Seq<Val>) -> Seq<Val>
    decreases a.len(),
{
    if a.len() == 0 {
        Seq::empty()
    } else if dedup(a.drop_last()).contains(a.last()) {
        dedup(a.drop_last())
    } else {
        dedup(a.drop_last()).push(a.last())
    }
}

/// Whether `items` holds a value equal to `x`.
pub fn holds(items: &Vec<Value>, x: &Value) -> (r: bool)
    ensures
        r == vals(items@).contains(x@),
{
    let mut i: usize = 0;
    while i < items.len()
        invariant
            i <= items@.len(),
            forall|j: int| 0 <= j < i ==> items@[j]@ != x@,
        decreases items@.len() - i,
    {
        if items[i].same(x) {
            assert(vals(items@)[i as int] == x@);
            return true;
        }
        i = i + 1;
    }
    false
}

/// `unique(array)` (also `toset`): the items without repeats, in order of
/// first appearance.
pub fn unique(args: &Vec<Value>) -> (r: Result<Value, String>)
    ensures
        ({
            let a = vals(args@);
            if a.len() > 0 && a[0] is Array {
                r matches Ok(v) && v@ == Val::Array(dedup(a[0]->Array_0))
            } else {
                r is Err
            }
        }),
{
    if args.len() == 0 {
        return Err(String::from_str("unique() requires array argument"));
    }
    match &args[0] {
        Value::Array(items) => {
            proof {
                lemma_array_view(*items);
            }
            let ghost a = vals(items@);
            let mut out: Vec<Value> = Vec::new();
            let mut i: usize = 0;
            proof {
                assert(vals(out@) =~= dedup(a.subrange(0, 0)));
            }
            while i < items.len()
                invariant
                    i <= items@.len(),
                    a == vals(items@),
                    vals(out@) == dedup(a.subrange(0, i as int)),
                decreases items@.len() - i,
            {
                proof {
                    assert(a.subrange(0, i + 1).drop_last() =~= a.subrange(0, i as int));
                }
                if !holds(&out, &items[i]) {
                    let ghost before = out@;
                    out.push(items[i].copy());
                    proof {
                        assert(vals(out@) =~= vals(before).push(a[i as int]));
                    }
                }
                i = i + 1;
            }
            proof {
                assert(a.subrange(0, items@.len() as int) =~= a);
                lemma_array_view(out);
            }
            Ok(Value::Array(out))
        },
        _ => Err(String::from_str("unique() requires array argument")),
    }
}

/// Bytes taken by one character in UTF-8.
pub open spec fn utf8_width(c: char) -> int {
    if (c as u32) < 0x80 {
        1
    } else if (c as u32) < 0x800 {
        2
    } else if (c as u32) < 0x10000 {
        3
    } else {
        4
    }
}

/// Bytes taken by a string in UTF-8.
pub open spec fn utf8_size(s: Seq<char>) -> int
    decreases s.len(),
{
    if s.len() == 0 {
        0
    } else {
        utf8_size(s.drop_last()) + utf8_width(s.last())
    }
}

/// Bytes taken by `s` in UTF-8.
pub fn utf8_len(s: &str) -> (r: u128)
    ensures
        r as int == utf8_size(s@),
{
    let cs = crate::text::chars_of(s);
    let mut total: u128 = 0;
    let mut i: usize = 0;
    while i < cs.len()
        invariant
            i <= cs@.len(),
            cs@ == s@,
            total as int == utf8_size(cs@.subrange(0, i as int)),
            total <= 4 * i,
        decreases cs@.len() - i,
    {
        proof {
            assert(cs@.subrange(0, i + 1).drop_last() =~= cs@.subrange(0, i as int));
        }
        let c = cs[i] as u32;
        let w: u128 = if c < 0x80 { 1 } else if c < 0x800 { 2 } else if c < 0x10000 { 3 } else { 4 };
        total = total + w;
        i = i + 1;
    }
    proof {
        assert(cs@.subrange(0, cs@.len() as int) =~= cs@);
    }
    total
}

/// The size of a value: items of an array, entries of an object, bytes of a
/// string's UTF-8 encoding.
pub open spec fn size_of(v: Val) -> Option<int> {
    match v {
        Val::Array(a) => Some(a.len() as int),
        Val::Object(o) => Some(o.len() as int),
        Val::Str(s) => Some(utf8_size(s)),
        _ => None,
    }
}

/// `length(v)`: the number of items of an array, entries of an object, or
/// bytes of a string.
pub fn length(args: &Vec<Value>) -> (r: Result<Value, String>)
    ensures
        ({
            let a = vals(args@);
            if a.len() == 0 || size_of(a[0]) is None {
                r is Err
            } else {
                (size_of(a[0])->Some_0 <= i64::MAX ==> (r matches Ok(v) && v@ == Val::Int(size_of(a[0])->Some_0)))
                    && (size_of(a[0])->Some_0 > i64::MAX ==> r is Err)
            }
        }),
{
    if args.len() == 0 {
        return Err(String::from_str("length() requires array, string or map argument"));
    }
    let n: u128 = match &args[0] {
        Value::Array(items) => {
            proof {
                lemma_array_view(*items);
            }
            items.len() as u128
        },
        Value::Object(o) => {
            proof {
                lemma_object_view(*o);
            }
            o.len() as u128
        },
        Value::String(t) => utf8_len(t.as_str()),
        _ => return Err(String::from_str("length() requires array, string or map argument")),
    };
    if n > 9223372036854775807 {
        return Err(String::from_str("length() result is too large"));
    }
    Ok(Value::Number(Number::Int(n as i64)))
}

/// The items that are not null, in order.
pub open spec fn non_null(a: Seq<Val>) -> Seq<Val>
    decreases a.len(),
{
    if a.len() == 0 {
        Seq::empty()
    } else if a.last() is Null {
        non_null(a.drop_last())
    } else {
        non_null(a.drop_last()).push(a.last())
    }
}

/// The entries whose value is not null, in order.
pub open spec fn non_null_entries(o: Seq<Entry>) -> Seq<Entry>
    decreases o.len(),
{
    if o.len() == 0 {
        Seq::empty()
    } else if o.last().1 is Null {
        non_null_entries(o.drop_last())
    } else {
        non_null_entries(o.drop_last()).push(o.last())
    }
}

/// `compact(collection)`: an object without its null-valued entries, or an
/// array without its null items.
pub fn compact(args: &Vec<Value>) -> (r: Result<Value, String>)
    ensures
        ({
            let a = vals(args@);
            if a.len() > 0 && a[0] is Object {
                r matches Ok(v) && v@ == Val::Object(non_null_entries(a[0]->Object_0))
            } else if a.len() > 0 && a[0] is Array {
                r matches Ok(v) && v@ == Val::Array(non_null(a[0]->Array_0))
            } else {
                r is Err
            }
        }),
{
    if args.len() == 0 {
        return Err(String::from_str("compact() requires an object or array argument"));
    }
    match &args[0] {
        Value::Array(items) => {
            proof {
                lemma_array_view(*items);
            }
            let ghost a = vals(items@);
            let mut out: Vec<Value> = Vec::new();
            let mut i: usize = 0;
            proof {
                assert(vals(out@) =~= non_null(a.subrange(0, 0)));
            }
            while i < items.len()
                invariant
                    i <= items@.len(),
                    a == vals(items@),
                    vals(out@) == non_null(a.subrange(0, i as int)),
                decreases items@.len() - i,
            {
                proof {
                    assert(a.subrange(0, i + 1).drop_last() =~= a.subrange(0, i as int));
                }
                match &items[i] {
                    Value::Null => {},
                    v => {
                        let ghost before = out@;
                        out.push(v.copy());
                        proof {
                            assert(vals(out@) =~= vals(before).push(a[i as int]));
                        }
                    },
                }
                i = i + 1;
            }
            proof {
                assert(a.subrange(0, items@.len() as int) =~= a);
                lemma_array_view(out);
            }
            Ok(Value::Array(out))
        },
        Value::Object(o) => {
            proof {
                lemma_object_view(*o);
            }
            let ghost e = entries(o@);
            let mut out: Vec<(String, Value)> = Vec::new();
            let mut i: usize = 0;
            proof {
                assert(entries(out@) =~= non_null_entries(e.subrange(0, 0)));
            }
            while i < o.len()
                invariant
                    i <= o@.len(),
                    e == entries(o@),
                    entries(out@) == non_null_entries(e.subrange(0, i as int)),
                decreases o@.len() - i,
            {
                proof {
                    assert(e.subrange(0, i + 1).drop_last() =~= e.subrange(0, i as int));
                }
                match &o[i].1 {
                    Value::Null => {},
                    v => {
                        let ghost before = out@;
                        out.push((o[i].0.clone(), v.copy()));
                        proof {
                            assert(entries(out@) =~= entries(before).push(e[i as int]));
                        }
                    },
                }
                i = i + 1;
            }
            proof {
                assert(e.subrange(0, o@.len() as int) =~= e);
                lemma_object_view(out);
            }
            Ok(Value::Object(out))
        },
        _ => Err(String::from_str("compact() requires an object or array argument")),
    }
}

/// `keys(object)`: the keys, in order, as strings.
pub fn keys(args: &Vec<Value>) -> (r: Result<Value, String>)
    ensures
        ({
            let a = vals(args@);
            if a.len() > 0 && a[0] is Object {
                r matches Ok(v) && v@ == Val::Array(
                    Seq::new(a[0]->Object_0.len(), |i: int| Val::Str(a[0]->Object_0[i].0)),
                )
            } else {
                r is Err
            }
        }),
{
    if args.len() == 0 {
        return Err(String::from_str("keys() requires map argument"));
    }
    match &args[0] {
        Value::Object(o) => {
            proof {
                lemma_object_view(*o);
            }
            let mut out: Vec<Value> = Vec::new();
            let mut i: usize = 0;
            while i < o.len()
                invariant
                    i <= o@.len(),
                    out@.len() == i,
                    forall|j: int| 0 <= j < i ==> #[trigger] out@[j]@ == Val::Str(o@[j].0@),
                decreases o@.len() - i,
            {
                out.push(Value::String(o[i].0.clone()));
                i = i + 1;
            }
            proof {
                lemma_array_view(out);
                let e = entries(o@);
                assert(vals(out@) =~= Seq::new(e.len(), |i: int| Val::Str(e[i].0)));
            }
            Ok(Value::Array(out))
        },
        _ => Err(String::from_str("keys() requires map argument")),
    }
}

/// `values(object)`: the values, in order.
pub fn values(args: &Vec<Value>) -> (r: Result<Value, String>)
    ensures
        ({
            let a = vals(args@);
            if a.len() > 0 && a[0] is Object {
                r matches Ok(v) && v@ == Val::Array(
                    Seq::new(a[0]->Object_0.len(), |i: int| a[0]->Object_0[i].1),
                )
            } else {
                r is Err
            }
        }),
{
    if args.len() == 0 {
        return Err(String::from_str("values() requires map argument"));
    }
    match &args[0] {
        Value::Object(o) => {
            proof {
                lemma_object_view(*o);
            }
            let mut out: Vec<Value> = Vec::new();
            let mut i: usize = 0;
            while i < o.len()
                invariant
                    i <= o@.len(),
                    out@.len() == i,
                    forall|j: int| 0 <= j < i ==> #[trigger] out@[j]@ == o@[j].1@,
                decreases o@.len() - i,
            {
                out.push(o[i].1.copy());
                i = i + 1;
            }
            proof {
                lemma_array_view(out);
                let e = entries(o@);
                assert(vals(out@) =~= Seq::new(e.len(), |i: int| e[i].1));
            }
            Ok(Value::Array(out))
        },
        _ => Err(String::from_str("values() requires map argument")),
    }
}

/// The items with nested arrays spliced in, at every depth.
pub open spec fn flat(a: Seq<Val>) -> Seq<Val>
    decreases a,
{
    if a.len() == 0 {
        Seq::empty()
    } else {
        flat(a.drop_last()) + match a.last() {
            Val::Array(inner) => flat(inner),
            other => seq![other],
        }
    }
}

fn flatten_into(out: &mut Vec<Value>, items: &Vec<Value>)
    ensures
        vals(final(out)@) == vals(old(out)@) + flat(vals(items@)),
    decreases items,
{
    let ghost a = vals(items@);
    let mut i: usize = 0;
    proof {
        assert(vals(out@) =~= vals(old(out)@) + flat(a.subrange(0, 0)));
    }
    while i < items.len()
        invariant
            i <= items@.len(),
            a == vals(items@),
            vals(out@) == vals(old(out)@) + flat(a.subrange(0, i as int)),
        decreases items@.len() - i,
    {
        proof {
            vstd::std_specs::vec::axiom_vec_index_decreases(*items, i as int);
            assert(a.subrange(0, i + 1).drop_last() =~= a.subrange(0, i as int));
        }
        let ghost before = out@;
        match &items[i] {
            Value::Array(inner) => {
                proof {
                    lemma_array_view(*inner);
                }
                flatten_into(out, inner);
                proof {
                    assert(vals(out@) =~= vals(old(out)@) + flat(a.subrange(0, i + 1)));
                }
            },
            v => {
                out.push(v.copy());
                proof {
                    assert(vals(out@) =~= vals(before).push(a[i as int]));
                    assert(vals(out@) =~= vals(old(out)@) + flat(a.subrange(0, i + 1)));
                }
            },
        }
        i = i + 1;
    }
    proof {
        assert(a.subrange(0, items@.len() as int) =~= a);
    }
}

/// `flatten(array)`: the items with nested arrays spliced in, at every depth;
/// other items pass through unchanged.
pub fn flatten(args: &Vec<Value>) -> (r: Result<Value, String>)
    ensures
        ({
            let a = vals(args@);
            if a.len() > 0 && a[0] is Array {
                r matches Ok(v) && v@ == Val::Array(flat(a[0]->Array_0))
            } else {
                r is Err
            }
        }),
{
    if args.len() == 0 {
        return Err(String::from_str("flatten() requires array argument"));
    }
    match &args[0] {
        Value::Array(items) => {
            proof {
                lemma_array_view(*items);
            }
            let mut out: Vec<Value> = Vec::new();
            flatten_into(&mut out, items);
            proof {
                lemma_array_view(out);
                assert(vals(out@) =~= flat(vals(items@)));
            }
            Ok(Value::Array(out))
        },
        _ => Err(String::from_str("flatten() requires array argument")),
    }
}

/// `contains(collection, x)`: whether an array holds `x`, or a string holds
/// the string `x`.
pub fn contains(args: &Vec<Value>) -> (r: Result<Value, String>)
    ensures
        ({
            let a = vals(args@);
            if a.len() < 2 {
                r is Err
            } else if a[0] is Array {
                r matches Ok(v) && v@ == Val::Bool(a[0]->Array_0.contains(a[1]))
            } else if a[0] is Str && a[1] is Str {
                r matches Ok(v) && v@ == Val::Bool(
                    exists|i: int| crate::text::occurs_at(a[0]->Str_0, a[1]->Str_0, i),
                )
            } else {
                r is Err
            }
        }),
{
    if args.len() < 2 {
        return Err(String::from_str("contains() requires two arguments"));
    }
    match (&args[0], &args[1]) {
        (Value::Array(items), x) => {
            proof {
                lemma_array_view(*items);
                assert(vals(args@)[1] == x@);
            }
            Ok(Value::Bool(holds(items, x)))
        },
        (Value::String(s), Value::String(t)) => {
            let sc = crate::text::chars_of(s.as_str());
            let tc = crate::text::chars_of(t.as_str());
            let found = crate::text::find_from(sc.as_slice(), tc.as_slice(), 0);
            let b = match found {
                Some(_) => true,
                None => false,
            };
            proof {
                let x = vals(args@)[0]->Str_0;
                let y = vals(args@)[1]->Str_0;
                assert(x == s@);
                assert(y == t@);
                match found {
                    Some(i) => {
                        assert(crate::text::occurs_at(x, y, i as int));
                    },
                    None => {
                        assert forall|i: int| !crate::text::occurs_at(x, y, i) by {
                            if 0 <= i <= s@.len() {
                                assert(!crate::text::occurs_at(sc@, tc@, i));
                            }
                        }
                    },
                }
                assert(b == (exists|i: int| crate::text::occurs_at(x, y, i)));
            }
            Ok(Value::Bool(b))
        },
        (Value::String(_), _) => Err(String::from_str("Second argument must be string for string contains")),
        _ => Err(String::from_str("contains() requires array or string as first argument")),
    }
}

} // verus!
