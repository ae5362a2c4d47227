//! Plain-text rendering of values, as used by `format`, `join` and
//! `tostring`: strings stand for themselves, other values are written as
//! literals.
use vstd::prelude::*;
use vstd::string::StringExecFns;
use crate::text::{i64_text, int_text, push_char, push_str};
use crate::value::{entries, lemma_array_view, lemma_object_view, vals, Entry, Number, Val, Value};

verus! {

/// Characters of a string literal's body: `"` and `\` are escaped.
pub open spec fn escape(s: Seq<char>) -> Seq<char>
    decreases s.len(),
{
    if s.len() == 0 {
        Seq::empty()
    } else {
        escape(s.drop_last()) + if s.last() == '"' || s.last() == '\\' {
            seq!['\\', s.last()]
        } else {
            seq![s.last()]
        }
    }
}

/// The parts joined with `sep` between neighbours.
pub open spec fn join_with(parts: Seq<Seq<char>>, sep: Seq<char>) -> Seq<char>
    decreases parts.len(),
{
    if parts.len() == 0 {
        Seq::empty()
    } else if parts.len() == 1 {
        parts[0]
    } else {
        join_with(parts.drop_last(), sep) + sep + parts.last()
    }
}

/// Text of a number.
pub open spec fn number_text(v: Val) -> Seq<char> {
    match v {
        Val::Int(n) => int_text(n),
        Val::Float(t) => t,
        _ => Seq::empty(),
    }
}

/// A value written as a literal: strings quoted, arrays as `[a, b]`,
/// objects as `{k = v, ...}`.
pub open spec fn literal(v: Val) -> Seq<char>
    decreases v,
{
    match v {
        Val::Null => "null"@,
        Val::Bool(b) => if b {
            "true"@
        } else {
            "false"@
        },
        Val::Int(n) => int_text(n),
        Val::Float(t) => t,
        Val::Str(s) => seq!['"'] + escape(s) + seq!['"'],
        Val::Array(a) => seq!['['] + items_text(a) + seq![']'],
        Val::Object(o) => seq!['{'] + fields_text(o) + seq!['}'],
    }
}

/// The literals of the items, separated by `, `.
pub open spec fn items_text(a: Seq<Val>) -> Seq<char>
    decreases a,
{
    if a.len() == 0 {
        Seq::empty()
    } else if a.len() == 1 {
        literal(a[0])
    } else {
        items_text(a.drop_last()) + ", "@ + literal(a.last())
    }
}

/// The entries as `k = v`, separated by `, `.
pub open spec fn fields_text(o: Seq<Entry>) -> Seq<char>
    decreases o,
{
    if o.len() == 0 {
        Seq::empty()
    } else if o.len() == 1 {
        o[0].0 + " = "@ + literal(o[0].1)
    } else {
        fields_text(o.drop_last()) + ", "@ + o.last().0 + " = "@ + literal(o.last().1)
    }
}

/// The text of a value: a string is itself, anything else its literal.
pub open spec fn text_of(v: Val) -> Seq<char> {
    match v {
        Val::Str(s) => s,
        _ => literal(v),
    }
}

/// Appends the escaped body of `s` to `out`.
fn push_escaped(out: &mut String, s: &str)
    ensures
        final(out)@ == old(out)@ + escape(s@),
{
    let cs = crate::text::chars_of(s);
    let mut i: usize = 0;
    while i < cs.len()
        invariant
            i <= cs@.len(),
            cs@ == s@,
            out@ == old(out)@ + escape(cs@.subrange(0, i as int)),
        decreases cs@.len() - i,
    {
        let c = cs[i];
        assert(cs@.subrange(0, i + 1).drop_last() =~= cs@.subrange(0, i as int));
        if c == '"' || c == '\\' {
            push_char(out, '\\');
        }
        push_char(out, c);
        i = i + 1;
        assert(out@ =~= old(out)@ + escape(cs@.subrange(0, i as int)));
    }
    assert(cs@.subrange(0, cs@.len() as int) =~= cs@);
}

/// Joins the parts with `sep` between neighbours.
pub fn join_strings(parts: &Vec<String>, sep: &str) -> (r: String)
    ensures
        r@ == join_with(Seq::new(parts@.len(), |i: int| parts@[i]@), sep@),
{
    let ghost ps = Seq::new(parts@.len(), |i: int| parts@[i]@);
    let mut r = String::new();
    let mut i: usize = 0;
    while i < parts.len()
        invariant
            i <= parts@.len(),
            ps == Seq::new(parts@.len(), |i: int| parts@[i]@),
            r@ == join_with(ps.subrange(0, i as int), sep@),
        decreases parts@.len() - i,
    {
        assert(ps.subrange(0, i + 1).drop_last() =~= ps.subrange(0, i as int));
        if i > 0 {
            push_str(&mut r, sep);
        }
        push_str(&mut r, parts[i].as_str());
        i = i + 1;
        assert(r@ =~= join_with(ps.subrange(0, i as int), sep@));
    }
    assert(ps.subrange(0, parts@.len() as int) =~= ps);
    r
}

/// The text of a number.
pub fn number_string(n: &Number) -> (r: String)
    ensures
        r@ == number_text(Value::Number(*n)@),
{
    match n {
        Number::Int(i) => i64_text(*i),
        Number::Float(t) => t.clone(),
    }
}

/// A value written as a literal.
pub fn literal_string(v: &Value) -> (r: String)
    ensures
        r@ == literal(v@),
    decreases v,
{
    match v {
        Value::Null => String::from_str("null"),
        Value::Bool(b) => if *b {
            String::from_str("true")
        } else {
            String::from_str("false")
        },
        Value::Number(n) => number_string(n),
        Value::String(s) => {
            let mut r = String::new();
            push_char(&mut r, '"');
            push_escaped(&mut r, s.as_str());
            push_char(&mut r, '"');
            assert(r@ =~= literal(v@));
            r
        },
        Value::Array(a) => {
            proof {
                lemma_array_view(*a);
            }
            let mut r = String::new();
            push_char(&mut r, '[');
            push_items(&mut r, a);
            push_char(&mut r, ']');
            assert(r@ =~= literal(v@));
            r
        },
        Value::Object(o) => {
            proof {
                lemma_object_view(*o);
            }
            let mut r = String::new();
            push_char(&mut r, '{');
            push_fields(&mut r, o);
            push_char(&mut r, '}');
            assert(r@ =~= literal(v@));
            r
        },
    }
}

fn push_items(out: &mut String, a: &Vec<Value>)
    ensures
        final(out)@ == old(out)@ + items_text(vals(a@)),
    decreases a,
{
    let ghost av = vals(a@);
    let mut i: usize = 0;
    while i < a.len()
        invariant
            i <= a@.len(),
            av == vals(a@),
            out@ == old(out)@ + items_text(av.subrange(0, i as int)),
        decreases a@.len() - i,
    {
        proof {
            vstd::std_specs::vec::axiom_vec_index_decreases(*a, i as int);
            assert(av.subrange(0, i + 1).drop_last() =~= av.subrange(0, i as int));
        }
        if i > 0 {
            push_str(out, ", ");
        }
        let lit = literal_string(&a[i]);
        push_str(out, lit.as_str());
        i = i + 1;
        assert(out@ =~= old(out)@ + items_text(av.subrange(0, i as int)));
    }
    assert(av.subrange(0, a@.len() as int) =~= av);
}

fn push_fields(out: &mut String, o: &Vec<(String, Value)>)
    ensures
        final(out)@ == old(out)@ + fields_text(entries(o@)),
    decreases o,
{
    let ghost ov = entries(o@);
    let mut i: usize = 0;
    while i < o.len()
        invariant
            i <= o@.len(),
            ov == entries(o@),
            out@ == old(out)@ + fields_text(ov.subrange(0, i as int)),
        decreases o@.len() - i,
    {
        proof {
            vstd::std_specs::vec::axiom_vec_index_decreases(*o, i as int);
            assert(ov.subrange(0, i + 1).drop_last() =~= ov.subrange(0, i as int));
        }
        if i > 0 {
            push_str(out, ", ");
        }
        push_str(out, o[i].0.as_str());
        push_str(out, " = ");
        let lit = literal_string(&o[i].1);
        push_str(out, lit.as_str());
        i = i + 1;
        assert(out@ =~= old(out)@ + fields_text(ov.subrange(0, i as int)));
    }
    assert(ov.subrange(0, o@.len() as int) =~= ov);
}

/// The text of a value: a string is itself, anything else its literal.
pub fn text_string(v: &Value) -> (r: String)
    ensures
        r@ == text_of(v@),
{
    match v {
        Value::String(s) => s.clone(),
        _ => literal_string(v),
    }
}

} // verus!
