//! Projection of an evaluated document into the data models of JSON, YAML
//! and TOML, which the serializers then write out.
use vstd::prelude::*;
use vstd::string::StringExecFns;
use crate::numbers::{leading_digits, lemma_digit_run};
use crate::text::{chars_of, is_digit};
use crate::value::{lemma_array_view, lemma_object_view, Number, Val, Value};

verus! {

/// A value in the data model of an output format. Integers and decimal
/// floats are told apart; object keys keep their order.
pub enum Tree {
    Null,
    Bool(bool),
    Integer(i64),
    Float(String),
    Str(String),
    List(Vec<Tree>),
    Table(Vec<(String, Tree)>),
}

impl View for Tree {
    type V = Val;

    open spec fn view(&self) -> Val
        decreases self,
    {
        match self {
            Tree::Null => Val::Null,
            Tree::Bool(b) => Val::Bool(*b),
            Tree::Integer(n) => Val::Int(*n as int),
            Tree::Float(t) => Val::Float(t@),
            Tree::Str(s) => Val::Str(s@),
            Tree::List(a) => Val::Array(
                Seq::new(a@.len(), |i: int| if 0 <= i < a@.len() { a@[i].view() } else { Val::Null }),
            ),
            Tree::Table(o) => Val::Object(
                Seq::new(o@.len(), |i: int| (o@[i].0@, if 0 <= i < o@.len() { o@[i].1.view() } else { Val::Null })),
            ),
        }
    }
}

/// Why a value cannot be projected.
#[derive(PartialEq, Eq, Structural, Clone, Copy, Debug)]
pub enum ProjectError {
    /// A float's text is not that of a number with a non-zero fractional
    /// part (for example `NaN`, or `3.0`, which must be an integer).
    InvalidNumber,
}

/// The sign-less part of a number text.
pub open spec fn unsigned_part(t: Seq<char>) -> Seq<char> {
    if t.len() > 0 && t[0] == '-' { t.drop_first() } else { t }
}

/// Where the integer and fraction digits of a sign-less number text end.
pub open spec fn mantissa_end(b: Seq<char>) -> int {
    let i = leading_digits(b).len() as int;
    let after = b.subrange(i, b.len() as int);
    if after.len() > 0 && after[0] == '.' {
        i + 1 + leading_digits(after.drop_first()).len()
    } else {
        i
    }
}

/// Whether `s` holds a digit other than `0`.
pub open spec fn has_nonzero_digit(s: Seq<char>) -> bool {
    exists|k: int| 0 <= k < s.len() && '1' <= #[trigger] s[k] <= '9'
}

/// Whether `t` is the text of a number with a non-zero fractional part, as
/// the evaluator writes it: `-?d+.d+` with a non-zero fraction digit, or,
/// below one, `-?D(.d+)?e-d+` with `D` in `1..9` and a non-zero exponent.
/// No integral, infinite or undefined number has such a text.
pub open spec fn float_text(t: Seq<char>) -> bool {
    let b = unsigned_part(t);
    let n = b.len() as int;
    let i = leading_digits(b).len() as int;
    let j = mantissa_end(b);
    let frac = if j > i { b.subrange(i + 1, j) } else { Seq::empty() };
    let ex = b.subrange(j + 2, n);
    &&& i > 0
    &&& (j > i ==> j > i + 1)
    &&& if j == n {
        has_nonzero_digit(frac)
    } else {
        &&& i == 1
        &&& b[0] != '0'
        &&& j + 2 < n
        &&& b[j] == 'e'
        &&& b[j + 1] == '-'
        &&& leading_digits(ex).len() == ex.len()
        &&& has_nonzero_digit(ex)
    }
}

/// Whether every number in the tree is valid: a float's text is that of a
/// number with a non-zero fractional part.
pub open spec fn all_valid(v: Val) -> bool
    decreases v,
{
    match v {
        Val::Float(t) => float_text(t),
        Val::Array(a) => forall|i: int| 0 <= i < a.len() ==> all_valid(#[trigger] a[i]),
        Val::Object(o) => forall|i: int| 0 <= i < o.len() ==> all_valid(#[trigger] o[i].1),
        _ => true,
    }
}

/// The TOML model of a value: TOML has no null, which becomes the string `"null"`.
pub open spec fn toml_model(v: Val) -> Val
    decreases v,
{
    match v {
        Val::Null => Val::Str("null"@),
        Val::Array(a) => Val::Array(
            Seq::new(a.len(), |i: int| if 0 <= i < a.len() { toml_model(a[i]) } else { Val::Null }),
        ),
        Val::Object(o) => Val::Object(
            Seq::new(o.len(), |i: int| (o[i].0, if 0 <= i < o.len() { toml_model(o[i].1) } else { Val::Null })),
        ),
        _ => v,
    }
}

/// Whether a model holds a null anywhere.
pub open spec fn has_null(v: Val) -> bool
    decreases v,
{
    match v {
        Val::Null => true,
        Val::Array(a) => exists|i: int| 0 <= i < a.len() && has_null(#[trigger] a[i]),
        Val::Object(o) => exists|i: int| 0 <= i < o.len() && has_null(#[trigger] o[i].1),
        _ => false,
    }
}

fn is_digit_char(c: char) -> (r: bool)
    ensures
        r == is_digit(c),
{
    '0' <= c && c <= '9'
}

/// The end of the digit run of `cs` starting at `i`.
fn digits_end(cs: &Vec<char>, i: usize) -> (r: usize)
    requires
        i <= cs@.len(),
    ensures
        i <= r <= cs@.len(),
        leading_digits(cs@.subrange(i as int, cs@.len() as int)).len() == r - i,
{
    let mut j = i;
    while j < cs.len() && is_digit_char(cs[j])
        invariant
            i <= j <= cs@.len(),
            forall|k: int| i <= k < j ==> is_digit(#[trigger] cs@[k]),
        decreases cs@.len() - j,
    {
        j = j + 1;
    }
    proof {
        let s = cs@.subrange(i as int, cs@.len() as int);
        assert forall|k: int| 0 <= k < j - i implies is_digit(#[trigger] s[k]) by {
            assert(s[k] == cs@[i + k]);
        }
        lemma_digit_run(s, j - i);
    }
    j
}

/// Whether `cs[from..to]` holds a digit other than `0`.
fn nonzero_in(cs: &Vec<char>, from: usize, to: usize) -> (r: bool)
    requires
        from <= to <= cs@.len(),
    ensures
        r == has_nonzero_digit(cs@.subrange(from as int, to as int)),
{
    let mut k = from;
    while k < to
        invariant
            from <= k <= to <= cs@.len(),
            forall|m: int| from <= m < k ==> !('1' <= #[trigger] cs@[m] <= '9'),
        decreases to - k,
    {
        if '1' <= cs[k] && cs[k] <= '9' {
            assert(cs@.subrange(from as int, to as int)[k - from] == cs@[k as int]);
            return true;
        }
        k = k + 1;
    }
    proof {
        let s = cs@.subrange(from as int, to as int);
        assert forall|m: int| 0 <= m < s.len() implies !('1' <= #[trigger] s[m] <= '9') by {
            assert(s[m] == cs@[from + m]);
        }
    }
    false
}

/// Whether `t` is the text of a number with a non-zero fractional part.
pub fn is_float_text(t: &str) -> (r: bool)
    ensures
        r == float_text(t@),
{
    let cs = chars_of(t);
    let n = cs.len();
    let start: usize = if n > 0 && cs[0] == '-' { 1 } else { 0 };
    let ghost b = unsigned_part(t@);
    proof {
        assert(b =~= cs@.subrange(start as int, n as int));
    }
    let i = digits_end(&cs, start);
    if i == start {
        return false;
    }
    let mut j = i;
    proof {
        assert(b.subrange(i - start, b.len() as int) =~= cs@.subrange(i as int, n as int));
    }
    if j < n && cs[j] == '.' {
        let e = digits_end(&cs, j + 1);
        proof {
            assert(cs@.subrange(i as int, n as int).drop_first() =~= cs@.subrange(j + 1, n as int));
        }
        if e == j + 1 {
            return false;
        }
        j = e;
    }
    proof {
        assert(mantissa_end(b) == j - start);
        if j > i {
            assert(b.subrange(i - start + 1, j - start) =~= cs@.subrange(i + 1, j as int));
        }
    }
    if j == n {
        return j > i && nonzero_in(&cs, i + 1, j);
    }
    if n < 2 || i - start != 1 || cs[start] == '0' || j >= n - 2 || cs[j] != 'e' || cs[j + 1] != '-' {
        return false;
    }
    let e = digits_end(&cs, j + 2);
    proof {
        assert(b.subrange(j - start + 2, b.len() as int) =~= cs@.subrange(j + 2, n as int));
    }
    e == n && nonzero_in(&cs, j + 2, n)
}

pub proof fn lemma_list_view(a: Vec<Tree>)
    ensures
        Tree::List(a)@ == Val::Array(Seq::new(a@.len(), |i: int| a@[i]@)),
{
    assert(Tree::List(a)@->Array_0 =~= Seq::new(a@.len(), |i: int| a@[i]@));
}

pub proof fn lemma_table_view(o: Vec<(String, Tree)>)
    ensures
        Tree::Table(o)@ == Val::Object(Seq::new(o@.len(), |i: int| (o@[i].0@, o@[i].1@))),
{
    assert(Tree::Table(o)@->Object_0 =~= Seq::new(o@.len(), |i: int| (o@[i].0@, o@[i].1@)));
}

/// The model a projection produces: the value itself, with nulls written as
/// the string `"null"` when `null_as_string` holds.
pub open spec fn projected(v: Val, null_as_string: bool) -> Val {
    if null_as_string { toml_model(v) } else { v }
}

/// Projects a value, failing on an invalid number.
fn project(v: &Value, null_as_string: bool) -> (r: Result<Tree, ProjectError>)
    ensures
        all_valid(v@) ==> (r matches Ok(t) && t@ == projected(v@, null_as_string)),
        !all_valid(v@) ==> r == Err::<Tree, ProjectError>(ProjectError::InvalidNumber),
    decreases v,
{
    match v {
        Value::Null => if null_as_string {
            Ok(Tree::Str(String::from_str("null")))
        } else {
            Ok(Tree::Null)
        },
        Value::Bool(b) => Ok(Tree::Bool(*b)),
        Value::Number(Number::Int(n)) => Ok(Tree::Integer(*n)),
        Value::Number(Number::Float(t)) => if is_float_text(t.as_str()) {
            Ok(Tree::Float(t.clone()))
        } else {
            Err(ProjectError::InvalidNumber)
        },
        Value::String(s) => Ok(Tree::Str(s.clone())),
        Value::Array(a) => {
            proof {
                lemma_array_view(*a);
            }
            let items = match project_items(a, null_as_string) {
                Ok(items) => items,
                Err(e) => {
                    proof {
                        let j = choose|j: int| 0 <= j < a@.len() && !all_valid(#[trigger] a@[j]@);
                        assert(v@->Array_0[j] == a@[j]@);
                    }
                    return Err(e);
                },
            };
            proof {
                lemma_list_view(items);
                if null_as_string {
                    assert(Tree::List(items)@->Array_0 =~= toml_model(v@)->Array_0);
                } else {
                    assert(Tree::List(items)@->Array_0 =~= v@->Array_0);
                }
            }
            Ok(Tree::List(items))
        },
        Value::Object(o) => {
            proof {
                lemma_object_view(*o);
            }
            let fields = match project_fields(o, null_as_string) {
                Ok(fields) => fields,
                Err(e) => {
                    proof {
                        let j = choose|j: int| 0 <= j < o@.len() && !all_valid(#[trigger] o@[j].1@);
                        assert(v@->Object_0[j].1 == o@[j].1@);
                    }
                    return Err(e);
                },
            };
            proof {
                lemma_table_view(fields);
                if null_as_string {
                    assert(Tree::Table(fields)@->Object_0 =~= toml_model(v@)->Object_0);
                } else {
                    assert(Tree::Table(fields)@->Object_0 =~= v@->Object_0);
                }
            }
            Ok(Tree::Table(fields))
        },
    }
}

fn project_items(a: &Vec<Value>, null_as_string: bool) -> (r: Result<Vec<Tree>, ProjectError>)
    ensures
        (forall|i: int| 0 <= i < a@.len() ==> all_valid(#[trigger] a@[i]@)) ==> (r matches Ok(t) && t@.len()
            == a@.len() && forall|i: int| 0 <= i < a@.len() ==> #[trigger] t@[i]@ == projected(a@[i]@, null_as_string)),
        !(forall|i: int| 0 <= i < a@.len() ==> all_valid(#[trigger] a@[i]@)) ==> r == Err::<Vec<Tree>, ProjectError>(
            ProjectError::InvalidNumber,
        ),
    decreases a,
{
    let mut out: Vec<Tree> = Vec::new();
    let mut i: usize = 0;
    while i < a.len()
        invariant
            i <= a@.len(),
            out@.len() == i,
            forall|j: int| 0 <= j < i ==> all_valid(#[trigger] a@[j]@),
            forall|j: int| 0 <= j < i ==> #[trigger] out@[j]@ == projected(a@[j]@, null_as_string),
        decreases a@.len() - i,
    {
        proof {
            vstd::std_specs::vec::axiom_vec_index_decreases(*a, i as int);
        }
        let t = project(&a[i], null_as_string)?;
        out.push(t);
        i = i + 1;
    }
    Ok(out)
}

fn project_fields(o: &Vec<(String, Value)>, null_as_string: bool) -> (r: Result<Vec<(String, Tree)>, ProjectError>)
    ensures
        (forall|i: int| 0 <= i < o@.len() ==> all_valid(#[trigger] o@[i].1@)) ==> (r matches Ok(t) && t@.len()
            == o@.len() && forall|i: int| 0 <= i < o@.len() ==> #[trigger] t@[i].0@ == o@[i].0@ && t@[i].1@
            == projected(o@[i].1@, null_as_string)),
        !(forall|i: int| 0 <= i < o@.len() ==> all_valid(#[trigger] o@[i].1@)) ==> r == Err::<
            Vec<(String, Tree)>,
            ProjectError,
        >(ProjectError::InvalidNumber),
    decreases o,
{
    let mut out: Vec<(String, Tree)> = Vec::new();
    let mut i: usize = 0;
    while i < o.len()
        invariant
            i <= o@.len(),
            out@.len() == i,
            forall|j: int| 0 <= j < i ==> all_valid(#[trigger] o@[j].1@),
            forall|j: int| 0 <= j < i ==> #[trigger] out@[j].0@ == o@[j].0@ && out@[j].1@ == projected(o@[j].1@, null_as_string),
        decreases o@.len() - i,
    {
        proof {
            vstd::std_specs::vec::axiom_vec_index_decreases(*o, i as int);
        }
        let t = project(&o[i].1, null_as_string)?;
        let k = o[i].0.clone();
        let ghost before = out@;
        out.push((k, t));
        proof {
            assert(out@[i as int].0@ == o@[i as int].0@);
            assert(out@[i as int].1@ == projected(o@[i as int].1@, null_as_string));
            assert forall|j: int| 0 <= j < i implies #[trigger] out@[j].0@ == o@[j].0@ && out@[j].1@ == projected(
                o@[j].1@,
                null_as_string,
            ) by {
                assert(out@[j] == before[j]);
            }
            assert(forall|j: int| 0 <= j < i + 1 ==> #[trigger] out@[j].0@ == o@[j].0@ && out@[j].1@ == projected(o@[j].1@, null_as_string));
        }
        i = i + 1;
    }
    Ok(out)
}

/// The JSON model of a value: the value itself, numbers staying integers or
/// decimals. Fails on an invalid number.
pub fn to_json(v: &Value) -> (r: Result<Tree, ProjectError>)
    ensures
        all_valid(v@) ==> (r matches Ok(t) && t@ == v@),
        !all_valid(v@) ==> r == Err::<Tree, ProjectError>(ProjectError::InvalidNumber),
{
    project(v, false)
}

/// The YAML model of a value: as for JSON.
pub fn to_yaml(v: &Value) -> (r: Result<Tree, ProjectError>)
    ensures
        all_valid(v@) ==> (r matches Ok(t) && t@ == v@),
        !all_valid(v@) ==> r == Err::<Tree, ProjectError>(ProjectError::InvalidNumber),
{
    project(v, false)
}

/// The TOML model of a value: as for JSON, but a null becomes the string
/// `"null"`.
pub fn to_toml(v: &Value) -> (r: Result<Tree, ProjectError>)
    ensures
        all_valid(v@) ==> (r matches Ok(t) && t@ == toml_model(v@)),
        !all_valid(v@) ==> r == Err::<Tree, ProjectError>(ProjectError::InvalidNumber),
{
    project(v, true)
}

/// The value a tree of an output format stands for: the inverse of the
/// projections, used when decoding JSON or YAML text.
pub fn from_tree(t: &Tree) -> (r: Value)
    ensures
        r@ == t@,
    decreases t,
{
    match t {
        Tree::Null => Value::Null,
        Tree::Bool(b) => Value::Bool(*b),
        Tree::Integer(n) => Value::Number(Number::Int(*n)),
        Tree::Float(x) => Value::Number(Number::Float(x.clone())),
        Tree::Str(x) => Value::String(x.clone()),
        Tree::List(a) => {
            let items = values_from_trees(a);
            proof {
                lemma_list_view(*a);
                lemma_array_view(items);
                assert(Value::Array(items)@->Array_0 =~= t@->Array_0);
            }
            Value::Array(items)
        },
        Tree::Table(o) => {
            let fields = entries_from_trees(o);
            proof {
                lemma_table_view(*o);
                lemma_object_view(fields);
                assert(Value::Object(fields)@->Object_0 =~= t@->Object_0);
            }
            Value::Object(fields)
        },
    }
}

fn values_from_trees(a: &Vec<Tree>) -> (r: Vec<Value>)
    ensures
        r@.len() == a@.len(),
        forall|i: int| 0 <= i < a@.len() ==> #[trigger] r@[i]@ == a@[i]@,
    decreases a,
{
    let mut out: Vec<Value> = Vec::new();
    let mut i: usize = 0;
    while i < a.len()
        invariant
            i <= a@.len(),
            out@.len() == i,
            forall|j: int| 0 <= j < i ==> #[trigger] out@[j]@ == a@[j]@,
        decreases a@.len() - i,
    {
        proof {
            vstd::std_specs::vec::axiom_vec_index_decreases(*a, i as int);
        }
        out.push(from_tree(&a[i]));
        i = i + 1;
    }
    out
}

fn entries_from_trees(o: &Vec<(String, Tree)>) -> (r: Vec<(String, Value)>)
    ensures
        r@.len() == o@.len(),
        forall|i: int| 0 <= i < o@.len() ==> #[trigger] r@[i].0@ == o@[i].0@ && r@[i].1@ == o@[i].1@,
    decreases o,
{
    let mut out: Vec<(String, Value)> = Vec::new();
    let mut i: usize = 0;
    while i < o.len()
        invariant
            i <= o@.len(),
            out@.len() == i,
            forall|j: int| 0 <= j < i ==> #[trigger] out@[j].0@ == o@[j].0@ && out@[j].1@ == o@[j].1@,
        decreases o@.len() - i,
    {
        proof {
            vstd::std_specs::vec::axiom_vec_index_decreases(*o, i as int);
        }
        out.push((o[i].0.clone(), from_tree(&o[i].1)));
        i = i + 1;
    }
    out
}

/// Projecting a value to JSON and decoding the result with `from_tree`
/// gives the value back, keys in the same order and integers as integers,
/// whenever its numbers are valid.
pub proof fn lemma_json_round_trip(v: Value, encoded: Result<Tree, ProjectError>)
    requires
        all_valid(v@),
        call_ensures(to_json, (&v,), encoded),
    ensures
        encoded matches Ok(t) && forall|decoded: Value| #[trigger] call_ensures(from_tree, (&t,), decoded) ==> decoded@ == v@,
{
}

/// The TOML model holds no null: each null is the string `"null"`.
pub proof fn lemma_toml_has_no_null(v: Val)
    ensures
        !has_null(toml_model(v)),
        v is Null ==> toml_model(v) == Val::Str("null"@),
    decreases v,
{
    match v {
        Val::Array(a) => {
            assert forall|i: int| 0 <= i < a.len() implies !has_null(#[trigger] toml_model(v)->Array_0[i]) by {
                lemma_toml_has_no_null(a[i]);
            }
        },
        Val::Object(o) => {
            assert forall|i: int| 0 <= i < o.len() implies !has_null(#[trigger] toml_model(v)->Object_0[i].1) by {
                lemma_toml_has_no_null(o[i].1);
            }
        },
        _ => {},
    }
}

} // verus!
