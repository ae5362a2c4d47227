//! The dynamically typed value tree shared by evaluation, the built-in
//! functions and the projections.
use vstd::prelude::*;

verus! {

/// A number: an integer, or a number with a non-zero fractional part kept as
/// its decimal text, as the evaluator writes it (for example `3.9` or
/// `1.5e-7`). A float whose text is not of that form (`3.0`, `NaN`) is not a
/// valid number: the functions that read numbers and the projections reject
/// it.
pub enum Number {
    Int(i64),
    Float(String),
}

/// A value of a document. Object entries keep their insertion order.
pub enum Value {
    Null,
    Bool(bool),
    Number(Number),
    String(String),
    Array(Vec<Value>),
    Object(Vec<(String, Value)>),
}

/// The mathematical model of a [`Value`].
pub enum Val {
    Null,
    Bool(bool),
    Int(int),
    Float(Seq<char>),
    Str(Seq<char>),
    Array(Seq<Val>),
    Object(Seq<(Seq<char>, Val)>),
}

/// One entry of an object model.
pub type Entry = (Seq<char>, Val);

impl View for Value {
    type V = Val;

    open spec fn view(&self) -> Val
        decreases self,
    {
        match self {
            Value::Null => Val::Null,
            Value::Bool(b) => Val::Bool(*b),
            Value::Number(Number::Int(n)) => Val::Int(*n as int),
            Value::Number(Number::Float(t)) => Val::Float(t@),
            Value::String(s) => Val::Str(s@),
            Value::Array(a) => Val::Array(
                Seq::new(a@.len(), |i: int| if 0 <= i < a@.len() { a@[i].view() } else { Val::Null }),
            ),
            Value::Object(o) => Val::Object(
                Seq::new(o@.len(), |i: int| (o@[i].0@, if 0 <= i < o@.len() { o@[i].1.view() } else { Val::Null })),
            ),
        }
    }
}

/// The model of a sequence of values.
pub open spec fn vals(a: Seq<Value>) -> Seq<Val> {
    Seq::new(a.len(), |i: int| a[i]@)
}

/// The model of a sequence of object entries.
pub open spec fn entries(o: Seq<(String, Value)>) -> Seq<Entry> {
    Seq::new(o.len(), |i: int| (o[i].0@, o[i].1@))
}

pub proof fn lemma_array_view(a: Vec<Value>)
    ensures
        Value::Array(a)@ == Val::Array(vals(a@)),
{
    assert(Value::Array(a)@->Array_0 =~= vals(a@));
}

pub proof fn lemma_object_view(o: Vec<(String, Value)>)
    ensures
        Value::Object(o)@ == Val::Object(entries(o@)),
{
    let v = Value::Object(o);
    assert(v@->Object_0 =~= entries(o@));
}

/// The keys of an object, in order.
pub open spec fn keys_of(o: Seq<Entry>) -> Seq<Seq<char>> {
    Seq::new(o.len(), |i: int| o[i].0)
}

/// The first position at or after `i` whose key is `k`, or -1.
pub open spec fn index_from(o: Seq<Entry>, k: Seq<char>, i: int) -> int
    decreases o.len() - i,
{
    if i < 0 || i >= o.len() {
        -1
    } else if o[i].0 == k {
        i
    } else {
        index_from(o, k, i + 1)
    }
}

/// The position of key `k` in an object, or -1.
pub open spec fn index_of(o: Seq<Entry>, k: Seq<char>) -> int {
    index_from(o, k, 0)
}

/// Whether an object holds key `k`.
pub open spec fn has_key(o: Seq<Entry>, k: Seq<char>) -> bool {
    exists|i: int| 0 <= i < o.len() && o[i].0 == k
}

/// The value stored under `k`, if any.
pub open spec fn lookup(o: Seq<Entry>, k: Seq<char>) -> Option<Val> {
    if index_of(o, k) >= 0 {
        Some(o[index_of(o, k)].1)
    } else {
        None
    }
}

/// Stores `v` under `k`: an existing entry keeps its place, a new one goes last.
pub open spec fn set_entry(o: Seq<Entry>, k: Seq<char>, v: Val) -> Seq<Entry> {
    if index_of(o, k) >= 0 {
        o.update(index_of(o, k), (k, v))
    } else {
        o.push((k, v))
    }
}

/// Stores every entry of `b` into `a`, in order.
pub open spec fn extend(a: Seq<Entry>, b: Seq<Entry>) -> Seq<Entry>
    decreases b.len(),
{
    if b.len() == 0 {
        a
    } else {
        set_entry(extend(a, b.drop_last()), b.last().0, b.last().1)
    }
}

/// No key appears twice.
pub open spec fn unique_keys(o: Seq<Entry>) -> bool {
    forall|i: int, j: int| 0 <= i < j < o.len() ==> o[i].0 != o[j].0
}

pub proof fn lemma_index_from(o: Seq<Entry>, k: Seq<char>, i: int)
    requires
        0 <= i,
    ensures
        index_from(o, k, i) == -1 ==> forall|j: int| i <= j < o.len() ==> o[j].0 != k,
        index_from(o, k, i) != -1 ==> i <= index_from(o, k, i) < o.len()
            && o[index_from(o, k, i)].0 == k
            && forall|j: int| i <= j < index_from(o, k, i) ==> o[j].0 != k,
    decreases o.len() - i,
{
    if i < o.len() && o[i].0 != k {
        lemma_index_from(o, k, i + 1);
    }
}

pub proof fn lemma_index_of(o: Seq<Entry>, k: Seq<char>)
    ensures
        index_of(o, k) == -1 <==> !has_key(o, k),
        index_of(o, k) != -1 ==> 0 <= index_of(o, k) < o.len() && o[index_of(o, k)].0 == k,
        forall|j: int| 0 <= j < index_of(o, k) ==> o[j].0 != k,
{
    lemma_index_from(o, k, 0);
}

pub proof fn lemma_set_entry(o: Seq<Entry>, k: Seq<char>, v: Val)
    requires
        unique_keys(o),
    ensures
        unique_keys(set_entry(o, k, v)),
        has_key(set_entry(o, k, v), k),
        lookup(set_entry(o, k, v), k) == Some(v),
        forall|q: Seq<char>| q != k ==> lookup(set_entry(o, k, v), q) == lookup(o, q),
        forall|q: Seq<char>| has_key(set_entry(o, k, v), q) <==> (q == k || has_key(o, q)),
{
    lemma_index_of(o, k);
    let r = set_entry(o, k, v);
    lemma_index_of(r, k);
    assert(has_key(r, k)) by {
        if index_of(o, k) >= 0 {
            assert(r[index_of(o, k)].0 == k);
        } else {
            assert(r[o.len() as int].0 == k);
        }
    }
    assert forall|q: Seq<char>| q != k implies lookup(r, q) == lookup(o, q) by {
        lemma_index_of(o, q);
        lemma_index_of(r, q);
        if index_of(o, q) >= 0 {
            assert(r[index_of(o, q)].0 == q);
            if index_of(r, q) < index_of(o, q) {
                assert(r[index_of(r, q)] == o[index_of(r, q)]);
            }
        } else {
            if index_of(r, q) >= 0 {
                assert(r[index_of(r, q)] == o[index_of(r, q)]);
            }
        }
    }
    assert forall|q: Seq<char>| has_key(r, q) <==> (q == k || has_key(o, q)) by {
        if has_key(o, q) {
            let j = choose|j: int| 0 <= j < o.len() && o[j].0 == q;
            if q != k {
                assert(r[j].0 == q);
            }
        }
        if has_key(r, q) && q != k {
            let j = choose|j: int| 0 <= j < r.len() && r[j].0 == q;
            assert(o[j].0 == q);
        }
    }
    if index_of(r, k) != index_of(o, k) && index_of(o, k) >= 0 {
        assert(r[index_of(o, k)].0 == k);
    }
    if index_of(o, k) < 0 && index_of(r, k) < o.len() {
        assert(r[index_of(r, k)] == o[index_of(r, k)]);
    }
}

/// After merging `b` into `a`, each key of `b` holds its value from `b`.
pub proof fn lemma_extend_takes_later(a: Seq<Entry>, b: Seq<Entry>)
    requires
        unique_keys(a),
        unique_keys(b),
    ensures
        forall|q: Seq<char>| has_key(b, q) ==> lookup(extend(a, b), q) == lookup(b, q),
    decreases b.len(),
{
    if b.len() > 0 {
        let p = b.drop_last();
        let k = b.last().0;
        assert(unique_keys(p));
        lemma_extend_takes_later(a, p);
        lemma_extend(a, p);
        lemma_set_entry(extend(a, p), k, b.last().1);
        lemma_index_of(b, k);
        assert forall|q: Seq<char>| has_key(b, q) implies lookup(extend(a, b), q) == lookup(b, q) by {
            lemma_index_of(b, q);
            lemma_index_of(p, q);
            if q == k {
                assert(b[b.len() - 1].0 == k);
                assert(index_of(b, k) == b.len() - 1);
            } else {
                let j = index_of(b, q);
                assert(p[j].0 == q);
                assert(has_key(p, q));
                assert(index_of(p, q) == j);
            }
        }
    }
}

/// Merging `b` into `a` keeps keys unique, holds the keys of both, and leaves
/// the keys that `b` lacks as they were in `a`.
pub proof fn lemma_extend(a: Seq<Entry>, b: Seq<Entry>)
    requires
        unique_keys(a),
    ensures
        unique_keys(extend(a, b)),
        forall|q: Seq<char>| has_key(extend(a, b), q) <==> (has_key(a, q) || has_key(b, q)),
        forall|q: Seq<char>| !has_key(b, q) ==> lookup(extend(a, b), q) == lookup(a, q),
    decreases b.len(),
{
    if b.len() > 0 {
        let p = b.drop_last();
        lemma_extend(a, p);
        lemma_set_entry(extend(a, p), b.last().0, b.last().1);
        assert forall|q: Seq<char>| has_key(b, q) <==> (has_key(p, q) || q == b.last().0) by {
            if has_key(p, q) {
                let j = choose|j: int| 0 <= j < p.len() && p[j].0 == q;
                assert(b[j].0 == q);
            }
            if has_key(b, q) && q != b.last().0 {
                let j = choose|j: int| 0 <= j < b.len() && b[j].0 == q;
                assert(p[j].0 == q);
            }
            if q == b.last().0 {
                assert(b[b.len() - 1].0 == q);
            }
        }
    }
}

impl Number {
    /// A copy of this number.
    pub fn copy(&self) -> (r: Number)
        ensures
            Value::Number(r)@ == Value::Number(*self)@,
    {
        match self {
            Number::Int(n) => Number::Int(*n),
            Number::Float(t) => Number::Float(t.clone()),
        }
    }
}

impl Value {
    /// A deep copy of this value.
    pub fn copy(&self) -> (r: Value)
        ensures
            r@ == self@,
        decreases self,
    {
        match self {
            Value::Null => Value::Null,
            Value::Bool(b) => Value::Bool(*b),
            Value::Number(n) => Value::Number(n.copy()),
            Value::String(s) => Value::String(s.clone()),
            Value::Array(a) => {
                let c = copy_values(a);
                proof {
                    lemma_array_view(*a);
                    lemma_array_view(c);
                }
                Value::Array(c)
            },
            Value::Object(o) => {
                let c = copy_entries(o);
                proof {
                    lemma_object_view(*o);
                    lemma_object_view(c);
                }
                Value::Object(c)
            },
        }
    }

    /// Whether two values are structurally equal.
    pub fn same(&self, other: &Value) -> (r: bool)
        ensures
            r == (self@ == other@),
        decreases self,
    {
        match (self, other) {
            (Value::Null, Value::Null) => true,
            (Value::Bool(a), Value::Bool(b)) => *a == *b,
            (Value::Number(Number::Int(a)), Value::Number(Number::Int(b))) => *a == *b,
            (Value::Number(Number::Float(a)), Value::Number(Number::Float(b))) => *a == *b,
            (Value::String(a), Value::String(b)) => *a == *b,
            (Value::Array(a), Value::Array(b)) => {
                proof {
                    lemma_array_view(*a);
                    lemma_array_view(*b);
                }
                same_values(a, b)
            },
            (Value::Object(a), Value::Object(b)) => {
                proof {
                    lemma_object_view(*a);
                    lemma_object_view(*b);
                }
                same_entries(a, b)
            },
            _ => false,
        }
    }
}

/// Whether two sequences of values are structurally equal.
pub fn same_values(a: &Vec<Value>, b: &Vec<Value>) -> (r: bool)
    ensures
        r == (vals(a@) == vals(b@)),
    decreases a,
{
    if a.len() != b.len() {
        assert(vals(a@).len() != vals(b@).len());
        return false;
    }
    let mut i: usize = 0;
    while i < a.len()
        invariant
            a@.len() == b@.len(),
            i <= a@.len(),
            forall|j: int| 0 <= j < i ==> a@[j]@ == b@[j]@,
        decreases a@.len() - i,
    {
        proof {
            vstd::std_specs::vec::axiom_vec_index_decreases(*a, i as int);
        }
        if !a[i].same(&b[i]) {
            assert(vals(a@)[i as int] != vals(b@)[i as int]);
            return false;
        }
        i = i + 1;
    }
    assert(vals(a@) =~= vals(b@));
    true
}

/// Whether two sequences of object entries are structurally equal.
pub fn same_entries(a: &Vec<(String, Value)>, b: &Vec<(String, Value)>) -> (r: bool)
    ensures
        r == (entries(a@) == entries(b@)),
    decreases a,
{
    if a.len() != b.len() {
        assert(entries(a@).len() != entries(b@).len());
        return false;
    }
    let mut i: usize = 0;
    while i < a.len()
        invariant
            a@.len() == b@.len(),
            i <= a@.len(),
            forall|j: int| 0 <= j < i ==> a@[j].0@ == b@[j].0@ && a@[j].1@ == b@[j].1@,
        decreases a@.len() - i,
    {
        proof {
            vstd::std_specs::vec::axiom_vec_index_decreases(*a, i as int);
        }
        if a[i].0 != b[i].0 {
            assert(entries(a@)[i as int] != entries(b@)[i as int]);
            return false;
        }
        if !a[i].1.same(&b[i].1) {
            assert(entries(a@)[i as int] != entries(b@)[i as int]);
            return false;
        }
        i = i + 1;
    }
    assert(entries(a@) =~= entries(b@));
    true
}

/// A deep copy of a sequence of values.
pub fn copy_values(a: &Vec<Value>) -> (r: Vec<Value>)
    ensures
        vals(r@) == vals(a@),
    decreases a,
{
    let mut r: Vec<Value> = Vec::new();
    let mut i: usize = 0;
    while i < a.len()
        invariant
            i <= a@.len(),
            r@.len() == i,
            forall|j: int| 0 <= j < i ==> r@[j]@ == a@[j]@,
        decreases a@.len() - i,
    {
        proof {
            vstd::std_specs::vec::axiom_vec_index_decreases(*a, i as int);
        }
        let c = a[i].copy();
        r.push(c);
        i = i + 1;

    }
    assert(vals(r@) =~= vals(a@));
    r
}

/// A deep copy of a sequence of object entries.
pub fn copy_entries(o: &Vec<(String, Value)>) -> (r: Vec<(String, Value)>)
    ensures
        entries(r@) == entries(o@),
    decreases o,
{
    let mut r: Vec<(String, Value)> = Vec::new();
    let mut i: usize = 0;
    while i < o.len()
        invariant
            i <= o@.len(),
            r@.len() == i,
            forall|j: int| 0 <= j < i ==> r@[j].0@ == o@[j].0@ && r@[j].1@ == o@[j].1@,
        decreases o@.len() - i,
    {
        proof {
            vstd::std_specs::vec::axiom_vec_index_decreases(*o, i as int);
        }
        let c = (o[i].0.clone(), o[i].1.copy());
        r.push(c);
        i = i + 1;

    }
    assert(entries(r@) =~= entries(o@));
    r
}

/// The position of key `k` in the entries `o`, if present.
pub fn find_key(o: &Vec<(String, Value)>, k: &String) -> (r: Option<usize>)
    ensures
        r matches Some(i) ==> i as int == index_of(entries(o@), k@),
        r is None ==> index_of(entries(o@), k@) == -1,
{
    let ghost e = entries(o@);
    let mut i: usize = 0;
    while i < o.len()
        invariant
            e == entries(o@),
            i <= o@.len(),
            index_of(e, k@) == index_from(e, k@, i as int),
        decreases o@.len() - i,
    {
        assert(e[i as int].0 == o@[i as int].0@);
        if o[i].0 == *k {
            return Some(i);
        }
        i = i + 1;
    }
    None
}

/// The value stored under `k` in the entries `o`, if present.
pub fn get_entry<'a>(o: &'a Vec<(String, Value)>, k: &String) -> (r: Option<&'a Value>)
    ensures
        r matches Some(v) ==> lookup(entries(o@), k@) == Some(v@),
        r is None ==> lookup(entries(o@), k@) is None,
{
    proof {
        lemma_index_of(entries(o@), k@);
    }
    match find_key(o, k) {
        Some(i) => Some(&o[i].1),
        None => None,
    }
}

/// Stores `v` under `k`: an existing entry keeps its place, a new one goes last.
pub fn set_key(o: &mut Vec<(String, Value)>, k: String, v: Value)
    ensures
        entries(final(o)@) == set_entry(entries(old(o)@), k@, v@),
{
    proof {
        lemma_index_of(entries(o@), k@);
    }
    match find_key(o, &k) {
        Some(i) => {
            o.set(i, (k, v));
            assert(entries(o@) =~= set_entry(entries(old(o)@), k@, v@));
        },
        None => {
            o.push((k, v));
            assert(entries(o@) =~= set_entry(entries(old(o)@), k@, v@));
        },
    }
}

/// Stores every entry of `b` into `o`, in order; later entries win.
pub fn extend_entries(o: &mut Vec<(String, Value)>, b: &Vec<(String, Value)>)
    ensures
        entries(final(o)@) == extend(entries(old(o)@), entries(b@)),
{
    let mut i: usize = 0;
    while i < b.len()
        invariant
            i <= b@.len(),
            entries(o@) == extend(entries(old(o)@), entries(b@).subrange(0, i as int)),
        decreases b@.len() - i,
    {
        set_key(o, b[i].0.clone(), b[i].1.copy());
        proof {
            let s = entries(b@).subrange(0, i + 1);
            assert(s.drop_last() =~= entries(b@).subrange(0, i as int));
        }
        i = i + 1;
    }
    assert(entries(b@).subrange(0, b@.len() as int) =~= entries(b@));
}

} // verus!
