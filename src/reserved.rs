//! Resolution of the reserved variable blocks (`locals`, `const`, `var`,
//! `let`, `vars`) of a document, before it is evaluated.
use vstd::prelude::*;
use vstd::string::StringExecFns;
use crate::value::{
    copy_entries, entries, extend, extend_entries, find_key, get_entry, has_key, lemma_index_of,
    lemma_extend, lemma_object_view, lookup, unique_keys, Entry, Val, Value,
};

verus! {

/// Why the reserved blocks could not be resolved.
pub enum ResolveError {
    /// The document's root is not an object.
    InvalidRoot,
    /// A `var`, `let` or `vars` block redefines keys of the `const` block.
    ConstOverride { block: String, keys: Vec<String> },
    /// A `vars` block redefines keys already defined by `const`, `var` or `let`.
    Conflict { keys: Vec<String> },
}

/// The variables bound before evaluation: `local` holds the `locals` block as
/// written, `var` the merged `const`, `var`, `let` and `vars` blocks.
pub struct Bindings {
    pub local: Option<Vec<(String, Value)>>,
    pub var: Option<Vec<(String, Value)>>,
}

/// The entries of the object block `name` of a root object, or none when the
/// block is absent or not an object.
pub open spec fn block(root: Seq<Entry>, name: Seq<char>) -> Seq<Entry> {
    match lookup(root, name) {
        Some(Val::Object(e)) => e,
        _ => Seq::empty(),
    }
}

/// The keys of `b`, in order, that `against` also holds.
pub open spec fn conflicts(b: Seq<Entry>, against: Seq<Entry>) -> Seq<Seq<char>>
    decreases b.len(),
{
    if b.len() == 0 {
        Seq::empty()
    } else if has_key(against, b.last().0) {
        conflicts(b.drop_last(), against).push(b.last().0)
    } else {
        conflicts(b.drop_last(), against)
    }
}

/// `const` followed by `var` and `let`, later entries overwriting earlier ones.
pub open spec fn merged_before_vars(root: Seq<Entry>) -> Seq<Entry> {
    extend(extend(block(root, "const"@), block(root, "var"@)), block(root, "let"@))
}

/// All variable blocks merged into one.
pub open spec fn merged(root: Seq<Entry>) -> Seq<Entry> {
    extend(merged_before_vars(root), block(root, "vars"@))
}

/// The model of a list of strings.
pub open spec fn texts(ks: Seq<String>) -> Seq<Seq<char>> {
    Seq::new(ks.len(), |i: int| ks[i]@)
}

/// Whether `e` is the const-override error for `block` with `keys`.
pub open spec fn is_const_override(e: ResolveError, block: Seq<char>, keys: Seq<Seq<char>>) -> bool {
    match e {
        ResolveError::ConstOverride { block: b, keys: k } => b@ == block && texts(k@) == keys,
        _ => false,
    }
}

/// The outcome of resolution on a root object, as a specification.
pub open spec fn resolution_ok(root: Seq<Entry>) -> bool {
    let c = block(root, "const"@);
    &&& conflicts(block(root, "var"@), c).len() == 0
    &&& conflicts(block(root, "let"@), c).len() == 0
    &&& conflicts(block(root, "vars"@), c).len() == 0
    &&& conflicts(block(root, "vars"@), merged_before_vars(root)).len() == 0
}

/// The entries of `root`'s object block `name`, when it is an object.
fn object_block<'a>(root: &'a Vec<(String, Value)>, name: &str) -> (r: Option<&'a Vec<(String, Value)>>)
    ensures
        r matches Some(o) ==> lookup(entries(root@), name@) == Some(Val::Object(entries(o@))),
        r is None ==> block(entries(root@), name@) == Seq::<Entry>::empty()
            && !(lookup(entries(root@), name@) matches Some(Val::Object(_))),
{
    let key = String::from_str(name);
    match get_entry(root, &key) {
        Some(Value::Object(o)) => {
            proof {
                lemma_object_view(*o);
            }
            Some(o)
        },
        _ => None,
    }
}

/// The entries of `root`'s object block `name`, or no entries.
fn block_of(root: &Vec<(String, Value)>, name: &str) -> (r: Vec<(String, Value)>)
    ensures
        entries(r@) == block(entries(root@), name@),
{
    match object_block(root, name) {
        Some(o) => copy_entries(o),
        None => {
            let r: Vec<(String, Value)> = Vec::new();
            assert(entries(r@) =~= Seq::<Entry>::empty());
            r
        },
    }
}

/// Whether the entries `o` hold key `k`.
pub fn contains_key(o: &Vec<(String, Value)>, k: &String) -> (r: bool)
    ensures
        r == has_key(entries(o@), k@),
{
    proof {
        lemma_index_of(entries(o@), k@);
    }
    find_key(o, k).is_some()
}

/// The keys of `b`, in order, that `against` also holds.
pub fn conflicting_keys(b: &Vec<(String, Value)>, against: &Vec<(String, Value)>) -> (r: Vec<String>)
    ensures
        texts(r@) == conflicts(entries(b@), entries(against@)),
{
    let mut r: Vec<String> = Vec::new();
    let mut i: usize = 0;
    while i < b.len()
        invariant
            i <= b@.len(),
            texts(r@) == conflicts(entries(b@).subrange(0, i as int), entries(against@)),
        decreases b@.len() - i,
    {
        let ghost pre = entries(b@).subrange(0, i + 1);
        assert(pre.drop_last() =~= entries(b@).subrange(0, i as int));
        if contains_key(against, &b[i].0) {
            r.push(b[i].0.clone());
            assert(texts(r@) =~= conflicts(pre, entries(against@)));
        }
        i = i + 1;
    }
    assert(entries(b@).subrange(0, b@.len() as int) =~= entries(b@));
    r
}

/// Resolves the reserved variable blocks of a parsed (not yet evaluated)
/// document.
///
/// The `const` block seeds the variables; `var` then `let` are merged in,
/// later entries overwriting earlier ones, but none may redefine a `const`
/// key; `vars` may redefine no key at all. `locals` is kept apart, as written.
pub fn resolve_variables(root: &Value) -> (r: Result<Bindings, ResolveError>)
    ensures
        !(root@ is Object) ==> r matches Err(ResolveError::InvalidRoot),
        root@ is Object ==> ({
            let doc = root@->Object_0;
            let c = block(doc, "const"@);
            let var_c = conflicts(block(doc, "var"@), c);
            let let_c = conflicts(block(doc, "let"@), c);
            let vars_c = conflicts(block(doc, "vars"@), c);
            let vars_m = conflicts(block(doc, "vars"@), merged_before_vars(doc));
            if var_c.len() > 0 {
                r is Err && is_const_override(r->Err_0, "var"@, var_c)
            } else if let_c.len() > 0 {
                r is Err && is_const_override(r->Err_0, "let"@, let_c)
            } else if vars_c.len() > 0 {
                r is Err && is_const_override(r->Err_0, "vars"@, vars_c)
            } else if vars_m.len() > 0 {
                r matches Err(ResolveError::Conflict { keys }) && texts(keys@) == vars_m
            } else {
                r matches Ok(b) && (match b.local {
                    Some(l) => lookup(doc, "locals"@) == Some(Val::Object(entries(l@))),
                    None => !(lookup(doc, "locals"@) matches Some(Val::Object(_))),
                }) && (match b.var {
                    Some(v) => entries(v@) == merged(doc) && merged(doc).len() > 0,
                    None => merged(doc).len() == 0,
                })
            }
        }),
{
    let doc = match root {
        Value::Object(o) => o,
        _ => return Err(ResolveError::InvalidRoot),
    };
    proof {
        lemma_object_view(*doc);
    }
    let local = match object_block(doc, "locals") {
        Some(l) => Some(copy_entries(l)),
        None => None,
    };
    let const_block = block_of(doc, "const");
    let var_block = block_of(doc, "var");
    let let_block = block_of(doc, "let");
    let vars_block = block_of(doc, "vars");

    let mut combined = copy_entries(&const_block);

    let var_c = conflicting_keys(&var_block, &const_block);
    if var_c.len() > 0 {
        return Err(ResolveError::ConstOverride { block: String::from_str("var"), keys: var_c });
    }
    extend_entries(&mut combined, &var_block);

    let let_c = conflicting_keys(&let_block, &const_block);
    if let_c.len() > 0 {
        return Err(ResolveError::ConstOverride { block: String::from_str("let"), keys: let_c });
    }
    extend_entries(&mut combined, &let_block);

    let vars_c = conflicting_keys(&vars_block, &const_block);
    if vars_c.len() > 0 {
        return Err(ResolveError::ConstOverride { block: String::from_str("vars"), keys: vars_c });
    }
    let vars_m = conflicting_keys(&vars_block, &combined);
    if vars_m.len() > 0 {
        return Err(ResolveError::Conflict { keys: vars_m });
    }
    extend_entries(&mut combined, &vars_block);

    let var = if combined.len() > 0 {
        Some(combined)
    } else {
        None
    };
    Ok(Bindings { local, var })
}

/// A key held by both `b` and `against` is reported as a conflict.
pub proof fn lemma_conflicts_contain(b: Seq<Entry>, against: Seq<Entry>, k: Seq<char>)
    requires
        has_key(b, k),
        has_key(against, k),
    ensures
        conflicts(b, against).contains(k),
    decreases b.len(),
{
    if b.last().0 == k {
        assert(conflicts(b, against).last() == k);
    } else {
        let j = choose|j: int| 0 <= j < b.len() && b[j].0 == k;
        assert(b.drop_last()[j].0 == k);
        lemma_conflicts_contain(b.drop_last(), against, k);
        let c = conflicts(b.drop_last(), against);
        let i = choose|i: int| 0 <= i < c.len() && c[i] == k;
        if has_key(against, b.last().0) {
            assert(conflicts(b, against)[i] == k);
        }
    }
}

/// A `const` key redefined by the `var` block is always reported against
/// `var`: resolution fails naming that block and that key.
pub proof fn lemma_const_redefined_in_var(doc: Seq<Entry>, k: Seq<char>)
    requires
        has_key(block(doc, "const"@), k),
        has_key(block(doc, "var"@), k),
    ensures
        conflicts(block(doc, "var"@), block(doc, "const"@)).contains(k),
        !resolution_ok(doc),
{
    lemma_conflicts_contain(block(doc, "var"@), block(doc, "const"@), k);
}

/// When resolution succeeds, every `const` entry reaches the merged variables
/// unchanged, and `vars` adds keys without replacing any.
pub proof fn lemma_resolution_keeps_const(doc: Seq<Entry>)
    requires
        resolution_ok(doc),
        unique_keys(block(doc, "const"@)),
    ensures
        forall|k: Seq<char>|
            has_key(block(doc, "const"@), k) ==> lookup(merged(doc), k) == lookup(block(doc, "const"@), k),
        forall|k: Seq<char>|
            has_key(merged_before_vars(doc), k) ==> lookup(merged(doc), k) == lookup(merged_before_vars(doc), k),
        forall|k: Seq<char>|
            has_key(merged(doc), k) <==> (has_key(merged_before_vars(doc), k) || has_key(block(doc, "vars"@), k)),
{
    let c = block(doc, "const"@);
    let v = block(doc, "var"@);
    let l = block(doc, "let"@);
    let vs = block(doc, "vars"@);
    lemma_extend(c, v);
    lemma_extend(extend(c, v), l);
    lemma_extend(merged_before_vars(doc), vs);
    assert forall|k: Seq<char>| has_key(c, k) implies lookup(merged(doc), k) == lookup(c, k) by {
        if has_key(v, k) {
            lemma_conflicts_contain(v, c, k);
            assert(conflicts(v, c)[0] == conflicts(v, c)[0]);
        }
        if has_key(l, k) {
            lemma_conflicts_contain(l, c, k);
        }
        if has_key(vs, k) {
            lemma_conflicts_contain(vs, c, k);
        }
    }
    assert forall|k: Seq<char>| has_key(merged_before_vars(doc), k) implies lookup(merged(doc), k)
        == lookup(merged_before_vars(doc), k) by {
        if has_key(vs, k) {
            lemma_conflicts_contain(vs, merged_before_vars(doc), k);
        }
    }
}

} // verus!
