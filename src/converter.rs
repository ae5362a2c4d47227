//! A document on its way from source text to an output format: the variables
//! bound before evaluation, the output hints of its `meta` block, and the
//! clean-up and projection of the evaluated tree.
use vstd::prelude::*;
use vstd::string::StringExecFns;
use crate::meta::{export_of, file_of, meta_block, opt_text, opt_texts, resolve_meta, services_of, MetaError};
use crate::project::{all_valid, to_json, to_toml, to_yaml, toml_model, ProjectError, Tree};
use crate::reserved::{
    block, conflicts, is_const_override, merged, merged_before_vars, resolve_variables, texts, Bindings, ResolveError,
};
use crate::value::{entries, lemma_array_view, lemma_object_view, lookup, set_entry, set_key, vals, Entry, Val, Value};

verus! {

/// Whether `k` names a reserved block, removed from the rendered output.
pub open spec fn reserved_key(k: Seq<char>) -> bool {
    k == "meta"@ || k == "locals"@ || k == "const"@ || k == "let"@ || k == "var"@ || k == "vars"@
}

/// The entries whose keys are not reserved, in order.
pub open spec fn without_reserved(o: Seq<Entry>) -> Seq<Entry>
    decreases o.len(),
{
    if o.len() == 0 {
        Seq::empty()
    } else if reserved_key(o.last().0) {
        without_reserved(o.drop_last())
    } else {
        without_reserved(o.drop_last()).push(o.last())
    }
}

/// The evaluated document without its reserved blocks.
pub open spec fn stripped(v: Val) -> Val {
    match v {
        Val::Object(o) => Val::Object(without_reserved(o)),
        _ => v,
    }
}

/// A document being converted, with the variables declared for its
/// evaluation.
pub struct HclConverter {
    /// The document's source text.
    pub data: String,
    /// Base name of the output file, from `meta`.
    pub file: Option<String>,
    /// Format hint, from `meta`.
    pub export: Option<String>,
    /// The variables declared for evaluation, by name.
    pub vars: Vec<(String, Value)>,
}

impl HclConverter {
    /// A converter for the source text `input`, with no variables yet.
    pub fn new(input: &str) -> (r: HclConverter)
        ensures
            r.data@ == input@,
            r.file is None,
            r.export is None,
            r.vars@.len() == 0,
    {
        HclConverter { data: String::from_str(input), file: None, export: None, vars: Vec::new() }
    }

    /// Declares the variable `name`, replacing an earlier one of that name.
    pub fn declare(&mut self, name: &str, value: Value)
        ensures
            entries(final(self).vars@) == set_entry(entries(old(self).vars@), name@, value@),
            final(self).data == old(self).data,
            final(self).file == old(self).file,
            final(self).export == old(self).export,
    {
        set_key(&mut self.vars, String::from_str(name), value);
    }

    /// Resolves the reserved variable blocks of the parsed document `root`
    /// and declares `local` and `var`.
    pub fn fetch_locals(&mut self, root: &Value) -> (r: Result<(), ResolveError>)
        ensures
            final(self).data == old(self).data,
            final(self).file == old(self).file,
            final(self).export == old(self).export,
            !(root@ is Object) ==> r matches Err(ResolveError::InvalidRoot),
            root@ is Object ==> ({
                let doc = root@->Object_0;
                let c = block(doc, "const"@);
                let ok = conflicts(block(doc, "var"@), c).len() == 0 && conflicts(block(doc, "let"@), c).len() == 0
                    && conflicts(block(doc, "vars"@), c).len() == 0 && conflicts(
                    block(doc, "vars"@),
                    merged_before_vars(doc),
                ).len() == 0;
                let with_local = match lookup(doc, "locals"@) {
                    Some(Val::Object(l)) => set_entry(entries(old(self).vars@), "local"@, Val::Object(l)),
                    _ => entries(old(self).vars@),
                };
                let with_var = if merged(doc).len() > 0 {
                    set_entry(with_local, "var"@, Val::Object(merged(doc)))
                } else {
                    with_local
                };
                let var_c = conflicts(block(doc, "var"@), c);
                let let_c = conflicts(block(doc, "let"@), c);
                let vars_c = conflicts(block(doc, "vars"@), c);
                let vars_m = conflicts(block(doc, "vars"@), merged_before_vars(doc));
                &&& ok ==> r is Ok && entries(final(self).vars@) == with_var
                &&& var_c.len() > 0 ==> r is Err && is_const_override(r->Err_0, "var"@, var_c)
                &&& var_c.len() == 0 && let_c.len() > 0 ==> r is Err && is_const_override(r->Err_0, "let"@, let_c)
                &&& var_c.len() == 0 && let_c.len() == 0 && vars_c.len() > 0 ==> r is Err && is_const_override(
                    r->Err_0,
                    "vars"@,
                    vars_c,
                )
                &&& var_c.len() == 0 && let_c.len() == 0 && vars_c.len() == 0 && vars_m.len() > 0 ==> (r matches Err(
                    ResolveError::Conflict { keys },
                ) && texts(keys@) == vars_m)
            }),
            r is Err ==> final(self).vars == old(self).vars,
    {
        let b = resolve_variables(root)?;
        let Bindings { local, var } = b;
        match local {
            Some(l) => {
                proof {
                    lemma_object_view(l);
                }
                self.declare("local", Value::Object(l));
            },
            None => {},
        }
        match var {
            Some(v) => {
                proof {
                    lemma_object_view(v);
                }
                self.declare("var", Value::Object(v));
            },
            None => {},
        }
        Ok(())
    }

    /// Reads the `meta` block of the parsed document `root`: keeps its output
    /// hints, declares `meta`, and for a docker document declares `services`.
    pub fn fetch_meta(&mut self, root: &Value) -> (r: Result<(), MetaError>)
        ensures
            final(self).data == old(self).data,
            r is Err ==> final(self).vars == old(self).vars && final(self).file == old(self).file
                && final(self).export == old(self).export,
            !(root@ is Object) ==> r matches Err(MetaError::InvalidRoot),
            root@ is Object ==> ({
                let doc = root@->Object_0;
                match meta_block(doc) {
                    None => r matches Err(MetaError::MissingMeta),
                    Some(m) => {
                        let with_services = match services_of(doc, m) {
                            Some(s) => set_entry(
                                entries(old(self).vars@),
                                "services"@,
                                Val::Array(Seq::new(s.len(), |i: int| Val::Str(s[i]))),
                            ),
                            None => entries(old(self).vars@),
                        };
                        &&& r is Ok
                        &&& entries(final(self).vars@) == set_entry(with_services, "meta"@, Val::Object(m))
                        &&& file_of(m) is Some ==> opt_text(final(self).file) == file_of(m) && opt_text(
                            final(self).export,
                        ) == export_of(m)
                        &&& file_of(m) is None ==> final(self).file == old(self).file && final(self).export
                            == old(self).export
                    },
                }
            }),
    {
        let md = resolve_meta(root)?;
        match md.services {
            Some(names) => {
                let mut items: Vec<Value> = Vec::new();
                let mut i: usize = 0;
                while i < names.len()
                    invariant
                        i <= names@.len(),
                        items@.len() == i,
                        forall|j: int| 0 <= j < i ==> #[trigger] items@[j]@ == Val::Str(names@[j]@),
                    decreases names@.len() - i,
                {
                    items.push(Value::String(names[i].clone()));
                    i = i + 1;
                }
                proof {
                    lemma_array_view(items);
                    assert(vals(items@) =~= Seq::new(names@.len(), |i: int| Val::Str(names@[i]@)));
                    let s = opt_texts(Some(names))->Some_0;
                    assert(Seq::new(s.len(), |i: int| Val::Str(s[i])) =~= vals(items@));
                }
                self.declare("services", Value::Array(items));
            },
            None => {},
        }
        if md.file.is_some() {
            self.file = md.file;
            self.export = md.export;
        }
        proof {
            lemma_object_view(md.meta);
        }
        self.declare("meta", Value::Object(md.meta));
        Ok(())
    }

    /// The evaluated document `evaluated` without its reserved blocks
    /// (`meta`, `locals`, `const`, `let`, `var`, `vars`).
    pub fn result(&self, evaluated: &Value) -> (r: Value)
        ensures
            r@ == stripped(evaluated@),
    {
        match evaluated {
            Value::Object(o) => {
                proof {
                    lemma_object_view(*o);
                }
                let ghost e = entries(o@);
                let mut kept: Vec<(String, Value)> = Vec::new();
                let mut i: usize = 0;
                while i < o.len()
                    invariant
                        i <= o@.len(),
                        e == entries(o@),
                        entries(kept@) == without_reserved(e.subrange(0, i as int)),
                    decreases o@.len() - i,
                {
                    let ghost pre = e.subrange(0, i + 1);
                    proof {
                        assert(pre.drop_last() =~= e.subrange(0, i as int));
                        assert(pre.last() == (o@[i as int].0@, o@[i as int].1@));
                    }
                    let k = &o[i].0;
                    if !is_reserved(k) {
                        let ghost before = kept@;
                        kept.push((k.clone(), o[i].1.copy()));
                        proof {
                            assert(entries(kept@) =~= entries(before).push(pre.last()));
                        }
                    }
                    i = i + 1;
                }
                proof {
                    assert(e.subrange(0, o@.len() as int) =~= e);
                    lemma_object_view(kept);
                }
                Value::Object(kept)
            },
            _ => evaluated.copy(),
        }
    }

    /// The JSON model of the evaluated document, reserved blocks removed.
    pub fn to_json(&self, evaluated: &Value) -> (r: Result<Tree, ProjectError>)
        ensures
            all_valid(stripped(evaluated@)) ==> (r matches Ok(t) && t@ == stripped(evaluated@)),
            !all_valid(stripped(evaluated@)) ==> r is Err,
    {
        to_json(&self.result(evaluated))
    }

    /// The YAML model of the evaluated document, reserved blocks removed.
    pub fn to_yaml(&self, evaluated: &Value) -> (r: Result<Tree, ProjectError>)
        ensures
            all_valid(stripped(evaluated@)) ==> (r matches Ok(t) && t@ == stripped(evaluated@)),
            !all_valid(stripped(evaluated@)) ==> r is Err,
    {
        to_yaml(&self.result(evaluated))
    }

    /// The TOML model of the evaluated document, reserved blocks removed.
    pub fn to_toml(&self, evaluated: &Value) -> (r: Result<Tree, ProjectError>)
        ensures
            all_valid(stripped(evaluated@)) ==> (r matches Ok(t) && t@ == toml_model(stripped(evaluated@))),
            !all_valid(stripped(evaluated@)) ==> r is Err,
    {
        to_toml(&self.result(evaluated))
    }
}

/// Whether `k` names a reserved block.
pub fn is_reserved(k: &String) -> (r: bool)
    ensures
        r == reserved_key(k@),
{
    *k == String::from_str("meta") || *k == String::from_str("locals") || *k == String::from_str("const")
        || *k == String::from_str("let") || *k == String::from_str("var") || *k == String::from_str("vars")
}

} // verus!
