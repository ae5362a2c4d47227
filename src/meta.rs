//! The `meta` block of a document and the choice of the output format and
//! file name.
//!
//! The keys of `meta` are exposed to evaluation only as the nested `meta`
//! object; they are never flattened into top-level variables.
use vstd::prelude::*;
use vstd::string::StringExecFns;
use crate::text::{after_last, before_last, split_last};
use crate::value::{copy_entries, entries, get_entry, keys_of, lemma_object_view, lookup, Entry, Val, Value};

verus! {

/// Why the metadata could not be read.
pub enum MetaError {
    /// The document's root is not an object.
    InvalidRoot,
    /// The document has no `meta` object.
    MissingMeta,
}

impl MetaError {
    /// The HTTP status that reports this error.
    pub fn status(&self) -> (r: u16)
        ensures
            r == (match self {
                MetaError::InvalidRoot => 500u16,
                MetaError::MissingMeta => 404u16,
            }),
    {
        match self {
            MetaError::InvalidRoot => 500,
            MetaError::MissingMeta => 404,
        }
    }
}

/// What the `meta` block says about the output.
pub struct Metadata {
    /// Base name of the output file, from `meta.file`.
    pub file: Option<String>,
    /// Format hint: the extension of `meta.file`, else `meta.export`.
    pub export: Option<String>,
    /// For `kind = "docker"`, the keys of the top-level `services` object.
    pub services: Option<Vec<String>>,
    /// The `meta` block itself, bound as the variable `meta`.
    pub meta: Vec<(String, Value)>,
}

/// The string stored under `k` in `o`, if it is a string.
pub open spec fn str_field(o: Seq<Entry>, k: Seq<char>) -> Option<Seq<char>> {
    match lookup(o, k) {
        Some(Val::Str(s)) => Some(s),
        _ => None,
    }
}

/// The `meta` object of a document, if any.
pub open spec fn meta_block(doc: Seq<Entry>) -> Option<Seq<Entry>> {
    match lookup(doc, "meta"@) {
        Some(Val::Object(m)) => Some(m),
        _ => None,
    }
}

/// The service names exposed for a docker document, if any.
pub open spec fn services_of(doc: Seq<Entry>, m: Seq<Entry>) -> Option<Seq<Seq<char>>> {
    if str_field(m, "kind"@) == Some("docker"@) {
        match lookup(doc, "services"@) {
            Some(Val::Object(s)) => Some(keys_of(s)),
            _ => None,
        }
    } else {
        None
    }
}

/// The output base name given by `meta`.
pub open spec fn file_of(m: Seq<Entry>) -> Option<Seq<char>> {
    match str_field(m, "file"@) {
        Some(f) => Some(before_last(f, '.')),
        None => None,
    }
}

/// The format hint given by `meta`.
pub open spec fn export_of(m: Seq<Entry>) -> Option<Seq<char>> {
    match str_field(m, "file"@) {
        Some(f) => if after_last(f, '.') is Some {
            after_last(f, '.')
        } else {
            str_field(m, "export"@)
        },
        None => None,
    }
}

/// The model of an optional string.
pub open spec fn opt_text(s: Option<String>) -> Option<Seq<char>> {
    match s {
        Some(t) => Some(t@),
        None => None,
    }
}

/// The model of an optional list of strings.
pub open spec fn opt_texts(s: Option<Vec<String>>) -> Option<Seq<Seq<char>>> {
    match s {
        Some(t) => Some(Seq::new(t@.len(), |i: int| t@[i]@)),
        None => None,
    }
}

fn str_entry(o: &Vec<(String, Value)>, k: &str) -> (r: Option<String>)
    ensures
        opt_text(r) == str_field(entries(o@), k@),
{
    let key = String::from_str(k);
    match get_entry(o, &key) {
        Some(Value::String(s)) => Some(s.clone()),
        _ => None,
    }
}

/// The keys of an object, in order.
pub fn key_list(o: &Vec<(String, Value)>) -> (r: Vec<String>)
    ensures
        Seq::new(r@.len(), |i: int| r@[i]@) == keys_of(entries(o@)),
{
    let mut r: Vec<String> = Vec::new();
    let mut i: usize = 0;
    while i < o.len()
        invariant
            i <= o@.len(),
            r@.len() == i,
            forall|j: int| 0 <= j < i ==> r@[j]@ == o@[j].0@,
        decreases o@.len() - i,
    {
        r.push(o[i].0.clone());
        i = i + 1;
    }
    assert(Seq::new(r@.len(), |i: int| r@[i]@) =~= keys_of(entries(o@)));
    r
}

/// Reads the `meta` block of a parsed (not yet evaluated) document.
///
/// `meta.file` is split at its last `.` into the base name and the format
/// hint; without a `.` the whole value is the base name and `meta.export`
/// gives the hint. A document of kind `docker` also exposes the names of its
/// `services`.
pub fn resolve_meta(root: &Value) -> (r: Result<Metadata, MetaError>)
    ensures
        !(root@ is Object) ==> r matches Err(MetaError::InvalidRoot),
        root@ is Object ==> ({
            let doc = root@->Object_0;
            match meta_block(doc) {
                None => r matches Err(MetaError::MissingMeta),
                Some(m) => r matches Ok(md) && entries(md.meta@) == m && opt_text(md.file) == file_of(m)
                    && opt_text(md.export) == export_of(m) && opt_texts(md.services) == services_of(doc, m),
            }
        }),
{
    let doc = match root {
        Value::Object(o) => o,
        _ => return Err(MetaError::InvalidRoot),
    };
    proof {
        lemma_object_view(*doc);
    }
    let meta = match get_entry(doc, &String::from_str("meta")) {
        Some(Value::Object(m)) => m,
        _ => return Err(MetaError::MissingMeta),
    };
    proof {
        lemma_object_view(*meta);
    }
    let kind = str_entry(meta, "kind");
    let is_docker = match &kind {
        Some(k) => *k == String::from_str("docker"),
        None => false,
    };
    let services = if is_docker {
        match get_entry(doc, &String::from_str("services")) {
            Some(Value::Object(s)) => {
                proof {
                    lemma_object_view(*s);
                }
                Some(key_list(s))
            },
            _ => None,
        }
    } else {
        None
    };
    let (file, export) = match str_entry(meta, "file") {
        Some(path) => {
            let (name, ext) = split_last(path.as_str(), '.');
            match ext {
                Some(e) => (Some(name), Some(e)),
                None => (Some(name), str_entry(meta, "export")),
            }
        },
        None => (None, None),
    };
    Ok(Metadata { file, export, services, meta: copy_entries(meta) })
}

} // verus!
