//! The registry of built-in functions: their names, namespaces and
//! parameter types, the check of a call's arguments, and the dispatch to the
//! implementations.
use vstd::prelude::*;
use vstd::string::StringExecFns;
use crate::value::{vals, Val, Value};

verus! {

/// The type a parameter accepts.
#[derive(PartialEq, Eq, Structural, Clone, Copy, Debug)]
pub enum ParamType {
    Any,
    Bool,
    Number,
    String,
    Array,
    Object,
    /// A string, or null.
    Nullable,
}

/// Whether `v` has type `t`.
pub open spec fn has_type(v: Val, t: ParamType) -> bool {
    match t {
        ParamType::Any => true,
        ParamType::Bool => v is Bool,
        ParamType::Number => v is Int || v is Float,
        ParamType::String => v is Str,
        ParamType::Array => v is Array,
        ParamType::Object => v is Object,
        ParamType::Nullable => v is Str || v is Null,
    }
}

/// The built-in implementations.
#[derive(PartialEq, Eq, Structural, Clone, Copy, Debug)]
pub enum Builtin {
    Concat,
    ToVec,
    Length,
    Compact,
    TypeOf,
    Merge,
    Range,
    Reverse,
    Unique,
    Contains,
    Keys,
    Values,
    Split,
    Join,
    Flatten,
    Format,
    Upper,
    Lower,
    TrimSpace,
    Trim,
    TrimPrefix,
    TrimSuffix,
    ToString,
    Abs,
    ParseInt,
    Timestamp,
    TimeAdd,
    ParseDuration,
    FormatDate,
    Md5,
    Sha1,
    Sha256,
    Sha512,
    Bcrypt,
    Uuid,
    UuidV5,
    Base64Encode,
    Base64Decode,
    UrlEncode,
    UrlDecode,
    CidrNetmask,
    CidrRange,
    CidrHost,
    CidrSubnets,
    // Run by the host, which does the input, output or floating-point work.
    Sum,
    Max,
    Min,
    Ceil,
    Floor,
    ToNumber,
    JsonEncode,
    JsonDecode,
    YamlEncode,
    YamlDecode,
    File,
    FileMd5,
    FileSha1,
    FileSha256,
    FileSha512,
    HttpGet,
    HttpPost,
    HttpPostJson,
    HttpPut,
    SecretKv,
}

/// Whether the host runs this built-in rather than the library.
pub open spec fn host_run(b: Builtin) -> bool {
    match b {
        Builtin::Sum | Builtin::Max | Builtin::Min | Builtin::Ceil | Builtin::Floor | Builtin::ToNumber
        | Builtin::JsonEncode | Builtin::JsonDecode | Builtin::YamlEncode | Builtin::YamlDecode | Builtin::File
        | Builtin::FileMd5 | Builtin::FileSha1 | Builtin::FileSha256 | Builtin::FileSha512 | Builtin::HttpGet
        | Builtin::HttpPost | Builtin::HttpPostJson | Builtin::HttpPut | Builtin::SecretKv => true,
        _ => false,
    }
}

/// A declared function: its call name, optional namespace, parameter types
/// and implementation.
pub struct FuncDef {
    pub namespace: Option<String>,
    pub name: String,
    pub params: Vec<ParamType>,
    /// The type of any further arguments; none means no further arguments.
    pub variadic: Option<ParamType>,
    pub builtin: Builtin,
}

/// The model of an optional namespace.
pub open spec fn ns_view(ns: Option<String>) -> Option<Seq<char>> {
    match ns {
        Some(s) => Some(s@),
        None => None,
    }
}

impl FuncDef {
    /// The registry key: namespace and name.
    pub open spec fn key(&self) -> (Option<Seq<char>>, Seq<char>) {
        (ns_view(self.namespace), self.name@)
    }
}

/// Whether `args` fit the parameters of `def`: the fixed ones in number and
/// type, then any number of further arguments of the variadic type.
pub open spec fn args_fit(def: FuncDef, args: Seq<Val>) -> bool {
    let n = def.params@.len();
    &&& args.len() >= n
    &&& (def.variadic is None ==> args.len() == n)
    &&& forall|i: int| 0 <= i < n ==> has_type(#[trigger] args[i], def.params@[i])
    &&& def.variadic matches Some(t) ==> forall|i: int| n <= i < args.len() ==> has_type(#[trigger] args[i], t)
}

fn type_fits(v: &Value, t: ParamType) -> (r: bool)
    ensures
        r == has_type(v@, t),
{
    match (t, v) {
        (ParamType::Any, _) => true,
        (ParamType::Bool, Value::Bool(_)) => true,
        (ParamType::Number, Value::Number(_)) => true,
        (ParamType::String, Value::String(_)) => true,
        (ParamType::Array, Value::Array(_)) => true,
        (ParamType::Object, Value::Object(_)) => true,
        (ParamType::Nullable, Value::String(_)) => true,
        (ParamType::Nullable, Value::Null) => true,
        _ => false,
    }
}

/// Checks the arity and the argument types of a call.
pub fn check_args(def: &FuncDef, args: &Vec<Value>) -> (r: Result<(), String>)
    ensures
        r is Ok <==> args_fit(*def, vals(args@)),
{
    let n = def.params.len();
    if args.len() < n {
        return Err(String::from_str("too few arguments"));
    }
    if def.variadic.is_none() && args.len() > n {
        return Err(String::from_str("too many arguments"));
    }
    let mut i: usize = 0;
    while i < args.len()
        invariant
            n == def.params@.len(),
            args@.len() >= n,
            def.variadic is None ==> args@.len() == n,
            i <= args@.len(),
            forall|j: int| 0 <= j < i && j < n ==> has_type(#[trigger] vals(args@)[j], def.params@[j]),
            def.variadic matches Some(t) ==> forall|j: int| n <= j < i ==> has_type(#[trigger] vals(args@)[j], t),
        decreases args@.len() - i,
    {
        let t = if i < n {
            def.params[i]
        } else {
            match def.variadic {
                Some(t) => t,
                None => ParamType::Any,
            }
        };
        if !type_fits(&args[i], t) {
            assert(!has_type(vals(args@)[i as int], t));
            return Err(String::from_str("argument of the wrong type"));
        }
        i = i + 1;
    }
    Ok(())
}

/// Keys are unique.
pub open spec fn unique_names(defs: Seq<FuncDef>) -> bool {
    forall|i: int, j: int| 0 <= i < j < defs.len() ==> defs[i].key() != defs[j].key()
}

/// The built-in functions, by namespace and name.
pub struct Registry {
    pub defs: Vec<FuncDef>,
}

fn same_ns(a: &Option<String>, b: &Option<String>) -> (r: bool)
    ensures
        r == (ns_view(*a) == ns_view(*b)),
{
    match (a, b) {
        (Some(x), Some(y)) => *x == *y,
        (None, None) => true,
        _ => false,
    }
}

impl Registry {
    /// No two functions share a namespace and name.
    pub open spec fn wf(&self) -> bool {
        unique_names(self.defs@)
    }

    /// An empty registry.
    pub fn new() -> (r: Registry)
        ensures
            r.wf(),
            r.defs@.len() == 0,
    {
        Registry { defs: Vec::new() }
    }

    /// The position of the function `(namespace, name)`, if declared.
    pub fn find(&self, namespace: &Option<String>, name: &String) -> (r: Option<usize>)
        ensures
            r matches Some(i) ==> i < self.defs@.len() && self.defs@[i as int].key() == (ns_view(*namespace), name@),
            r is None ==> forall|i: int| 0 <= i < self.defs@.len() ==> self.defs@[i].key() != (ns_view(*namespace), name@),
    {
        let mut i: usize = 0;
        while i < self.defs.len()
            invariant
                i <= self.defs@.len(),
                forall|j: int| 0 <= j < i ==> self.defs@[j].key() != (ns_view(*namespace), name@),
            decreases self.defs@.len() - i,
        {
            if same_ns(&self.defs[i].namespace, namespace) && self.defs[i].name == *name {
                return Some(i);
            }
            i = i + 1;
        }
        None
    }

    /// Declares `def`, replacing a function of the same namespace and name.
    pub fn declare(&mut self, def: FuncDef)
        requires
            old(self).wf(),
        ensures
            final(self).wf(),
            exists|i: int| 0 <= i < final(self).defs@.len() && final(self).defs@[i] == def,
            forall|i: int| 0 <= i < old(self).defs@.len() && old(self).defs@[i].key() != def.key() ==> exists|j: int|
                0 <= j < final(self).defs@.len() && final(self).defs@[j] == old(self).defs@[i],
            forall|j: int| 0 <= j < final(self).defs@.len() ==> final(self).defs@[j] == def || exists|i: int|
                0 <= i < old(self).defs@.len() && #[trigger] old(self).defs@[i] == final(self).defs@[j],
    {
        match self.find(&def.namespace, &def.name) {
            Some(i) => {
                let ghost prev = self.defs@;
                self.defs.set(i, def);
                assert(self.defs@[i as int] == def);
                assert forall|j: int| 0 <= j < self.defs@.len() && self.defs@[j] != def implies exists|k: int|
                    0 <= k < prev.len() && #[trigger] prev[k] == self.defs@[j] by {
                    assert(prev[j] == self.defs@[j]);
                }
                assert forall|k: int| 0 <= k < prev.len() && prev[k].key() != def.key() implies exists|j: int|
                    0 <= j < self.defs@.len() && self.defs@[j] == prev[k] by {
                    assert(self.defs@[k] == prev[k]);
                }
            },
            None => {
                let ghost prev = self.defs@;
                self.defs.push(def);
                assert(self.defs@[prev.len() as int] == def);
                assert forall|j: int| 0 <= j < self.defs@.len() && self.defs@[j] != def implies exists|k: int|
                    0 <= k < prev.len() && #[trigger] prev[k] == self.defs@[j] by {
                    assert(prev[j] == self.defs@[j]);
                }
                assert forall|k: int| 0 <= k < prev.len() && prev[k].key() != def.key() implies exists|j: int|
                    0 <= j < self.defs@.len() && self.defs@[j] == prev[k] by {
                    assert(self.defs@[k] == prev[k]);
                }
            },
        }
    }

    /// The function `(namespace, name)`, if declared.
    pub fn lookup(&self, namespace: &Option<String>, name: &String) -> (r: Option<&FuncDef>)
        ensures
            r matches Some(d) ==> d.key() == (ns_view(*namespace), name@) && self.defs@.contains(*d),
            r is None ==> forall|i: int| 0 <= i < self.defs@.len() ==> self.defs@[i].key() != (ns_view(*namespace), name@),
    {
        match self.find(namespace, name) {
            Some(i) => {
                assert(self.defs@[i as int] == self.defs@[i as int]);
                Some(&self.defs[i])
            },
            None => None,
        }
    }
}

/// Whether `a` comes before `b` in the order of character codes.
pub open spec fn text_lt(a: Seq<char>, b: Seq<char>) -> bool
    decreases a.len(),
{
    if b.len() == 0 {
        false
    } else if a.len() == 0 {
        true
    } else if (a[0] as u32) < (b[0] as u32) {
        true
    } else if a[0] == b[0] {
        text_lt(a.drop_first(), b.drop_first())
    } else {
        false
    }
}

proof fn lemma_text_lt_transitive(a: Seq<char>, b: Seq<char>, c: Seq<char>)
    requires
        text_lt(a, b),
        text_lt(b, c),
    ensures
        text_lt(a, c),
    decreases a.len(),
{
    if a.len() > 0 && b.len() > 0 && c.len() > 0 && a[0] == b[0] && b[0] == c[0] {
        lemma_text_lt_transitive(a.drop_first(), b.drop_first(), c.drop_first());
    }
}

proof fn lemma_text_lt_irreflexive(a: Seq<char>)
    ensures
        !text_lt(a, a),
    decreases a.len(),
{
    if a.len() > 0 {
        lemma_text_lt_irreflexive(a.drop_first());
    }
}

/// The order of registry keys: bare names first, then by namespace and name.
pub open spec fn key_lt(x: (Option<Seq<char>>, Seq<char>), y: (Option<Seq<char>>, Seq<char>)) -> bool {
    match (x.0, y.0) {
        (None, Some(_)) => true,
        (Some(_), None) => false,
        (None, None) => text_lt(x.1, y.1),
        (Some(p), Some(q)) => text_lt(p, q) || (p == q && text_lt(x.1, y.1)),
    }
}

proof fn lemma_key_lt_transitive(x: (Option<Seq<char>>, Seq<char>), y: (Option<Seq<char>>, Seq<char>), z: (Option<Seq<char>>, Seq<char>))
    requires
        key_lt(x, y),
        key_lt(y, z),
    ensures
        key_lt(x, z),
{
    match (x.0, y.0, z.0) {
        (None, None, None) => lemma_text_lt_transitive(x.1, y.1, z.1),
        (Some(p), Some(q), Some(t)) => {
            if text_lt(p, q) && text_lt(q, t) {
                lemma_text_lt_transitive(p, q, t);
            } else if p == q && q == t {
                lemma_text_lt_transitive(x.1, y.1, z.1);
            }
        },
        _ => {},
    }
}

proof fn lemma_key_lt_distinct(x: (Option<Seq<char>>, Seq<char>), y: (Option<Seq<char>>, Seq<char>))
    requires
        key_lt(x, y),
    ensures
        x != y,
{
    lemma_text_lt_irreflexive(x.1);
    if let Some(p) = x.0 {
        lemma_text_lt_irreflexive(p);
    }
}

/// One declaration of the catalogue: namespace, name, parameter types,
/// variadic type and implementation.
pub type CatalogueEntry = (Option<Seq<char>>, Seq<char>, Seq<ParamType>, Option<ParamType>, Builtin);

/// The number of functions in the catalogue.
pub const CATALOGUE_LEN: usize = 66;

/// The catalogue of built-in functions, ordered by key.
pub open spec fn catalogue_entry(i: int) -> CatalogueEntry {
    if i == 0 {
        (None, "abs"@, seq![ParamType::Number], None, Builtin::Abs)
    } else if i == 1 {
        (None, "ceil"@, seq![ParamType::Number], None, Builtin::Ceil)
    } else if i == 2 {
        (None, "compact"@, seq![ParamType::Object], None, Builtin::Compact)
    } else if i == 3 {
        (None, "concat"@, seq![], Some(ParamType::String), Builtin::Concat)
    } else if i == 4 {
        (None, "contains"@, seq![ParamType::Any, ParamType::Any], None, Builtin::Contains)
    } else if i == 5 {
        (None, "flatten"@, seq![ParamType::Array], None, Builtin::Flatten)
    } else if i == 6 {
        (None, "floor"@, seq![ParamType::Number], None, Builtin::Floor)
    } else if i == 7 {
        (None, "format"@, seq![], Some(ParamType::Any), Builtin::Format)
    } else if i == 8 {
        (None, "join"@, seq![ParamType::Array, ParamType::String], None, Builtin::Join)
    } else if i == 9 {
        (None, "length"@, seq![ParamType::Any], None, Builtin::Length)
    } else if i == 10 {
        (None, "list"@, seq![], Some(ParamType::Any), Builtin::ToVec)
    } else if i == 11 {
        (None, "max"@, seq![ParamType::Array], None, Builtin::Max)
    } else if i == 12 {
        (None, "merge"@, seq![], Some(ParamType::Object), Builtin::Merge)
    } else if i == 13 {
        (None, "min"@, seq![ParamType::Array], None, Builtin::Min)
    } else if i == 14 {
        (None, "number"@, seq![ParamType::Any], None, Builtin::ToNumber)
    } else if i == 15 {
        (None, "parseint"@, seq![ParamType::String], None, Builtin::ParseInt)
    } else if i == 16 {
        (None, "range"@, seq![ParamType::Number, ParamType::Number], None, Builtin::Range)
    } else if i == 17 {
        (None, "reverse"@, seq![ParamType::Any], None, Builtin::Reverse)
    } else if i == 18 {
        (None, "set"@, seq![ParamType::Array], None, Builtin::Unique)
    } else if i == 19 {
        (None, "split"@, seq![ParamType::String, ParamType::String], None, Builtin::Split)
    } else if i == 20 {
        (None, "string"@, seq![ParamType::Any], None, Builtin::ToString)
    } else if i == 21 {
        (None, "sum"@, seq![ParamType::Array], None, Builtin::Sum)
    } else if i == 22 {
        (None, "tuple"@, seq![], Some(ParamType::Any), Builtin::ToVec)
    } else if i == 23 {
        (None, "type_of"@, seq![ParamType::Any], None, Builtin::TypeOf)
    } else if i == 24 {
        (None, "unique"@, seq![ParamType::Array], None, Builtin::Unique)
    } else if i == 25 {
        (None, "uuid"@, seq![], None, Builtin::Uuid)
    } else if i == 26 {
        (None, "uuidv5"@, seq![ParamType::String, ParamType::String], None, Builtin::UuidV5)
    } else if i == 27 {
        (Some("cidr"@), "host"@, seq![ParamType::String, ParamType::Number], None, Builtin::CidrHost)
    } else if i == 28 {
        (Some("cidr"@), "netmask"@, seq![ParamType::String], None, Builtin::CidrNetmask)
    } else if i == 29 {
        (Some("cidr"@), "range"@, seq![ParamType::String], None, Builtin::CidrRange)
    } else if i == 30 {
        (Some("cidr"@), "subnets"@, seq![ParamType::String, ParamType::Number], None, Builtin::CidrSubnets)
    } else if i == 31 {
        (Some("date"@), "duration"@, seq![ParamType::String], None, Builtin::ParseDuration)
    } else if i == 32 {
        (Some("date"@), "format"@, seq![ParamType::String, ParamType::Number], None, Builtin::FormatDate)
    } else if i == 33 {
        (Some("date"@), "timeadd"@, seq![ParamType::Number, ParamType::String], None, Builtin::TimeAdd)
    } else if i == 34 {
        (Some("date"@), "timestamp"@, seq![], None, Builtin::Timestamp)
    } else if i == 35 {
        (Some("decode"@), "base64"@, seq![ParamType::String], None, Builtin::Base64Decode)
    } else if i == 36 {
        (Some("decode"@), "json"@, seq![ParamType::String], None, Builtin::JsonDecode)
    } else if i == 37 {
        (Some("decode"@), "url"@, seq![ParamType::String], None, Builtin::UrlDecode)
    } else if i == 38 {
        (Some("decode"@), "yaml"@, seq![ParamType::String], None, Builtin::YamlDecode)
    } else if i == 39 {
        (Some("encode"@), "base64"@, seq![ParamType::String], None, Builtin::Base64Encode)
    } else if i == 40 {
        (Some("encode"@), "json"@, seq![ParamType::Any], None, Builtin::JsonEncode)
    } else if i == 41 {
        (Some("encode"@), "url"@, seq![ParamType::String], None, Builtin::UrlEncode)
    } else if i == 42 {
        (Some("encode"@), "yaml"@, seq![ParamType::Any], None, Builtin::YamlEncode)
    } else if i == 43 {
        (Some("fs"@), "md5"@, seq![ParamType::String], None, Builtin::FileMd5)
    } else if i == 44 {
        (Some("fs"@), "read"@, seq![ParamType::String], None, Builtin::File)
    } else if i == 45 {
        (Some("fs"@), "sha1"@, seq![ParamType::String], None, Builtin::FileSha1)
    } else if i == 46 {
        (Some("fs"@), "sha256"@, seq![ParamType::String], None, Builtin::FileSha256)
    } else if i == 47 {
        (Some("fs"@), "sha512"@, seq![ParamType::String], None, Builtin::FileSha512)
    } else if i == 48 {
        (Some("hash"@), "bcrypt"@, seq![ParamType::String], None, Builtin::Bcrypt)
    } else if i == 49 {
        (Some("hash"@), "md5"@, seq![ParamType::String], None, Builtin::Md5)
    } else if i == 50 {
        (Some("hash"@), "sha1"@, seq![ParamType::String], None, Builtin::Sha1)
    } else if i == 51 {
        (Some("hash"@), "sha256"@, seq![ParamType::String], None, Builtin::Sha256)
    } else if i == 52 {
        (Some("hash"@), "sha512"@, seq![ParamType::String], None, Builtin::Sha512)
    } else if i == 53 {
        (Some("http"@), "get"@, seq![ParamType::String], Some(ParamType::Any), Builtin::HttpGet)
    } else if i == 54 {
        (Some("http"@), "post"@, seq![ParamType::String, ParamType::String], Some(ParamType::Any), Builtin::HttpPost)
    } else if i == 55 {
        (Some("http"@), "post_json"@, seq![ParamType::String, ParamType::Any], Some(ParamType::Any), Builtin::HttpPostJson)
    } else if i == 56 {
        (Some("http"@), "put"@, seq![ParamType::String, ParamType::String], Some(ParamType::Any), Builtin::HttpPut)
    } else if i == 57 {
        (Some("map"@), "keys"@, seq![ParamType::Object], None, Builtin::Keys)
    } else if i == 58 {
        (Some("map"@), "values"@, seq![ParamType::Object], None, Builtin::Values)
    } else if i == 59 {
        (Some("secret"@), "kv"@, seq![ParamType::String], Some(ParamType::Nullable), Builtin::SecretKv)
    } else if i == 60 {
        (Some("str"@), "lower"@, seq![ParamType::String], None, Builtin::Lower)
    } else if i == 61 {
        (Some("str"@), "trim"@, seq![ParamType::String, ParamType::String], None, Builtin::Trim)
    } else if i == 62 {
        (Some("str"@), "trimprefix"@, seq![ParamType::String, ParamType::String], None, Builtin::TrimPrefix)
    } else if i == 63 {
        (Some("str"@), "trimspace"@, seq![ParamType::String], None, Builtin::TrimSpace)
    } else if i == 64 {
        (Some("str"@), "trimsuffix"@, seq![ParamType::String, ParamType::String], None, Builtin::TrimSuffix)
    } else if i == 65 {
        (Some("str"@), "upper"@, seq![ParamType::String], None, Builtin::Upper)
    } else {
        (None, Seq::empty(), Seq::empty(), None, Builtin::Concat)
    }
}

/// The registry key of catalogue entry `i`.
pub open spec fn entry_key(i: int) -> (Option<Seq<char>>, Seq<char>) {
    (catalogue_entry(i).0, catalogue_entry(i).1)
}

/// Whether `d` is the declaration `e`.
pub open spec fn def_is(d: FuncDef, e: CatalogueEntry) -> bool {
    &&& d.key() == (e.0, e.1)
    &&& d.params@ == e.2
    &&& d.variadic == e.3
    &&& d.builtin == e.4
}

proof fn lemma_catalogue_sorted()
    ensures
        forall|i: int| 0 <= i < CATALOGUE_LEN - 1 ==> key_lt(#[trigger] entry_key(i), entry_key(i + 1)),
{
    assert(key_lt(entry_key(0), entry_key(1))) by {
        reveal_with_fuel(text_lt, 12); reveal_strlit("abs"); reveal_strlit("ceil");
    }
    assert(key_lt(entry_key(1), entry_key(2))) by {
        reveal_with_fuel(text_lt, 12); reveal_strlit("ceil"); reveal_strlit("compact");
    }
    assert(key_lt(entry_key(2), entry_key(3))) by {
        reveal_with_fuel(text_lt, 12); reveal_strlit("compact"); reveal_strlit("concat");
    }
    assert(key_lt(entry_key(3), entry_key(4))) by {
        reveal_with_fuel(text_lt, 12); reveal_strlit("concat"); reveal_strlit("contains");
    }
    assert(key_lt(entry_key(4), entry_key(5))) by {
        reveal_with_fuel(text_lt, 12); reveal_strlit("contains"); reveal_strlit("flatten");
    }
    assert(key_lt(entry_key(5), entry_key(6))) by {
        reveal_with_fuel(text_lt, 12); reveal_strlit("flatten"); reveal_strlit("floor");
    }
    assert(key_lt(entry_key(6), entry_key(7))) by {
        reveal_with_fuel(text_lt, 12); reveal_strlit("floor"); reveal_strlit("format");
    }
    assert(key_lt(entry_key(7), entry_key(8))) by {
        reveal_with_fuel(text_lt, 12); reveal_strlit("format"); reveal_strlit("join");
    }
    assert(key_lt(entry_key(8), entry_key(9))) by {
        reveal_with_fuel(text_lt, 12); reveal_strlit("join"); reveal_strlit("length");
    }
    assert(key_lt(entry_key(9), entry_key(10))) by {
        reveal_with_fuel(text_lt, 12); reveal_strlit("length"); reveal_strlit("list");
    }
    assert(key_lt(entry_key(10), entry_key(11))) by {
        reveal_with_fuel(text_lt, 12); reveal_strlit("list"); reveal_strlit("max");
    }
    assert(key_lt(entry_key(11), entry_key(12))) by {
        reveal_with_fuel(text_lt, 12); reveal_strlit("max"); reveal_strlit("merge");
    }
    assert(key_lt(entry_key(12), entry_key(13))) by {
        reveal_with_fuel(text_lt, 12); reveal_strlit("merge"); reveal_strlit("min");
    }
    assert(key_lt(entry_key(13), entry_key(14))) by {
        reveal_with_fuel(text_lt, 12); reveal_strlit("min"); reveal_strlit("number");
    }
    assert(key_lt(entry_key(14), entry_key(15))) by {
        reveal_with_fuel(text_lt, 12); reveal_strlit("number"); reveal_strlit("parseint");
    }
    assert(key_lt(entry_key(15), entry_key(16))) by {
        reveal_with_fuel(text_lt, 12); reveal_strlit("parseint"); reveal_strlit("range");
    }
    assert(key_lt(entry_key(16), entry_key(17))) by {
        reveal_with_fuel(text_lt, 12); reveal_strlit("range"); reveal_strlit("reverse");
    }
    assert(key_lt(entry_key(17), entry_key(18))) by {
        reveal_with_fuel(text_lt, 12); reveal_strlit("reverse"); reveal_strlit("set");
    }
    assert(key_lt(entry_key(18), entry_key(19))) by {
        reveal_with_fuel(text_lt, 12); reveal_strlit("set"); reveal_strlit("split");
    }
    assert(key_lt(entry_key(19), entry_key(20))) by {
        reveal_with_fuel(text_lt, 12); reveal_strlit("split"); reveal_strlit("string");
    }
    assert(key_lt(entry_key(20), entry_key(21))) by {
        reveal_with_fuel(text_lt, 12); reveal_strlit("string"); reveal_strlit("sum");
    }
    assert(key_lt(entry_key(21), entry_key(22))) by {
        reveal_with_fuel(text_lt, 12); reveal_strlit("sum"); reveal_strlit("tuple");
    }
    assert(key_lt(entry_key(22), entry_key(23))) by {
        reveal_with_fuel(text_lt, 12); reveal_strlit("tuple"); reveal_strlit("type_of");
    }
    assert(key_lt(entry_key(23), entry_key(24))) by {
        reveal_with_fuel(text_lt, 12); reveal_strlit("type_of"); reveal_strlit("unique");
    }
    assert(key_lt(entry_key(24), entry_key(25))) by {
        reveal_with_fuel(text_lt, 12); reveal_strlit("unique"); reveal_strlit("uuid");
    }
    assert(key_lt(entry_key(25), entry_key(26))) by {
        reveal_with_fuel(text_lt, 12); reveal_strlit("uuid"); reveal_strlit("uuidv5");
    }
    assert(key_lt(entry_key(26), entry_key(27))) by {
        reveal_with_fuel(text_lt, 12); reveal_strlit("cidr"); reveal_strlit("host"); reveal_strlit("uuidv5");
    }
    assert(key_lt(entry_key(27), entry_key(28))) by {
        reveal_with_fuel(text_lt, 12); reveal_strlit("cidr"); reveal_strlit("host"); reveal_strlit("netmask");
    }
    assert(key_lt(entry_key(28), entry_key(29))) by {
        reveal_with_fuel(text_lt, 12); reveal_strlit("cidr"); reveal_strlit("netmask"); reveal_strlit("range");
    }
    assert(key_lt(entry_key(29), entry_key(30))) by {
        reveal_with_fuel(text_lt, 12); reveal_strlit("cidr"); reveal_strlit("range"); reveal_strlit("subnets");
    }
    assert(key_lt(entry_key(30), entry_key(31))) by {
        reveal_with_fuel(text_lt, 12); reveal_strlit("cidr"); reveal_strlit("date"); reveal_strlit("duration"); reveal_strlit("subnets");
    }
    assert(key_lt(entry_key(31), entry_key(32))) by {
        reveal_with_fuel(text_lt, 12); reveal_strlit("date"); reveal_strlit("duration"); reveal_strlit("format");
    }
    assert(key_lt(entry_key(32), entry_key(33))) by {
        reveal_with_fuel(text_lt, 12); reveal_strlit("date"); reveal_strlit("format"); reveal_strlit("timeadd");
    }
    assert(key_lt(entry_key(33), entry_key(34))) by {
        reveal_with_fuel(text_lt, 12); reveal_strlit("date"); reveal_strlit("timeadd"); reveal_strlit("timestamp");
    }
    assert(key_lt(entry_key(34), entry_key(35))) by {
        reveal_with_fuel(text_lt, 12); reveal_strlit("base64"); reveal_strlit("date"); reveal_strlit("decode"); reveal_strlit("timestamp");
    }
    assert(key_lt(entry_key(35), entry_key(36))) by {
        reveal_with_fuel(text_lt, 12); reveal_strlit("base64"); reveal_strlit("decode"); reveal_strlit("json");
    }
    assert(key_lt(entry_key(36), entry_key(37))) by {
        reveal_with_fuel(text_lt, 12); reveal_strlit("decode"); reveal_strlit("json"); reveal_strlit("url");
    }
    assert(key_lt(entry_key(37), entry_key(38))) by {
        reveal_with_fuel(text_lt, 12); reveal_strlit("decode"); reveal_strlit("url"); reveal_strlit("yaml");
    }
    assert(key_lt(entry_key(38), entry_key(39))) by {
        reveal_with_fuel(text_lt, 12); reveal_strlit("base64"); reveal_strlit("decode"); reveal_strlit("encode"); reveal_strlit("yaml");
    }
    assert(key_lt(entry_key(39), entry_key(40))) by {
        reveal_with_fuel(text_lt, 12); reveal_strlit("base64"); reveal_strlit("encode"); reveal_strlit("json");
    }
    assert(key_lt(entry_key(40), entry_key(41))) by {
        reveal_with_fuel(text_lt, 12); reveal_strlit("encode"); reveal_strlit("json"); reveal_strlit("url");
    }
    assert(key_lt(entry_key(41), entry_key(42))) by {
        reveal_with_fuel(text_lt, 12); reveal_strlit("encode"); reveal_strlit("url"); reveal_strlit("yaml");
    }
    assert(key_lt(entry_key(42), entry_key(43))) by {
        reveal_with_fuel(text_lt, 12); reveal_strlit("encode"); reveal_strlit("fs"); reveal_strlit("md5"); reveal_strlit("yaml");
    }
    assert(key_lt(entry_key(43), entry_key(44))) by {
        reveal_with_fuel(text_lt, 12); reveal_strlit("fs"); reveal_strlit("md5"); reveal_strlit("read");
    }
    assert(key_lt(entry_key(44), entry_key(45))) by {
        reveal_with_fuel(text_lt, 12); reveal_strlit("fs"); reveal_strlit("read"); reveal_strlit("sha1");
    }
    assert(key_lt(entry_key(45), entry_key(46))) by {
        reveal_with_fuel(text_lt, 12); reveal_strlit("fs"); reveal_strlit("sha1"); reveal_strlit("sha256");
    }
    assert(key_lt(entry_key(46), entry_key(47))) by {
        reveal_with_fuel(text_lt, 12); reveal_strlit("fs"); reveal_strlit("sha256"); reveal_strlit("sha512");
    }
    assert(key_lt(entry_key(47), entry_key(48))) by {
        reveal_with_fuel(text_lt, 12); reveal_strlit("bcrypt"); reveal_strlit("fs"); reveal_strlit("hash"); reveal_strlit("sha512");
    }
    assert(key_lt(entry_key(48), entry_key(49))) by {
        reveal_with_fuel(text_lt, 12); reveal_strlit("bcrypt"); reveal_strlit("hash"); reveal_strlit("md5");
    }
    assert(key_lt(entry_key(49), entry_key(50))) by {
        reveal_with_fuel(text_lt, 12); reveal_strlit("hash"); reveal_strlit("md5"); reveal_strlit("sha1");
    }
    assert(key_lt(entry_key(50), entry_key(51))) by {
        reveal_with_fuel(text_lt, 12); reveal_strlit("hash"); reveal_strlit("sha1"); reveal_strlit("sha256");
    }
    assert(key_lt(entry_key(51), entry_key(52))) by {
        reveal_with_fuel(text_lt, 12); reveal_strlit("hash"); reveal_strlit("sha256"); reveal_strlit("sha512");
    }
    assert(key_lt(entry_key(52), entry_key(53))) by {
        reveal_with_fuel(text_lt, 12); reveal_strlit("get"); reveal_strlit("hash"); reveal_strlit("http"); reveal_strlit("sha512");
    }
    assert(key_lt(entry_key(53), entry_key(54))) by {
        reveal_with_fuel(text_lt, 12); reveal_strlit("get"); reveal_strlit("http"); reveal_strlit("post");
    }
    assert(key_lt(entry_key(54), entry_key(55))) by {
        reveal_with_fuel(text_lt, 12); reveal_strlit("http"); reveal_strlit("post"); reveal_strlit("post_json");
    }
    assert(key_lt(entry_key(55), entry_key(56))) by {
        reveal_with_fuel(text_lt, 12); reveal_strlit("http"); reveal_strlit("post_json"); reveal_strlit("put");
    }
    assert(key_lt(entry_key(56), entry_key(57))) by {
        reveal_with_fuel(text_lt, 12); reveal_strlit("http"); reveal_strlit("keys"); reveal_strlit("map"); reveal_strlit("put");
    }
    assert(key_lt(entry_key(57), entry_key(58))) by {
        reveal_with_fuel(text_lt, 12); reveal_strlit("keys"); reveal_strlit("map"); reveal_strlit("values");
    }
    assert(key_lt(entry_key(58), entry_key(59))) by {
        reveal_with_fuel(text_lt, 12); reveal_strlit("kv"); reveal_strlit("map"); reveal_strlit("secret"); reveal_strlit("values");
    }
    assert(key_lt(entry_key(59), entry_key(60))) by {
        reveal_with_fuel(text_lt, 12); reveal_strlit("kv"); reveal_strlit("lower"); reveal_strlit("secret"); reveal_strlit("str");
    }
    assert(key_lt(entry_key(60), entry_key(61))) by {
        reveal_with_fuel(text_lt, 12); reveal_strlit("lower"); reveal_strlit("str"); reveal_strlit("trim");
    }
    assert(key_lt(entry_key(61), entry_key(62))) by {
        reveal_with_fuel(text_lt, 12); reveal_strlit("str"); reveal_strlit("trim"); reveal_strlit("trimprefix");
    }
    assert(key_lt(entry_key(62), entry_key(63))) by {
        reveal_with_fuel(text_lt, 12); reveal_strlit("str"); reveal_strlit("trimprefix"); reveal_strlit("trimspace");
    }
    assert(key_lt(entry_key(63), entry_key(64))) by {
        reveal_with_fuel(text_lt, 12); reveal_strlit("str"); reveal_strlit("trimspace"); reveal_strlit("trimsuffix");
    }
    assert(key_lt(entry_key(64), entry_key(65))) by {
        reveal_with_fuel(text_lt, 12); reveal_strlit("str"); reveal_strlit("trimsuffix"); reveal_strlit("upper");
    }
}

/// No two catalogue entries share a key.
pub proof fn lemma_catalogue_distinct()
    ensures
        forall|i: int, j: int| 0 <= i < j < CATALOGUE_LEN ==> entry_key(i) != entry_key(j),
{
    lemma_catalogue_sorted();
    assert forall|i: int, j: int| 0 <= i < j < CATALOGUE_LEN implies entry_key(i) != entry_key(j) by {
        lemma_sorted_from(i, j);
        lemma_key_lt_distinct(entry_key(i), entry_key(j));
    }
}

proof fn lemma_sorted_from(i: int, j: int)
    requires
        0 <= i < j < CATALOGUE_LEN,
        forall|k: int| 0 <= k < CATALOGUE_LEN - 1 ==> key_lt(#[trigger] entry_key(k), entry_key(k + 1)),
    ensures
        key_lt(entry_key(i), entry_key(j)),
    decreases j - i,
{
    if j > i + 1 {
        lemma_sorted_from(i, j - 1);
        assert(key_lt(entry_key(j - 1), entry_key(j)));
        lemma_key_lt_transitive(entry_key(i), entry_key(j - 1), entry_key(j));
    }
}

/// The parameter list of up to two types.
fn params_of(first: Option<ParamType>, second: Option<ParamType>) -> (r: Vec<ParamType>)
    requires
        first is None ==> second is None,
    ensures
        r@ == match (first, second) {
            (Some(a), Some(b)) => seq![a, b],
            (Some(a), None) => seq![a],
            _ => Seq::empty(),
        },
{
    let mut r: Vec<ParamType> = Vec::new();
    if let Some(a) = first {
        r.push(a);
        if let Some(b) = second {
            r.push(b);
        }
    }
    assert(r@ =~= match (first, second) {
        (Some(a), Some(b)) => seq![a, b],
        (Some(a), None) => seq![a],
        _ => Seq::empty(),
    });
    r
}

fn entry(ns: Option<&str>, name: &str, params: Vec<ParamType>, variadic: Option<ParamType>, builtin: Builtin) -> (r: FuncDef)
    ensures
        r.name@ == name@,
        r.params@ == params@,
        r.variadic == variadic,
        r.builtin == builtin,
        ns_view(r.namespace) == match ns {
            Some(n) => Some(n@),
            None => None::<Seq<char>>,
        },
{
    let namespace = match ns {
        Some(n) => Some(String::from_str(n)),
        None => None,
    };
    FuncDef { namespace, name: String::from_str(name), params, variadic, builtin }
}

/// The registry of every built-in function: exactly the catalogue, in its
/// order. Bare names: `abs`, `ceil`, `compact`, `concat`, `contains`,
/// `flatten`, `floor`, `format`, `join`, `length`, `list`, `max`, `merge`,
/// `min`, `number`, `parseint`, `range`, `reverse`, `set`, `split`,
/// `string`, `sum`, `tuple`, `type_of`, `unique`, `uuid`, `uuidv5`;
/// namespaced ones under `cidr`, `date`, `decode`, `encode`, `fs`, `hash`,
/// `http`, `map`, `secret` and `str`.
#[verifier::rlimit(50)]
pub fn init() -> (r: Registry)
    ensures
        r.wf(),
        r.defs@.len() == CATALOGUE_LEN,
        forall|i: int| 0 <= i < CATALOGUE_LEN ==> #[trigger] def_is(r.defs@[i], catalogue_entry(i)),
{
    let mut defs: Vec<FuncDef> = Vec::new();
    defs.push(entry(None, "abs", params_of(Some(ParamType::Number), None), None, Builtin::Abs));
    assert(forall|k: int| 0 <= k < 1 ==> #[trigger] def_is(defs@[k], catalogue_entry(k)));
    defs.push(entry(None, "ceil", params_of(Some(ParamType::Number), None), None, Builtin::Ceil));
    assert(forall|k: int| 0 <= k < 2 ==> #[trigger] def_is(defs@[k], catalogue_entry(k)));
    defs.push(entry(None, "compact", params_of(Some(ParamType::Object), None), None, Builtin::Compact));
    assert(forall|k: int| 0 <= k < 3 ==> #[trigger] def_is(defs@[k], catalogue_entry(k)));
    defs.push(entry(None, "concat", params_of(None, None), Some(ParamType::String), Builtin::Concat));
    assert(forall|k: int| 0 <= k < 4 ==> #[trigger] def_is(defs@[k], catalogue_entry(k)));
    defs.push(entry(None, "contains", params_of(Some(ParamType::Any), Some(ParamType::Any)), None, Builtin::Contains));
    assert(forall|k: int| 0 <= k < 5 ==> #[trigger] def_is(defs@[k], catalogue_entry(k)));
    defs.push(entry(None, "flatten", params_of(Some(ParamType::Array), None), None, Builtin::Flatten));
    assert(forall|k: int| 0 <= k < 6 ==> #[trigger] def_is(defs@[k], catalogue_entry(k)));
    defs.push(entry(None, "floor", params_of(Some(ParamType::Number), None), None, Builtin::Floor));
    assert(forall|k: int| 0 <= k < 7 ==> #[trigger] def_is(defs@[k], catalogue_entry(k)));
    defs.push(entry(None, "format", params_of(None, None), Some(ParamType::Any), Builtin::Format));
    assert(forall|k: int| 0 <= k < 8 ==> #[trigger] def_is(defs@[k], catalogue_entry(k)));
    defs.push(entry(None, "join", params_of(Some(ParamType::Array), Some(ParamType::String)), None, Builtin::Join));
    assert(forall|k: int| 0 <= k < 9 ==> #[trigger] def_is(defs@[k], catalogue_entry(k)));
    defs.push(entry(None, "length", params_of(Some(ParamType::Any), None), None, Builtin::Length));
    assert(forall|k: int| 0 <= k < 10 ==> #[trigger] def_is(defs@[k], catalogue_entry(k)));
    defs.push(entry(None, "list", params_of(None, None), Some(ParamType::Any), Builtin::ToVec));
    assert(forall|k: int| 0 <= k < 11 ==> #[trigger] def_is(defs@[k], catalogue_entry(k)));
    defs.push(entry(None, "max", params_of(Some(ParamType::Array), None), None, Builtin::Max));
    assert(forall|k: int| 0 <= k < 12 ==> #[trigger] def_is(defs@[k], catalogue_entry(k)));
    defs.push(entry(None, "merge", params_of(None, None), Some(ParamType::Object), Builtin::Merge));
    assert(forall|k: int| 0 <= k < 13 ==> #[trigger] def_is(defs@[k], catalogue_entry(k)));
    defs.push(entry(None, "min", params_of(Some(ParamType::Array), None), None, Builtin::Min));
    assert(forall|k: int| 0 <= k < 14 ==> #[trigger] def_is(defs@[k], catalogue_entry(k)));
    defs.push(entry(None, "number", params_of(Some(ParamType::Any), None), None, Builtin::ToNumber));
    assert(forall|k: int| 0 <= k < 15 ==> #[trigger] def_is(defs@[k], catalogue_entry(k)));
    defs.push(entry(None, "parseint", params_of(Some(ParamType::String), None), None, Builtin::ParseInt));
    assert(forall|k: int| 0 <= k < 16 ==> #[trigger] def_is(defs@[k], catalogue_entry(k)));
    defs.push(entry(None, "range", params_of(Some(ParamType::Number), Some(ParamType::Number)), None, Builtin::Range));
    assert(forall|k: int| 0 <= k < 17 ==> #[trigger] def_is(defs@[k], catalogue_entry(k)));
    defs.push(entry(None, "reverse", params_of(Some(ParamType::Any), None), None, Builtin::Reverse));
    assert(forall|k: int| 0 <= k < 18 ==> #[trigger] def_is(defs@[k], catalogue_entry(k)));
    defs.push(entry(None, "set", params_of(Some(ParamType::Array), None), None, Builtin::Unique));
    assert(forall|k: int| 0 <= k < 19 ==> #[trigger] def_is(defs@[k], catalogue_entry(k)));
    defs.push(entry(None, "split", params_of(Some(ParamType::String), Some(ParamType::String)), None, Builtin::Split));
    assert(forall|k: int| 0 <= k < 20 ==> #[trigger] def_is(defs@[k], catalogue_entry(k)));
    defs.push(entry(None, "string", params_of(Some(ParamType::Any), None), None, Builtin::ToString));
    assert(forall|k: int| 0 <= k < 21 ==> #[trigger] def_is(defs@[k], catalogue_entry(k)));
    defs.push(entry(None, "sum", params_of(Some(ParamType::Array), None), None, Builtin::Sum));
    assert(forall|k: int| 0 <= k < 22 ==> #[trigger] def_is(defs@[k], catalogue_entry(k)));
    defs.push(entry(None, "tuple", params_of(None, None), Some(ParamType::Any), Builtin::ToVec));
    assert(forall|k: int| 0 <= k < 23 ==> #[trigger] def_is(defs@[k], catalogue_entry(k)));
    defs.push(entry(None, "type_of", params_of(Some(ParamType::Any), None), None, Builtin::TypeOf));
    assert(forall|k: int| 0 <= k < 24 ==> #[trigger] def_is(defs@[k], catalogue_entry(k)));
    defs.push(entry(None, "unique", params_of(Some(ParamType::Array), None), None, Builtin::Unique));
    assert(forall|k: int| 0 <= k < 25 ==> #[trigger] def_is(defs@[k], catalogue_entry(k)));
    defs.push(entry(None, "uuid", params_of(None, None), None, Builtin::Uuid));
    assert(forall|k: int| 0 <= k < 26 ==> #[trigger] def_is(defs@[k], catalogue_entry(k)));
    defs.push(entry(None, "uuidv5", params_of(Some(ParamType::String), Some(ParamType::String)), None, Builtin::UuidV5));
    assert(forall|k: int| 0 <= k < 27 ==> #[trigger] def_is(defs@[k], catalogue_entry(k)));
    defs.push(entry(Some("cidr"), "host", params_of(Some(ParamType::String), Some(ParamType::Number)), None, Builtin::CidrHost));
    assert(forall|k: int| 0 <= k < 28 ==> #[trigger] def_is(defs@[k], catalogue_entry(k)));
    defs.push(entry(Some("cidr"), "netmask", params_of(Some(ParamType::String), None), None, Builtin::CidrNetmask));
    assert(forall|k: int| 0 <= k < 29 ==> #[trigger] def_is(defs@[k], catalogue_entry(k)));
    defs.push(entry(Some("cidr"), "range", params_of(Some(ParamType::String), None), None, Builtin::CidrRange));
    assert(forall|k: int| 0 <= k < 30 ==> #[trigger] def_is(defs@[k], catalogue_entry(k)));
    defs.push(entry(Some("cidr"), "subnets", params_of(Some(ParamType::String), Some(ParamType::Number)), None, Builtin::CidrSubnets));
    assert(forall|k: int| 0 <= k < 31 ==> #[trigger] def_is(defs@[k], catalogue_entry(k)));
    defs.push(entry(Some("date"), "duration", params_of(Some(ParamType::String), None), None, Builtin::ParseDuration));
    assert(forall|k: int| 0 <= k < 32 ==> #[trigger] def_is(defs@[k], catalogue_entry(k)));
    defs.push(entry(Some("date"), "format", params_of(Some(ParamType::String), Some(ParamType::Number)), None, Builtin::FormatDate));
    assert(forall|k: int| 0 <= k < 33 ==> #[trigger] def_is(defs@[k], catalogue_entry(k)));
    defs.push(entry(Some("date"), "timeadd", params_of(Some(ParamType::Number), Some(ParamType::String)), None, Builtin::TimeAdd));
    assert(forall|k: int| 0 <= k < 34 ==> #[trigger] def_is(defs@[k], catalogue_entry(k)));
    defs.push(entry(Some("date"), "timestamp", params_of(None, None), None, Builtin::Timestamp));
    assert(forall|k: int| 0 <= k < 35 ==> #[trigger] def_is(defs@[k], catalogue_entry(k)));
    defs.push(entry(Some("decode"), "base64", params_of(Some(ParamType::String), None), None, Builtin::Base64Decode));
    assert(forall|k: int| 0 <= k < 36 ==> #[trigger] def_is(defs@[k], catalogue_entry(k)));
    defs.push(entry(Some("decode"), "json", params_of(Some(ParamType::String), None), None, Builtin::JsonDecode));
    assert(forall|k: int| 0 <= k < 37 ==> #[trigger] def_is(defs@[k], catalogue_entry(k)));
    defs.push(entry(Some("decode"), "url", params_of(Some(ParamType::String), None), None, Builtin::UrlDecode));
    assert(forall|k: int| 0 <= k < 38 ==> #[trigger] def_is(defs@[k], catalogue_entry(k)));
    defs.push(entry(Some("decode"), "yaml", params_of(Some(ParamType::String), None), None, Builtin::YamlDecode));
    assert(forall|k: int| 0 <= k < 39 ==> #[trigger] def_is(defs@[k], catalogue_entry(k)));
    defs.push(entry(Some("encode"), "base64", params_of(Some(ParamType::String), None), None, Builtin::Base64Encode));
    assert(forall|k: int| 0 <= k < 40 ==> #[trigger] def_is(defs@[k], catalogue_entry(k)));
    defs.push(entry(Some("encode"), "json", params_of(Some(ParamType::Any), None), None, Builtin::JsonEncode));
    assert(forall|k: int| 0 <= k < 41 ==> #[trigger] def_is(defs@[k], catalogue_entry(k)));
    defs.push(entry(Some("encode"), "url", params_of(Some(ParamType::String), None), None, Builtin::UrlEncode));
    assert(forall|k: int| 0 <= k < 42 ==> #[trigger] def_is(defs@[k], catalogue_entry(k)));
    defs.push(entry(Some("encode"), "yaml", params_of(Some(ParamType::Any), None), None, Builtin::YamlEncode));
    assert(forall|k: int| 0 <= k < 43 ==> #[trigger] def_is(defs@[k], catalogue_entry(k)));
    defs.push(entry(Some("fs"), "md5", params_of(Some(ParamType::String), None), None, Builtin::FileMd5));
    assert(forall|k: int| 0 <= k < 44 ==> #[trigger] def_is(defs@[k], catalogue_entry(k)));
    defs.push(entry(Some("fs"), "read", params_of(Some(ParamType::String), None), None, Builtin::File));
    assert(forall|k: int| 0 <= k < 45 ==> #[trigger] def_is(defs@[k], catalogue_entry(k)));
    defs.push(entry(Some("fs"), "sha1", params_of(Some(ParamType::String), None), None, Builtin::FileSha1));
    assert(forall|k: int| 0 <= k < 46 ==> #[trigger] def_is(defs@[k], catalogue_entry(k)));
    defs.push(entry(Some("fs"), "sha256", params_of(Some(ParamType::String), None), None, Builtin::FileSha256));
    assert(forall|k: int| 0 <= k < 47 ==> #[trigger] def_is(defs@[k], catalogue_entry(k)));
    defs.push(entry(Some("fs"), "sha512", params_of(Some(ParamType::String), None), None, Builtin::FileSha512));
    assert(forall|k: int| 0 <= k < 48 ==> #[trigger] def_is(defs@[k], catalogue_entry(k)));
    defs.push(entry(Some("hash"), "bcrypt", params_of(Some(ParamType::String), None), None, Builtin::Bcrypt));
    assert(forall|k: int| 0 <= k < 49 ==> #[trigger] def_is(defs@[k], catalogue_entry(k)));
    defs.push(entry(Some("hash"), "md5", params_of(Some(ParamType::String), None), None, Builtin::Md5));
    assert(forall|k: int| 0 <= k < 50 ==> #[trigger] def_is(defs@[k], catalogue_entry(k)));
    defs.push(entry(Some("hash"), "sha1", params_of(Some(ParamType::String), None), None, Builtin::Sha1));
    assert(forall|k: int| 0 <= k < 51 ==> #[trigger] def_is(defs@[k], catalogue_entry(k)));
    defs.push(entry(Some("hash"), "sha256", params_of(Some(ParamType::String), None), None, Builtin::Sha256));
    assert(forall|k: int| 0 <= k < 52 ==> #[trigger] def_is(defs@[k], catalogue_entry(k)));
    defs.push(entry(Some("hash"), "sha512", params_of(Some(ParamType::String), None), None, Builtin::Sha512));
    assert(forall|k: int| 0 <= k < 53 ==> #[trigger] def_is(defs@[k], catalogue_entry(k)));
    defs.push(entry(Some("http"), "get", params_of(Some(ParamType::String), None), Some(ParamType::Any), Builtin::HttpGet));
    assert(forall|k: int| 0 <= k < 54 ==> #[trigger] def_is(defs@[k], catalogue_entry(k)));
    defs.push(entry(Some("http"), "post", params_of(Some(ParamType::String), Some(ParamType::String)), Some(ParamType::Any), Builtin::HttpPost));
    assert(forall|k: int| 0 <= k < 55 ==> #[trigger] def_is(defs@[k], catalogue_entry(k)));
    defs.push(entry(Some("http"), "post_json", params_of(Some(ParamType::String), Some(ParamType::Any)), Some(ParamType::Any), Builtin::HttpPostJson));
    assert(forall|k: int| 0 <= k < 56 ==> #[trigger] def_is(defs@[k], catalogue_entry(k)));
    defs.push(entry(Some("http"), "put", params_of(Some(ParamType::String), Some(ParamType::String)), Some(ParamType::Any), Builtin::HttpPut));
    assert(forall|k: int| 0 <= k < 57 ==> #[trigger] def_is(defs@[k], catalogue_entry(k)));
    defs.push(entry(Some("map"), "keys", params_of(Some(ParamType::Object), None), None, Builtin::Keys));
    assert(forall|k: int| 0 <= k < 58 ==> #[trigger] def_is(defs@[k], catalogue_entry(k)));
    defs.push(entry(Some("map"), "values", params_of(Some(ParamType::Object), None), None, Builtin::Values));
    assert(forall|k: int| 0 <= k < 59 ==> #[trigger] def_is(defs@[k], catalogue_entry(k)));
    defs.push(entry(Some("secret"), "kv", params_of(Some(ParamType::String), None), Some(ParamType::Nullable), Builtin::SecretKv));
    assert(forall|k: int| 0 <= k < 60 ==> #[trigger] def_is(defs@[k], catalogue_entry(k)));
    defs.push(entry(Some("str"), "lower", params_of(Some(ParamType::String), None), None, Builtin::Lower));
    assert(forall|k: int| 0 <= k < 61 ==> #[trigger] def_is(defs@[k], catalogue_entry(k)));
    defs.push(entry(Some("str"), "trim", params_of(Some(ParamType::String), Some(ParamType::String)), None, Builtin::Trim));
    assert(forall|k: int| 0 <= k < 62 ==> #[trigger] def_is(defs@[k], catalogue_entry(k)));
    defs.push(entry(Some("str"), "trimprefix", params_of(Some(ParamType::String), Some(ParamType::String)), None, Builtin::TrimPrefix));
    assert(forall|k: int| 0 <= k < 63 ==> #[trigger] def_is(defs@[k], catalogue_entry(k)));
    defs.push(entry(Some("str"), "trimspace", params_of(Some(ParamType::String), None), None, Builtin::TrimSpace));
    assert(forall|k: int| 0 <= k < 64 ==> #[trigger] def_is(defs@[k], catalogue_entry(k)));
    defs.push(entry(Some("str"), "trimsuffix", params_of(Some(ParamType::String), Some(ParamType::String)), None, Builtin::TrimSuffix));
    assert(forall|k: int| 0 <= k < 65 ==> #[trigger] def_is(defs@[k], catalogue_entry(k)));
    defs.push(entry(Some("str"), "upper", params_of(Some(ParamType::String), None), None, Builtin::Upper));
    assert(forall|k: int| 0 <= k < 66 ==> #[trigger] def_is(defs@[k], catalogue_entry(k)));
    assert(defs@.len() == CATALOGUE_LEN);
    proof {
        lemma_catalogue_distinct();
        assert forall|i: int, j: int| 0 <= i < j < defs@.len() implies defs@[i].key() != defs@[j].key() by {
            assert(def_is(defs@[i], catalogue_entry(i)));
            assert(def_is(defs@[j], catalogue_entry(j)));
            assert(defs@[i].key() == entry_key(i));
            assert(defs@[j].key() == entry_key(j));
            assert(entry_key(i) != entry_key(j));
        }
    }
    Registry { defs }
}

/// What `call` gives for `b`: the result of that built-in, whose contract
/// holds of it; `None` for the built-ins that the host runs.
pub open spec fn call_result(b: Builtin, args: &Vec<Value>, r: Option<Result<Value, String>>) -> bool {
    match b {
        Builtin::Concat => r matches Some(x) && call_ensures(crate::strings::concat, (args,), x),
        Builtin::ToVec => r matches Some(x) && call_ensures(crate::collections::tovec, (args,), x),
        Builtin::Length => r matches Some(x) && call_ensures(crate::collections::length, (args,), x),
        Builtin::Compact => r matches Some(x) && call_ensures(crate::collections::compact, (args,), x),
        Builtin::TypeOf => r matches Some(x) && call_ensures(crate::collections::type_of, (args,), x),
        Builtin::Merge => r matches Some(x) && call_ensures(crate::collections::merge, (args,), x),
        Builtin::Range => r matches Some(x) && call_ensures(crate::collections::range, (args,), x),
        Builtin::Reverse => r matches Some(x) && call_ensures(crate::collections::reverse, (args,), x),
        Builtin::Unique => r matches Some(x) && call_ensures(crate::collections::unique, (args,), x),
        Builtin::Contains => r matches Some(x) && call_ensures(crate::collections::contains, (args,), x),
        Builtin::Keys => r matches Some(x) && call_ensures(crate::collections::keys, (args,), x),
        Builtin::Values => r matches Some(x) && call_ensures(crate::collections::values, (args,), x),
        Builtin::Split => r matches Some(x) && call_ensures(crate::strings::split, (args,), x),
        Builtin::Join => r matches Some(x) && call_ensures(crate::strings::join, (args,), x),
        Builtin::Flatten => r matches Some(x) && call_ensures(crate::collections::flatten, (args,), x),
        Builtin::Format => r matches Some(x) && call_ensures(crate::strings::format, (args,), x),
        Builtin::Upper => r matches Some(x) && call_ensures(crate::strings::upper, (args,), x),
        Builtin::Lower => r matches Some(x) && call_ensures(crate::strings::lower, (args,), x),
        Builtin::TrimSpace => r matches Some(x) && call_ensures(crate::strings::trimspace, (args,), x),
        Builtin::Trim => r matches Some(x) && call_ensures(crate::strings::trim, (args,), x),
        Builtin::TrimPrefix => r matches Some(x) && call_ensures(crate::strings::trimprefix, (args,), x),
        Builtin::TrimSuffix => r matches Some(x) && call_ensures(crate::strings::trimsuffix, (args,), x),
        Builtin::ToString => r matches Some(x) && call_ensures(crate::strings::tostring, (args,), x),
        Builtin::Abs => r matches Some(x) && call_ensures(crate::numbers::abs, (args,), x),
        Builtin::ParseInt => r matches Some(x) && call_ensures(crate::numbers::parseint, (args,), x),
        Builtin::Timestamp => r matches Some(x) && call_ensures(crate::date::timestamp, (args,), x),
        Builtin::TimeAdd => r matches Some(x) && call_ensures(crate::date::timeadd, (args,), x),
        Builtin::ParseDuration => r matches Some(x) && call_ensures(crate::date::parseduration, (args,), x),
        Builtin::FormatDate => r matches Some(x) && call_ensures(crate::date::formatdate, (args,), x),
        Builtin::Md5 => r matches Some(x) && call_ensures(crate::codec::md5_hash, (args,), x),
        Builtin::Sha1 => r matches Some(x) && call_ensures(crate::codec::sha1_hash, (args,), x),
        Builtin::Sha256 => r matches Some(x) && call_ensures(crate::codec::sha256_hash, (args,), x),
        Builtin::Sha512 => r matches Some(x) && call_ensures(crate::codec::sha512_hash, (args,), x),
        Builtin::Bcrypt => r matches Some(x) && call_ensures(crate::codec::bcrypt_hash, (args,), x),
        Builtin::Uuid => r matches Some(x) && call_ensures(crate::codec::uuid_gen, (args,), x),
        Builtin::UuidV5 => r matches Some(x) && call_ensures(crate::codec::uuidv5, (args,), x),
        Builtin::Base64Encode => r matches Some(x) && call_ensures(crate::codec::base64encode, (args,), x),
        Builtin::Base64Decode => r matches Some(x) && call_ensures(crate::codec::base64decode, (args,), x),
        Builtin::UrlEncode => r matches Some(x) && call_ensures(crate::codec::urlencode, (args,), x),
        Builtin::UrlDecode => r matches Some(x) && call_ensures(crate::codec::urldecode, (args,), x),
        Builtin::CidrNetmask => r matches Some(x) && call_ensures(crate::cidr::cidrnetmask, (args,), x),
        Builtin::CidrRange => r matches Some(x) && call_ensures(crate::cidr::cidrrange, (args,), x),
        Builtin::CidrHost => r matches Some(x) && call_ensures(crate::cidr::cidrhost, (args,), x),
        Builtin::CidrSubnets => r matches Some(x) && call_ensures(crate::cidr::cidrsubnets, (args,), x),
        _ => r is None,
    }
}

/// Runs a built-in on arguments that fit its declaration; `None` for the
/// built-ins that the host runs.
pub fn call(b: Builtin, args: &Vec<Value>) -> (r: Option<Result<Value, String>>)
    ensures
        r is None <==> host_run(b),
        call_result(b, args, r),
{
    match b {
        Builtin::Concat => Some(crate::strings::concat(args)),
        Builtin::ToVec => Some(crate::collections::tovec(args)),
        Builtin::Length => Some(crate::collections::length(args)),
        Builtin::Compact => Some(crate::collections::compact(args)),
        Builtin::TypeOf => Some(crate::collections::type_of(args)),
        Builtin::Merge => Some(crate::collections::merge(args)),
        Builtin::Range => Some(crate::collections::range(args)),
        Builtin::Reverse => Some(crate::collections::reverse(args)),
        Builtin::Unique => Some(crate::collections::unique(args)),
        Builtin::Contains => Some(crate::collections::contains(args)),
        Builtin::Keys => Some(crate::collections::keys(args)),
        Builtin::Values => Some(crate::collections::values(args)),
        Builtin::Split => Some(crate::strings::split(args)),
        Builtin::Join => Some(crate::strings::join(args)),
        Builtin::Flatten => Some(crate::collections::flatten(args)),
        Builtin::Format => Some(crate::strings::format(args)),
        Builtin::Upper => Some(crate::strings::upper(args)),
        Builtin::Lower => Some(crate::strings::lower(args)),
        Builtin::TrimSpace => Some(crate::strings::trimspace(args)),
        Builtin::Trim => Some(crate::strings::trim(args)),
        Builtin::TrimPrefix => Some(crate::strings::trimprefix(args)),
        Builtin::TrimSuffix => Some(crate::strings::trimsuffix(args)),
        Builtin::ToString => Some(crate::strings::tostring(args)),
        Builtin::Abs => Some(crate::numbers::abs(args)),
        Builtin::ParseInt => Some(crate::numbers::parseint(args)),
        Builtin::Timestamp => Some(crate::date::timestamp(args)),
        Builtin::TimeAdd => Some(crate::date::timeadd(args)),
        Builtin::ParseDuration => Some(crate::date::parseduration(args)),
        Builtin::FormatDate => Some(crate::date::formatdate(args)),
        Builtin::Md5 => Some(crate::codec::md5_hash(args)),
        Builtin::Sha1 => Some(crate::codec::sha1_hash(args)),
        Builtin::Sha256 => Some(crate::codec::sha256_hash(args)),
        Builtin::Sha512 => Some(crate::codec::sha512_hash(args)),
        Builtin::Bcrypt => Some(crate::codec::bcrypt_hash(args)),
        Builtin::Uuid => Some(crate::codec::uuid_gen(args)),
        Builtin::UuidV5 => Some(crate::codec::uuidv5(args)),
        Builtin::Base64Encode => Some(crate::codec::base64encode(args)),
        Builtin::Base64Decode => Some(crate::codec::base64decode(args)),
        Builtin::UrlEncode => Some(crate::codec::urlencode(args)),
        Builtin::UrlDecode => Some(crate::codec::urldecode(args)),
        Builtin::CidrNetmask => Some(crate::cidr::cidrnetmask(args)),
        Builtin::CidrRange => Some(crate::cidr::cidrrange(args)),
        Builtin::CidrHost => Some(crate::cidr::cidrhost(args)),
        Builtin::CidrSubnets => Some(crate::cidr::cidrsubnets(args)),
        _ => None,
    }
}

/// Checks a call against its declaration, then runs it.
pub fn invoke(def: &FuncDef, args: &Vec<Value>) -> (r: Option<Result<Value, String>>)
    ensures
        !args_fit(*def, vals(args@)) ==> r matches Some(Err(_)),
        args_fit(*def, vals(args@)) ==> (r is None <==> host_run(def.builtin)) && call_result(def.builtin, args, r),
{
    match check_args(def, args) {
        Ok(()) => call(def.builtin, args),
        Err(e) => Some(Err(e)),
    }
}

} // verus!
