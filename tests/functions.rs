use hcl_render::cidr::{cidrhost, cidrnetmask, cidrrange, cidrsubnets};
use hcl_render::codec::{
    base64decode, base64encode, bcrypt_hash, digest_hex, md5_hash, sha1_hash, sha256_hash, sha512_hash, urldecode,
    urlencode, uuid_gen, uuidv5, DigestKind,
};
use hcl_render::collections::{
    compact, contains, flatten, keys, length, merge, range, reverse, tovec, type_of, unique, values,
};
use hcl_render::date::{formatdate, parse_duration, parseduration, timeadd, timestamp};
use hcl_render::numbers::{abs, parseint, trunc_decimal};
use hcl_render::registry::{call, check_args, init, invoke, Builtin, FuncDef, ParamType};
use hcl_render::strings;
use hcl_render::strings::{join, lower, split, tostring, trim, trimprefix, trimspace, trimsuffix, upper};
use hcl_render::value::{Number, Value};

fn s(x: &str) -> Value {
    Value::String(x.to_string())
}

fn num(n: i64) -> Value {
    Value::Number(Number::Int(n))
}

fn float(t: &str) -> Value {
    Value::Number(Number::Float(t.to_string()))
}

fn obj(entries: Vec<(&str, Value)>) -> Value {
    Value::Object(entries.into_iter().map(|(k, v)| (k.to_string(), v)).collect())
}

fn text(v: &Value) -> String {
    match v {
        Value::String(t) => t.clone(),
        _ => panic!("expected a string"),
    }
}

fn texts(v: &Value) -> Vec<String> {
    match v {
        Value::Array(items) => items.iter().map(text).collect(),
        _ => panic!("expected an array"),
    }
}

fn ints(v: &Value) -> Vec<i64> {
    match v {
        Value::Array(items) => items
            .iter()
            .map(|i| match i {
                Value::Number(Number::Int(n)) => *n,
                _ => panic!("expected an integer"),
            })
            .collect(),
        _ => panic!("expected an array"),
    }
}

#[test]
fn range_is_half_open() {
    assert_eq!(ints(&range(&vec![num(0), num(5)]).unwrap()), vec![0, 1, 2, 3, 4]);
    assert_eq!(ints(&range(&vec![num(3), num(3)]).unwrap()), Vec::<i64>::new());
    assert_eq!(ints(&range(&vec![num(5), num(2)]).unwrap()), Vec::<i64>::new());
    assert!(range(&vec![s("a"), num(2)]).is_err());
}

#[test]
fn merge_later_wins() {
    let a = obj(vec![("a", num(1)), ("b", num(2))]);
    let b = obj(vec![("b", num(3)), ("c", num(4))]);
    let m = merge(&vec![a, b]).unwrap();
    assert!(m.same(&obj(vec![("a", num(1)), ("b", num(3)), ("c", num(4))])));
    assert!(merge(&vec![obj(vec![]), num(1)]).is_err());
    assert!(merge(&vec![]).unwrap().same(&obj(vec![])));
}

#[test]
fn format_truncates_integers() {
    let r = strings::format(&vec![s("%s-%d"), s("x"), float("3.9")]).unwrap();
    assert_eq!(text(&r), "x-3");
    let r = strings::format(&vec![s("%d"), float("-3.9")]).unwrap();
    assert_eq!(text(&r), "-3");
}

#[test]
fn format_specifiers_and_failures() {
    assert_eq!(text(&strings::format(&vec![s("100%%")]).unwrap()), "100%");
    assert_eq!(text(&strings::format(&vec![s("%f/%s"), float("2.5"), num(7)]).unwrap()), "2.5/7");
    assert_eq!(text(&strings::format(&vec![s("%s"), Value::Bool(true)]).unwrap()), "true");
    assert!(strings::format(&vec![s("%q"), num(1)]).is_err());
    assert!(strings::format(&vec![s("%d"), s("x")]).is_err());
    assert!(strings::format(&vec![s("%s %s"), s("x")]).is_err());
    assert!(strings::format(&vec![s("50%")]).is_err());
    assert!(strings::format(&vec![s("%d"), float("1e18")]).is_err());
    assert!(strings::format(&vec![s("%d"), float("3.0")]).is_err());
    assert!(strings::format(&vec![]).is_err());
}

#[test]
fn cidrsubnets_lists_ascending_subnets() {
    let r = cidrsubnets(&vec![s("10.0.0.0/24"), num(2)]).unwrap();
    assert_eq!(texts(&r), vec!["10.0.0.0/26", "10.0.0.64/26", "10.0.0.128/26", "10.0.0.192/26"]);
    assert!(cidrsubnets(&vec![s("10.0.0.0/24"), num(9)]).is_err());
    assert!(cidrsubnets(&vec![s("not a prefix"), num(1)]).is_err());
    let v6 = cidrsubnets(&vec![s("2001:db8::/32"), num(1)]).unwrap();
    assert_eq!(texts(&v6), vec!["2001:db8::/33", "2001:db8:8000::/33"]);
}

#[test]
fn cidr_mask_range_and_host() {
    assert_eq!(text(&cidrnetmask(&vec![s("10.1.9.32/16")]).unwrap()), "255.255.0.0");
    assert_eq!(text(&cidrnetmask(&vec![s("2001:db8::/32")]).unwrap()), "ffff:ffff::");
    assert_eq!(texts(&cidrrange(&vec![s("10.9.0.32/16")]).unwrap()), vec!["10.9.0.0", "10.9.255.255"]);
    assert_eq!(text(&cidrhost(&vec![s("10.0.0.0/24"), num(5)]).unwrap()), "10.0.0.5");
    assert!(cidrhost(&vec![s("255.255.255.0/24"), num(300)]).is_err());
}

#[test]
fn collection_functions() {
    assert_eq!(length(&vec![s("héllo")]).unwrap().same(&num(6)), true);
    assert!(length(&vec![Value::Array(vec![num(1), num(2)])]).unwrap().same(&num(2)));
    assert!(length(&vec![num(1)]).is_err());
    let c = compact(&vec![obj(vec![("a", Value::Null), ("b", num(1))])]).unwrap();
    assert!(c.same(&obj(vec![("b", num(1))])));
    let c = compact(&vec![Value::Array(vec![Value::Null, num(1), Value::Null])]).unwrap();
    assert!(c.same(&Value::Array(vec![num(1)])));
    assert_eq!(text(&type_of(&vec![Value::Null]).unwrap()), "null");
    assert_eq!(text(&type_of(&vec![float("1.5")]).unwrap()), "number");
    assert_eq!(text(&type_of(&vec![obj(vec![])]).unwrap()), "object");
    let u = unique(&vec![Value::Array(vec![num(1), s("a"), num(1), s("a"), num(2)])]).unwrap();
    assert!(u.same(&Value::Array(vec![num(1), s("a"), num(2)])));
    assert!(contains(&vec![Value::Array(vec![num(1), num(2)]), num(2)]).unwrap().same(&Value::Bool(true)));
    assert!(contains(&vec![s("haystack"), s("st")]).unwrap().same(&Value::Bool(true)));
    assert!(contains(&vec![s("haystack"), s("xy")]).unwrap().same(&Value::Bool(false)));
    assert!(contains(&vec![s("haystack"), num(1)]).is_err());
    let o = obj(vec![("x", num(1)), ("y", num(2))]);
    assert_eq!(texts(&keys(&vec![o.copy()]).unwrap()), vec!["x", "y"]);
    assert_eq!(ints(&values(&vec![o]).unwrap()), vec![1, 2]);
    let nested = Value::Array(vec![num(1), Value::Array(vec![num(2), Value::Array(vec![num(3)])]), s("z")]);
    let f = flatten(&vec![nested]).unwrap();
    assert!(f.same(&Value::Array(vec![num(1), num(2), num(3), s("z")])));
    assert_eq!(text(&reverse(&vec![s("abc")]).unwrap()), "cba");
    assert_eq!(ints(&reverse(&vec![Value::Array(vec![num(1), num(2)])]).unwrap()), vec![2, 1]);
    assert_eq!(ints(&tovec(&vec![num(4), num(5)]).unwrap()), vec![4, 5]);
}

#[test]
fn string_functions() {
    assert_eq!(text(&strings::concat(&vec![s("a"), s("b"), s("c")]).unwrap()), "abc");
    assert!(strings::concat(&vec![s("a"), num(1)]).is_err());
    assert_eq!(text(&join(&vec![Value::Array(vec![s("a"), num(1)]), s("-")]).unwrap()), "a-1");
    assert_eq!(texts(&split(&vec![s("a,b,,c"), s(",")]).unwrap()), vec!["a", "b", "", "c"]);
    assert_eq!(texts(&split(&vec![s("ab"), s("")]).unwrap()), vec!["", "a", "b", ""]);
    assert_eq!(text(&upper(&vec![s("abc")]).unwrap()), "ABC");
    assert_eq!(text(&lower(&vec![s("ABC")]).unwrap()), "abc");
    assert_eq!(text(&trimspace(&vec![s("  a b \n")]).unwrap()), "a b");
    assert_eq!(text(&trimspace(&vec![s("\u{3000}x\u{a0}\u{2009}")]).unwrap()), "x");
    assert_eq!(text(&trimspace(&vec![s(" \t ")]).unwrap()), "");
    assert_eq!(text(&trim(&vec![s("xxhixx"), s("x")]).unwrap()), "hi");
    assert_eq!(text(&trim(&vec![s("xxx"), s("x")]).unwrap()), "");
    assert_eq!(text(&trimprefix(&vec![s("prefix-body"), s("prefix-")]).unwrap()), "body");
    assert_eq!(text(&trimprefix(&vec![s("body"), s("prefix-")]).unwrap()), "body");
    assert_eq!(text(&trimsuffix(&vec![s("file.txt"), s(".txt")]).unwrap()), "file");
    assert_eq!(text(&tostring(&vec![Value::Array(vec![s("a"), num(2)])]).unwrap()), "[\"a\", 2]");
    assert_eq!(text(&tostring(&vec![obj(vec![("k", Value::Null)])]).unwrap()), "{k = null}");
}

#[test]
fn numeric_functions() {
    assert!(parseint(&vec![s("-42")]).unwrap().same(&num(-42)));
    assert!(parseint(&vec![s("+7")]).unwrap().same(&num(7)));
    assert!(parseint(&vec![s("4x")]).is_err());
    assert!(parseint(&vec![s("")]).is_err());
    assert!(parseint(&vec![s("9223372036854775808")]).is_err());
    assert!(parseint(&vec![s("-9223372036854775808")]).unwrap().same(&num(i64::MIN)));
    assert!(abs(&vec![num(-3)]).unwrap().same(&num(3)));
    assert!(abs(&vec![float("-2.5")]).unwrap().same(&float("2.5")));
    assert!(abs(&vec![s("x")]).is_err());
    assert_eq!(trunc_decimal("3.9"), 3);
    assert_eq!(trunc_decimal("-1.5e-7"), 0);
}

#[test]
fn durations_and_dates() {
    assert_eq!(parse_duration("1h30m").unwrap(), 5400);
    assert_eq!(parse_duration("2d").unwrap(), 172800);
    assert_eq!(parse_duration("").unwrap(), 0);
    assert!(parse_duration("10").is_err());
    assert!(parse_duration("5x").is_err());
    assert!(parse_duration("h").is_err());
    assert!(parseduration(&vec![s("90s")]).unwrap().same(&num(90)));
    assert!(timeadd(&vec![num(1000), s("1m")]).unwrap().same(&num(1060)));
    assert_eq!(text(&formatdate(&vec![s("%Y-%m-%d"), num(0)]).unwrap()), "1970-01-01");
}

#[test]
fn encodings_and_digests() {
    assert_eq!(text(&base64encode(&vec![s("hello")]).unwrap()), "aGVsbG8=");
    assert_eq!(text(&base64decode(&vec![s("aGVsbG8=")]).unwrap()), "hello");
    assert!(base64decode(&vec![s("!!!")]).is_err());
    assert!(base64decode(&vec![s("/w==")]).is_err());
    assert_eq!(text(&urlencode(&vec![s("a b/é")]).unwrap()), "a%20b%2F%C3%A9");
    assert_eq!(text(&urldecode(&vec![s("a%20b")]).unwrap()), "a b");
    assert_eq!(text(&md5_hash(&vec![s("abc")]).unwrap()), "900150983cd24fb0d6963f7d28e17f72");
    assert_eq!(text(&sha1_hash(&vec![s("abc")]).unwrap()), "a9993e364706816aba3e25717850c26c9cd0d89d");
    assert_eq!(
        text(&sha256_hash(&vec![s("abc")]).unwrap()),
        "ba7816bf8f01cfea414140de5dae2223b00361a396177a9cb410ff61f20015ad"
    );
    assert_eq!(text(&sha512_hash(&vec![s("")]).unwrap()).len(), 128);
    assert_eq!(digest_hex(DigestKind::Md5, b"abc"), "900150983cd24fb0d6963f7d28e17f72");
}

#[test]
fn uuidv5_is_deterministic() {
    let ns = s("6ba7b810-9dad-11d1-80b4-00c04fd430c8");
    let a = uuidv5(&vec![ns.copy(), s("example.com")]).unwrap();
    let b = uuidv5(&vec![ns, s("example.com")]).unwrap();
    assert_eq!(text(&a), text(&b));
    assert_eq!(text(&a), "cfbff0d1-9375-5685-968c-48ce8b15ae17");
    assert!(uuidv5(&vec![s("not-a-uuid"), s("x")]).is_err());
}

#[test]
fn uuids_differ() {
    let a = text(&uuid_gen(&vec![]).unwrap());
    let b = text(&uuid_gen(&vec![]).unwrap());
    assert_eq!(a.len(), 36);
    assert_eq!(&a[14..15], "4");
    assert_ne!(a, b);
}

#[test]
fn registry_checks_arity_and_types() {
    let r = init();
    assert_eq!(r.defs.len(), hcl_render::registry::CATALOGUE_LEN);
    let to_string = r.lookup(&None, &"string".to_string()).unwrap();
    assert!(matches!(to_string.builtin, Builtin::ToString));
    let to_number = r.lookup(&None, &"number".to_string()).unwrap();
    assert!(matches!(to_number.builtin, Builtin::ToNumber));
    let def = r.lookup(&None, &"range".to_string()).unwrap();
    assert!(check_args(def, &vec![num(0), num(2)]).is_ok());
    assert!(check_args(def, &vec![num(0)]).is_err());
    assert!(check_args(def, &vec![num(0), num(1), num(2)]).is_err());
    assert!(check_args(def, &vec![s("a"), num(1)]).is_err());
    let hashed = r.lookup(&Some("hash".to_string()), &"sha256".to_string()).unwrap();
    assert!(matches!(hashed.builtin, Builtin::Sha256));
    let merge_def = r.lookup(&None, &"merge".to_string()).unwrap();
    assert!(invoke(merge_def, &vec![obj(vec![]), obj(vec![])]).unwrap().is_ok());
    assert!(invoke(merge_def, &vec![num(1)]).unwrap().is_err());
    let read = r.lookup(&Some("fs".to_string()), &"read".to_string()).unwrap();
    assert!(invoke(read, &vec![s("/x")]).is_none());
    assert!(r.lookup(&Some("nope".to_string()), &"x".to_string()).is_none());
    let custom = FuncDef {
        namespace: None,
        name: "f".to_string(),
        params: vec![ParamType::String],
        variadic: Some(ParamType::Number),
        builtin: Builtin::Concat,
    };
    assert!(check_args(&custom, &vec![s("a"), num(1), float("2.5")]).is_ok());
    assert!(check_args(&custom, &vec![s("a"), s("b")]).is_err());
    assert!(call(Builtin::Upper, &vec![s("q")]).unwrap().is_ok());
}

#[test]
fn bcrypt_hash_verifies() {
    let h = text(&bcrypt_hash(&vec![s("secret")]).unwrap());
    assert!(h.starts_with("$2b$12$"));
    assert!(::bcrypt::verify("secret", &h).unwrap());
    assert!(bcrypt_hash(&vec![num(1)]).is_err());
}

#[test]
fn timestamp_is_current() {
    match timestamp(&vec![]).unwrap() {
        Value::Number(Number::Int(t)) => assert!(t > 1_600_000_000),
        _ => panic!("expected an integer"),
    }
    assert!(timeadd(&vec![num(0), s("1x")]).is_err());
    assert!(formatdate(&vec![num(0), num(0)]).is_err());
    assert!(timeadd(&vec![num(1_000_000_000_000_000_000), s("1s")]).is_err());
    assert!(timeadd(&vec![float("1e18"), s("1s")]).is_err());
}

#[test]
fn namespaced_functions_resolve() {
    let r = init();
    let subnets = r.lookup(&Some("cidr".to_string()), &"subnets".to_string()).unwrap();
    let out = invoke(subnets, &vec![s("192.168.0.0/16"), num(1)]).unwrap().unwrap();
    assert_eq!(texts(&out), vec!["192.168.0.0/17", "192.168.128.0/17"]);
    let keys_def = r.lookup(&Some("map".to_string()), &"keys".to_string()).unwrap();
    assert!(invoke(keys_def, &vec![num(1)]).unwrap().is_err());
    let set_def = r.lookup(&None, &"set".to_string()).unwrap();
    assert!(matches!(set_def.builtin, Builtin::Unique));
    let kv = r.lookup(&Some("secret".to_string()), &"kv".to_string()).unwrap();
    assert!(check_args(kv, &vec![s("path"), Value::Null]).is_ok());
    assert!(check_args(kv, &vec![s("path"), num(1)]).is_err());
}
