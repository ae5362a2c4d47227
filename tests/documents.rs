use hcl_render::converter::HclConverter;
use hcl_render::meta::{resolve_meta, MetaError};
use hcl_render::output::{content_disposition, select_output, Language, OutputError};
use hcl_render::project::{from_tree, is_float_text, to_json, to_toml, to_yaml, ProjectError, Tree};
use hcl_render::remote::{extract_secret, plan_request, secret_query, secret_url, Body, HttpCall, Method};
use hcl_render::reserved::{resolve_variables, ResolveError};
use hcl_render::value::{Number, Value};

fn s(x: &str) -> Value {
    Value::String(x.to_string())
}

fn num(n: i64) -> Value {
    Value::Number(Number::Int(n))
}

fn obj(entries: Vec<(&str, Value)>) -> Value {
    Value::Object(entries.into_iter().map(|(k, v)| (k.to_string(), v)).collect())
}

fn to_serde(t: &Tree) -> serde_json::Value {
    match t {
        Tree::Null => serde_json::Value::Null,
        Tree::Bool(b) => serde_json::Value::Bool(*b),
        Tree::Integer(n) => serde_json::Value::from(*n),
        Tree::Float(x) => serde_json::Value::from(x.parse::<f64>().unwrap()),
        Tree::Str(x) => serde_json::Value::String(x.clone()),
        Tree::List(items) => serde_json::Value::Array(items.iter().map(to_serde).collect()),
        Tree::Table(fields) => {
            let mut m = serde_json::Map::new();
            for (k, v) in fields {
                m.insert(k.clone(), to_serde(v));
            }
            serde_json::Value::Object(m)
        }
    }
}

fn from_serde(v: &serde_json::Value) -> Tree {
    match v {
        serde_json::Value::Null => Tree::Null,
        serde_json::Value::Bool(b) => Tree::Bool(*b),
        serde_json::Value::Number(n) => match n.as_i64() {
            Some(i) => Tree::Integer(i),
            None => Tree::Float(n.to_string()),
        },
        serde_json::Value::String(x) => Tree::Str(x.clone()),
        serde_json::Value::Array(items) => Tree::List(items.iter().map(from_serde).collect()),
        serde_json::Value::Object(m) => Tree::Table(m.iter().map(|(k, v)| (k.clone(), from_serde(v))).collect()),
    }
}

#[test]
fn const_redefined_in_var_fails() {
    let doc = obj(vec![("const", obj(vec![("a", num(1))])), ("var", obj(vec![("a", num(2))]))]);
    match resolve_variables(&doc) {
        Err(ResolveError::ConstOverride { block, keys }) => {
            assert_eq!(block, "var");
            assert_eq!(keys, vec!["a".to_string()]);
        }
        _ => panic!("expected a const override error"),
    }
}

#[test]
fn vars_adds_to_const() {
    let doc = obj(vec![("const", obj(vec![("a", num(1))])), ("vars", obj(vec![("b", num(2))]))]);
    let b = resolve_variables(&doc).ok().unwrap();
    let var = Value::Object(b.var.unwrap());
    assert!(var.same(&obj(vec![("a", num(1)), ("b", num(2))])));
    assert!(b.local.is_none());
}

#[test]
fn vars_may_not_overwrite() {
    let doc = obj(vec![("var", obj(vec![("a", num(1))])), ("vars", obj(vec![("a", num(2))]))]);
    match resolve_variables(&doc) {
        Err(ResolveError::Conflict { keys }) => assert_eq!(keys, vec!["a".to_string()]),
        _ => panic!("expected a conflict"),
    }
    let doc = obj(vec![("const", obj(vec![("a", num(1))])), ("let", obj(vec![("a", num(2))]))]);
    assert!(matches!(resolve_variables(&doc), Err(ResolveError::ConstOverride { .. })));
    assert!(matches!(resolve_variables(&num(1)), Err(ResolveError::InvalidRoot)));
}

#[test]
fn let_overwrites_var_and_locals_stay_apart() {
    let doc = obj(vec![
        ("locals", obj(vec![("l", num(0))])),
        ("var", obj(vec![("a", num(1)), ("b", num(1))])),
        ("let", obj(vec![("a", num(2))])),
    ]);
    let b = resolve_variables(&doc).ok().unwrap();
    assert!(Value::Object(b.var.unwrap()).same(&obj(vec![("a", num(2)), ("b", num(1))])));
    assert!(Value::Object(b.local.unwrap()).same(&obj(vec![("l", num(0))])));
    assert!(resolve_variables(&obj(vec![])).ok().unwrap().var.is_none());
}

#[test]
fn missing_meta_is_not_found() {
    let doc = obj(vec![("x", num(1))]);
    match resolve_meta(&doc) {
        Err(e) => {
            assert!(matches!(e, MetaError::MissingMeta));
            assert_eq!(e.status(), 404);
        }
        Ok(_) => panic!("expected a missing meta error"),
    }
    assert_eq!(resolve_meta(&num(1)).err().unwrap().status(), 500);
}

#[test]
fn meta_file_splits_at_last_dot() {
    let doc = obj(vec![("meta", obj(vec![("file", s("app.config.json")), ("export", s("toml"))]))]);
    let m = resolve_meta(&doc).ok().unwrap();
    assert_eq!(m.file.unwrap(), "app.config");
    assert_eq!(m.export.unwrap(), "json");
    let doc = obj(vec![("meta", obj(vec![("file", s("app")), ("export", s("yaml"))]))]);
    let m = resolve_meta(&doc).ok().unwrap();
    assert_eq!(m.file.unwrap(), "app");
    assert_eq!(m.export.unwrap(), "yaml");
}

#[test]
fn docker_kind_exposes_services() {
    let doc = obj(vec![
        ("meta", obj(vec![("kind", s("docker"))])),
        ("services", obj(vec![("web", obj(vec![])), ("db", obj(vec![]))])),
    ]);
    let m = resolve_meta(&doc).ok().unwrap();
    assert_eq!(m.services.unwrap(), vec!["web".to_string(), "db".to_string()]);
    let mut conv = HclConverter::new("");
    conv.fetch_meta(&doc).ok().unwrap();
    assert_eq!(conv.vars.len(), 2);
    assert_eq!(conv.vars[0].0, "services");
    assert_eq!(conv.vars[1].0, "meta");
}

#[test]
fn unknown_language_is_rejected() {
    assert_eq!(select_output(Some("xml"), None, Some("json"), "doc.hcl").err(), Some(OutputError::UnknownLanguage));
    assert_eq!(select_output(None, None, None, "doc.hcl").err(), Some(OutputError::UnknownLanguage));
    let out = select_output(Some("YAML"), None, Some("json"), "dir/doc.hcl").ok().unwrap();
    assert_eq!(out.language, Language::YAML);
    assert_eq!(out.file, "dir/doc");
    assert_eq!(content_disposition(&out), "attachment; filename=\"dir/doc.yml\"");
    let out = select_output(None, Some("app"), Some("Toml"), "x").ok().unwrap();
    assert_eq!(out.language, Language::TOML);
    assert_eq!(content_disposition(&out), "attachment; filename=\"app.toml\"");
    assert_eq!(Language::parse("JSON"), Language::JSON);
    assert_eq!(Language::parse("yml"), Language::YAML);
    assert_eq!(Language::parse("xml"), Language::Unsupported);
    assert_eq!("Json".parse::<Language>(), Ok(Language::JSON));
    assert_eq!(OutputError::UnknownLanguage.status(), 400);
}

#[test]
fn json_round_trip_keeps_values() {
    let v = obj(vec![
        ("b", num(2)),
        ("a", Value::Array(vec![num(1), Value::Number(Number::Float("2.5".to_string())), s("x")])),
        ("c", obj(vec![("t", Value::Bool(true))])),
    ]);
    let tree = to_json(&v).ok().unwrap();
    let text = serde_json::to_string_pretty(&to_serde(&tree)).unwrap();
    let parsed: serde_json::Value = serde_json::from_str(&text).unwrap();
    let back = from_tree(&from_serde(&parsed));
    assert!(back.same(&v));
    assert!(text.find("\"b\"").unwrap() < text.find("\"a\"").unwrap());
}

#[test]
fn toml_null_becomes_string() {
    let v = obj(vec![("n", Value::Null), ("l", Value::Array(vec![Value::Null]))]);
    match to_toml(&v).ok().unwrap() {
        Tree::Table(fields) => {
            assert!(matches!(&fields[0].1, Tree::Str(x) if x == "null"));
            assert!(matches!(&fields[1].1, Tree::List(items) if matches!(&items[0], Tree::Str(x) if x == "null")));
        }
        _ => panic!("expected a table"),
    }
    assert!(matches!(to_yaml(&Value::Null).ok().unwrap(), Tree::Null));
}

#[test]
fn invalid_numbers_fail_projection() {
    let v = Value::Array(vec![Value::Number(Number::Float("NaN".to_string()))]);
    assert_eq!(to_json(&v).err(), Some(ProjectError::InvalidNumber));
    assert_eq!(to_toml(&v).err(), Some(ProjectError::InvalidNumber));
    assert!(is_float_text("-1.5e-7"));
    assert!(is_float_text("3.25"));
    assert!(!is_float_text("inf"));
    assert!(!is_float_text("1."));
    assert!(!is_float_text("3.0"));
    assert!(!is_float_text("1e18"));
    assert!(!is_float_text("15e-1"));
    let integral = obj(vec![("x", Value::Number(Number::Float("3.0".to_string())))]);
    assert_eq!(to_yaml(&integral).err(), Some(ProjectError::InvalidNumber));
    assert_eq!(to_toml(&integral).err(), Some(ProjectError::InvalidNumber));
}

#[test]
fn reserved_blocks_are_stripped() {
    let conv = HclConverter::new("");
    let v = obj(vec![("meta", obj(vec![])), ("x", num(1)), ("locals", obj(vec![])), ("vars", obj(vec![]))]);
    assert!(conv.result(&v).same(&obj(vec![("x", num(1))])));
}

#[test]
fn converter_declares_variables() {
    let doc = obj(vec![("locals", obj(vec![("l", num(0))])), ("const", obj(vec![("a", num(1))]))]);
    let mut conv = HclConverter::new("text");
    conv.fetch_locals(&doc).ok().unwrap();
    assert_eq!(conv.vars.len(), 2);
    assert_eq!(conv.vars[0].0, "local");
    assert_eq!(conv.vars[1].0, "var");
    conv.declare("local", num(5));
    assert_eq!(conv.vars.len(), 2);
    assert!(conv.vars[0].1.same(&num(5)));
    assert_eq!(conv.data, "text");
}

#[test]
fn secret_extraction() {
    let answer = obj(vec![("data", obj(vec![("data", obj(vec![("user", s("u")), ("pass", s("p"))]))]))]);
    let all = extract_secret(&answer, &None).unwrap();
    assert!(all.same(&obj(vec![("user", s("u")), ("pass", s("p"))])));
    let one = extract_secret(&answer, &Some("pass".to_string())).unwrap();
    assert!(one.same(&s("p")));
    let missing = extract_secret(&answer, &Some("zzz".to_string())).unwrap();
    assert!(missing.same(&obj(vec![("data", obj(vec![("user", s("u")), ("pass", s("p"))]))])));
    assert!(extract_secret(&obj(vec![]), &None).is_err());
    assert_eq!(secret_url("http://vault:8200", "app/db"), "http://vault:8200/v1/kv/data/app/db");
    let q = secret_query(&vec![s("app/db"), Value::Null]).ok().unwrap();
    assert_eq!(q.path, "app/db");
    assert!(q.key.is_none());
    assert!(secret_query(&vec![s("a"), s("b"), s("c")]).is_err());
}

#[test]
fn http_requests_are_planned() {
    let req = plan_request(HttpCall::Post, &vec![s("http://x"), s("body"), obj(vec![("A", s("1")), ("B", num(2))])])
        .ok()
        .unwrap();
    assert_eq!(req.method, Method::Post);
    assert_eq!(req.url, "http://x");
    assert!(matches!(&req.body, Body::Text(t) if t == "body"));
    assert_eq!(req.headers, vec![("A".to_string(), "1".to_string()), ("B".to_string(), String::new())]);
    let get = plan_request(HttpCall::Get, &vec![s("http://x")]).ok().unwrap();
    assert!(matches!(get.body, Body::Empty));
    assert!(plan_request(HttpCall::Put, &vec![s("http://x"), num(1)]).is_err());
    let json = plan_request(HttpCall::PostJson, &vec![s("http://x"), num(1)]).ok().unwrap();
    assert!(matches!(&json.body, Body::Json(v) if v.same(&num(1))));
}

#[test]
fn converter_projects_without_reserved_blocks() {
    let conv = HclConverter::new("");
    let v = obj(vec![("meta", obj(vec![])), ("n", Value::Null), ("k", num(3))]);
    match conv.to_toml(&v).ok().unwrap() {
        Tree::Table(fields) => {
            assert_eq!(fields.len(), 2);
            assert!(matches!(&fields[0].1, Tree::Str(x) if x == "null"));
            assert!(matches!(&fields[1].1, Tree::Integer(3)));
        }
        _ => panic!("expected a table"),
    }
    match conv.to_json(&v).ok().unwrap() {
        Tree::Table(fields) => assert!(matches!(&fields[0].1, Tree::Null)),
        _ => panic!("expected a table"),
    }
}
