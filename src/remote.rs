//! The remote built-in functions (`http.*` and `secret.kv`): what to send,
//! and what to make of the answer. The host performs the requests.
use vstd::prelude::*;
use vstd::string::StringExecFns;
use crate::text::push_str;
use crate::value::{entries, get_entry, lemma_object_view, lookup, vals, Entry, Val, Value};

verus! {

/// The HTTP method of a request.
#[derive(PartialEq, Eq, Structural, Clone, Copy, Debug)]
pub enum Method {
    Get,
    Post,
    Put,
}

/// The body of a request.
pub enum Body {
    Empty,
    /// Sent as it is.
    Text(String),
    /// Sent as JSON, with a JSON content type.
    Json(Value),
}

/// A request to perform.
pub struct HttpRequest {
    pub method: Method,
    pub url: String,
    pub body: Body,
    /// Extra headers, by name; a non-string value is sent empty.
    pub headers: Vec<(String, String)>,
}

/// Which `http.*` function a call is.
#[derive(PartialEq, Eq, Structural, Clone, Copy, Debug)]
pub enum HttpCall {
    Get,
    Post,
    PostJson,
    Put,
}

/// The text of a header value: a string as it is, anything else empty.
pub open spec fn header_text(v: Val) -> Seq<char> {
    match v {
        Val::Str(s) => s,
        _ => Seq::empty(),
    }
}

/// The headers given by an optional header object.
pub open spec fn headers_of(o: Seq<Entry>) -> Seq<(Seq<char>, Seq<char>)> {
    Seq::new(o.len(), |i: int| (o[i].0, header_text(o[i].1)))
}

/// Position of the optional header argument.
pub open spec fn header_index(c: HttpCall) -> int {
    match c {
        HttpCall::Get => 1,
        _ => 2,
    }
}

/// The model of a list of headers.
pub open spec fn header_view(h: Seq<(String, String)>) -> Seq<(Seq<char>, Seq<char>)> {
    Seq::new(h.len(), |i: int| (h[i].0@, h[i].1@))
}

fn header_list(o: &Vec<(String, Value)>) -> (r: Vec<(String, String)>)
    ensures
        header_view(r@) == headers_of(entries(o@)),
{
    let mut out: Vec<(String, String)> = Vec::new();
    let mut i: usize = 0;
    while i < o.len()
        invariant
            i <= o@.len(),
            out@.len() == i,
            forall|j: int| 0 <= j < i ==> #[trigger] out@[j].0@ == o@[j].0@ && out@[j].1@ == header_text(o@[j].1@),
        decreases o@.len() - i,
    {
        let v = match &o[i].1 {
            Value::String(s) => s.clone(),
            _ => String::new(),
        };
        out.push((o[i].0.clone(), v));
        i = i + 1;
    }
    assert(header_view(out@) =~= headers_of(entries(o@)));
    out
}

/// The request an `http.*` call asks for: the URL first, then the body of a
/// POST or PUT (any value for `post_json`, a string otherwise), then an
/// optional header object.
pub fn plan_request(call: HttpCall, args: &Vec<Value>) -> (r: Result<HttpRequest, String>)
    ensures
        ({
            let a = vals(args@);
            let h = header_index(call);
            if a.len() < h || !(a[0] is Str) || (call == HttpCall::Post || call == HttpCall::Put) && !(a[1] is Str) {
                r is Err
            } else {
                r matches Ok(req) && req.url@ == a[0]->Str_0 && req.method == match call {
                    HttpCall::Get => Method::Get,
                    HttpCall::Put => Method::Put,
                    _ => Method::Post,
                } && match call {
                    HttpCall::Get => req.body is Empty,
                    HttpCall::PostJson => req.body matches Body::Json(v) && v@ == a[1],
                    _ => req.body matches Body::Text(t) && t@ == a[1]->Str_0,
                } && header_view(req.headers@) == if a.len() > h && a[h] is Object {
                    headers_of(a[h]->Object_0)
                } else {
                    Seq::empty()
                }
            }
        }),
{
    let h: usize = match call {
        HttpCall::Get => 1,
        _ => 2,
    };
    if args.len() < h {
        return Err(String::from_str("missing arguments"));
    }
    let url = match &args[0] {
        Value::String(s) => s.clone(),
        _ => return Err(String::from_str("the URL must be a string")),
    };
    let body = match call {
        HttpCall::Get => Body::Empty,
        HttpCall::PostJson => Body::Json(args[1].copy()),
        _ => match &args[1] {
            Value::String(s) => Body::Text(s.clone()),
            _ => return Err(String::from_str("the body must be a string")),
        },
    };
    let method = match call {
        HttpCall::Get => Method::Get,
        HttpCall::Put => Method::Put,
        _ => Method::Post,
    };
    let headers = if args.len() > h {
        match &args[h] {
            Value::Object(o) => {
                proof {
                    lemma_object_view(*o);
                }
                header_list(o)
            },
            _ => {
                let e: Vec<(String, String)> = Vec::new();
                assert(header_view(e@) =~= Seq::empty());
                e
            },
        }
    } else {
        let e: Vec<(String, String)> = Vec::new();
        assert(header_view(e@) =~= Seq::empty());
        e
    };
    Ok(HttpRequest { method, url, body, headers })
}

/// What a `secret.kv` call asks for.
pub struct SecretQuery {
    /// The path of the secret.
    pub path: String,
    /// The one key wanted, if any.
    pub key: Option<String>,
}

/// The address of a versioned key/value secret on the secret backend.
pub open spec fn secret_url_of(base: Seq<char>, path: Seq<char>) -> Seq<char> {
    base + "/v1/kv/data/"@ + path
}

/// The address of the secret `path` on the backend at `base`.
pub fn secret_url(base: &str, path: &str) -> (r: String)
    ensures
        r@ == secret_url_of(base@, path@),
{
    let mut r = String::from_str(base);
    push_str(&mut r, "/v1/kv/data/");
    push_str(&mut r, path);
    r
}

/// Reads the arguments of `secret.kv(path, key?)`: a null key asks for the
/// whole secret.
pub fn secret_query(args: &Vec<Value>) -> (r: Result<SecretQuery, String>)
    ensures
        ({
            let a = vals(args@);
            if a.len() == 0 || a.len() > 2 || !(a[0] is Str) || (a.len() == 2 && !(a[1] is Str || a[1] is Null)) {
                r is Err
            } else {
                r matches Ok(q) && q.path@ == a[0]->Str_0 && match q.key {
                    Some(k) => a.len() == 2 && a[1] == Val::Str(k@),
                    None => a.len() == 1 || a[1] is Null,
                }
            }
        }),
{
    if args.len() == 0 || args.len() > 2 {
        return Err(String::from_str("Too many arguments, expected at most 2"));
    }
    let path = match &args[0] {
        Value::String(s) => s.clone(),
        _ => return Err(String::from_str("the secret path must be a string")),
    };
    let key = if args.len() == 2 {
        match &args[1] {
            Value::String(k) => Some(k.clone()),
            Value::Null => None,
            _ => return Err(String::from_str("the secret key must be a string")),
        }
    } else {
        None
    };
    Ok(SecretQuery { path, key })
}

/// The value `secret.kv` gives for the backend's answer `response`: the
/// secret map under `data.data`, or its entry `key`. Where the answer has no
/// such map, or the map has no such key, the answer's `data` itself.
pub open spec fn secret_value(response: Val, key: Option<Seq<char>>) -> Option<Val> {
    match response {
        Val::Object(o) => match lookup(o, "data"@) {
            None => None,
            Some(data) => match data {
                Val::Object(d) => match lookup(d, "data"@) {
                    Some(Val::Object(m)) => match key {
                        None => Some(Val::Object(m)),
                        Some(k) => match lookup(m, k) {
                            Some(v) => Some(v),
                            None => Some(data),
                        },
                    },
                    _ => Some(data),
                },
                _ => Some(data),
            },
        },
        _ => None,
    }
}

/// Extracts the secret from the backend's answer `response`; fails when the
/// answer is not an object with a `data` entry.
pub fn extract_secret(response: &Value, key: &Option<String>) -> (r: Result<Value, String>)
    ensures
        match secret_value(response@, match key { Some(k) => Some(k@), None => None }) {
            Some(v) => r matches Ok(x) && x@ == v,
            None => r is Err,
        },
{
    let o = match response {
        Value::Object(o) => o,
        _ => return Err(String::from_str("Unable to decode json")),
    };
    proof {
        lemma_object_view(*o);
    }
    let data_key = String::from_str("data");
    let data = match get_entry(o, &data_key) {
        Some(d) => d,
        None => return Err(String::from_str("Unable to decode json")),
    };
    let d = match data {
        Value::Object(d) => d,
        _ => return Ok(data.copy()),
    };
    proof {
        lemma_object_view(*d);
    }
    let m = match get_entry(d, &data_key) {
        Some(Value::Object(m)) => m,
        _ => return Ok(data.copy()),
    };
    proof {
        lemma_object_view(*m);
    }
    match key {
        None => {
            let c = crate::value::copy_entries(m);
            proof {
                lemma_object_view(c);
            }
            Ok(Value::Object(c))
        },
        Some(k) => match get_entry(m, k) {
            Some(v) => Ok(v.copy()),
            None => Ok(data.copy()),
        },
    }
}

} // verus!
