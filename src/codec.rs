//! Encoding, hashing and identifier built-in functions. The algorithms are
//! those of the crates called; their results are named here.
use vstd::prelude::*;
use vstd::string::StringExecFns;
use vstd::utf8::{encode_utf8, valid_utf8};
use crate::value::{vals, Val, Value};
use base64::Engine;

verus! {

/// Standard base64 (with padding) of the UTF-8 bytes of `s`.
pub uninterp spec fn base64_of(s: Seq<char>) -> Seq<char>;

/// The bytes that the standard base64 text `s` decodes to, if it is valid.
pub uninterp spec fn base64_bytes_of(s: Seq<char>) -> Option<Seq<u8>>;

/// The text that the percent-encoded `s` decodes to, if the bytes it denotes
/// are valid UTF-8.
pub uninterp spec fn url_decoded_of(s: Seq<char>) -> Option<Seq<char>>;

/// Lower-case hex MD5 digest of the bytes `b`.
pub uninterp spec fn md5_hex_of(b: Seq<u8>) -> Seq<char>;

/// Lower-case hex SHA-1 digest of the bytes `b`.
pub uninterp spec fn sha1_hex_of(b: Seq<u8>) -> Seq<char>;

/// Lower-case hex SHA-256 digest of the bytes `b`.
pub uninterp spec fn sha256_hex_of(b: Seq<u8>) -> Seq<char>;

/// Lower-case hex SHA-512 digest of the bytes `b`.
pub uninterp spec fn sha512_hex_of(b: Seq<u8>) -> Seq<char>;

/// The version-5 UUID, hyphenated, of `name` in the namespace written `ns`;
/// `None` when `ns` is not a UUID.
pub uninterp spec fn uuid_v5_of(ns: Seq<char>, name: Seq<char>) -> Option<Seq<char>>;

/// Whether `c` is a lower-case hex digit.
pub open spec fn lower_hex(c: char) -> bool {
    ('0' <= c <= '9') || ('a' <= c <= 'f')
}

/// Whether `t` is `n` lower-case hex digits.
pub open spec fn hex_text(t: Seq<char>, n: nat) -> bool {
    t.len() == n && forall|i: int| 0 <= i < t.len() ==> lower_hex(#[trigger] t[i])
}

/// Whether `t` is a hyphenated UUID of version `v`: 36 characters, hyphens at
/// 8, 13, 18 and 23, the version digit at 14, lower-case hex elsewhere.
pub open spec fn uuid_form(t: Seq<char>, v: char) -> bool {
    &&& t.len() == 36
    &&& t[8] == '-' && t[13] == '-' && t[18] == '-' && t[23] == '-'
    &&& t[14] == v
    &&& forall|i: int| 0 <= i < 36 && i != 8 && i != 13 && i != 18 && i != 23 ==> lower_hex(#[trigger] t[i])
}

/// Whether a byte passes URL encoding unchanged.
pub open spec fn url_safe(b: u8) -> bool {
    (48 <= b <= 57) || (65 <= b <= 90) || (97 <= b <= 122) || b == 45 || b == 46 || b == 95 || b == 126
}

/// Upper-case hex digit of `d < 16`.
pub open spec fn hex_upper(d: int) -> char {
    if d < 10 {
        (48 + d) as u8 as char
    } else {
        (55 + d) as u8 as char
    }
}

/// URL encoding of bytes: safe bytes as they are, others as `%XX`.
pub open spec fn url_encode_bytes(b: Seq<u8>) -> Seq<char>
    decreases b.len(),
{
    if b.len() == 0 {
        Seq::empty()
    } else {
        url_encode_bytes(b.drop_last()) + if url_safe(b.last()) {
            seq![b.last() as char]
        } else {
            seq!['%', hex_upper(b.last() as int / 16), hex_upper(b.last() as int % 16)]
        }
    }
}

/// Relies on `base64`'s standard engine `encode`.
#[verifier::external_body]
fn base64_encode(s: &str) -> (r: String)
    ensures
        r@ == base64_of(s@),
{
    base64::engine::general_purpose::STANDARD.encode(s.as_bytes())
}

/// Relies on `base64`'s standard engine `decode`.
#[verifier::external_body]
fn base64_decode(s: &str) -> (r: Option<Vec<u8>>)
    ensures
        match r {
            Some(b) => base64_bytes_of(s@) == Some(b@),
            None => base64_bytes_of(s@) is None,
        },
{
    base64::engine::general_purpose::STANDARD.decode(s).ok()
}

/// Relies on `String::from_utf8`: succeeds exactly on valid UTF-8.
#[verifier::external_body]
fn utf8_string(b: Vec<u8>) -> (r: Option<String>)
    ensures
        r is Some <==> valid_utf8(b@),
        r matches Some(s) ==> encode_utf8(s@) == b@,
{
    String::from_utf8(b).ok()
}

/// Relies on `urlencoding::encode`: every byte but ASCII alphanumerics and
/// `-._~` becomes `%` and two upper-case hex digits.
#[verifier::external_body]
fn url_encode(s: &str) -> (r: String)
    ensures
        r@ == url_encode_bytes(encode_utf8(s@)),
{
    urlencoding::encode(s).into_owned()
}

/// Relies on `urlencoding::decode`.
#[verifier::external_body]
fn url_decode(s: &str) -> (r: Option<String>)
    ensures
        match r {
            Some(t) => url_decoded_of(s@) == Some(t@),
            None => url_decoded_of(s@) is None,
        },
{
    urlencoding::decode(s).ok().map(|c| c.into_owned())
}

/// Relies on `md-5`'s `Md5` digest, written as lower-case hex.
#[verifier::external_body]
fn md5_hex(b: &[u8]) -> (r: String)
    ensures
        r@ == md5_hex_of(b@),
        hex_text(r@, 32),
{
    format!("{:x}", <md5::Md5 as md5::Digest>::digest(b))
}

/// Relies on `sha1`'s `Sha1` digest, written as lower-case hex.
#[verifier::external_body]
fn sha1_hex(b: &[u8]) -> (r: String)
    ensures
        r@ == sha1_hex_of(b@),
        hex_text(r@, 40),
{
    format!("{:x}", <sha1::Sha1 as sha1::Digest>::digest(b))
}

/// Relies on `sha2`'s `Sha256` digest, written as lower-case hex.
#[verifier::external_body]
fn sha256_hex(b: &[u8]) -> (r: String)
    ensures
        r@ == sha256_hex_of(b@),
        hex_text(r@, 64),
{
    format!("{:x}", <sha2::Sha256 as sha2::Digest>::digest(b))
}

/// Relies on `sha2`'s `Sha512` digest, written as lower-case hex.
#[verifier::external_body]
fn sha512_hex(b: &[u8]) -> (r: String)
    ensures
        r@ == sha512_hex_of(b@),
        hex_text(r@, 128),
{
    format!("{:x}", <sha2::Sha512 as sha2::Digest>::digest(b))
}

/// Relies on `uuid::Uuid::new_v4`: a random version-4 UUID, hyphenated.
#[verifier::external_body]
fn random_uuid() -> (r: String)
    ensures
        uuid_form(r@, '4'),
{
    uuid::Uuid::new_v4().to_string()
}

/// Relies on `uuid::Uuid::parse_str` and `Uuid::new_v5`; the version-5 UUID
/// is written hyphenated.
#[verifier::external_body]
fn name_uuid(ns: &str, name: &str) -> (r: Option<String>)
    ensures
        match r {
            Some(t) => uuid_v5_of(ns@, name@) == Some(t@) && uuid_form(t@, '5'),
            None => uuid_v5_of(ns@, name@) is None,
        },
{
    let namespace = uuid::Uuid::parse_str(ns).ok()?;
    Some(uuid::Uuid::new_v5(&namespace, name.as_bytes()).to_string())
}

/// Whether `bcrypt::verify` accepts the password `password` for `hash`.
pub uninterp spec fn bcrypt_accepts(password: Seq<char>, hash: Seq<char>) -> bool;

/// Relies on `bcrypt::hash` with its default cost 12; the salt is random. A
/// hash is written `$2b$12$`, 22 characters of salt and 31 of digest, and
/// `bcrypt::verify` accepts the password for it.
#[verifier::external_body]
fn bcrypt_text(s: &str) -> (r: Option<String>)
    ensures
        r matches Some(h) ==> h@.len() == 60 && h@.subrange(0, 7) == "$2b$12$"@ && bcrypt_accepts(s@, h@),
{
    bcrypt::hash(s.as_bytes(), bcrypt::DEFAULT_COST).ok()
}

/// The first argument, when it is a string.
pub open spec fn str_arg(a: Seq<Val>) -> Option<Seq<char>> {
    if a.len() > 0 && a[0] is Str {
        Some(a[0]->Str_0)
    } else {
        None
    }
}

fn first_str(args: &Vec<Value>) -> (r: Result<&String, String>)
    ensures
        match str_arg(vals(args@)) {
            Some(s) => r matches Ok(t) && t@ == s,
            None => r is Err,
        },
{
    if args.len() == 0 {
        return Err(String::from_str("expected a string argument"));
    }
    match &args[0] {
        Value::String(s) => Ok(s),
        _ => Err(String::from_str("expected a string argument")),
    }
}

/// `base64encode(s)`: the standard base64 of the UTF-8 bytes of `s`.
pub fn base64encode(args: &Vec<Value>) -> (r: Result<Value, String>)
    ensures
        match str_arg(vals(args@)) {
            Some(s) => r matches Ok(v) && v@ == Val::Str(base64_of(s)),
            None => r is Err,
        },
{
    let s = first_str(args)?;
    Ok(Value::String(base64_encode(s.as_str())))
}

/// `base64decode(s)`: the text whose UTF-8 bytes `s` encodes; fails on
/// invalid base64 or invalid UTF-8.
pub fn base64decode(args: &Vec<Value>) -> (r: Result<Value, String>)
    ensures
        match str_arg(vals(args@)) {
            Some(s) => match base64_bytes_of(s) {
                Some(b) => if valid_utf8(b) {
                    r matches Ok(v) && v@ is Str && encode_utf8(v@->Str_0) == b
                } else {
                    r is Err
                },
                None => r is Err,
            },
            None => r is Err,
        },
{
    let s = first_str(args)?;
    match base64_decode(s.as_str()) {
        Some(bytes) => match utf8_string(bytes) {
            Some(t) => Ok(Value::String(t)),
            None => Err(String::from_str("Invalid UTF-8 in decoded base64")),
        },
        None => Err(String::from_str("Invalid base64")),
    }
}

/// `urlencode(s)`: `s` with every UTF-8 byte but ASCII alphanumerics and
/// `-._~` percent-encoded.
pub fn urlencode(args: &Vec<Value>) -> (r: Result<Value, String>)
    ensures
        match str_arg(vals(args@)) {
            Some(s) => r matches Ok(v) && v@ == Val::Str(url_encode_bytes(encode_utf8(s))),
            None => r is Err,
        },
{
    let s = first_str(args)?;
    Ok(Value::String(url_encode(s.as_str())))
}

/// `urldecode(s)`: the text that the percent-encoded `s` stands for.
pub fn urldecode(args: &Vec<Value>) -> (r: Result<Value, String>)
    ensures
        match str_arg(vals(args@)) {
            Some(s) => match url_decoded_of(s) {
                Some(t) => r matches Ok(v) && v@ == Val::Str(t),
                None => r is Err,
            },
            None => r is Err,
        },
{
    let s = first_str(args)?;
    match url_decode(s.as_str()) {
        Some(t) => Ok(Value::String(t)),
        None => Err(String::from_str("URL decoding error")),
    }
}

/// `md5(s)`: the MD5 digest of `s`, as lower-case hex.
pub fn md5_hash(args: &Vec<Value>) -> (r: Result<Value, String>)
    ensures
        match str_arg(vals(args@)) {
            Some(s) => r matches Ok(v) && v@ == Val::Str(md5_hex_of(encode_utf8(s))) && hex_text(v@->Str_0, 32),
            None => r is Err,
        },
{
    let s = first_str(args)?;
    Ok(Value::String(md5_hex(s.as_str().as_bytes())))
}

/// `sha1(s)`: the SHA-1 digest of `s`, as lower-case hex.
pub fn sha1_hash(args: &Vec<Value>) -> (r: Result<Value, String>)
    ensures
        match str_arg(vals(args@)) {
            Some(s) => r matches Ok(v) && v@ == Val::Str(sha1_hex_of(encode_utf8(s))) && hex_text(v@->Str_0, 40),
            None => r is Err,
        },
{
    let s = first_str(args)?;
    Ok(Value::String(sha1_hex(s.as_str().as_bytes())))
}

/// `sha256(s)`: the SHA-256 digest of `s`, as lower-case hex.
pub fn sha256_hash(args: &Vec<Value>) -> (r: Result<Value, String>)
    ensures
        match str_arg(vals(args@)) {
            Some(s) => r matches Ok(v) && v@ == Val::Str(sha256_hex_of(encode_utf8(s))) && hex_text(v@->Str_0, 64),
            None => r is Err,
        },
{
    let s = first_str(args)?;
    Ok(Value::String(sha256_hex(s.as_str().as_bytes())))
}

/// `sha512(s)`: the SHA-512 digest of `s`, as lower-case hex.
pub fn sha512_hash(args: &Vec<Value>) -> (r: Result<Value, String>)
    ensures
        match str_arg(vals(args@)) {
            Some(s) => r matches Ok(v) && v@ == Val::Str(sha512_hex_of(encode_utf8(s))) && hex_text(v@->Str_0, 128),
            None => r is Err,
        },
{
    let s = first_str(args)?;
    Ok(Value::String(sha512_hex(s.as_str().as_bytes())))
}

/// `uuid()`: a random version-4 UUID.
pub fn uuid_gen(args: &Vec<Value>) -> (r: Result<Value, String>)
    ensures
        r matches Ok(v) && v@ is Str && uuid_form(v@->Str_0, '4'),
{
    Ok(Value::String(random_uuid()))
}

/// `uuidv5(namespace, name)`: the version-5 UUID of `name` in `namespace`;
/// fails when `namespace` is not a UUID.
pub fn uuidv5(args: &Vec<Value>) -> (r: Result<Value, String>)
    ensures
        ({
            let a = vals(args@);
            if a.len() < 2 || !(a[0] is Str) || !(a[1] is Str) {
                r is Err
            } else {
                match uuid_v5_of(a[0]->Str_0, a[1]->Str_0) {
                    Some(t) => r matches Ok(v) && v@ == Val::Str(t) && uuid_form(t, '5'),
                    None => r is Err,
                }
            }
        }),
{
    if args.len() < 2 {
        return Err(String::from_str("uuidv5() requires a namespace and a name"));
    }
    match (&args[0], &args[1]) {
        (Value::String(ns), Value::String(name)) => match name_uuid(ns.as_str(), name.as_str()) {
            Some(t) => Ok(Value::String(t)),
            None => Err(String::from_str("Invalid namespace UUID")),
        },
        _ => Err(String::from_str("uuidv5() requires a namespace and a name")),
    }
}

/// A version-5 UUID depends on its namespace and name alone: two calls with
/// the same arguments give the same result.
pub proof fn lemma_uuidv5_deterministic(args: Seq<Val>, first: Result<Value, String>, second: Result<Value, String>)
    requires
        args.len() >= 2 && args[0] is Str && args[1] is Str,
        uuid_v5_of(args[0]->Str_0, args[1]->Str_0) is Some,
        first matches Ok(v) && v@ == Val::Str(uuid_v5_of(args[0]->Str_0, args[1]->Str_0)->Some_0),
        second matches Ok(v) && v@ == Val::Str(uuid_v5_of(args[0]->Str_0, args[1]->Str_0)->Some_0),
    ensures
        first->Ok_0@ == second->Ok_0@,
{
}

/// `bcrypt(s)`: a bcrypt hash of `s` at cost 12 with a random salt.
pub fn bcrypt_hash(args: &Vec<Value>) -> (r: Result<Value, String>)
    ensures
        str_arg(vals(args@)) is None ==> r is Err,
        r matches Ok(v) ==> v@ is Str && v@->Str_0.len() == 60 && v@->Str_0.subrange(0, 7) == "$2b$12$"@
            && bcrypt_accepts(str_arg(vals(args@))->Some_0, v@->Str_0),
{
    let s = first_str(args)?;
    match bcrypt_text(s.as_str()) {
        Some(h) => Ok(Value::String(h)),
        None => Err(String::from_str("Bcrypt error")),
    }
}

/// A digest algorithm.
#[derive(PartialEq, Eq, Structural, Clone, Copy, Debug)]
pub enum DigestKind {
    Md5,
    Sha1,
    Sha256,
    Sha512,
}

/// The lower-case hex digest of `b` by `kind`.
pub open spec fn digest_of(kind: DigestKind, b: Seq<u8>) -> Seq<char> {
    match kind {
        DigestKind::Md5 => md5_hex_of(b),
        DigestKind::Sha1 => sha1_hex_of(b),
        DigestKind::Sha256 => sha256_hex_of(b),
        DigestKind::Sha512 => sha512_hex_of(b),
    }
}

/// The lower-case hex digest of `data` by `kind`, as the `fs.*` hash
/// functions give it for a file's content.
pub fn digest_hex(kind: DigestKind, data: &[u8]) -> (r: String)
    ensures
        r@ == digest_of(kind, data@),
        hex_text(
            r@,
            match kind {
                DigestKind::Md5 => 32,
                DigestKind::Sha1 => 40,
                DigestKind::Sha256 => 64,
                DigestKind::Sha512 => 128,
            },
        ),
{
    match kind {
        DigestKind::Md5 => md5_hex(data),
        DigestKind::Sha1 => sha1_hex(data),
        DigestKind::Sha256 => sha256_hex(data),
        DigestKind::Sha512 => sha512_hex(data),
    }
}

} // verus!
