//! Choice of the output format and of the name of the rendered file.
use vstd::prelude::*;
use vstd::string::StringExecFns;
use crate::text::{before_last, chars_of, eq_ignore_case, equals_ignore_case, push_str, split_last};

verus! {

/// The formats a document can be rendered to.
#[derive(PartialEq, Eq, Structural, Clone, Copy, Debug)]
pub enum Language {
    YAML,
    JSON,
    TOML,
    /// Any other name.
    Unsupported,
}

/// The format named by `s`, ignoring ASCII case.
pub open spec fn language_of(s: Seq<char>) -> Language {
    if eq_ignore_case(s, "toml"@) {
        Language::TOML
    } else if eq_ignore_case(s, "json"@) {
        Language::JSON
    } else if eq_ignore_case(s, "yml"@) || eq_ignore_case(s, "yaml"@) {
        Language::YAML
    } else {
        Language::Unsupported
    }
}

/// The file extension written for a format.
pub open spec fn extension_of(l: Language) -> Seq<char> {
    match l {
        Language::TOML => "toml"@,
        Language::JSON => "json"@,
        Language::YAML => "yml"@,
        Language::Unsupported => Seq::empty(),
    }
}

impl Language {
    /// The format named by `s` (`toml`, `json`, `yml` or `yaml`, in any case).
    pub fn parse(s: &str) -> (r: Language)
        ensures
            r == language_of(s@),
    {
        let cs = chars_of(s);
        if equals_ignore_case(&cs, "toml") {
            Language::TOML
        } else if equals_ignore_case(&cs, "json") {
            Language::JSON
        } else if equals_ignore_case(&cs, "yml") || equals_ignore_case(&cs, "yaml") {
            Language::YAML
        } else {
            Language::Unsupported
        }
    }

    /// The file extension written for this format; empty for `Unsupported`.
    pub fn extension(&self) -> (r: String)
        ensures
            r@ == extension_of(*self),
    {
        match self {
            Language::TOML => String::from_str("toml"),
            Language::JSON => String::from_str("json"),
            Language::YAML => String::from_str("yml"),
            Language::Unsupported => String::new(),
        }
    }
}

impl std::str::FromStr for Language {
    type Err = ();

    /// The format named by `s`; never fails, `Unsupported` standing for any
    /// other name.
    fn from_str(s: &str) -> Result<Language, ()> {
        Ok(Language::parse(s))
    }
}

/// What a request renders: the format, and the file name offered to the client.
pub struct Output {
    pub language: Language,
    /// Base name of the file, without extension.
    pub file: String,
}

/// Why no output could be chosen.
#[derive(PartialEq, Eq, Structural, Clone, Copy, Debug)]
pub enum OutputError {
    /// The requested format is not one of the supported ones (HTTP 400).
    UnknownLanguage,
}

impl OutputError {
    /// The HTTP status that reports this error.
    pub fn status(&self) -> (r: u16)
        ensures
            r == 400,
    {
        400
    }
}

/// The format requested: the `lang` parameter if given, else the hint from
/// `meta`, else none.
pub open spec fn requested(lang: Option<Seq<char>>, export: Option<Seq<char>>) -> Seq<char> {
    match lang {
        Some(l) => l,
        None => match export {
            Some(e) => e,
            None => Seq::empty(),
        },
    }
}

/// The base name: the one from `meta`, else the request path without its
/// last extension.
pub open spec fn base_name(file: Option<Seq<char>>, path: Seq<char>) -> Seq<char> {
    match file {
        Some(f) => f,
        None => before_last(path, '.'),
    }
}

/// Chooses the output of a request.
///
/// `lang` is the `lang` query parameter, `file` and `export` come from the
/// document's `meta` block, and `path` is the requested path.
pub fn select_output(lang: Option<&str>, file: Option<&str>, export: Option<&str>, path: &str) -> (r: Result<
    Output,
    OutputError,
>)
    ensures
        ({
            let want = requested(
                match lang { Some(l) => Some(l@), None => None },
                match export { Some(e) => Some(e@), None => None },
            );
            let name = base_name(match file { Some(f) => Some(f@), None => None }, path@);
            if language_of(want) == Language::Unsupported {
                r == Err::<Output, OutputError>(OutputError::UnknownLanguage)
            } else {
                r matches Ok(o) && o.language == language_of(want) && o.file@ == name
            }
        }),
{
    let want = match lang {
        Some(l) => l,
        None => match export {
            Some(e) => e,
            None => "",
        },
    };
    proof {
        if lang is None && export is None {
            reveal_strlit("");
        }
    }
    let language = Language::parse(want);
    if language == Language::Unsupported {
        return Err(OutputError::UnknownLanguage);
    }
    let name = match file {
        Some(f) => String::from_str(f),
        None => split_last(path, '.').0,
    };
    Ok(Output { language, file: name })
}

/// The `Content-Disposition` header value for a rendered file.
pub fn content_disposition(out: &Output) -> (r: String)
    ensures
        r@ == "attachment; filename=\""@ + out.file@ + "."@ + extension_of(out.language) + "\""@,
{
    let mut r = String::from_str("attachment; filename=\"");
    push_str(&mut r, out.file.as_str());
    push_str(&mut r, ".");
    let ext = out.language.extension();
    push_str(&mut r, ext.as_str());
    push_str(&mut r, "\"");
    r
}

} // verus!
