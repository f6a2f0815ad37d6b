//! The site's configuration: the raw fields read from the TOML file, their
//! validation, and the validated record.

use vstd::prelude::*;
use crate::metadata::RawField;
use crate::utils::{default_empty, default_true};

verus! {

/// A navigation link: a name and where it points.
#[derive(Debug)]
pub struct Link {
    pub name: String,
    pub href: String,
}

/// The configuration fields as the TOML reader hands them over.
#[derive(Debug)]
pub struct RawConfig {
    pub blog_title: RawField<String>,
    pub author: RawField<String>,
    pub base_url: RawField<String>,
    pub enable_rss: RawField<bool>,
    pub extra_links_start: RawField<Vec<Link>>,
    pub extra_links_end: RawField<Vec<Link>>,
    pub is_dev_server: RawField<bool>,
}

/// The site's validated configuration, immutable once loaded.
#[derive(Debug)]
pub struct BlogConfiguration {
    pub blog_title: String,
    pub author: String,
    pub base_url: String,
    pub enable_rss: bool,
    pub extra_links_start: Vec<Link>,
    pub extra_links_end: Vec<Link>,
    pub is_dev_server: bool,
}

/// The TOML reader's value type, declared so that it can appear in the
/// signatures of the trusted readers below; the library never looks inside.
#[verifier::external_type_specification]
#[verifier::external_body]
pub struct ExTomlValue(toml::Value);

/// What the TOML reader finds in the configuration text, when the text
/// parses: a function of the characters alone.
pub uninterp spec fn toml_config_of(s: Seq<char>) -> Option<RawConfig>;

/// The TOML reader's message when the text does not parse: a function of
/// the characters alone.
pub uninterp spec fn toml_err_of(s: Seq<char>) -> Seq<char>;

/// Relies on `toml::from_str::<Value>` with `Value::get` and the typed
/// readers below: reads the configuration fields out of the TOML text,
/// telling absent fields apart from fields of the wrong shape. Parsing and
/// the lookups are deterministic in the text, so the outcome is a function
/// of the characters alone.
#[verifier::external_body]
fn toml_config_fields(s: &str) -> (r: Result<RawConfig, String>)
    ensures
        r is Ok <==> toml_config_of(s@) is Some,
        r is Ok ==> r->Ok_0 == toml_config_of(s@)->0,
        r is Err ==> r->Err_0@ == toml_err_of(s@),
{
    let v: toml::Value = match toml::from_str(s) {
        Ok(v) => v,
        Err(e) => return Err(e.to_string()),
    };
    Ok(RawConfig {
        blog_title: toml_string(v.get("blog_title")),
        author: toml_string(v.get("author")),
        base_url: toml_string(v.get("base_url")),
        enable_rss: toml_bool(v.get("enable_rss")),
        extra_links_start: toml_link_list(v.get("extra_links_start")),
        extra_links_end: toml_link_list(v.get("extra_links_end")),
        is_dev_server: toml_bool(v.get("is_dev_server")),
    })
}

/// Relies on `toml::Value::as_str`: the value as an owned string; absent
/// and wrongly shaped fields are told apart.
#[verifier::external_body]
fn toml_string(v: Option<&toml::Value>) -> (r: RawField<String>) {
    match v {
        None => RawField::Missing,
        Some(x) => match x.as_str() {
            Some(s) => RawField::Given(s.to_owned()),
            None => RawField::WrongType,
        },
    }
}

/// Relies on `toml::Value::as_bool`: the value as a boolean; absent and
/// wrongly shaped fields are told apart.
#[verifier::external_body]
fn toml_bool(v: Option<&toml::Value>) -> (r: RawField<bool>) {
    match v {
        None => RawField::Missing,
        Some(x) => match x.as_bool() {
            Some(b) => RawField::Given(b),
            None => RawField::WrongType,
        },
    }
}

/// Relies on `toml::Value::as_array`, `get` and `as_str`: the value as a
/// list of `name`/`href` links; absent fields, and fields shaped otherwise,
/// are told apart.
#[verifier::external_body]
fn toml_link_list(v: Option<&toml::Value>) -> (r: RawField<Vec<Link>>) {
    let x = match v { None => return RawField::Missing, Some(x) => x };
    let items = match x.as_array() { Some(i) => i, None => return RawField::WrongType };
    let links = items.iter().map(|e| Some(Link {
        name: e.get("name")?.as_str()?.to_owned(),
        href: e.get("href")?.as_str()?.to_owned(),
    })).collect::<Option<Vec<Link>>>();
    match links {
        Some(list) => RawField::Given(list),
        None => RawField::WrongType,
    }
}

/// Whether raw fields make a valid configuration: no field of the wrong
/// shape, the blog title and the author given.
pub open spec fn config_ok(f: RawConfig) -> bool {
    &&& !(f.blog_title is WrongType)
    &&& !(f.author is WrongType)
    &&& !(f.base_url is WrongType)
    &&& !(f.enable_rss is WrongType)
    &&& !(f.extra_links_start is WrongType)
    &&& !(f.extra_links_end is WrongType)
    &&& !(f.is_dev_server is WrongType)
    &&& f.blog_title is Given
    &&& f.author is Given
}

/// The error reported for raw fields that do not make a valid
/// configuration: the first wrongly shaped field in field order, else the
/// missing required field.
pub open spec fn config_err(f: RawConfig) -> Seq<char> {
    if f.blog_title is WrongType {
        "invalid type for field `blog_title`"@
    } else if f.author is WrongType {
        "invalid type for field `author`"@
    } else if f.base_url is WrongType {
        "invalid type for field `base_url`"@
    } else if f.enable_rss is WrongType {
        "invalid type for field `enable_rss`"@
    } else if f.extra_links_start is WrongType {
        "invalid type for field `extra_links_start`"@
    } else if f.extra_links_end is WrongType {
        "invalid type for field `extra_links_end`"@
    } else if f.is_dev_server is WrongType {
        "invalid type for field `is_dev_server`"@
    } else if f.blog_title is Missing {
        "missing field `blog_title`"@
    } else {
        "missing field `author`"@
    }
}

/// How a validated configuration relates to the raw fields it was made of:
/// required fields taken over, the optional ones defaulted (no base URL,
/// syndication on, no extra links, not the development server).
pub open spec fn config_matches_fields(c: BlogConfiguration, f: RawConfig) -> bool {
    &&& c.blog_title == f.blog_title->Given_0
    &&& c.author == f.author->Given_0
    &&& c.base_url@ == (match f.base_url {
        RawField::Given(u) => u@,
        _ => Seq::<char>::empty(),
    })
    &&& c.enable_rss == (match f.enable_rss {
        RawField::Given(b) => b,
        _ => true,
    })
    &&& c.extra_links_start@ == (match f.extra_links_start {
        RawField::Given(l) => l@,
        _ => Seq::<Link>::empty(),
    })
    &&& c.extra_links_end@ == (match f.extra_links_end {
        RawField::Given(l) => l@,
        _ => Seq::<Link>::empty(),
    })
    &&& c.is_dev_server == (match f.is_dev_server {
        RawField::Given(b) => b,
        _ => false,
    })
}

/// Validates raw configuration fields; fails exactly when a field has the
/// wrong shape, or the blog title or the author is missing.
pub fn config_from_fields(f: RawConfig) -> (r: Result<BlogConfiguration, String>)
    ensures
        r is Ok <==> config_ok(f),
        r is Ok ==> config_matches_fields(r->Ok_0, f),
        r is Err ==> r->Err_0@ == config_err(f),
{
    let RawConfig {
        blog_title,
        author,
        base_url,
        enable_rss,
        extra_links_start,
        extra_links_end,
        is_dev_server,
    } = f;
    match &blog_title {
        RawField::WrongType => {
            return Err(String::from_str("invalid type for field `blog_title`"));
        },
        _ => {},
    }
    match &author {
        RawField::WrongType => {
            return Err(String::from_str("invalid type for field `author`"));
        },
        _ => {},
    }
    match &base_url {
        RawField::WrongType => {
            return Err(String::from_str("invalid type for field `base_url`"));
        },
        _ => {},
    }
    match &enable_rss {
        RawField::WrongType => {
            return Err(String::from_str("invalid type for field `enable_rss`"));
        },
        _ => {},
    }
    match &extra_links_start {
        RawField::WrongType => {
            return Err(String::from_str("invalid type for field `extra_links_start`"));
        },
        _ => {},
    }
    match &extra_links_end {
        RawField::WrongType => {
            return Err(String::from_str("invalid type for field `extra_links_end`"));
        },
        _ => {},
    }
    match &is_dev_server {
        RawField::WrongType => {
            return Err(String::from_str("invalid type for field `is_dev_server`"));
        },
        _ => {},
    }
    let blog_title = match blog_title {
        RawField::Given(t) => t,
        _ => {
            return Err(String::from_str("missing field `blog_title`"));
        },
    };
    let author = match author {
        RawField::Given(a) => a,
        _ => {
            return Err(String::from_str("missing field `author`"));
        },
    };
    let base_url = match base_url {
        RawField::Given(u) => u,
        _ => String::new(),
    };
    let enable_rss = match enable_rss {
        RawField::Given(b) => b,
        _ => default_true(),
    };
    let extra_links_start = match extra_links_start {
        RawField::Given(l) => l,
        _ => default_empty(),
    };
    let extra_links_end = match extra_links_end {
        RawField::Given(l) => l,
        _ => default_empty(),
    };
    let is_dev_server = match is_dev_server {
        RawField::Given(b) => b,
        _ => false,
    };
    Ok(
        BlogConfiguration {
            blog_title,
            author,
            base_url,
            enable_rss,
            extra_links_start,
            extra_links_end,
            is_dev_server,
        },
    )
}

impl BlogConfiguration {
    /// Reads and validates the site configuration from its TOML text. The
    /// error is the TOML reader's message when the text does not parse, and
    /// the validation message otherwise.
    pub fn from_toml(content: &str) -> (r: Result<BlogConfiguration, String>)
        ensures
            ({
                match toml_config_of(content@) {
                    None => r is Err && r->Err_0@ == toml_err_of(content@),
                    Some(f) => {
                        &&& r is Ok <==> config_ok(f)
                        &&& r is Ok ==> config_matches_fields(r->Ok_0, f)
                        &&& r is Err ==> r->Err_0@ == config_err(f)
                    },
                }
            }),
    {
        match toml_config_fields(content) {
            Ok(f) => config_from_fields(f),
            Err(msg) => Err(msg),
        }
    }
}

/// Reads and validates the site configuration from its TOML text.
pub fn parse_config(content: &str) -> (r: Result<BlogConfiguration, String>)
    ensures
        ({
            match toml_config_of(content@) {
                None => r is Err && r->Err_0@ == toml_err_of(content@),
                Some(f) => {
                    &&& r is Ok <==> config_ok(f)
                    &&& r is Ok ==> config_matches_fields(r->Ok_0, f)
                    &&& r is Err ==> r->Err_0@ == config_err(f)
                },
            }
        }),
{
    BlogConfiguration::from_toml(content)
}

} // verus!
