//! A document's front-matter metadata: the raw fields read from the YAML
//! block, their validation, and the validated record.

use vstd::prelude::*;
use crate::date::{
    date_of_text, date_text_valid, date_valid, human_date_chars, push_human_date, Date,
};
use crate::text::{chars_to_string, str_to_chars};
use crate::utils::default_empty;

verus! {

/// What a structured reader found at one field: nothing, a value of the
/// expected shape, or a value of another shape (which fails the document).
#[derive(Debug)]
pub enum RawField<T> {
    Missing,
    Given(T),
    WrongType,
}

/// The fields of a front-matter block as the YAML reader hands them over.
#[derive(Debug)]
pub struct RawMetadata {
    pub title: RawField<String>,
    pub authors: RawField<Vec<String>>,
    pub slug: RawField<String>,
    pub description: RawField<String>,
    pub date: RawField<String>,
    pub tags: RawField<Vec<String>>,
    pub table_of_contents: RawField<bool>,
}

/// A document's validated metadata.
#[derive(Debug)]
pub struct BlogPostMetadata {
    pub title: String,
    pub authors: Option<Vec<String>>,
    pub slug: Option<String>,
    pub description: Option<String>,
    pub date: Date,
    pub tags: Vec<String>,
    pub table_of_contents: bool,
}

/// A well-formed metadata record: its date is a valid calendar date.
pub open spec fn metadata_wf(m: BlogPostMetadata) -> bool {
    date_valid(m.date)
}

impl BlogPostMetadata {
    /// The document's date as readable text: `<Month> <day>, <year>`.
    pub fn format_date(&self) -> (r: String)
        requires
            date_valid(self.date),
        ensures
            r@ == human_date_chars(self.date),
    {
        let mut out: Vec<char> = Vec::new();
        push_human_date(&self.date, &mut out);
        chars_to_string(&out)
    }
}

/// The YAML reader's value type, declared so that it can appear in the
/// signatures of the trusted readers below; the library never looks inside.
#[verifier::external_type_specification]
#[verifier::external_body]
pub struct ExYamlValue(serde_yaml::Value);

/// What the YAML reader finds in the stripped front-matter text, when the
/// text parses: a function of the characters alone.
pub uninterp spec fn yaml_meta_of(s: Seq<char>) -> Option<RawMetadata>;

/// The YAML reader's message when the text does not parse: a function of
/// the characters alone.
pub uninterp spec fn yaml_err_of(s: Seq<char>) -> Seq<char>;

/// Relies on `serde_yaml::from_str::<Value>` with `Value::get` and the
/// typed readers below: reads the front-matter fields out of the YAML text,
/// telling absent fields apart from fields of the wrong shape. Parsing and
/// the lookups are deterministic in the text, so the outcome is a function
/// of the characters alone.
#[verifier::external_body]
fn yaml_metadata_fields(s: &str) -> (r: Result<RawMetadata, String>)
    ensures
        r is Ok <==> yaml_meta_of(s@) is Some,
        r is Ok ==> r->Ok_0 == yaml_meta_of(s@)->0,
        r is Err ==> r->Err_0@ == yaml_err_of(s@),
{
    let v: serde_yaml::Value = match serde_yaml::from_str(s) {
        Ok(v) => v,
        Err(e) => return Err(e.to_string()),
    };
    Ok(RawMetadata {
        title: yaml_string(v.get("title")),
        authors: yaml_string_list(v.get("authors")),
        slug: yaml_string(v.get("slug")),
        description: yaml_string(v.get("description")),
        date: yaml_string(v.get("date")),
        tags: yaml_string_list(v.get("tags")),
        table_of_contents: yaml_bool(v.get("table_of_contents")),
    })
}

/// Relies on `serde_yaml::Value::as_str`: the value as an owned string;
/// absent and wrongly shaped fields are told apart.
#[verifier::external_body]
fn yaml_string(v: Option<&serde_yaml::Value>) -> (r: RawField<String>) {
    match v {
        None => RawField::Missing,
        Some(x) => match x.as_str() {
            Some(s) => RawField::Given(s.to_owned()),
            None => RawField::WrongType,
        },
    }
}

/// Relies on `serde_yaml::Value::as_bool`: the value as a boolean; absent
/// and wrongly shaped fields are told apart.
#[verifier::external_body]
fn yaml_bool(v: Option<&serde_yaml::Value>) -> (r: RawField<bool>) {
    match v {
        None => RawField::Missing,
        Some(x) => match x.as_bool() {
            Some(b) => RawField::Given(b),
            None => RawField::WrongType,
        },
    }
}

/// Relies on `serde_yaml::Value::as_sequence` and `as_str`: the value as a
/// list of strings; absent fields, and fields that are not lists of
/// strings, are told apart.
#[verifier::external_body]
fn yaml_string_list(v: Option<&serde_yaml::Value>) -> (r: RawField<Vec<String>>) {
    let x = match v { None => return RawField::Missing, Some(x) => x };
    let items = match x.as_sequence() { Some(i) => i, None => return RawField::WrongType };
    match items.iter().map(|e| e.as_str().map(|s| s.to_owned())).collect::<Option<Vec<String>>>() {
        Some(list) => RawField::Given(list),
        None => RawField::WrongType,
    }
}

/// Whether raw fields make a valid record: no field of the wrong shape,
/// the title given, the date given and a valid `YYYY-MM-DD` calendar date.
pub open spec fn fields_ok(f: RawMetadata) -> bool {
    &&& !(f.title is WrongType)
    &&& !(f.authors is WrongType)
    &&& !(f.slug is WrongType)
    &&& !(f.description is WrongType)
    &&& !(f.date is WrongType)
    &&& !(f.tags is WrongType)
    &&& !(f.table_of_contents is WrongType)
    &&& f.title is Given
    &&& f.date is Given
    &&& date_text_valid(f.date->Given_0@)
}

/// The error reported for raw fields that do not make a valid record:
/// the first wrongly shaped field in field order, else a missing title or
/// date, else the invalid date.
pub open spec fn fields_err(f: RawMetadata) -> Seq<char> {
    if f.title is WrongType {
        "invalid type for field `title`"@
    } else if f.authors is WrongType {
        "invalid type for field `authors`"@
    } else if f.slug is WrongType {
        "invalid type for field `slug`"@
    } else if f.description is WrongType {
        "invalid type for field `description`"@
    } else if f.date is WrongType {
        "invalid type for field `date`"@
    } else if f.tags is WrongType {
        "invalid type for field `tags`"@
    } else if f.table_of_contents is WrongType {
        "invalid type for field `table_of_contents`"@
    } else if f.title is Missing {
        "missing field `title`"@
    } else if f.date is Missing {
        "missing field `date`"@
    } else {
        "invalid `date`: expected a valid YYYY-MM-DD calendar date"@
    }
}

/// How a validated record relates to the raw fields it was made of:
/// required fields taken over, the date parsed, the optional ones defaulted
/// (no tags, no table of contents).
pub open spec fn matches_fields(m: BlogPostMetadata, f: RawMetadata) -> bool {
    &&& m.title == f.title->Given_0
    &&& m.authors == (match f.authors {
        RawField::Given(a) => Some(a),
        _ => None::<Vec<String>>,
    })
    &&& m.slug == (match f.slug {
        RawField::Given(sl) => Some(sl),
        _ => None::<String>,
    })
    &&& m.description == (match f.description {
        RawField::Given(d) => Some(d),
        _ => None::<String>,
    })
    &&& m.date == date_of_text(f.date->Given_0@)
    &&& m.tags@ == (match f.tags {
        RawField::Given(t) => t@,
        _ => Seq::<String>::empty(),
    })
    &&& m.table_of_contents == (match f.table_of_contents {
        RawField::Given(b) => b,
        _ => false,
    })
}

/// Validates raw front-matter fields into a metadata record; fails exactly
/// when the title is missing or the date is missing or not a valid
/// `YYYY-MM-DD` calendar date.
pub fn metadata_from_fields(f: RawMetadata) -> (r: Result<BlogPostMetadata, String>)
    ensures
        r is Ok <==> fields_ok(f),
        r is Ok ==> matches_fields(r->Ok_0, f) && metadata_wf(r->Ok_0),
        r is Err ==> r->Err_0@ == fields_err(f),
{
    let RawMetadata { title, authors, slug, description, date, tags, table_of_contents } = f;
    match &title {
        RawField::WrongType => {
            return Err(String::from_str("invalid type for field `title`"));
        },
        _ => {},
    }
    match &authors {
        RawField::WrongType => {
            return Err(String::from_str("invalid type for field `authors`"));
        },
        _ => {},
    }
    match &slug {
        RawField::WrongType => {
            return Err(String::from_str("invalid type for field `slug`"));
        },
        _ => {},
    }
    match &description {
        RawField::WrongType => {
            return Err(String::from_str("invalid type for field `description`"));
        },
        _ => {},
    }
    match &date {
        RawField::WrongType => {
            return Err(String::from_str("invalid type for field `date`"));
        },
        _ => {},
    }
    match &tags {
        RawField::WrongType => {
            return Err(String::from_str("invalid type for field `tags`"));
        },
        _ => {},
    }
    match &table_of_contents {
        RawField::WrongType => {
            return Err(String::from_str("invalid type for field `table_of_contents`"));
        },
        _ => {},
    }
    let title = match title {
        RawField::Given(t) => t,
        _ => {
            return Err(String::from_str("missing field `title`"));
        },
    };
    let date_text = match date {
        RawField::Given(d) => d,
        _ => {
            return Err(String::from_str("missing field `date`"));
        },
    };
    let date_chars = str_to_chars(date_text.as_str());
    let date = match crate::date::parse_date(&date_chars) {
        Some(d) => d,
        None => {
            return Err(String::from_str("invalid `date`: expected a valid YYYY-MM-DD calendar date"));
        },
    };
    let authors = match authors {
        RawField::Given(a) => Some(a),
        _ => None,
    };
    let slug = match slug {
        RawField::Given(sl) => Some(sl),
        _ => None,
    };
    let description = match description {
        RawField::Given(d) => Some(d),
        _ => None,
    };
    let tags = match tags {
        RawField::Given(t) => t,
        _ => default_empty(),
    };
    let table_of_contents = match table_of_contents {
        RawField::Given(b) => b,
        _ => false,
    };
    Ok(BlogPostMetadata { title, authors, slug, description, date, tags, table_of_contents })
}

/// What is removed around the front-matter fields: every occurrence of the
/// three-dash delimiter, scanned left to right.
pub open spec fn strip_triple_dash(s: Seq<char>) -> Seq<char>
    decreases s.len(),
{
    if s.len() == 0 {
        Seq::empty()
    } else if s.len() >= 3 && s[0] == '-' && s[1] == '-' && s[2] == '-' {
        strip_triple_dash(s.skip(3))
    } else {
        seq![s[0]] + strip_triple_dash(s.drop_first())
    }
}

/// Removes every `---` delimiter from the front-matter text.
pub fn strip_delimiters(s: &Vec<char>) -> (r: Vec<char>)
    ensures
        r@ == strip_triple_dash(s@),
{
    let ghost sv = s@;
    let mut out: Vec<char> = Vec::new();
    let mut i: usize = 0;
    proof {
        assert(sv.skip(0) =~= sv);
    }
    while i < s.len()
        invariant
            0 <= i <= sv.len(),
            sv == s@,
            strip_triple_dash(sv) == out@ + strip_triple_dash(sv.skip(i as int)),
        decreases sv.len() - i,
    {
        proof {
            assert(sv.skip(i as int)[0] == sv[i as int]);
            assert(sv.skip(i as int).drop_first() =~= sv.skip(i + 1));
        }
        if s.len() >= 3 && i < s.len() - 2 && s[i] == '-' && s[i + 1] == '-' && s[i + 2] == '-' {
            proof {
                assert(sv.skip(i as int)[1] == sv[i + 1]);
                assert(sv.skip(i as int)[2] == sv[i + 2]);
                assert(sv.skip(i as int).skip(3) =~= sv.skip(i + 3));
            }
            i = i + 3;
        } else {
            let ghost out_pre = out@;
            out.push(s[i]);
            proof {
                assert(out@ =~= out_pre + seq![sv[i as int]]);
                assert(out_pre + seq![sv[i as int]] + strip_triple_dash(sv.skip(i + 1)) =~= out_pre
                    + (seq![sv[i as int]] + strip_triple_dash(sv.skip(i + 1))));
            }
            i = i + 1;
        }
    }
    proof {
        assert(strip_triple_dash(sv.skip(sv.len() as int)) =~= Seq::<char>::empty());
        assert(out@ + Seq::<char>::empty() =~= out@);
    }
    out
}

/// Reads and validates the metadata of a front-matter block: the `---`
/// delimiters are stripped, the rest parsed as YAML, the fields validated.
/// The error is the YAML reader's message when the text does not parse, and
/// the validation message otherwise.
pub fn parse_metadata(fm: &str) -> (r: Result<BlogPostMetadata, String>)
    ensures
        ({
            let stripped = strip_triple_dash(fm@);
            match yaml_meta_of(stripped) {
                None => r is Err && r->Err_0@ == yaml_err_of(stripped),
                Some(f) => {
                    &&& r is Ok <==> fields_ok(f)
                    &&& r is Ok ==> matches_fields(r->Ok_0, f) && metadata_wf(r->Ok_0)
                    &&& r is Err ==> r->Err_0@ == fields_err(f)
                },
            }
        }),
{
    let fm_chars = str_to_chars(fm);
    let stripped = strip_delimiters(&fm_chars);
    let stripped_str = chars_to_string(&stripped);
    match yaml_metadata_fields(stripped_str.as_str()) {
        Ok(f) => metadata_from_fields(f),
        Err(msg) => Err(msg),
    }
}

} // verus!
