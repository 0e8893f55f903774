//! Front matter as plain values, and the calls into the YAML crates that
//! find, read and write it.

use vstd::prelude::*;
use yaml_rust::{Yaml, YamlEmitter};
use unicode_width::UnicodeWidthStr;

verus! {

#[verifier::external_type_specification]
#[verifier::external_body]
pub struct ExYaml(Yaml);

/// A scalar of front matter: text, an integer, or anything else.
#[derive(Debug)]
pub enum FrontScalar {
    Text(String),
    Integer(i64),
    Other,
}

/// A front-matter value: a scalar, a list of scalars, or anything else
/// (a nested mapping, a nested list).
#[derive(Debug)]
pub enum FrontValue {
    Scalar(FrontScalar),
    List(Vec<FrontScalar>),
    Other,
}

pub enum ScalarView {
    Text(Seq<char>),
    Integer(i64),
    Other,
}

pub enum ValueView {
    Scalar(ScalarView),
    List(Seq<ScalarView>),
    Other,
}

impl View for FrontScalar {
    type V = ScalarView;

    open spec fn view(&self) -> ScalarView {
        match self {
            FrontScalar::Text(s) => ScalarView::Text(s@),
            FrontScalar::Integer(i) => ScalarView::Integer(*i),
            FrontScalar::Other => ScalarView::Other,
        }
    }
}

pub open spec fn scalar_views(v: Seq<FrontScalar>) -> Seq<ScalarView> {
    v.map_values(|x: FrontScalar| x@)
}

impl View for FrontValue {
    type V = ValueView;

    open spec fn view(&self) -> ValueView {
        match self {
            FrontValue::Scalar(x) => ValueView::Scalar(x@),
            FrontValue::List(xs) => ValueView::List(scalar_views(xs@)),
            FrontValue::Other => ValueView::Other,
        }
    }
}

/// Front-matter entries as read: the key when it is text, and the value.
pub type Entries = Seq<(Option<Seq<char>>, ValueView)>;

/// Front-matter entries as read: the key when it is text, and the value.
pub open spec fn entry_views(v: Seq<(Option<String>, FrontValue)>) -> Entries {
    v.map_values(|e: (Option<String>, FrontValue)| (
        match e.0 {
            Some(k) => Some(k@),
            None => None,
        },
        e.1@,
    ))
}

/// Front-matter entries as written: text keys and their values.
pub open spec fn written_views(v: Seq<(String, FrontValue)>) -> Entries {
    v.map_values(|e: (String, FrontValue)| (Some(e.0@), e.1@))
}

/// `t` begins with the front-matter marker line `---`.
pub open spec fn starts_with_marker(t: Seq<char>) -> bool {
    t.len() >= 4 && t[0] == '-' && t[1] == '-' && t[2] == '-' && t[3] == '\n'
}

pub open spec fn is_suffix(a: Seq<char>, t: Seq<char>) -> bool {
    a.len() <= t.len() && a == t.subrange(t.len() - a.len(), t.len() as int)
}

/// Relies on `yaml_rust::YamlEmitter::dump`: the YAML text of a value.
#[verifier::external_body]
fn yaml_text(y: &Yaml) -> String {
    let mut out = String::new();
    {
        let mut emitter = YamlEmitter::new(&mut out);
        let _ = emitter.dump(y);
    }
    out
}

/// Relies on the variants of `yaml_rust::Yaml`: text and integer scalars,
/// and lists of them, carried over as they are.
#[verifier::external_body]
fn front_value_of(v: &Yaml) -> FrontValue {
    let scalar = |x: &Yaml| match x {
        Yaml::String(s) => FrontScalar::Text(s.clone()),
        Yaml::Integer(i) => FrontScalar::Integer(*i),
        _ => FrontScalar::Other,
    };
    match v {
        Yaml::Array(a) => FrontValue::List(a.iter().map(scalar).collect()),
        Yaml::Hash(_) => FrontValue::Other,
        other => FrontValue::Scalar(scalar(other)),
    }
}

/// Relies on `yaml_rust::Yaml::as_hash` and `as_str`: the entries of a
/// mapping in order, with the key when it is text; `None` when the value
/// is no mapping.
#[verifier::external_body]
fn front_entries(y: &Yaml) -> Option<Vec<(Option<String>, FrontValue)>> {
    y.as_hash().map(|h| h.iter().map(|(k, v)| (k.as_str().map(|s| s.to_string()), front_value_of(v))).collect())
}

/// Relies on the variants of `yaml_rust::Yaml`: the YAML value of a
/// front-matter value (`Null` for `Other`).
#[verifier::external_body]
fn yaml_of(v: &FrontValue) -> Yaml {
    let scalar = |x: &FrontScalar| match x {
        FrontScalar::Text(s) => Yaml::String(s.clone()),
        FrontScalar::Integer(i) => Yaml::Integer(*i),
        FrontScalar::Other => Yaml::Null,
    };
    match v {
        FrontValue::Scalar(x) => scalar(x),
        FrontValue::List(xs) => Yaml::Array(xs.iter().map(scalar).collect()),
        FrontValue::Other => Yaml::Null,
    }
}

/// What reading the front matter of a text gives, as plain values.
#[derive(Debug)]
pub enum FrontMatterRead {
    /// The YAML scanner failed; its message.
    Unreadable(String),
    /// The text has no front-matter block, or an empty one.
    NoBlock,
    /// The block is YAML but no mapping; its YAML text.
    NotMapping(String),
    /// The entries of the mapping, its YAML text, and the body after the block.
    Entries(Vec<(Option<String>, FrontValue)>, String, String),
}

pub enum FrontReadView {
    Unreadable(Seq<char>),
    NoBlock,
    NotMapping(Seq<char>),
    Entries(Entries, Seq<char>, Seq<char>),
}

impl View for FrontMatterRead {
    type V = FrontReadView;

    open spec fn view(&self) -> FrontReadView {
        match self {
            FrontMatterRead::Unreadable(t) => FrontReadView::Unreadable(t@),
            FrontMatterRead::NoBlock => FrontReadView::NoBlock,
            FrontMatterRead::NotMapping(t) => FrontReadView::NotMapping(t@),
            FrontMatterRead::Entries(m, raw, body) => FrontReadView::Entries(entry_views(m@), raw@, body@),
        }
    }
}

/// The body that a reading found after the front-matter block, if any.
pub open spec fn read_body(r: FrontReadView) -> Option<Seq<char>> {
    match r {
        FrontReadView::Entries(_, _, body) => Some(body),
        _ => None,
    }
}

/// What reading the front matter of a text gives.
pub uninterp spec fn front_matter_read(text: Seq<char>) -> FrontReadView;

/// Relies on `frontmatter::parse_and_find_content` (the block between the
/// first two `---` lines, loaded by `YamlLoader`), `Yaml::as_hash`,
/// `ScanError`'s `Display` and `YamlEmitter::dump`: the result depends on
/// the text alone. Text that does not start with a `---` line has no block,
/// and the body is what follows the block.
#[verifier::external_body]
pub(crate) fn read_front_matter(text: &str) -> (r: FrontMatterRead)
    ensures
        r@ == front_matter_read(text@),
        r@ is NoBlock || starts_with_marker(text@),
        read_body(r@) is None || is_suffix(read_body(r@)->0, text@),
{
    match frontmatter::parse_and_find_content(text) {
        Err(e) => FrontMatterRead::Unreadable(e.to_string()),
        Ok((None, _)) => FrontMatterRead::NoBlock,
        Ok((Some(y), rest)) => match front_entries(&y) {
            None => FrontMatterRead::NotMapping(yaml_text(&y)),
            Some(m) => FrontMatterRead::Entries(m, yaml_text(&y), rest.to_string()),
        },
    }
}

/// The YAML text that yaml-rust's emitter writes for a mapping with the
/// given entries.
pub uninterp spec fn yaml_mapping_text(m: Entries) -> Seq<char>;

/// Relies on `yaml_rust::Yaml::Hash` and `YamlEmitter::dump`: the YAML
/// text of a mapping with the given entries, in order; it depends on the
/// entries alone.
#[verifier::external_body]
pub(crate) fn emit_entries(entries: &Vec<(String, FrontValue)>) -> (r: String)
    ensures
        r@ == yaml_mapping_text(written_views(entries@)),
{
    let hash = entries.iter().map(|(k, v)| (Yaml::String(k.clone()), yaml_of(v))).collect();
    yaml_text(&Yaml::Hash(hash))
}

/// The display width of text, in terminal columns.
pub uninterp spec fn width_of(s: Seq<char>) -> nat;

/// Relies on `unicode_width::UnicodeWidthStr::width`; empty text is zero
/// columns wide.
#[verifier::external_body]
pub(crate) fn display_width(s: &str) -> (r: usize)
    ensures
        r == width_of(s@),
        s@.len() == 0 ==> r == 0,
{
    s.width()
}

} // verus!
