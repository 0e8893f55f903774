//! Documents: Markdown text with YAML front matter, normalised into one
//! record per file.

use vstd::prelude::*;
use crate::date::{
    date_seconds, formatted_seconds, offset_format, parse_rfc3339, parse_with_format, rfc3339_seconds,
    rfc3339_text, Date,
};
use crate::front_matter::{
    display_width, emit_entries, entry_views, front_matter_read, read_front_matter, scalar_views,
    starts_with_marker, width_of, written_views, yaml_mapping_text, is_suffix, Entries, FrontMatterRead,
    FrontReadView, FrontScalar, FrontValue, ScalarView, ValueView,
};
use crate::query::{prefix_of, XapianTag};
use crate::text::{chars_of, same_text, string_from_chars};

verus! {

/// Which fields a rendering of a document carries.
#[derive(Clone, Copy, Debug, PartialEq, Eq, Structural)]
pub enum SerializationType {
    /// Every field and the body: the payload stored with the search index.
    Storage,
    /// The fields worth keeping in a rewritten file: no identifier, no
    /// usage counters, no provenance.
    Disk,
    /// The body alone.
    Human,
}

/// A list of strings, such as the authors of a document.
#[derive(Debug)]
pub struct VecString(pub Vec<String>);

impl VecString {
    pub fn new(v: Vec<String>) -> (r: VecString)
        ensures
            r.0@ == v@,
    {
        VecString(v)
    }
}

/// Ways in which reading a document can fail.
#[derive(Clone, Debug, PartialEq, Eq)]
pub enum IngestError {
    /// The text has no front-matter block.
    NoFrontMatter,
    /// The front matter is not YAML, not a mapping, lacks a title or a date,
    /// or holds a field of the wrong type; holds the YAML text or the
    /// scanner's message.
    MalformedFrontMatter(String),
    /// The date is text in none of the accepted forms; holds that text.
    DateParseError(String),
}

/// One Markdown document with its front matter.
#[derive(Debug)]
pub struct Document {
    pub filename: String,
    pub full_path: String,
    /// Derived from the title: see `identifier`.
    pub id: String,
    pub serialization_type: SerializationType,
    pub authors: VecString,
    pub date: Date,
    pub tags: Vec<String>,
    pub weight: i32,
    pub writes: u16,
    pub views: i32,
    pub title: String,
    pub subtitle: String,
    pub body: String,
}

pub open spec fn is_id_char(c: char) -> bool {
    let v = c as u32;
    (65 <= v && v <= 90) || (97 <= v && v <= 122) || (48 <= v && v <= 57) || c == '-' || c == '_'
}

/// The identifier of a title: its ASCII letters, digits, `-` and `_`, in order.
pub open spec fn identifier(t: Seq<char>) -> Seq<char>
    decreases t.len(),
{
    if t.len() == 0 {
        seq![]
    } else {
        identifier(t.drop_last()) + if is_id_char(t.last()) {
            seq![t.last()]
        } else {
            seq![]
        }
    }
}

/// Keeps the characters of `title` that may stand in an identifier.
pub fn derive_identifier(title: &str) -> (r: String)
    ensures
        r@ == identifier(title@),
{
    let cs = chars_of(title);
    let mut out: Vec<char> = Vec::new();
    let mut i: usize = 0;
    while i < cs.len()
        invariant
            i <= cs@.len(),
            out@ == identifier(cs@.subrange(0, i as int)),
        decreases cs@.len() - i,
    {
        let c = cs[i];
        let v = c as u32;
        proof {
            assert(cs@.subrange(0, i + 1).drop_last() =~= cs@.subrange(0, i as int));
        }
        if (65 <= v && v <= 90) || (97 <= v && v <= 122) || (48 <= v && v <= 57) || c == '-' || c == '_' {
            out.push(c);
            proof {
                assert(out@ =~= identifier(cs@.subrange(0, i + 1)));
            }
        } else {
            proof {
                assert(out@ =~= identifier(cs@.subrange(0, i + 1)));
            }
        }
        i = i + 1;
    }
    proof {
        assert(cs@.subrange(0, cs@.len() as int) =~= cs@);
    }
    string_from_chars(out.as_slice())
}

/// The value of the first entry with key `name`, from entry `i` on.
pub open spec fn lookup_from(m: Entries, name: Seq<char>, i: int) -> Option<ValueView>
    decreases m.len() - i,
{
    if i < 0 || i >= m.len() {
        None
    } else if m[i].0 == Some(name) {
        Some(m[i].1)
    } else {
        lookup_from(m, name, i + 1)
    }
}

pub open spec fn lookup(m: Entries, name: Seq<char>) -> Option<ValueView> {
    lookup_from(m, name, 0)
}

/// The value under `name`, or else under its alias.
pub open spec fn lookup_either(m: Entries, name: Seq<char>, alias: Seq<char>) -> Option<ValueView> {
    match lookup(m, name) {
        Some(v) => Some(v),
        None => lookup(m, alias),
    }
}

/// A text field: its text, the default when absent, `None` when not text.
pub open spec fn text_field(v: Option<ValueView>, default: Seq<char>) -> Option<Seq<char>> {
    match v {
        None => Some(default),
        Some(ValueView::Scalar(ScalarView::Text(s))) => Some(s),
        _ => None,
    }
}

pub open spec fn all_text(xs: Seq<ScalarView>) -> bool {
    forall|i: int| 0 <= i < xs.len() ==> #[trigger] xs[i] is Text
}

/// A field given either as one string or as a list of strings, always read
/// as a list; `None` when it is neither.
pub open spec fn string_or_list(v: ValueView) -> Option<Seq<Seq<char>>> {
    match v {
        ValueView::Scalar(ScalarView::Text(s)) => Some(seq![s]),
        ValueView::List(xs) => if all_text(xs) {
            Some(xs.map_values(|x: ScalarView| x->Text_0))
        } else {
            None
        },
        _ => None,
    }
}

/// A list field: empty when absent.
pub open spec fn list_field(v: Option<ValueView>) -> Option<Seq<Seq<char>>> {
    match v {
        None => Some(seq![]),
        Some(x) => string_or_list(x),
    }
}

/// An integer field within `lo..=hi`: zero when absent.
pub open spec fn int_field(v: Option<ValueView>, lo: int, hi: int) -> Option<int> {
    match v {
        None => Some(0),
        Some(ValueView::Scalar(ScalarView::Integer(i))) => if lo <= i <= hi {
            Some(i as int)
        } else {
            None
        },
        _ => None,
    }
}

/// The date entry is present and is text or an integer.
pub open spec fn date_well_typed(v: Option<ValueView>) -> bool {
    match v {
        Some(ValueView::Scalar(ScalarView::Text(_))) => true,
        Some(ValueView::Scalar(ScalarView::Integer(_))) => true,
        _ => false,
    }
}

/// Every field of the front matter has the right type, and the required
/// `title` and `date` are present.
pub open spec fn well_typed(m: Entries) -> bool {
    &&& lookup(m, "title"@) matches Some(ValueView::Scalar(ScalarView::Text(_)))
    &&& text_field(lookup(m, "subtitle"@), seq![]) is Some
    &&& text_field(lookup(m, "filename"@), seq![]) is Some
    &&& text_field(lookup(m, "full_path"@), seq![]) is Some
    &&& list_field(lookup_either(m, "authors"@, "author"@)) is Some
    &&& list_field(lookup_either(m, "tags"@, "tag"@)) is Some
    &&& int_field(lookup(m, "weight"@), i32::MIN as int, i32::MAX as int) is Some
    &&& int_field(lookup(m, "writes"@), 0, u16::MAX as int) is Some
    &&& int_field(lookup(m, "views"@), i32::MIN as int, i32::MAX as int) is Some
    &&& date_well_typed(lookup(m, "date"@))
}

/// The epoch seconds of the date entry, when it denotes a date.
pub open spec fn date_of(m: Entries) -> Option<i64> {
    match lookup(m, "date"@) {
        Some(ValueView::Scalar(ScalarView::Integer(i))) => Some(i),
        Some(ValueView::Scalar(ScalarView::Text(s))) => date_seconds(s),
        _ => None,
    }
}

pub open spec fn string_views(v: Seq<String>) -> Seq<Seq<char>> {
    v.map_values(|s: String| s@)
}

/// `d` holds what the front matter `m` says, with `body`, and with
/// `file_name` and `full_path` where the front matter names none.
pub open spec fn document_matches(
    d: Document,
    m: Entries,
    body: Seq<char>,
    file_name: Seq<char>,
    full_path: Seq<char>,
) -> bool {
    &&& lookup(m, "title"@) == Some(ValueView::Scalar(ScalarView::Text(d.title@)))
    &&& text_field(lookup(m, "subtitle"@), seq![]) == Some(d.subtitle@)
    &&& text_field(lookup(m, "filename"@), file_name) == Some(d.filename@)
    &&& text_field(lookup(m, "full_path"@), full_path) == Some(d.full_path@)
    &&& list_field(lookup_either(m, "authors"@, "author"@)) == Some(string_views(d.authors.0@))
    &&& list_field(lookup_either(m, "tags"@, "tag"@)) == Some(string_views(d.tags@))
    &&& int_field(lookup(m, "weight"@), i32::MIN as int, i32::MAX as int) == Some(d.weight as int)
    &&& int_field(lookup(m, "writes"@), 0, u16::MAX as int) == Some(d.writes as int)
    &&& int_field(lookup(m, "views"@), i32::MIN as int, i32::MAX as int) == Some(d.views as int)
    &&& date_of(m) == Some(d.date.0)
    &&& d.id@ == identifier(d.title@)
    &&& d.body@ == body
    &&& d.serialization_type == SerializationType::Storage
}

pub open spec fn opt_view(v: Option<&FrontValue>) -> Option<ValueView> {
    match v {
        Some(x) => Some(x@),
        None => None,
    }
}

/// The value of the first entry with key `name`.
fn find_entry<'a>(entries: &'a Vec<(Option<String>, FrontValue)>, name: &str) -> (r: Option<&'a FrontValue>)
    ensures
        opt_view(r) == lookup(entry_views(entries@), name@),
{
    let ghost m = entry_views(entries@);
    let mut i: usize = 0;
    while i < entries.len()
        invariant
            m == entry_views(entries@),
            i <= entries@.len(),
            lookup_from(m, name@, i as int) == lookup(m, name@),
        decreases entries@.len() - i,
    {
        let e = &entries[i];
        let hit = match &e.0 {
            Some(k) => same_text(k.as_str(), name),
            None => false,
        };
        proof {
            assert(m[i as int] == (match entries@[i as int].0 { Some(k) => Some(k@), None => None }, entries@[i as int].1@));
        }
        if hit {
            return Some(&e.1);
        }
        i = i + 1;
    }
    None
}

fn find_either<'a>(entries: &'a Vec<(Option<String>, FrontValue)>, name: &str, alias: &str) -> (r: Option<&'a FrontValue>)
    ensures
        opt_view(r) == lookup_either(entry_views(entries@), name@, alias@),
{
    match find_entry(entries, name) {
        Some(v) => Some(v),
        None => find_entry(entries, alias),
    }
}

fn read_text(v: Option<&FrontValue>, default: &str) -> (r: Option<String>)
    ensures
        r is Some <==> text_field(opt_view(v), default@) is Some,
        r matches Some(s) ==> text_field(opt_view(v), default@) == Some(s@),
{
    match v {
        None => Some(default.to_owned()),
        Some(FrontValue::Scalar(FrontScalar::Text(s))) => Some(s.clone()),
        Some(_) => None,
    }
}

fn read_list(v: Option<&FrontValue>) -> (r: Option<Vec<String>>)
    ensures
        r is Some <==> list_field(opt_view(v)) is Some,
        r matches Some(l) ==> list_field(opt_view(v)) == Some(string_views(l@)),
{
    match v {
        None => Some(Vec::new()),
        Some(FrontValue::Scalar(FrontScalar::Text(s))) => {
            let mut l: Vec<String> = Vec::new();
            l.push(s.clone());
            proof {
                assert(string_views(l@) =~= seq![s@]);
            }
            Some(l)
        },
        Some(FrontValue::List(xs)) => {
            let ghost xv = scalar_views(xs@);
            let mut l: Vec<String> = Vec::new();
            let mut i: usize = 0;
            while i < xs.len()
                invariant
                    xv == scalar_views(xs@),
                    opt_view(v) == Some(ValueView::List(xv)),
                    i <= xs@.len(),
                    l@.len() == i,
                    forall|t: int| 0 <= t < i ==> #[trigger] xv[t] is Text && xv[t]->Text_0 == l@[t]@,
                decreases xs@.len() - i,
            {
                match &xs[i] {
                    FrontScalar::Text(s) => {
                        l.push(s.clone());
                    },
                    _ => {
                        proof {
                            assert(!(xv[i as int] is Text));
                        }
                        return None;
                    },
                }
                i = i + 1;
            }
            proof {
                assert(string_views(l@) =~= xv.map_values(|x: ScalarView| x->Text_0));
            }
            Some(l)
        },
        Some(_) => None,
    }
}

fn read_int(v: Option<&FrontValue>, lo: i64, hi: i64) -> (r: Option<i64>)
    ensures
        r is Some <==> int_field(opt_view(v), lo as int, hi as int) is Some,
        r matches Some(i) ==> int_field(opt_view(v), lo as int, hi as int) == Some(i as int),
{
    match v {
        None => Some(0),
        Some(FrontValue::Scalar(FrontScalar::Integer(i))) => {
            if lo <= *i && *i <= hi {
                Some(*i)
            } else {
                None
            }
        },
        Some(_) => None,
    }
}

/// `r` is what reading the front matter `m` (YAML text `raw`) with `body`
/// gives: malformed when a field is missing or of the wrong type, a date
/// error when the date text is in no accepted form, and otherwise the
/// document that `m` describes.
pub open spec fn ingested(
    r: Result<Document, IngestError>,
    m: Entries,
    raw: Seq<char>,
    body: Seq<char>,
    file_name: Seq<char>,
    full_path: Seq<char>,
) -> bool {
    &&& !well_typed(m) ==> (r matches Err(IngestError::MalformedFrontMatter(t)) && t@ == raw)
    &&& well_typed(m) && date_of(m) is None ==> (r matches Err(IngestError::DateParseError(t))
        && lookup(m, "date"@) == Some(ValueView::Scalar(ScalarView::Text(t@))))
    &&& well_typed(m) && date_of(m) is Some ==> (r matches Ok(d) && document_matches(d, m, body, file_name, full_path))
}

/// `r` is what reading a text whose front matter reads as `read` gives,
/// where the reading found no entries.
pub open spec fn read_outcome<T>(r: Result<T, IngestError>, read: FrontReadView) -> bool {
    match read {
        FrontReadView::NoBlock => r == Err::<T, IngestError>(IngestError::NoFrontMatter),
        FrontReadView::Unreadable(msg) => r matches Err(IngestError::MalformedFrontMatter(t)) && t@ == msg,
        FrontReadView::NotMapping(raw) => r matches Err(IngestError::MalformedFrontMatter(t)) && t@ == raw,
        FrontReadView::Entries(_, _, _) => true,
    }
}

impl Document {
    /// A document with every field empty or zero.
    pub fn new() -> (r: Document)
        ensures
            r.title@.len() == 0,
            r.body@.len() == 0,
            r.tags@.len() == 0,
            r.authors.0@.len() == 0,
            r.date.0 == 0,
            r.serialization_type == SerializationType::Storage,
    {
        Document {
            filename: String::new(),
            full_path: String::new(),
            id: String::new(),
            serialization_type: SerializationType::Storage,
            authors: VecString(Vec::new()),
            date: Date(0),
            tags: Vec::new(),
            weight: 0,
            writes: 0,
            views: 0,
            title: String::new(),
            subtitle: String::new(),
            body: String::new(),
        }
    }

    /// Builds a document from front-matter entries and the body that
    /// follows them. `raw` is the front matter's YAML text, kept in the
    /// error when a field is missing or of the wrong type; `file_name` and
    /// `full_path` stand where the front matter names none. The identifier
    /// is derived from the title.
    pub fn from_front_matter(
        entries: &Vec<(Option<String>, FrontValue)>,
        raw: &str,
        body: &str,
        file_name: &str,
        full_path: &str,
    ) -> (r: Result<Document, IngestError>)
        ensures
            ingested(r, entry_views(entries@), raw@, body@, file_name@, full_path@),
    {
        let ghost m = entry_views(entries@);
        let title = match find_entry(entries, "title") {
            Some(FrontValue::Scalar(FrontScalar::Text(t))) => t.clone(),
            _ => return Err(IngestError::MalformedFrontMatter(raw.to_owned())),
        };
        proof {
            reveal_strlit("");
            assert(""@ =~= Seq::<char>::empty());
        }
        let subtitle = match read_text(find_entry(entries, "subtitle"), "") {
            Some(t) => t,
            None => return Err(IngestError::MalformedFrontMatter(raw.to_owned())),
        };
        let filename = match read_text(find_entry(entries, "filename"), file_name) {
            Some(t) => t,
            None => return Err(IngestError::MalformedFrontMatter(raw.to_owned())),
        };
        let path = match read_text(find_entry(entries, "full_path"), full_path) {
            Some(t) => t,
            None => return Err(IngestError::MalformedFrontMatter(raw.to_owned())),
        };
        let authors = match read_list(find_either(entries, "authors", "author")) {
            Some(l) => l,
            None => return Err(IngestError::MalformedFrontMatter(raw.to_owned())),
        };
        let tags = match read_list(find_either(entries, "tags", "tag")) {
            Some(l) => l,
            None => return Err(IngestError::MalformedFrontMatter(raw.to_owned())),
        };
        let weight = match read_int(find_entry(entries, "weight"), i32::MIN as i64, i32::MAX as i64) {
            Some(i) => i as i32,
            None => return Err(IngestError::MalformedFrontMatter(raw.to_owned())),
        };
        let writes = match read_int(find_entry(entries, "writes"), 0, u16::MAX as i64) {
            Some(i) => i as u16,
            None => return Err(IngestError::MalformedFrontMatter(raw.to_owned())),
        };
        let views = match read_int(find_entry(entries, "views"), i32::MIN as i64, i32::MAX as i64) {
            Some(i) => i as i32,
            None => return Err(IngestError::MalformedFrontMatter(raw.to_owned())),
        };
        let date = match find_entry(entries, "date") {
            Some(FrontValue::Scalar(FrontScalar::Integer(i))) => Date(*i),
            Some(FrontValue::Scalar(FrontScalar::Text(t))) => match Date::parse(t.as_str()) {
                Some(d) => d,
                None => return Err(IngestError::DateParseError(t.clone())),
            },
            _ => return Err(IngestError::MalformedFrontMatter(raw.to_owned())),
        };
        let id = derive_identifier(title.as_str());
        let b = body.to_owned();
        proof {
            assert(lookup(m, "title"@) == Some(ValueView::Scalar(ScalarView::Text(title@))));
            assert(text_field(lookup(m, "subtitle"@), seq![]) == Some(subtitle@));
            assert(text_field(lookup(m, "filename"@), file_name@) == Some(filename@));
            assert(int_field(lookup(m, "weight"@), i32::MIN as int, i32::MAX as int) == Some(weight as int));
            assert(date_of(m) == Some(date.0));
            assert(b@ == body@);
        }
        Ok(Document {
            filename,
            full_path: path,
            id,
            serialization_type: SerializationType::Storage,
            authors: VecString(authors),
            date,
            tags,
            weight,
            writes,
            views,
            title,
            subtitle,
            body: b,
        })
    }

    /// Reads a document from the whole text of a file: a front-matter block
    /// between `---` lines, then the body. `file_name` and `full_path` stand
    /// where the front matter names none.
    pub fn parse(text: &str, file_name: &str, full_path: &str) -> (r: Result<Document, IngestError>)
        ensures
            !starts_with_marker(text@) ==> r == Err::<Document, IngestError>(IngestError::NoFrontMatter),
            read_outcome(r, front_matter_read(text@)),
            front_matter_read(text@) matches FrontReadView::Entries(m, raw, body)
                ==> ingested(r, m, raw, body, file_name@, full_path@) && is_suffix(body, text@),
    {
        match read_front_matter(text) {
            FrontMatterRead::Unreadable(msg) => Err(IngestError::MalformedFrontMatter(msg)),
            FrontMatterRead::NoBlock => Err(IngestError::NoFrontMatter),
            FrontMatterRead::NotMapping(raw) => Err(IngestError::MalformedFrontMatter(raw)),
            FrontMatterRead::Entries(entries, raw, body) => {
                Document::from_front_matter(&entries, raw.as_str(), body.as_str(), file_name, full_path)
            },
        }
    }
}

pub open spec fn text_value(s: Seq<char>) -> ValueView {
    ValueView::Scalar(ScalarView::Text(s))
}

pub open spec fn int_value(i: int) -> ValueView {
    ValueView::Scalar(ScalarView::Integer(i as i64))
}

pub open spec fn list_value(l: Seq<Seq<char>>) -> ValueView {
    ValueView::List(l.map_values(|s: Seq<char>| ScalarView::Text(s)))
}

/// The date as written: epoch seconds for storage, RFC 3339 text otherwise
/// (seconds where chrono cannot represent the instant).
pub open spec fn date_entry(d: Document, mode: SerializationType) -> ValueView {
    if mode == SerializationType::Storage {
        int_value(d.date.0 as int)
    } else {
        match rfc3339_text(d.date.0) {
            Some(t) => text_value(t),
            None => int_value(d.date.0 as int),
        }
    }
}

/// The front-matter entries written for `d` in `mode`, in order. Outside
/// storage, the subtitle is written only when it takes up columns on screen.
pub open spec fn rendered_entries(d: Document, mode: SerializationType) -> Entries {
    let sub: Entries = if mode == SerializationType::Storage || width_of(d.subtitle@) > 0 {
        seq![(Some("subtitle"@), text_value(d.subtitle@))]
    } else {
        seq![]
    };
    let head: Entries = seq![(Some("title"@), text_value(d.title@))] + sub + seq![
        (Some("date"@), date_entry(d, mode)),
        (Some("tags"@), list_value(string_views(d.tags@))),
    ];
    match mode {
        SerializationType::Human => seq![],
        SerializationType::Disk => head + seq![
            (Some("authors"@), list_value(string_views(d.authors.0@))),
            (Some("weight"@), int_value(d.weight as int)),
        ],
        SerializationType::Storage => head + seq![
            (Some("filename"@), text_value(d.filename@)),
            (Some("full_path"@), text_value(d.full_path@)),
            (Some("authors"@), list_value(string_views(d.authors.0@))),
            (Some("id"@), text_value(d.id@)),
            (Some("weight"@), int_value(d.weight as int)),
            (Some("writes"@), int_value(d.writes as int)),
            (Some("views"@), int_value(d.views as int)),
            (Some("body"@), text_value(d.body@)),
        ],
    }
}

fn text_entry(key: &str, s: &String) -> (r: (String, FrontValue))
    ensures
        r.0@ == key@,
        r.1@ == text_value(s@),
{
    (key.to_owned(), FrontValue::Scalar(FrontScalar::Text(s.clone())))
}

fn int_entry(key: &str, i: i64) -> (r: (String, FrontValue))
    ensures
        r.0@ == key@,
        r.1@ == int_value(i as int),
{
    (key.to_owned(), FrontValue::Scalar(FrontScalar::Integer(i)))
}

fn list_entry(key: &str, l: &Vec<String>) -> (r: (String, FrontValue))
    ensures
        r.0@ == key@,
        r.1@ == list_value(string_views(l@)),
{
    let mut xs: Vec<FrontScalar> = Vec::new();
    let mut i: usize = 0;
    while i < l.len()
        invariant
            i <= l@.len(),
            xs@.len() == i,
            forall|t: int| 0 <= t < i ==> #[trigger] xs@[t]@ == ScalarView::Text(l@[t]@),
        decreases l@.len() - i,
    {
        xs.push(FrontScalar::Text(l[i].clone()));
        i = i + 1;
    }
    proof {
        assert(scalar_views(xs@) =~= string_views(l@).map_values(|s: Seq<char>| ScalarView::Text(s)));
    }
    (key.to_owned(), FrontValue::List(xs))
}

impl Document {
    /// The front-matter entries that a rendering in `mode` writes.
    pub fn front_matter_of(&self, mode: SerializationType) -> (r: Vec<(String, FrontValue)>)
        ensures
            written_views(r@) == rendered_entries(*self, mode),
    {
        let mut v: Vec<(String, FrontValue)> = Vec::new();
        if mode == SerializationType::Human {
            proof {
                assert(written_views(v@) =~= rendered_entries(*self, mode));
            }
            return v;
        }
        v.push(text_entry("title", &self.title));
        if mode == SerializationType::Storage || display_width(self.subtitle.as_str()) > 0 {
            v.push(text_entry("subtitle", &self.subtitle));
        }
        if mode == SerializationType::Storage {
            v.push(int_entry("date", self.date.0));
        } else {
            match self.date.to_rfc3339() {
                Some(t) => v.push(text_entry("date", &t)),
                None => v.push(int_entry("date", self.date.0)),
            }
        }
        v.push(list_entry("tags", &self.tags));
        if mode == SerializationType::Storage {
            v.push(text_entry("filename", &self.filename));
            v.push(text_entry("full_path", &self.full_path));
            v.push(list_entry("authors", &self.authors.0));
            v.push(text_entry("id", &self.id));
            v.push(int_entry("weight", self.weight as i64));
            v.push(int_entry("writes", self.writes as i64));
            v.push(int_entry("views", self.views as i64));
            v.push(text_entry("body", &self.body));
        } else {
            v.push(list_entry("authors", &self.authors.0));
            v.push(int_entry("weight", self.weight as i64));
        }
        proof {
            assert(written_views(v@) =~= rendered_entries(*self, mode));
        }
        v
    }

    /// The document as text, in the mode that `serialization_type` names:
    /// the body alone for `Human`; otherwise a YAML front-matter block, a
    /// `---` line, and the body.
    pub fn render(&self) -> (r: String)
        ensures
            self.serialization_type == SerializationType::Human ==> r@ == self.body@,
            self.serialization_type != SerializationType::Human ==> r@ == yaml_mapping_text(
                rendered_entries(*self, self.serialization_type),
            ) + seq!['\n', '-', '-', '-', '\n'] + self.body@,
    {
        if self.serialization_type == SerializationType::Human {
            return self.body.clone();
        }
        let entries = self.front_matter_of(self.serialization_type);
        let mut out = emit_entries(&entries);
        let sep = "\n---\n";
        proof {
            reveal_strlit("\n---\n");
            assert(sep@ =~= seq!['\n', '-', '-', '-', '\n']);
        }
        let ghost head = out@;
        out.append(sep);
        out.append(self.body.as_str());
        proof {
            assert(out@ =~= head + seq!['\n', '-', '-', '-', '\n'] + self.body@);
        }
        out
    }
}

/// The first entry with key `name` is at `i`.
proof fn lemma_lookup_at(m: Entries, name: Seq<char>, i: int, k: int)
    requires
        0 <= k <= i < m.len(),
        m[i].0 == Some(name),
        forall|j: int| 0 <= j < i ==> #[trigger] m[j].0 != Some(name),
    ensures
        lookup_from(m, name, k) == Some(m[i].1),
    decreases i - k,
{
    if k < i {
        lemma_lookup_at(m, name, i, k + 1);
    }
}

proof fn lemma_list_value(l: Seq<Seq<char>>)
    ensures
        string_or_list(list_value(l)) == Some(l),
{
    let xs = l.map_values(|s: Seq<char>| ScalarView::Text(s));
    assert(all_text(xs));
    assert(xs.map_values(|x: ScalarView| x->Text_0) =~= l);
}

/// The front-matter keys have these lengths, and those of equal length differ.
proof fn lemma_keys_distinct()
    ensures
        "title"@.len() == 5 && "subtitle"@.len() == 8 && "date"@.len() == 4,
        "tags"@.len() == 4 && "filename"@.len() == 8 && "full_path"@.len() == 9,
        "authors"@.len() == 7 && "id"@.len() == 2 && "weight"@.len() == 6,
        "writes"@.len() == 6 && "views"@.len() == 5 && "body"@.len() == 4,
        "date"@ != "tags"@ && "date"@ != "body"@ && "tags"@ != "body"@,
        "title"@ != "views"@ && "subtitle"@ != "filename"@ && "weight"@ != "writes"@,
{
    reveal_strlit("title");
    reveal_strlit("subtitle");
    reveal_strlit("date");
    reveal_strlit("tags");
    reveal_strlit("filename");
    reveal_strlit("full_path");
    reveal_strlit("authors");
    reveal_strlit("id");
    reveal_strlit("weight");
    reveal_strlit("writes");
    reveal_strlit("views");
    reveal_strlit("body");
    assert("date"@[0] != "tags"@[0]);
    assert("date"@[0] != "body"@[0]);
    assert("tags"@[0] != "body"@[0]);
    assert("title"@[0] != "views"@[0]);
    assert("subtitle"@[0] != "filename"@[0]);
    assert("weight"@[1] != "writes"@[1]);
}

/// A document rendered for storage reads back as itself: the front matter
/// written in `Storage` mode is well typed and gives back every field of
/// the document, whatever file name and path stand beside it. The body
/// travels after the front matter.
pub proof fn lemma_storage_round_trip(d: Document, file_name: Seq<char>, full_path: Seq<char>)
    requires
        d.id@ == identifier(d.title@),
        d.serialization_type == SerializationType::Storage,
    ensures
        well_typed(rendered_entries(d, SerializationType::Storage)),
        date_of(rendered_entries(d, SerializationType::Storage)) == Some(d.date.0),
        document_matches(d, rendered_entries(d, SerializationType::Storage), d.body@, file_name, full_path),
{
    let m = rendered_entries(d, SerializationType::Storage);
    let o: int = 1;
    let e_title = (Some("title"@), text_value(d.title@));
    let e_sub = (Some("subtitle"@), text_value(d.subtitle@));
    let tail: Entries = seq![
        (Some("date"@), date_entry(d, SerializationType::Storage)),
        (Some("tags"@), list_value(string_views(d.tags@))),
        (Some("filename"@), text_value(d.filename@)),
        (Some("full_path"@), text_value(d.full_path@)),
        (Some("authors"@), list_value(string_views(d.authors.0@))),
        (Some("id"@), text_value(d.id@)),
        (Some("weight"@), int_value(d.weight as int)),
        (Some("writes"@), int_value(d.writes as int)),
        (Some("views"@), int_value(d.views as int)),
        (Some("body"@), text_value(d.body@)),
    ];
    assert(m =~= seq![e_title, e_sub] + tail);
    assert(m.len() == 11 + o);
    assert(m[0] == e_title);
    assert(m[1] == e_sub);
    lemma_keys_distinct();
    assert forall|j: int| 1 + o <= j < m.len() implies m[j] == tail[j - 1 - o] by {}
    lemma_lookup_at(m, "title"@, 0, 0);
    lemma_lookup_at(m, "subtitle"@, 1, 0);
    lemma_lookup_at(m, "date"@, 1 + o, 0);
    lemma_lookup_at(m, "tags"@, 2 + o, 0);
    lemma_lookup_at(m, "filename"@, 3 + o, 0);
    lemma_lookup_at(m, "full_path"@, 4 + o, 0);
    lemma_lookup_at(m, "authors"@, 5 + o, 0);
    lemma_lookup_at(m, "weight"@, 7 + o, 0);
    lemma_lookup_at(m, "writes"@, 8 + o, 0);
    lemma_lookup_at(m, "views"@, 9 + o, 0);
    lemma_list_value(string_views(d.tags@));
    lemma_list_value(string_views(d.authors.0@));
}

/// Rendering for disk keeps the title, the authors and the tags: reading
/// the written front matter back gives them unchanged, a one-element list
/// included.
pub proof fn lemma_disk_keeps_lists(d: Document)
    ensures
        lookup(rendered_entries(d, SerializationType::Disk), "title"@) == Some(text_value(d.title@)),
        list_field(lookup_either(rendered_entries(d, SerializationType::Disk), "tags"@, "tag"@))
            == Some(string_views(d.tags@)),
        list_field(lookup_either(rendered_entries(d, SerializationType::Disk), "authors"@, "author"@))
            == Some(string_views(d.authors.0@)),
{
    let m = rendered_entries(d, SerializationType::Disk);
    let o: int = if width_of(d.subtitle@) > 0 { 1 } else { 0 };
    let e_title = (Some("title"@), text_value(d.title@));
    let e_sub = (Some("subtitle"@), text_value(d.subtitle@));
    let tail: Entries = seq![
        (Some("date"@), date_entry(d, SerializationType::Disk)),
        (Some("tags"@), list_value(string_views(d.tags@))),
        (Some("authors"@), list_value(string_views(d.authors.0@))),
        (Some("weight"@), int_value(d.weight as int)),
    ];
    if o == 1 {
        assert(m =~= seq![e_title, e_sub] + tail);
    } else {
        assert(m =~= seq![e_title] + tail);
    }
    assert(m.len() == 5 + o);
    assert(m[0] == e_title);
    if o == 1 {
        assert(m[1] == e_sub);
    }
    assert(m[1 + o] == tail[0]);
    assert(m[2 + o] == tail[1]);
    lemma_keys_distinct();
    lemma_lookup_at(m, "title"@, 0, 0);
    lemma_lookup_at(m, "tags"@, 2 + o, 0);
    lemma_lookup_at(m, "authors"@, 3 + o, 0);
    lemma_list_value(string_views(d.tags@));
    lemma_list_value(string_views(d.authors.0@));
}

/// A document in the lighter shape used for export: a single author and
/// the date as written.
#[derive(Debug)]
pub struct XqDocument {
    pub id: String,
    pub author: String,
    pub date: String,
    pub tags: Vec<String>,
    pub title: String,
    pub subtitle: String,
    pub body: String,
}

/// The epoch seconds of date text with an offset: RFC 3339, or else
/// `%Y-%m-%dT%T%z`.
pub open spec fn offset_date_seconds(s: Seq<char>) -> Option<i64> {
    match rfc3339_seconds(s) {
        Some(t) => Some(t),
        None => formatted_seconds(s, offset_format()),
    }
}

impl XqDocument {
    pub fn new() -> (r: XqDocument)
        ensures
            r.id@.len() == 0 && r.author@.len() == 0 && r.date@.len() == 0,
            r.tags@.len() == 0 && r.title@.len() == 0,
            r.subtitle@.len() == 0 && r.body@.len() == 0,
    {
        XqDocument {
            id: String::new(),
            author: String::new(),
            date: String::new(),
            tags: Vec::new(),
            title: String::new(),
            subtitle: String::new(),
            body: String::new(),
        }
    }

    /// The date as RFC 3339 text in UTC; `None` when it is in neither
    /// accepted form, or out of chrono's range.
    pub fn date_str(&self) -> (r: Option<String>)
        ensures
            r is Some <==> (offset_date_seconds(self.date@) is Some
                && rfc3339_text(offset_date_seconds(self.date@)->0) is Some),
            r matches Some(t) ==> rfc3339_text(offset_date_seconds(self.date@)->0) == Some(t@),
    {
        let fmt = "%Y-%m-%dT%T%z";
        proof {
            reveal_strlit("%Y-%m-%dT%T%z");
            assert(fmt@ =~= offset_format());
        }
        let secs = match parse_rfc3339(self.date.as_str()) {
            Some(t) => Some(t),
            None => parse_with_format(self.date.as_str(), fmt),
        };
        match secs {
            Some(t) => Date(t).to_rfc3339(),
            None => None,
        }
    }
}

/// The strings joined with commas between them.
pub open spec fn join_commas(v: Seq<Seq<char>>) -> Seq<char>
    decreases v.len(),
{
    if v.len() == 0 {
        seq![]
    } else if v.len() == 1 {
        v[0]
    } else {
        join_commas(v.drop_last()) + seq![','] + v.last()
    }
}

impl VecString {
    /// The strings joined with commas between them.
    pub fn joined(&self) -> (r: String)
        ensures
            r@ == join_commas(string_views(self.0@)),
    {
        let ghost all = string_views(self.0@);
        let mut out: Vec<char> = Vec::new();
        let mut i: usize = 0;
        while i < self.0.len()
            invariant
                all == string_views(self.0@),
                i <= self.0@.len(),
                out@ == join_commas(all.subrange(0, i as int)),
            decreases self.0@.len() - i,
        {
            let ghost before = out@;
            if i > 0 {
                out.push(',');
            }
            let item = chars_of(self.0[i].as_str());
            let mut j: usize = 0;
            while j < item.len()
                invariant
                    j <= item@.len(),
                    out@ == (if i > 0 { before + seq![','] } else { before }) + item@.subrange(0, j as int),
                decreases item@.len() - j,
            {
                out.push(item[j]);
                j = j + 1;
            }
            proof {
                let p = all.subrange(0, i + 1);
                assert(p.drop_last() =~= all.subrange(0, i as int));
                assert(item@.subrange(0, item@.len() as int) =~= item@);
                if i == 0 {
                    assert(before =~= Seq::<char>::empty());
                    assert(out@ =~= all[0]);
                } else {
                    assert(out@ =~= before + seq![','] + all[i as int]);
                }
            }
            i = i + 1;
        }
        proof {
            assert(all.subrange(0, i as int) =~= all);
        }
        string_from_chars(out.as_slice())
    }
}

/// The prefixed texts under which the search engine indexes `d`, in order:
/// authors, date (RFC 3339 in UTC, empty out of range), file name, full
/// path, title, subtitle, then each tag. The body is indexed without a
/// prefix.
pub open spec fn index_terms(d: Document) -> Seq<(Seq<char>, Seq<char>)> {
    let date = match rfc3339_text(d.date.0) {
        Some(t) => t,
        None => seq![],
    };
    seq![
        (prefix_of(XapianTag::Author), join_commas(string_views(d.authors.0@))),
        (prefix_of(XapianTag::Date), date),
        (prefix_of(XapianTag::Filename), d.filename@),
        (prefix_of(XapianTag::Fullpath), d.full_path@),
        (prefix_of(XapianTag::Title), d.title@),
        (prefix_of(XapianTag::Subtitle), d.subtitle@),
    ] + d.tags@.map_values(|t: String| (prefix_of(XapianTag::Tag), t@))
}

pub open spec fn pair_views(v: Seq<(&'static str, String)>) -> Seq<(Seq<char>, Seq<char>)> {
    v.map_values(|p: (&'static str, String)| (p.0@, p.1@))
}

impl Document {
    /// The prefixed texts to index the document under; see `index_terms`.
    pub fn index_entries(&self) -> (r: Vec<(&'static str, String)>)
        ensures
            pair_views(r@) == index_terms(*self),
    {
        let mut v: Vec<(&'static str, String)> = Vec::new();
        v.push((XapianTag::Author.to_xapian(), self.authors.joined()));
        let date = match self.date.to_rfc3339() {
            Some(t) => t,
            None => String::new(),
        };
        v.push((XapianTag::Date.to_xapian(), date));
        v.push((XapianTag::Filename.to_xapian(), self.filename.clone()));
        v.push((XapianTag::Fullpath.to_xapian(), self.full_path.clone()));
        v.push((XapianTag::Title.to_xapian(), self.title.clone()));
        v.push((XapianTag::Subtitle.to_xapian(), self.subtitle.clone()));
        let ghost head = pair_views(v@);
        proof {
            let date_text = match rfc3339_text(self.date.0) {
                Some(t) => t,
                None => seq![],
            };
            assert(head =~= seq![
                (prefix_of(XapianTag::Author), join_commas(string_views(self.authors.0@))),
                (prefix_of(XapianTag::Date), date_text),
                (prefix_of(XapianTag::Filename), self.filename@),
                (prefix_of(XapianTag::Fullpath), self.full_path@),
                (prefix_of(XapianTag::Title), self.title@),
                (prefix_of(XapianTag::Subtitle), self.subtitle@),
            ]);
        }
        let mut i: usize = 0;
        while i < self.tags.len()
            invariant
                i <= self.tags@.len(),
                v@.len() == 6 + i,
                head.len() == 6,
                forall|t: int| 0 <= t < 6 ==> #[trigger] pair_views(v@)[t] == head[t],
                forall|t: int| 0 <= t < i ==> #[trigger] pair_views(v@)[6 + t] == (prefix_of(XapianTag::Tag), self.tags@[t]@),
            decreases self.tags@.len() - i,
        {
            let ghost before = v@;
            let entry = (XapianTag::Tag.to_xapian(), self.tags[i].clone());
            v.push(entry);
            proof {
                assert(pair_views(v@) =~= pair_views(before).push((entry.0@, entry.1@)));
            }
            i = i + 1;
        }
        proof {
            let want = index_terms(*self);
            assert(want.len() == pair_views(v@).len());
            assert forall|j: int| 0 <= j < want.len() implies #[trigger] pair_views(v@)[j] == want[j] by {
                if j >= 6 {
                    let t = j - 6;
                    assert(pair_views(v@)[6 + t] == (prefix_of(XapianTag::Tag), self.tags@[t]@));
                } else {
                    assert(pair_views(v@)[j] == head[j]);
                }
            }
            assert(pair_views(v@) =~= want);
        }
        v
    }

    /// The term that identifies the document in the index, so that indexing
    /// the same file again replaces it: `Q` and the file name.
    pub fn unique_term(&self) -> (r: String)
        ensures
            r@ == seq!['Q'] + self.filename@,
    {
        let mut r = String::new();
        let q = "Q";
        proof {
            reveal_strlit("Q");
        }
        r.append(q);
        r.append(self.filename.as_str());
        proof {
            assert(r@ =~= seq!['Q'] + self.filename@);
        }
        r
    }
}

/// The front matter has what an `XqDocument` needs: a text `title`, text
/// `date` and a `tags` entry, text `author` and `subtitle` where present.
pub open spec fn xq_well_typed(m: Entries) -> bool {
    &&& lookup(m, "title"@) matches Some(ValueView::Scalar(ScalarView::Text(_)))
    &&& lookup(m, "date"@) matches Some(ValueView::Scalar(ScalarView::Text(_)))
    &&& lookup(m, "tags"@) is Some
    &&& list_field(lookup(m, "tags"@)) is Some
    &&& text_field(lookup(m, "author"@), seq![]) is Some
    &&& text_field(lookup(m, "subtitle"@), seq![]) is Some
}

/// `r` is what reading the front matter `m` (YAML text `raw`) with `body`
/// as an export document gives.
pub open spec fn xq_ingested(r: Result<XqDocument, IngestError>, m: Entries, raw: Seq<char>, body: Seq<char>) -> bool {
    &&& !xq_well_typed(m) ==> (r matches Err(IngestError::MalformedFrontMatter(t)) && t@ == raw)
    &&& xq_well_typed(m) ==> (r matches Ok(d) && {
        &&& lookup(m, "title"@) == Some(ValueView::Scalar(ScalarView::Text(d.title@)))
        &&& lookup(m, "date"@) == Some(ValueView::Scalar(ScalarView::Text(d.date@)))
        &&& list_field(lookup(m, "tags"@)) == Some(string_views(d.tags@))
        &&& text_field(lookup(m, "author"@), seq![]) == Some(d.author@)
        &&& text_field(lookup(m, "subtitle"@), seq![]) == Some(d.subtitle@)
        &&& d.id@ == identifier(d.title@)
        &&& d.body@ == body
    })
}

impl XqDocument {
    /// Builds an export document from front-matter entries and the body
    /// that follows them; its identifier is derived from the title. `raw`
    /// is the front matter's YAML text, kept in the error.
    pub fn from_front_matter(
        entries: &Vec<(Option<String>, FrontValue)>,
        raw: &str,
        body: &str,
    ) -> (r: Result<XqDocument, IngestError>)
        ensures
            xq_ingested(r, entry_views(entries@), raw@, body@),
    {
        proof {
            reveal_strlit("");
            assert(""@ =~= Seq::<char>::empty());
        }
        let title = match find_entry(entries, "title") {
            Some(FrontValue::Scalar(FrontScalar::Text(t))) => t.clone(),
            _ => return Err(IngestError::MalformedFrontMatter(raw.to_owned())),
        };
        let date = match find_entry(entries, "date") {
            Some(FrontValue::Scalar(FrontScalar::Text(t))) => t.clone(),
            _ => return Err(IngestError::MalformedFrontMatter(raw.to_owned())),
        };
        let tags_entry = find_entry(entries, "tags");
        if tags_entry.is_none() {
            return Err(IngestError::MalformedFrontMatter(raw.to_owned()));
        }
        let tags = match read_list(tags_entry) {
            Some(l) => l,
            None => return Err(IngestError::MalformedFrontMatter(raw.to_owned())),
        };
        let author = match read_text(find_entry(entries, "author"), "") {
            Some(t) => t,
            None => return Err(IngestError::MalformedFrontMatter(raw.to_owned())),
        };
        let subtitle = match read_text(find_entry(entries, "subtitle"), "") {
            Some(t) => t,
            None => return Err(IngestError::MalformedFrontMatter(raw.to_owned())),
        };
        let id = derive_identifier(title.as_str());
        Ok(XqDocument { id, author, date, tags, title, subtitle, body: body.to_owned() })
    }

    /// Reads an export document from the whole text of a file.
    pub fn parse(text: &str) -> (r: Result<XqDocument, IngestError>)
        ensures
            !starts_with_marker(text@) ==> r == Err::<XqDocument, IngestError>(IngestError::NoFrontMatter),
            read_outcome(r, front_matter_read(text@)),
            front_matter_read(text@) matches FrontReadView::Entries(m, raw, body)
                ==> xq_ingested(r, m, raw, body) && is_suffix(body, text@),
    {
        match read_front_matter(text) {
            FrontMatterRead::Unreadable(msg) => Err(IngestError::MalformedFrontMatter(msg)),
            FrontMatterRead::NoBlock => Err(IngestError::NoFrontMatter),
            FrontMatterRead::NotMapping(raw) => Err(IngestError::MalformedFrontMatter(raw)),
            FrontMatterRead::Entries(entries, raw, body) => {
                XqDocument::from_front_matter(&entries, raw.as_str(), body.as_str())
            },
        }
    }
}

fn clone_strings(v: &Vec<String>) -> (r: Vec<String>)
    ensures
        r@ == v@,
{
    let mut r: Vec<String> = Vec::new();
    let mut i: usize = 0;
    while i < v.len()
        invariant
            i <= v@.len(),
            r@ == v@.subrange(0, i as int),
        decreases v@.len() - i,
    {
        r.push(v[i].clone());
        i = i + 1;
    }
    assert(r@ =~= v@);
    r
}

impl XqDocument {
    /// The export document as a full document, so that it can be indexed
    /// and stored like any other: the title also names the file, the author
    /// becomes the only author, and a date in none of the accepted forms
    /// becomes the epoch.
    pub fn to_document(&self) -> (r: Document)
        ensures
            r.title@ == self.title@ && r.subtitle@ == self.subtitle@ && r.body@ == self.body@,
            r.filename@ == self.title@ && r.full_path@.len() == 0,
            r.tags@ == self.tags@,
            r.authors.0@.len() == (if self.author@.len() == 0 { 0int } else { 1int }),
            self.author@.len() != 0 ==> r.authors.0@[0]@ == self.author@,
            r.id@ == identifier(self.title@),
            r.date.0 == (match date_seconds(self.date@) {
                Some(t) => t,
                None => 0,
            }),
            r.serialization_type == SerializationType::Storage,
            r.weight == 0 && r.writes == 0 && r.views == 0,
    {
        let mut authors: Vec<String> = Vec::new();
        if self.author.unicode_len() != 0 {
            authors.push(self.author.clone());
        }
        let date = match Date::parse(self.date.as_str()) {
            Some(d) => d,
            None => Date(0),
        };
        Document {
            filename: self.title.clone(),
            full_path: String::new(),
            id: derive_identifier(self.title.as_str()),
            serialization_type: SerializationType::Storage,
            authors: VecString(authors),
            date,
            tags: clone_strings(&self.tags),
            weight: 0,
            writes: 0,
            views: 0,
            title: self.title.clone(),
            subtitle: self.subtitle.clone(),
            body: self.body.clone(),
        }
    }
}

} // verus!
