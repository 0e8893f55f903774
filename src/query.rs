//! The query language: operator keywords, field tags, and the compiler from
//! query text to a boolean query tree.

use vstd::prelude::*;
use crate::text::{
    chars_of, fold_case, fold_case_char, is_space, is_space_char, matches_at, matches_at_exec,
    substring,
};

verus! {

/// Boolean operators of the search engine's query trees.
#[derive(Clone, Copy, Debug, PartialEq, Eq, Structural)]
pub enum MatchOp {
    And,
    AndNot,
    Or,
    Xor,
    AndMaybe,
    Filter,
    Near,
    Phrase,
    ValueRange,
    ScaleWeight,
    EliteSet,
    ValueGe,
    ValueLe,
    Synonym,
}

/// Document fields that a query term can be restricted to.
#[derive(Clone, Copy, Debug, PartialEq, Eq, Structural)]
pub enum XapianTag {
    Author,
    Date,
    Filename,
    Fullpath,
    Title,
    Subtitle,
    Tag,
}

/// Number of operator keywords.
pub const KEYWORD_COUNT: usize = 14;

/// The operator keywords in the order in which they are tried at a position.
/// Longer keywords come before the shorter ones they start with.
pub open spec fn keyword(k: int) -> Seq<char> {
    if k == 0 {
        seq!['A', 'N', 'D', ' ', 'M', 'A', 'Y', 'B', 'E']
    } else if k == 1 {
        seq!['S', 'Y', 'N', 'O', 'N', 'Y', 'M']
    } else if k == 2 {
        seq!['A', 'N', 'D', ' ', 'N', 'O', 'T']
    } else if k == 3 {
        seq!['F', 'I', 'L', 'T', 'E', 'R']
    } else if k == 4 {
        seq!['P', 'H', 'R', 'A', 'S', 'E']
    } else if k == 5 {
        seq!['S', 'C', 'A', 'L', 'E', 'D']
    } else if k == 6 {
        seq!['R', 'A', 'N', 'G', 'E']
    } else if k == 7 {
        seq!['E', 'L', 'I', 'T', 'E']
    } else if k == 8 {
        seq!['N', 'E', 'A', 'R']
    } else if k == 9 {
        seq!['A', 'N', 'D']
    } else if k == 10 {
        seq!['X', 'O', 'R']
    } else if k == 11 {
        seq!['O', 'R']
    } else if k == 12 {
        seq!['>']
    } else {
        seq!['<']
    }
}

/// The operator that keyword `k` stands for.
pub open spec fn keyword_op(k: int) -> MatchOp {
    if k == 0 {
        MatchOp::AndMaybe
    } else if k == 1 {
        MatchOp::Synonym
    } else if k == 2 {
        MatchOp::AndNot
    } else if k == 3 {
        MatchOp::Filter
    } else if k == 4 {
        MatchOp::Phrase
    } else if k == 5 {
        MatchOp::ScaleWeight
    } else if k == 6 {
        MatchOp::ValueRange
    } else if k == 7 {
        MatchOp::EliteSet
    } else if k == 8 {
        MatchOp::Near
    } else if k == 9 {
        MatchOp::And
    } else if k == 10 {
        MatchOp::Xor
    } else if k == 11 {
        MatchOp::Or
    } else if k == 12 {
        MatchOp::ValueGe
    } else {
        MatchOp::ValueLe
    }
}

/// Keyword `k` occurs at position `p` of `s` as a word of its own: ASCII
/// case aside, with whitespace or the end of the text on either side.
pub open spec fn keyword_occurs(s: Seq<char>, p: int, k: int) -> bool {
    let n = keyword(k).len();
    &&& matches_at(s, p, keyword(k))
    &&& (p == 0 || is_space(s[p - 1]))
    &&& (p + n == s.len() || is_space(s[p + n]))
}

/// The first keyword, from `k` on, that occurs at position `p` of `s`;
/// `KEYWORD_COUNT` when none does.
pub open spec fn keyword_from(s: Seq<char>, p: int, k: int) -> int
    decreases 14 - k,
{
    if k < 0 || k >= 14 {
        14
    } else if keyword_occurs(s, p, k) {
        k
    } else {
        keyword_from(s, p, k + 1)
    }
}

/// The keyword that is chosen at position `p` of `s`, or `KEYWORD_COUNT`.
pub open spec fn keyword_at(s: Seq<char>, p: int) -> int {
    keyword_from(s, p, 0)
}

fn keyword_text(k: usize) -> (r: &'static str)
    requires
        k < 14,
    ensures
        r@ == keyword(k as int),
{
    let r = if k == 0 {
        let t = "AND MAYBE";
        proof { reveal_strlit("AND MAYBE"); }
        t
    } else if k == 1 {
        let t = "SYNONYM";
        proof { reveal_strlit("SYNONYM"); }
        t
    } else if k == 2 {
        let t = "AND NOT";
        proof { reveal_strlit("AND NOT"); }
        t
    } else if k == 3 {
        let t = "FILTER";
        proof { reveal_strlit("FILTER"); }
        t
    } else if k == 4 {
        let t = "PHRASE";
        proof { reveal_strlit("PHRASE"); }
        t
    } else if k == 5 {
        let t = "SCALED";
        proof { reveal_strlit("SCALED"); }
        t
    } else if k == 6 {
        let t = "RANGE";
        proof { reveal_strlit("RANGE"); }
        t
    } else if k == 7 {
        let t = "ELITE";
        proof { reveal_strlit("ELITE"); }
        t
    } else if k == 8 {
        let t = "NEAR";
        proof { reveal_strlit("NEAR"); }
        t
    } else if k == 9 {
        let t = "AND";
        proof { reveal_strlit("AND"); }
        t
    } else if k == 10 {
        let t = "XOR";
        proof { reveal_strlit("XOR"); }
        t
    } else if k == 11 {
        let t = "OR";
        proof { reveal_strlit("OR"); }
        t
    } else if k == 12 {
        let t = ">";
        proof { reveal_strlit(">"); }
        t
    } else {
        let t = "<";
        proof { reveal_strlit("<"); }
        t
    };
    assert(r@ =~= keyword(k as int));
    r
}

fn keyword_match_op(k: usize) -> (r: MatchOp)
    ensures
        r == keyword_op(k as int),
{
    if k == 0 {
        MatchOp::AndMaybe
    } else if k == 1 {
        MatchOp::Synonym
    } else if k == 2 {
        MatchOp::AndNot
    } else if k == 3 {
        MatchOp::Filter
    } else if k == 4 {
        MatchOp::Phrase
    } else if k == 5 {
        MatchOp::ScaleWeight
    } else if k == 6 {
        MatchOp::ValueRange
    } else if k == 7 {
        MatchOp::EliteSet
    } else if k == 8 {
        MatchOp::Near
    } else if k == 9 {
        MatchOp::And
    } else if k == 10 {
        MatchOp::Xor
    } else if k == 11 {
        MatchOp::Or
    } else if k == 12 {
        MatchOp::ValueGe
    } else {
        MatchOp::ValueLe
    }
}

/// The keyword chosen at position `p` of `s` (`KEYWORD_COUNT` when none).
fn keyword_at_exec(s: &Vec<char>, p: usize) -> (r: usize)
    ensures
        r as int == keyword_at(s@, p as int),
        r <= KEYWORD_COUNT,
{
    let mut k: usize = 0;
    while k < KEYWORD_COUNT
        invariant
            k <= KEYWORD_COUNT,
            keyword_from(s@, p as int, k as int) == keyword_at(s@, p as int),
        decreases KEYWORD_COUNT - k,
    {
        let kw = keyword_text(k);
        let n = s.len();
        if matches_at_exec(s, p, kw) {
            let end = p + kw.unicode_len();
            if (p == 0 || is_space_char(s[p - 1])) && (end == s.len() || is_space_char(s[end])) {
                return k;
            }
        }
        k = k + 1;
    }
    KEYWORD_COUNT
}

/// The first keyword, from `k` on, that `s` starts with, ignoring ASCII
/// case; `KEYWORD_COUNT` when none.
pub open spec fn prefix_keyword_from(s: Seq<char>, k: int) -> int
    decreases 14 - k,
{
    if k < 0 || k >= 14 {
        14
    } else if matches_at(s, 0, keyword(k)) {
        k
    } else {
        prefix_keyword_from(s, k + 1)
    }
}

/// Recognises an operator keyword at the start of `input`, ignoring ASCII
/// case and trying longer keywords first; returns the operator and the
/// number of characters the keyword takes.
pub fn matchop(input: &str) -> (r: Option<(MatchOp, usize)>)
    ensures
        r is None <==> prefix_keyword_from(input@, 0) >= 14,
        r matches Some((op, n)) ==> ({
            let k = prefix_keyword_from(input@, 0);
            op == keyword_op(k) && n == keyword(k).len()
        }),
{
    let s = chars_of(input);
    let mut k: usize = 0;
    while k < KEYWORD_COUNT
        invariant
            s@ == input@,
            k <= KEYWORD_COUNT,
            prefix_keyword_from(s@, k as int) == prefix_keyword_from(s@, 0),
        decreases KEYWORD_COUNT - k,
    {
        let kw = keyword_text(k);
        if matches_at_exec(&s, 0, kw) {
            return Some((keyword_match_op(k), kw.unicode_len()));
        }
        k = k + 1;
    }
    None
}

/// Ways in which compiling a query can fail.
#[derive(Clone, Debug, PartialEq, Eq)]
pub enum CompileError {
    /// The query, or one of its operands, holds nothing but whitespace.
    EmptyQuery,
    /// A quote was opened and never closed.
    UnterminatedQuote,
    /// The query holds more than `MAX_OPERATORS` operators.
    QueryTooComplex,
    /// The search engine refused a compiled tree; holds its message.
    EngineRejected(String),
}

/// Most operators that one query may hold.
pub const MAX_OPERATORS: usize = 50;

/// A compiled query, as a mathematical tree.
pub enum QueryTree {
    Term { field: Option<XapianTag>, text: Seq<char> },
    Phrase { field: Option<XapianTag>, words: Seq<Seq<char>> },
    Binary { op: MatchOp, left: Box<QueryTree>, right: Box<QueryTree> },
}

/// A compiled query: a term, a quoted phrase, or an operator applied to two
/// sub-queries.
#[derive(Debug, PartialEq)]
pub enum Query {
    Term { field: Option<XapianTag>, text: String },
    Phrase { field: Option<XapianTag>, words: Vec<String> },
    Binary { op: MatchOp, left: Box<Query>, right: Box<Query> },
}

pub open spec fn word_views(v: Seq<String>) -> Seq<Seq<char>> {
    v.map_values(|w: String| w@)
}

impl View for Query {
    type V = QueryTree;

    open spec fn view(&self) -> QueryTree
        decreases self,
    {
        match self {
            Query::Term { field, text } => QueryTree::Term { field: *field, text: text@ },
            Query::Phrase { field, words } => QueryTree::Phrase {
                field: *field,
                words: word_views(words@),
            },
            Query::Binary { op, left, right } => QueryTree::Binary {
                op: *op,
                left: Box::new((**left).view()),
                right: Box::new((**right).view()),
            },
        }
    }
}

pub open spec fn query_views(v: Seq<Query>) -> Seq<QueryTree> {
    v.map_values(|q: Query| q@)
}

pub open spec fn is_quote(c: char) -> bool {
    c == '"' || c == '\''
}

/// First position in `i..e` of `s` that holds `c`, or `e`.
pub open spec fn find_char(s: Seq<char>, i: int, e: int, c: char) -> int
    decreases e - i,
{
    if i >= e {
        e
    } else if s[i] == c {
        i
    } else {
        find_char(s, i + 1, e, c)
    }
}

pub proof fn lemma_find_char(s: Seq<char>, i: int, e: int, c: char)
    requires
        i <= e,
    ensures
        i <= find_char(s, i, e, c) <= e,
    decreases e - i,
{
    if i < e && s[i] != c {
        lemma_find_char(s, i + 1, e, c);
    }
}

/// End of the run from `i` of characters that are not whitespace (nor
/// quotes, when `quotes` is set), bounded by `e`.
pub open spec fn run_end(s: Seq<char>, i: int, e: int, quotes: bool) -> int
    decreases e - i,
{
    if i >= e || is_space(s[i]) || (quotes && is_quote(s[i])) {
        i
    } else {
        run_end(s, i + 1, e, quotes)
    }
}

pub proof fn lemma_run_end(s: Seq<char>, i: int, e: int, quotes: bool)
    requires
        i <= e,
    ensures
        i <= run_end(s, i, e, quotes) <= e,
    decreases e - i,
{
    if i < e && !is_space(s[i]) && !(quotes && is_quote(s[i])) {
        lemma_run_end(s, i + 1, e, quotes);
    }
}

/// The whitespace-separated words of `s` between `i` and `e`.
pub open spec fn words_in(s: Seq<char>, i: int, e: int) -> Seq<Seq<char>>
    decreases e - i,
{
    if i >= e {
        seq![]
    } else if is_space(s[i]) {
        words_in(s, i + 1, e)
    } else {
        let w = run_end(s, i + 1, e, false);
        proof {
            lemma_run_end(s, i + 1, e, false);
        }
        seq![s.subrange(i, w)] + words_in(s, w, e)
    }
}

/// The name by which a field is written in a query.
pub open spec fn field_name(t: XapianTag) -> Seq<char> {
    match t {
        XapianTag::Author => seq!['a', 'u', 't', 'h', 'o', 'r'],
        XapianTag::Date => seq!['d', 'a', 't', 'e'],
        XapianTag::Filename => seq!['f', 'i', 'l', 'e', 'n', 'a', 'm', 'e'],
        XapianTag::Fullpath => seq!['f', 'u', 'l', 'l', 'p', 'a', 't', 'h'],
        XapianTag::Title => seq!['t', 'i', 't', 'l', 'e'],
        XapianTag::Subtitle => seq!['s', 'u', 'b', 't', 'i', 't', 'l', 'e'],
        XapianTag::Tag => seq!['t', 'a', 'g'],
    }
}

/// `s[i..c]` is the name of field `t`, ignoring ASCII case.
pub open spec fn names_field(s: Seq<char>, i: int, c: int, t: XapianTag) -> bool {
    c - i == field_name(t).len() && matches_at(s, i, field_name(t))
}

/// The field whose name `s[i..c]` is, if any.
pub open spec fn field_at(s: Seq<char>, i: int, c: int) -> Option<XapianTag> {
    if names_field(s, i, c, XapianTag::Author) {
        Some(XapianTag::Author)
    } else if names_field(s, i, c, XapianTag::Date) {
        Some(XapianTag::Date)
    } else if names_field(s, i, c, XapianTag::Filename) {
        Some(XapianTag::Filename)
    } else if names_field(s, i, c, XapianTag::Fullpath) {
        Some(XapianTag::Fullpath)
    } else if names_field(s, i, c, XapianTag::Title) {
        Some(XapianTag::Title)
    } else if names_field(s, i, c, XapianTag::Subtitle) {
        Some(XapianTag::Subtitle)
    } else if names_field(s, i, c, XapianTag::Tag) {
        Some(XapianTag::Tag)
    } else {
        None
    }
}

/// The field that the word `s[i..w]` starts with, written `name:`.
pub open spec fn word_field(s: Seq<char>, i: int, w: int) -> Option<XapianTag> {
    let c = find_char(s, i, w, ':');
    if c < w {
        field_at(s, i, c)
    } else {
        None
    }
}

pub open spec fn prepend(
    t: QueryTree,
    r: Result<Seq<QueryTree>, CompileError>,
) -> Result<Seq<QueryTree>, CompileError> {
    match r {
        Ok(ts) => Ok(seq![t] + ts),
        Err(x) => Err(x),
    }
}

pub open spec fn prepend_all(
    p: Seq<QueryTree>,
    r: Result<Seq<QueryTree>, CompileError>,
) -> Result<Seq<QueryTree>, CompileError> {
    match r {
        Ok(ts) => Ok(p + ts),
        Err(x) => Err(x),
    }
}

/// The tokens of `s[i..e]`, an operand of the query: quoted phrases,
/// `field:value` and `field:"phrase"` terms, and bare words. A word runs to
/// the next whitespace or quote; a word whose part before its first colon
/// is no field name is a term of its own, colon included.
pub open spec fn lex(s: Seq<char>, i: int, e: int) -> Result<Seq<QueryTree>, CompileError>
    decreases e - i,
{
    if i >= e {
        Ok(seq![])
    } else if is_space(s[i]) {
        lex(s, i + 1, e)
    } else if is_quote(s[i]) {
        let j = find_char(s, i + 1, e, s[i]);
        proof {
            lemma_find_char(s, i + 1, e, s[i]);
        }
        if j >= e {
            Err(CompileError::UnterminatedQuote)
        } else {
            prepend(QueryTree::Phrase { field: None, words: words_in(s, i + 1, j) }, lex(s, j + 1, e))
        }
    } else {
        let w = run_end(s, i + 1, e, true);
        let c = find_char(s, i, w, ':');
        let f = word_field(s, i, w);
        proof {
            lemma_run_end(s, i + 1, e, true);
        }
        if f is Some && c + 1 < w {
            prepend(QueryTree::Term { field: f, text: s.subrange(c + 1, w) }, lex(s, w, e))
        } else if f is Some && w < e && is_quote(s[w]) {
            let j = find_char(s, w + 1, e, s[w]);
            proof {
                lemma_find_char(s, w + 1, e, s[w]);
            }
            if j >= e {
                Err(CompileError::UnterminatedQuote)
            } else {
                prepend(QueryTree::Phrase { field: f, words: words_in(s, w + 1, j) }, lex(s, j + 1, e))
            }
        } else {
            prepend(QueryTree::Term { field: None, text: s.subrange(i, w) }, lex(s, w, e))
        }
    }
}

/// The tokens joined left to right by `Or`.
pub open spec fn or_fold(ts: Seq<QueryTree>) -> QueryTree
    decreases ts.len(),
{
    if ts.len() <= 1 {
        ts[0]
    } else {
        QueryTree::Binary {
            op: MatchOp::Or,
            left: Box::new(or_fold(ts.drop_last())),
            right: Box::new(ts.last()),
        }
    }
}

/// The tree of the operand `s[i..e]`.
pub open spec fn operand(s: Seq<char>, i: int, e: int) -> Result<QueryTree, CompileError> {
    match lex(s, i, e) {
        Err(x) => Err(x),
        Ok(ts) => if ts.len() == 0 {
            Err(CompileError::EmptyQuery)
        } else {
            Ok(or_fold(ts))
        },
    }
}

fn is_quote_char(c: char) -> (r: bool)
    ensures
        r == is_quote(c),
{
    c == '"' || c == '\''
}

fn find_char_exec(s: &Vec<char>, i: usize, e: usize, c: char) -> (r: usize)
    requires
        i <= e <= s@.len(),
    ensures
        r as int == find_char(s@, i as int, e as int, c),
        i <= r <= e,
{
    let mut j: usize = i;
    while j < e
        invariant
            i <= j <= e <= s@.len(),
            find_char(s@, j as int, e as int, c) == find_char(s@, i as int, e as int, c),
        decreases e - j,
    {
        if s[j] == c {
            return j;
        }
        j = j + 1;
    }
    e
}

fn run_end_exec(s: &Vec<char>, i: usize, e: usize, quotes: bool) -> (r: usize)
    requires
        i <= e <= s@.len(),
    ensures
        r as int == run_end(s@, i as int, e as int, quotes),
        i <= r <= e,
{
    let mut j: usize = i;
    while j < e
        invariant
            i <= j <= e <= s@.len(),
            run_end(s@, j as int, e as int, quotes) == run_end(s@, i as int, e as int, quotes),
        decreases e - j,
    {
        if is_space_char(s[j]) || (quotes && is_quote_char(s[j])) {
            return j;
        }
        j = j + 1;
    }
    e
}

fn words_exec(s: &Vec<char>, i0: usize, e: usize) -> (r: Vec<String>)
    requires
        i0 <= e <= s@.len(),
    ensures
        word_views(r@) == words_in(s@, i0 as int, e as int),
{
    let mut r: Vec<String> = Vec::new();
    let mut i: usize = i0;
    proof {
        assert(word_views(r@) + words_in(s@, i as int, e as int) =~= words_in(s@, i0 as int, e as int));
    }
    while i < e
        invariant
            i0 <= i <= e <= s@.len(),
            words_in(s@, i0 as int, e as int) == word_views(r@) + words_in(s@, i as int, e as int),
        decreases e - i,
    {
        if is_space_char(s[i]) {
            i = i + 1;
        } else {
            let w = run_end_exec(s, i + 1, e, false);
            let word = substring(s, i, w);
            let ghost old_r = r@;
            r.push(word);
            proof {
                assert(word_views(r@) =~= word_views(old_r).push(word@));
                assert(word_views(old_r) + (seq![word@] + words_in(s@, w as int, e as int))
                    =~= word_views(r@) + words_in(s@, w as int, e as int));
            }
            i = w;
        }
    }
    proof {
        assert(word_views(r@) + words_in(s@, i as int, e as int) =~= word_views(r@));
    }
    r
}

fn field_name_text(t: XapianTag) -> (r: &'static str)
    ensures
        r@ == field_name(t),
{
    let r = match t {
        XapianTag::Author => {
            let n = "author";
            proof { reveal_strlit("author"); }
            n
        },
        XapianTag::Date => {
            let n = "date";
            proof { reveal_strlit("date"); }
            n
        },
        XapianTag::Filename => {
            let n = "filename";
            proof { reveal_strlit("filename"); }
            n
        },
        XapianTag::Fullpath => {
            let n = "fullpath";
            proof { reveal_strlit("fullpath"); }
            n
        },
        XapianTag::Title => {
            let n = "title";
            proof { reveal_strlit("title"); }
            n
        },
        XapianTag::Subtitle => {
            let n = "subtitle";
            proof { reveal_strlit("subtitle"); }
            n
        },
        XapianTag::Tag => {
            let n = "tag";
            proof { reveal_strlit("tag"); }
            n
        },
    };
    assert(r@ =~= field_name(t));
    r
}

fn names_field_exec(s: &Vec<char>, i: usize, c: usize, t: XapianTag) -> (r: bool)
    requires
        i <= c,
    ensures
        r == names_field(s@, i as int, c as int, t),
{
    let name = field_name_text(t);
    c - i == name.unicode_len() && matches_at_exec(s, i, name)
}

fn field_at_exec(s: &Vec<char>, i: usize, c: usize) -> (r: Option<XapianTag>)
    requires
        i <= c,
    ensures
        r == field_at(s@, i as int, c as int),
{
    if names_field_exec(s, i, c, XapianTag::Author) {
        Some(XapianTag::Author)
    } else if names_field_exec(s, i, c, XapianTag::Date) {
        Some(XapianTag::Date)
    } else if names_field_exec(s, i, c, XapianTag::Filename) {
        Some(XapianTag::Filename)
    } else if names_field_exec(s, i, c, XapianTag::Fullpath) {
        Some(XapianTag::Fullpath)
    } else if names_field_exec(s, i, c, XapianTag::Title) {
        Some(XapianTag::Title)
    } else if names_field_exec(s, i, c, XapianTag::Subtitle) {
        Some(XapianTag::Subtitle)
    } else if names_field_exec(s, i, c, XapianTag::Tag) {
        Some(XapianTag::Tag)
    } else {
        None
    }
}

proof fn lemma_prepend_all(p: Seq<QueryTree>, t: QueryTree, r: Result<Seq<QueryTree>, CompileError>)
    ensures
        prepend_all(p, prepend(t, r)) == prepend_all(p.push(t), r),
{
    if let Ok(ts) = r {
        assert(p + (seq![t] + ts) =~= p.push(t) + ts);
    }
}

/// Tokenises the operand `s[i0..e]`.
fn lex_exec(s: &Vec<char>, i0: usize, e: usize) -> (r: Result<Vec<Query>, CompileError>)
    requires
        i0 <= e <= s@.len(),
    ensures
        match r {
            Ok(ts) => lex(s@, i0 as int, e as int) == Ok::<Seq<QueryTree>, CompileError>(query_views(ts@)),
            Err(x) => lex(s@, i0 as int, e as int) == Err::<Seq<QueryTree>, CompileError>(x),
        },
{
    let mut toks: Vec<Query> = Vec::new();
    let mut i: usize = i0;
    proof {
        assert(query_views(toks@) =~= seq![]);
        assert(prepend_all(seq![], lex(s@, i as int, e as int)) =~= lex(s@, i as int, e as int)) by {
            if let Ok(ts) = lex(s@, i as int, e as int) {
                assert(Seq::<QueryTree>::empty() + ts =~= ts);
            }
        }
    }
    while i < e
        invariant
            i0 <= i <= e <= s@.len(),
            lex(s@, i0 as int, e as int) == prepend_all(query_views(toks@), lex(s@, i as int, e as int)),
        decreases e - i,
    {
        let ch = s[i];
        let ghost old_toks = toks@;
        if is_space_char(ch) {
            i = i + 1;
        } else if is_quote_char(ch) {
            let j = find_char_exec(s, i + 1, e, ch);
            if j >= e {
                return Err(CompileError::UnterminatedQuote);
            }
            let t = Query::Phrase { field: None, words: words_exec(s, i + 1, j) };
            toks.push(t);
            proof {
                assert(query_views(toks@) =~= query_views(old_toks).push(t@));
                lemma_prepend_all(query_views(old_toks), t@, lex(s@, j + 1, e as int));
            }
            i = j + 1;
        } else {
            let w = run_end_exec(s, i + 1, e, true);
            let c = find_char_exec(s, i, w, ':');
            let f = if c < w {
                field_at_exec(s, i, c)
            } else {
                None
            };
            if f.is_some() && c + 1 < w {
                let t = Query::Term { field: f, text: substring(s, c + 1, w) };
                toks.push(t);
                proof {
                    assert(query_views(toks@) =~= query_views(old_toks).push(t@));
                    lemma_prepend_all(query_views(old_toks), t@, lex(s@, w as int, e as int));
                }
                i = w;
            } else if f.is_some() && w < e && is_quote_char(s[w]) {
                let j = find_char_exec(s, w + 1, e, s[w]);
                if j >= e {
                    return Err(CompileError::UnterminatedQuote);
                }
                let t = Query::Phrase { field: f, words: words_exec(s, w + 1, j) };
                toks.push(t);
                proof {
                    assert(query_views(toks@) =~= query_views(old_toks).push(t@));
                    lemma_prepend_all(query_views(old_toks), t@, lex(s@, j + 1, e as int));
                }
                i = j + 1;
            } else {
                let t = Query::Term { field: None, text: substring(s, i, w) };
                toks.push(t);
                proof {
                    assert(query_views(toks@) =~= query_views(old_toks).push(t@));
                    lemma_prepend_all(query_views(old_toks), t@, lex(s@, w as int, e as int));
                }
                i = w;
            }
        }
    }
    proof {
        assert(query_views(toks@) + seq![] =~= query_views(toks@));
    }
    Ok(toks)
}

/// Joins the tokens left to right with `Or`.
fn or_fold_exec(ts: Vec<Query>) -> (r: Query)
    requires
        ts@.len() >= 1,
    ensures
        r@ == or_fold(query_views(ts@)),
{
    let ghost all = query_views(ts@);
    let total = ts.len();
    let mut rest = ts;
    let first = rest.remove(0);
    let mut acc = first;
    let mut k: usize = 1;
    proof {
        assert(all.subrange(0, 1).drop_last().len() == 0);
        assert(or_fold(all.subrange(0, 1)) == all.subrange(0, 1)[0]);
    }
    while rest.len() > 0
        invariant
            all.len() >= 1,
            all.len() == total,
            1 <= k <= all.len(),
            rest@.len() == all.len() - k,
            forall|t: int| 0 <= t < rest@.len() ==> #[trigger] rest@[t]@ == all[k + t],
            acc@ == or_fold(all.subrange(0, k as int)),
        decreases rest@.len(),
    {
        let ghost old_rest = rest@;
        let next = rest.remove(0);
        proof {
            assert(next@ == all[k as int]);
            assert(all.subrange(0, k + 1).drop_last() =~= all.subrange(0, k as int));
            assert forall|t: int| 0 <= t < rest@.len() implies #[trigger] rest@[t]@ == all[k + 1 + t] by {
                assert(rest@[t] == old_rest[t + 1]);
            }
        }
        acc = Query::Binary { op: MatchOp::Or, left: Box::new(acc), right: Box::new(next) };
        k = k + 1;
    }
    proof {
        assert(all.subrange(0, k as int) =~= all);
    }
    acc
}

/// Compiles the operand `s[i..e]`.
fn operand_exec(s: &Vec<char>, i: usize, e: usize) -> (r: Result<Query, CompileError>)
    requires
        i <= e <= s@.len(),
    ensures
        match r {
            Ok(q) => operand(s@, i as int, e as int) == Ok::<QueryTree, CompileError>(q@),
            Err(x) => operand(s@, i as int, e as int) == Err::<QueryTree, CompileError>(x),
        },
{
    match lex_exec(s, i, e) {
        Err(x) => Err(x),
        Ok(ts) => {
            if ts.len() == 0 {
                Err(CompileError::EmptyQuery)
            } else {
                Ok(or_fold_exec(ts))
            }
        },
    }
}

pub proof fn lemma_keyword_nonempty(k: int)
    ensures
        keyword(k).len() >= 1,
{
}

pub proof fn lemma_keyword_from(s: Seq<char>, p: int, k: int)
    ensures
        0 <= keyword_from(s, p, k) <= 14,
        keyword_from(s, p, k) < 14 ==> keyword_occurs(s, p, keyword_from(s, p, k)),
    decreases 14 - k,
{
    if 0 <= k < 14 && !keyword_occurs(s, p, k) {
        lemma_keyword_from(s, p, k + 1);
    }
}

/// The operand ranges of `s`, cut at each chosen operator keyword; the
/// current operand began at `start`, and scanning has reached `i`.
pub open spec fn segments(s: Seq<char>, start: int, i: int) -> Seq<(int, int)>
    decreases s.len() - i,
{
    if i < 0 || i >= s.len() {
        seq![(start, s.len() as int)]
    } else {
        let k = keyword_at(s, i);
        if k < 14 {
            let n = i + keyword(k).len();
            proof {
                lemma_keyword_nonempty(k);
                lemma_keyword_from(s, i, 0);
            }
            seq![(start, i)] + segments(s, n, n)
        } else {
            segments(s, start, i + 1)
        }
    }
}

/// The operators of `s` from position `i` on, in textual order. At each
/// position the first keyword of the priority order that occurs there is
/// taken, and scanning resumes after it.
pub open spec fn operators(s: Seq<char>, i: int) -> Seq<MatchOp>
    decreases s.len() - i,
{
    if i < 0 || i >= s.len() {
        seq![]
    } else {
        let k = keyword_at(s, i);
        if k < 14 {
            proof {
                lemma_keyword_nonempty(k);
                lemma_keyword_from(s, i, 0);
            }
            seq![keyword_op(k)] + operators(s, i + keyword(k).len())
        } else {
            operators(s, i + 1)
        }
    }
}

/// Folds the operands left to right: the tree of the first `n + 1`
/// operands, joined by the operators between them.
pub open spec fn fold_operands(
    s: Seq<char>,
    segs: Seq<(int, int)>,
    ops: Seq<MatchOp>,
    n: int,
) -> Result<QueryTree, CompileError>
    decreases n,
{
    if n <= 0 {
        operand(s, segs[0].0, segs[0].1)
    } else {
        match fold_operands(s, segs, ops, n - 1) {
            Err(x) => Err(x),
            Ok(l) => match operand(s, segs[n].0, segs[n].1) {
                Err(x) => Err(x),
                Ok(r) => Ok(QueryTree::Binary { op: ops[n - 1], left: Box::new(l), right: Box::new(r) }),
            },
        }
    }
}

pub open spec fn blank(s: Seq<char>) -> bool {
    forall|i: int| 0 <= i < s.len() ==> is_space(#[trigger] s[i])
}

/// `s[a..b]` is whitespace only.
pub open spec fn blank_range(s: Seq<char>, a: int, b: int) -> bool {
    forall|i: int| a <= i < b ==> is_space(#[trigger] s[i])
}

/// How many operators join operands: all of them, but for a last operator
/// with nothing but whitespace after it, which is dropped.
pub open spec fn joined_operators(s: Seq<char>) -> int {
    let n = operators(s, 0).len() as int;
    let last = segments(s, 0, 0)[n];
    if n > 0 && blank_range(s, last.0, last.1) {
        n - 1
    } else {
        n
    }
}

/// What compiling the query text `s` yields.
pub open spec fn compile(s: Seq<char>) -> Result<QueryTree, CompileError> {
    if blank(s) {
        Err(CompileError::EmptyQuery)
    } else if operators(s, 0).len() > 50 {
        Err(CompileError::QueryTooComplex)
    } else {
        fold_operands(s, segments(s, 0, 0), operators(s, 0), joined_operators(s))
    }
}

pub open spec fn range_views(v: Seq<(usize, usize)>) -> Seq<(int, int)> {
    v.map_values(|r: (usize, usize)| (r.0 as int, r.1 as int))
}

fn split_operators(s: &Vec<char>) -> (r: (Vec<(usize, usize)>, Vec<MatchOp>))
    ensures
        range_views(r.0@) == segments(s@, 0, 0),
        r.1@ == operators(s@, 0),
        r.0@.len() == r.1@.len() + 1,
        forall|t: int| 0 <= t < r.0@.len() ==> #[trigger] r.0@[t].0 <= r.0@[t].1 <= s@.len(),
{
    let n = s.len();
    let mut segs: Vec<(usize, usize)> = Vec::new();
    let mut ops: Vec<MatchOp> = Vec::new();
    let mut start: usize = 0;
    let mut i: usize = 0;
    proof {
        assert(range_views(segs@) + segments(s@, 0, 0) =~= segments(s@, 0, 0));
        assert(ops@ + operators(s@, 0) =~= operators(s@, 0));
    }
    while i < n
        invariant
            n == s@.len(),
            start <= i <= n,
            segments(s@, 0, 0) == range_views(segs@) + segments(s@, start as int, i as int),
            operators(s@, 0) == ops@ + operators(s@, i as int),
            segs@.len() == ops@.len(),
            forall|t: int| 0 <= t < segs@.len() ==> #[trigger] segs@[t].0 <= segs@[t].1 <= start,
        decreases n - i,
    {
        let k = keyword_at_exec(s, i);
        if k < KEYWORD_COUNT {
            proof {
                lemma_keyword_from(s@, i as int, 0);
            }
            let len = keyword_text(k).unicode_len();
            let ghost old_segs = segs@;
            let ghost old_ops = ops@;
            segs.push((start, i));
            ops.push(keyword_match_op(k));
            proof {
                let m = i + len;
                assert(range_views(segs@) =~= range_views(old_segs).push((start as int, i as int)));
                assert(range_views(old_segs) + (seq![(start as int, i as int)] + segments(s@, m, m))
                    =~= range_views(segs@) + segments(s@, m, m));
                assert(old_ops + (seq![keyword_op(k as int)] + operators(s@, m)) =~= ops@ + operators(s@, m));
            }
            i = i + len;
            start = i;
        } else {
            i = i + 1;
        }
    }
    let ghost before = segs@;
    segs.push((start, n));
    proof {
        assert(range_views(segs@) =~= range_views(before).push((start as int, n as int)));
        assert(range_views(before) + seq![(start as int, n as int)] =~= range_views(segs@));
        assert(ops@ + seq![] =~= ops@);
    }
    (segs, ops)
}

fn is_blank_range(s: &Vec<char>, a: usize, b: usize) -> (r: bool)
    requires
        a <= b <= s@.len(),
    ensures
        r == blank_range(s@, a as int, b as int),
{
    let mut i: usize = a;
    while i < b
        invariant
            a <= i <= b <= s@.len(),
            forall|t: int| a <= t < i ==> is_space(#[trigger] s@[t]),
        decreases b - i,
    {
        if !is_space_char(s[i]) {
            return false;
        }
        i = i + 1;
    }
    true
}

fn is_blank(s: &Vec<char>) -> (r: bool)
    ensures
        r == blank(s@),
{
    let mut i: usize = 0;
    while i < s.len()
        invariant
            i <= s@.len(),
            forall|t: int| 0 <= t < i ==> is_space(#[trigger] s@[t]),
        decreases s@.len() - i,
    {
        if !is_space_char(s[i]) {
            return false;
        }
        i = i + 1;
    }
    true
}

proof fn lemma_fold_error(s: Seq<char>, segs: Seq<(int, int)>, ops: Seq<MatchOp>, m: int, n: int)
    requires
        0 <= m <= n,
        fold_operands(s, segs, ops, m) is Err,
    ensures
        fold_operands(s, segs, ops, n) == fold_operands(s, segs, ops, m),
    decreases n - m,
{
    if m < n {
        lemma_fold_error(s, segs, ops, m, n - 1);
    }
}

/// Compiles query text into a query tree.
///
/// The text is cut at operator keywords, matched without regard to ASCII
/// case and only as words of their own (whitespace or the end of the text
/// on either side): scanning from the left, the first position where a
/// keyword occurs is taken, and there the first keyword of the order
/// `AND MAYBE`, `SYNONYM`, `AND NOT`, `FILTER`, `PHRASE`, `SCALED`, `RANGE`,
/// `ELITE`, `NEAR`, `AND`, `XOR`, `OR`, `>`, `<` that occurs. Each operand
/// between keywords is tokenised (see `lex`) and its tokens joined by `Or`;
/// the operands are then joined left to right by the operators between
/// them, with no precedence. A last operator followed by whitespace only
/// is dropped.
pub fn parse_user_query(qstr: &str) -> (r: Result<Query, CompileError>)
    ensures
        match r {
            Ok(q) => compile(qstr@) == Ok::<QueryTree, CompileError>(q@),
            Err(x) => compile(qstr@) == Err::<QueryTree, CompileError>(x),
        },
{
    let s = chars_of(qstr);
    if is_blank(&s) {
        return Err(CompileError::EmptyQuery);
    }
    let (segs, ops) = split_operators(&s);
    if ops.len() > MAX_OPERATORS {
        return Err(CompileError::QueryTooComplex);
    }
    let ghost gsegs = segments(s@, 0, 0);
    let ghost gops = operators(s@, 0);
    let (la, lb) = segs[ops.len()];
    proof {
        assert(gsegs[ops@.len() as int] == range_views(segs@)[ops@.len() as int]);
    }
    let count = if ops.len() > 0 && is_blank_range(&s, la, lb) {
        ops.len() - 1
    } else {
        ops.len()
    };
    let ghost total = count as int;
    proof {
        assert(gsegs[0] == range_views(segs@)[0]);
    }
    let (a, b) = segs[0];
    let mut acc = match operand_exec(&s, a, b) {
        Ok(q) => q,
        Err(x) => {
            proof {
                lemma_fold_error(s@, gsegs, gops, 0, total);
            }
            return Err(x);
        },
    };
    let mut n: usize = 1;
    while n <= count
        invariant
            total == joined_operators(s@),
            count < segs@.len(),
            s@ == qstr@,
            !blank(s@),
            ops@.len() <= 50,
            gsegs == segments(s@, 0, 0),
            gops == operators(s@, 0),
            range_views(segs@) == gsegs,
            ops@ == gops,
            segs@.len() == ops@.len() + 1,
            total == count,
            forall|t: int| 0 <= t < segs@.len() ==> #[trigger] segs@[t].0 <= segs@[t].1 <= s@.len(),
            1 <= n <= count + 1,
            fold_operands(s@, gsegs, gops, n - 1) == Ok::<QueryTree, CompileError>(acc@),
        decreases count + 1 - n,
    {
        let (a, b) = segs[n];
        proof {
            assert(gsegs[n as int] == range_views(segs@)[n as int]);
        }
        let t = match operand_exec(&s, a, b) {
            Ok(q) => q,
            Err(x) => {
                proof {
                    lemma_fold_error(s@, gsegs, gops, n as int, total);
                }
                return Err(x);
            },
        };
        acc = Query::Binary { op: ops[n - 1], left: Box::new(acc), right: Box::new(t) };
        n = n + 1;
    }
    Ok(acc)
}

/// The search engine's term prefix for each field.
pub open spec fn prefix_of(t: XapianTag) -> Seq<char> {
    match t {
        XapianTag::Author => seq!['A'],
        XapianTag::Date => seq!['D'],
        XapianTag::Filename => seq!['F'],
        XapianTag::Fullpath => seq!['F'],
        XapianTag::Title => seq!['S'],
        XapianTag::Subtitle => seq!['X', 'S'],
        XapianTag::Tag => seq!['K'],
    }
}

/// What `XapianTag::parse` recognises at the start of `s`: a field name, a
/// colon, and a value that is a word or a whole quoted phrase (quotes kept);
/// with the text that follows.
pub open spec fn tag_parse(s: Seq<char>) -> Option<(XapianTag, Seq<char>, Seq<char>)> {
    let e = s.len() as int;
    if e == 0 || is_space(s[0]) || is_quote(s[0]) {
        None
    } else {
        let w = run_end(s, 1, e, true);
        let c = find_char(s, 0, w, ':');
        match word_field(s, 0, w) {
            None => None,
            Some(t) => if c + 1 < w {
                Some((t, s.subrange(c + 1, w), s.subrange(w, e)))
            } else if w < e && is_quote(s[w]) {
                let j = find_char(s, w + 1, e, s[w]);
                if j < e {
                    Some((t, s.subrange(w, j + 1), s.subrange(j + 1, e)))
                } else {
                    None
                }
            } else {
                None
            },
        }
    }
}

impl XapianTag {
    /// The term prefix under which the search engine indexes this field.
    /// `Filename` and `Fullpath` share a prefix.
    pub fn to_xapian(self) -> (r: &'static str)
        ensures
            r@ == prefix_of(self),
    {
        let r = match self {
            XapianTag::Author => {
                let p = "A";
                proof { reveal_strlit("A"); }
                p
            },
            XapianTag::Date => {
                let p = "D";
                proof { reveal_strlit("D"); }
                p
            },
            XapianTag::Filename => {
                let p = "F";
                proof { reveal_strlit("F"); }
                p
            },
            XapianTag::Fullpath => {
                let p = "F";
                proof { reveal_strlit("F"); }
                p
            },
            XapianTag::Title => {
                let p = "S";
                proof { reveal_strlit("S"); }
                p
            },
            XapianTag::Subtitle => {
                let p = "XS";
                proof { reveal_strlit("XS"); }
                p
            },
            XapianTag::Tag => {
                let p = "K";
                proof { reveal_strlit("K"); }
                p
            },
        };
        assert(r@ =~= prefix_of(self));
        r
    }

    /// Recognises `field:value` or `field:"a phrase"` at the start of
    /// `input`; returns the field, the value, and the rest of the input.
    pub fn parse(input: &str) -> (r: Option<(XapianTag, String, String)>)
        ensures
            r is None <==> tag_parse(input@) is None,
            r matches Some((t, v, rest)) ==> tag_parse(input@) == Some((t, v@, rest@)),
    {
        let s = chars_of(input);
        let e = s.len();
        if e == 0 || is_space_char(s[0]) || is_quote_char(s[0]) {
            return None;
        }
        let w = run_end_exec(&s, 1, e, true);
        let c = find_char_exec(&s, 0, w, ':');
        let f = if c < w {
            field_at_exec(&s, 0, c)
        } else {
            None
        };
        match f {
            None => None,
            Some(t) => {
                if c + 1 < w {
                    Some((t, substring(&s, c + 1, w), substring(&s, w, e)))
                } else if w < e && is_quote_char(s[w]) {
                    let j = find_char_exec(&s, w + 1, e, s[w]);
                    if j < e {
                        Some((t, substring(&s, w, j + 1), substring(&s, j + 1, e)))
                    } else {
                        None
                    }
                } else {
                    None
                }
            },
        }
    }
}

/// The term that a lone bare word compiles to.
pub open spec fn word_term(s: Seq<char>) -> QueryTree {
    let e = s.len() as int;
    let c = find_char(s, 0, e, ':');
    let f = word_field(s, 0, e);
    if f is Some && c + 1 < e {
        QueryTree::Term { field: f, text: s.subrange(c + 1, e) }
    } else {
        QueryTree::Term { field: None, text: s }
    }
}

proof fn lemma_no_keyword(s: Seq<char>, start: int, i: int, p: int)
    requires
        0 <= i <= p <= s.len(),
        forall|q: int| i <= q < p ==> keyword_at(s, q) >= 14,
    ensures
        segments(s, start, i) == segments(s, start, p),
        operators(s, i) == operators(s, p),
    decreases p - i,
{
    if i < p {
        lemma_no_keyword(s, start, i + 1, p);
    }
}

proof fn lemma_run_to_end(s: Seq<char>, i: int)
    requires
        0 <= i <= s.len(),
        forall|q: int| 0 <= q < s.len() ==> !is_space(#[trigger] s[q]) && !is_quote(s[q]),
    ensures
        run_end(s, i, s.len() as int, true) == s.len(),
    decreases s.len() - i,
{
    if i < s.len() {
        lemma_run_to_end(s, i + 1);
    }
}

proof fn lemma_lex_blank(s: Seq<char>, i: int, e: int)
    requires
        0 <= i <= e <= s.len(),
        forall|q: int| i <= q < e ==> is_space(#[trigger] s[q]),
    ensures
        lex(s, i, e) == Ok::<Seq<QueryTree>, CompileError>(seq![]),
    decreases e - i,
{
    if i < e {
        lemma_lex_blank(s, i + 1, e);
    }
}

/// A query that is a single bare word, holding no whitespace, no quote and
/// no operator keyword, compiles to a single term: a field term when the
/// word is `field:value` with a known field and a non-empty value, and
/// otherwise the word itself as a plain term.
pub proof fn lemma_single_word(s: Seq<char>)
    requires
        s.len() > 0,
        forall|q: int| 0 <= q < s.len() ==> !is_space(#[trigger] s[q]) && !is_quote(s[q]),
        forall|q: int| 0 <= q < s.len() ==> #[trigger] keyword_at(s, q) >= 14,
    ensures
        compile(s) == Ok::<QueryTree, CompileError>(word_term(s)),
{
    let e = s.len() as int;
    assert(!is_space(s[0]));
    lemma_no_keyword(s, 0, 0, e);
    lemma_run_to_end(s, 1);
    assert(lex(s, e, e) == Ok::<Seq<QueryTree>, CompileError>(seq![]));
    assert(s.subrange(0, e) =~= s);
    assert(run_end(s, 1, e, true) == e);
    assert(seq![word_term(s)] + Seq::<QueryTree>::empty() =~= seq![word_term(s)]);
    assert(lex(s, 0, e) == Ok::<Seq<QueryTree>, CompileError>(seq![word_term(s)]));
    assert(operand(s, 0, e) == Ok::<QueryTree, CompileError>(word_term(s)));
}

/// A lone word whose part before its first colon names no field (or that
/// has no colon) compiles to a plain term holding the whole word, colon
/// included: an unknown prefix is literal text, never an error.
pub proof fn lemma_unknown_prefix_is_literal(s: Seq<char>)
    requires
        s.len() > 0,
        forall|q: int| 0 <= q < s.len() ==> !is_space(#[trigger] s[q]) && !is_quote(s[q]),
        forall|q: int| 0 <= q < s.len() ==> #[trigger] keyword_at(s, q) >= 14,
        word_field(s, 0, s.len() as int) is None,
    ensures
        compile(s) == Ok::<QueryTree, CompileError>(QueryTree::Term { field: None, text: s }),
{
    lemma_single_word(s);
}

proof fn lemma_no_colon(s: Seq<char>, i: int, n: int, e: int)
    requires
        0 <= i <= n <= e <= s.len(),
        n < e ==> s[n] == ':',
        forall|q: int| i <= q < n ==> s[q] != ':',
    ensures
        find_char(s, i, e, ':') == n,
    decreases n - i,
{
    if i < n {
        lemma_no_colon(s, i + 1, n, e);
    }
}

/// A lone word made of a field name (in any ASCII case), a colon and a
/// non-empty value, with no whitespace, quote or operator keyword in it,
/// compiles to a single term of that field holding the value.
pub proof fn lemma_field_word(s: Seq<char>, t: XapianTag)
    requires
        field_name(t).len() + 1 < s.len(),
        matches_at(s, 0, field_name(t)),
        s[field_name(t).len() as int] == ':',
        forall|q: int| 0 <= q < s.len() ==> !is_space(#[trigger] s[q]) && !is_quote(s[q]),
        forall|q: int| 0 <= q < s.len() ==> #[trigger] keyword_at(s, q) >= 14,
    ensures
        compile(s) == Ok::<QueryTree, CompileError>(
            QueryTree::Term { field: Some(t), text: s.subrange(field_name(t).len() as int + 1, s.len() as int) },
        ),
{
    let name = field_name(t);
    let n = name.len() as int;
    let e = s.len() as int;
    assert forall|q: int| 0 <= q < n implies s[q] != ':' by {
        assert(fold_case(s[0 + q]) == fold_case(name[q]));
    }
    lemma_no_colon(s, 0, n, e);
    assert(fold_case(s[0int + 0int]) == fold_case(name[0int]));
    assert(fold_case(s[0int + 1int]) == fold_case(name[1int]));
    assert(field_at(s, 0, n) == Some(t));
    lemma_single_word(s);
}

proof fn lemma_lex_skip_blank(s: Seq<char>, a: int, i: int, e: int)
    requires
        0 <= a <= i <= e <= s.len(),
        blank_range(s, a, i),
    ensures
        lex(s, a, e) == lex(s, i, e),
    decreases i - a,
{
    if a < i {
        lemma_lex_skip_blank(s, a + 1, i, e);
    }
}

proof fn lemma_run_end_at(s: Seq<char>, i: int, j: int, e: int)
    requires
        0 <= i <= j <= e <= s.len(),
        forall|q: int| i <= q < j ==> !is_space(#[trigger] s[q]) && !is_quote(s[q]),
        j < e ==> is_space(s[j]),
    ensures
        run_end(s, i, e, true) == j,
    decreases j - i,
{
    if i < j {
        lemma_run_end_at(s, i + 1, j, e);
    }
}

/// A bare word between stretches of whitespace is an operand of one plain
/// term.
proof fn lemma_operand_word(s: Seq<char>, a: int, i: int, j: int, e: int)
    requires
        0 <= a <= i < j <= e <= s.len(),
        blank_range(s, a, i),
        blank_range(s, j, e),
        forall|q: int| i <= q < j ==> !is_space(#[trigger] s[q]) && !is_quote(s[q]) && s[q] != ':',
    ensures
        operand(s, a, e) == Ok::<QueryTree, CompileError>(QueryTree::Term { field: None, text: s.subrange(i, j) }),
{
    lemma_lex_skip_blank(s, a, i, e);
    lemma_run_end_at(s, i + 1, j, e);
    lemma_no_colon(s, i, j, j);
    lemma_lex_blank(s, j, e);
    let t = QueryTree::Term { field: None, text: s.subrange(i, j) };
    assert(seq![t] + Seq::<QueryTree>::empty() =~= seq![t]);
    assert(lex(s, i, e) == Ok::<Seq<QueryTree>, CompileError>(seq![t]));
}

/// A word, an operator keyword in any ASCII case, and a word, separated by
/// whitespace, compile to one `Binary` node of that keyword's operator over
/// two plain terms, when the words hold no whitespace, quote, colon or
/// keyword and the keyword is the one chosen at its position.
pub proof fn lemma_word_operator_word(s: Seq<char>, h: int, k: int)
    requires
        0 < h,
        0 <= k < 14,
        keyword_at(s, h + 1) == k,
        h + keyword(k).len() + 2 < s.len(),
        is_space(s[h]),
        is_space(s[h + 1 + keyword(k).len()]),
        forall|q: int| 0 <= q < h ==> !is_space(#[trigger] s[q]) && !is_quote(s[q]) && s[q] != ':',
        forall|q: int|
            h + keyword(k).len() + 2 <= q < s.len() ==> !is_space(#[trigger] s[q]) && !is_quote(s[q]) && s[q] != ':',
        forall|q: int| 0 <= q < s.len() && q != h + 1 ==> #[trigger] keyword_at(s, q) >= 14,
    ensures
        compile(s) == Ok::<QueryTree, CompileError>(
            QueryTree::Binary {
                op: keyword_op(k),
                left: Box::new(QueryTree::Term { field: None, text: s.subrange(0, h) }),
                right: Box::new(
                    QueryTree::Term { field: None, text: s.subrange(h + keyword(k).len() + 2, s.len() as int) },
                ),
            },
        ),
{
    let n = h + 1 + keyword(k).len();
    let e = s.len() as int;
    lemma_operand_word(s, 0, 0, h, h + 1);
    lemma_operand_word(s, n, n + 1, e, e);
    lemma_single_operator(s, h + 1);
}

/// Query text in which exactly one operator keyword occurs, at position `p`,
/// and whose two operands compile, compiles to one `Binary` node of that
/// keyword's operator over the two operands.
pub proof fn lemma_single_operator(s: Seq<char>, p: int)
    requires
        0 <= p < s.len(),
        keyword_at(s, p) < 14,
        forall|q: int| 0 <= q < p ==> #[trigger] keyword_at(s, q) >= 14,
        forall|q: int|
            p + keyword(keyword_at(s, p)).len() <= q < s.len() ==> #[trigger] keyword_at(s, q) >= 14,
        operand(s, 0, p) is Ok,
        operand(s, p + keyword(keyword_at(s, p)).len(), s.len() as int) is Ok,
    ensures
        compile(s) == Ok::<QueryTree, CompileError>(
            QueryTree::Binary {
                op: keyword_op(keyword_at(s, p)),
                left: Box::new(operand(s, 0, p)->Ok_0),
                right: Box::new(operand(s, p + keyword(keyword_at(s, p)).len(), s.len() as int)->Ok_0),
            },
        ),
{
    let k = keyword_at(s, p);
    lemma_keyword_from(s, p, 0);
    lemma_keyword_nonempty(k);
    let n = p + keyword(k).len();
    let e = s.len() as int;
    lemma_no_keyword(s, 0, 0, p);
    lemma_no_keyword(s, n, n, e);
    assert(segments(s, 0, 0) =~= seq![(0int, p), (n, e)]);
    assert(operators(s, 0) =~= seq![keyword_op(k)]);
    if blank(s) {
        lemma_lex_blank(s, 0, p);
    }
    assert(!blank(s));
    if blank_range(s, n, e) {
        lemma_lex_blank(s, n, e);
    }
    assert(joined_operators(s) == 1);
    let segs = segments(s, 0, 0);
    let ops = operators(s, 0);
    assert(fold_operands(s, segs, ops, 0) == operand(s, 0, p));
}

/// Keyword matching ignores ASCII case: texts that differ at most in the
/// case of letters choose the same keyword at every position.
pub proof fn lemma_keyword_ignores_case(s: Seq<char>, t: Seq<char>, p: int, k: int)
    requires
        s.len() == t.len(),
        forall|q: int|
            0 <= q < s.len() ==> fold_case(#[trigger] s[q]) == fold_case(t[q]) && is_space(s[q]) == is_space(t[q]),
    ensures
        keyword_from(s, p, k) == keyword_from(t, p, k),
    decreases 14 - k,
{
    if 0 <= k < 14 {
        let kw = keyword(k);
        if p > 0 && p <= s.len() {
            assert(is_space(s[p - 1]) == is_space(t[p - 1]));
        }
        if 0 <= p + kw.len() < s.len() {
            assert(is_space(s[p + kw.len()]) == is_space(t[p + kw.len()]));
        }
        if matches_at(s, p, kw) {
            assert forall|j: int| 0 <= j < kw.len() implies #[trigger] fold_case(t[p + j]) == fold_case(kw[j]) by {
                assert(fold_case(s[p + j]) == fold_case(kw[j]));
            }
        }
        if matches_at(t, p, kw) {
            assert forall|j: int| 0 <= j < kw.len() implies #[trigger] fold_case(s[p + j]) == fold_case(kw[j]) by {
                assert(fold_case(t[p + j]) == fold_case(kw[j]));
            }
        }
        assert(keyword_occurs(s, p, k) == keyword_occurs(t, p, k));
        lemma_keyword_ignores_case(s, t, p, k + 1);
    }
}

/// Where `AND NOT` occurs, it is chosen over the shorter `AND`.
pub proof fn lemma_and_not_wins(s: Seq<char>, p: int)
    requires
        keyword_occurs(s, p, 2),
    ensures
        keyword_at(s, p) == 2,
        keyword_op(keyword_at(s, p)) == MatchOp::AndNot,
{
    let kw = keyword(2);
    assert(fold_case(s[p + 0]) == fold_case(kw[0]));
    assert(fold_case(s[p + 4]) == fold_case(kw[4]));
    assert(!matches_at(s, p, keyword(0))) by {
        if matches_at(s, p, keyword(0)) {
            assert(fold_case(s[p + 4]) == fold_case(keyword(0)[4]));
        }
    }
    assert(!matches_at(s, p, keyword(1))) by {
        if matches_at(s, p, keyword(1)) {
            assert(fold_case(s[p + 0]) == fold_case(keyword(1)[0]));
        }
    }
    assert(keyword_from(s, p, 2) == 2);
    assert(keyword_from(s, p, 1) == 2);
    assert(keyword_from(s, p, 0) == 2);
}

/// Text that is not blank and holds more than `MAX_OPERATORS` operators is
/// refused as too complex.
pub proof fn lemma_too_many_operators(s: Seq<char>)
    requires
        !blank(s),
        operators(s, 0).len() > 50,
    ensures
        compile(s) == Err::<QueryTree, CompileError>(CompileError::QueryTooComplex),
{
}

proof fn lemma_shift_keyword(x: Seq<char>, t: Seq<char>, q: int, k: int)
    requires
        x.len() > 0 ==> is_space(x.last()),
        0 <= q,
    ensures
        keyword_from(x + t, x.len() + q, k) == keyword_from(t, q, k),
    decreases 14 - k,
{
    if 0 <= k < 14 {
        let s = x + t;
        let p = x.len() + q;
        let kw = keyword(k);
        if matches_at(s, p, kw) {
            assert forall|j: int| 0 <= j < kw.len() implies #[trigger] fold_case(t[q + j]) == fold_case(kw[j]) by {
                assert(s[p + j] == t[q + j]);
            }
        }
        if matches_at(t, q, kw) {
            assert forall|j: int| 0 <= j < kw.len() implies #[trigger] fold_case(s[p + j]) == fold_case(kw[j]) by {
                assert(s[p + j] == t[q + j]);
            }
        }
        if q > 0 && q <= t.len() {
            assert(s[p - 1] == t[q - 1]);
        }
        if q == 0 && x.len() > 0 {
            assert(s[p - 1] == x.last());
        }
        if 0 <= q + kw.len() < t.len() {
            assert(s[p + kw.len()] == t[q + kw.len()]);
        }
        assert(keyword_occurs(s, p, k) == keyword_occurs(t, q, k));
        lemma_shift_keyword(x, t, q, k + 1);
    }
}

proof fn lemma_shift_operators(x: Seq<char>, t: Seq<char>, q: int)
    requires
        x.len() > 0 ==> is_space(x.last()),
        0 <= q,
    ensures
        operators(x + t, x.len() + q) == operators(t, q),
    decreases t.len() - q,
{
    if q < t.len() {
        lemma_shift_keyword(x, t, q, 0);
        let k = keyword_at(t, q);
        if k < 14 {
            lemma_keyword_nonempty(k);
            lemma_keyword_from(t, q, 0);
            lemma_shift_operators(x, t, q + keyword(k).len());
        } else {
            lemma_shift_operators(x, t, q + 1);
        }
    }
}

/// `a` followed by `n` times ` AND a`.
pub open spec fn and_chain(n: nat) -> Seq<char>
    decreases n,
{
    if n == 0 {
        seq!['a']
    } else {
        seq!['a', ' ', 'A', 'N', 'D', ' '] + and_chain((n - 1) as nat)
    }
}

proof fn lemma_and_chain_shape(n: nat)
    ensures
        and_chain(n).len() == 6 * n + 1,
        and_chain(n)[0] == 'a',
    decreases n,
{
    if n > 0 {
        lemma_and_chain_shape((n - 1) as nat);
    }
}

/// `a`, alone or followed by a character that is no letter, starts no
/// keyword.
proof fn lemma_no_keyword_at_a(s: Seq<char>, p: int)
    requires
        0 <= p < s.len(),
        s[p] == 'a',
        p + 1 < s.len() ==> s[p + 1] == ' ',
    ensures
        keyword_at(s, p) == 14,
{
    reveal_with_fuel(keyword_from, 15);
    assert(fold_case(s[p + 0]) == 97);
    if p + 1 < s.len() {
        assert(fold_case(s[p + 1]) == 32);
    }
}

/// A space starts no keyword.
proof fn lemma_no_keyword_at_space(s: Seq<char>, p: int)
    requires
        0 <= p < s.len(),
        s[p] == ' ',
    ensures
        keyword_at(s, p) == 14,
{
    reveal_with_fuel(keyword_from, 15);
    assert(fold_case(s[p + 0]) == 32);
}

/// `AND` between spaces, followed by `a`, is the keyword `AND`.
proof fn lemma_and_at(s: Seq<char>, p: int)
    requires
        0 < p,
        p + 4 < s.len(),
        s[p - 1] == ' ' && s[p] == 'A' && s[p + 1] == 'N' && s[p + 2] == 'D' && s[p + 3] == ' ' && s[p + 4] == 'a',
    ensures
        keyword_at(s, p) == 9,
{
    reveal_with_fuel(keyword_from, 15);
    assert(fold_case(s[p + 0]) == 97);
    assert(fold_case(s[p + 1]) == 110);
    assert(fold_case(s[p + 2]) == 100);
    assert(fold_case(s[p + 3]) == 32);
    assert(fold_case(s[p + 4]) == 97);
    assert(matches_at(s, p, keyword(9)));
}

proof fn lemma_lex_not_too_complex(s: Seq<char>, i: int, e: int)
    ensures
        lex(s, i, e) != Err::<Seq<QueryTree>, CompileError>(CompileError::QueryTooComplex),
    decreases e - i,
{
    if i < e {
        if is_space(s[i]) {
            lemma_lex_not_too_complex(s, i + 1, e);
        } else if is_quote(s[i]) {
            lemma_find_char(s, i + 1, e, s[i]);
            let j = find_char(s, i + 1, e, s[i]);
            if j < e {
                lemma_lex_not_too_complex(s, j + 1, e);
            }
        } else {
            let w = run_end(s, i + 1, e, true);
            lemma_run_end(s, i + 1, e, true);
            lemma_lex_not_too_complex(s, w, e);
            if w < e {
                lemma_find_char(s, w + 1, e, s[w]);
                let j = find_char(s, w + 1, e, s[w]);
                if j < e {
                    lemma_lex_not_too_complex(s, j + 1, e);
                }
            }
        }
    }
}

proof fn lemma_fold_not_too_complex(s: Seq<char>, segs: Seq<(int, int)>, ops: Seq<MatchOp>, n: int)
    ensures
        fold_operands(s, segs, ops, n) != Err::<QueryTree, CompileError>(CompileError::QueryTooComplex),
    decreases n,
{
    if n > 0 {
        lemma_fold_not_too_complex(s, segs, ops, n - 1);
        lemma_lex_not_too_complex(s, segs[n].0, segs[n].1);
    } else {
        lemma_lex_not_too_complex(s, segs[0].0, segs[0].1);
    }
}

/// The text `a` followed by `n` times ` AND a` holds `n` operators, so it
/// is refused as too complex exactly when `n` exceeds `MAX_OPERATORS`.
pub proof fn lemma_and_chain_operators(n: nat)
    ensures
        operators(and_chain(n), 0).len() == n,
        n > 50 <==> compile(and_chain(n)) == Err::<QueryTree, CompileError>(CompileError::QueryTooComplex),
    decreases n,
{
    lemma_and_chain_shape(n);
    let s = and_chain(n);
    assert(!is_space(s[0]));
    if n == 0 {
        lemma_no_keyword_at_a(s, 0);
        assert(operators(s, 1) =~= Seq::<MatchOp>::empty());
    } else {
        let unit = seq!['a', ' ', 'A', 'N', 'D', ' '];
        let rest = and_chain((n - 1) as nat);
        lemma_and_chain_shape((n - 1) as nat);
        lemma_and_chain_operators((n - 1) as nat);
        assert(s == unit + rest);
        assert(s[0] == 'a' && s[1] == ' ' && s[2] == 'A' && s[3] == 'N' && s[4] == 'D' && s[5] == ' ' && s[6] == 'a');
        lemma_no_keyword_at_a(s, 0);
        lemma_no_keyword_at_space(s, 1);
        lemma_and_at(s, 2);
        lemma_no_keyword_at_space(s, 5);
        lemma_keyword_nonempty(9);
        lemma_shift_operators(unit, rest, 0);
        assert(operators(s, 5) == operators(s, 6));
        assert(operators(s, 2) == seq![MatchOp::And] + operators(s, 5));
        assert(operators(s, 1) == operators(s, 2));
        assert(operators(s, 0) == operators(s, 1));
    }
    lemma_fold_not_too_complex(s, segments(s, 0, 0), operators(s, 0), joined_operators(s));
}

} // verus!
