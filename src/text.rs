//! Character-level helpers shared by the query compiler and the document model.

use vstd::prelude::*;

verus! {

/// Unicode White_Space, the characters that `char::is_whitespace` accepts:
/// U+0009 to U+000D, space, U+0085, U+00A0, U+1680, U+2000 to U+200A,
/// U+2028, U+2029, U+202F, U+205F and U+3000.
pub open spec fn is_space(c: char) -> bool {
    let v = c as u32;
    (9 <= v && v <= 13) || v == 32 || v == 133 || v == 160 || v == 5760 || (8192 <= v && v <= 8202)
        || v == 8232 || v == 8233 || v == 8239 || v == 8287 || v == 12288
}

/// Code point with ASCII upper-case letters mapped to lower case.
pub open spec fn fold_case(c: char) -> u32 {
    if 65 <= (c as u32) && (c as u32) <= 90 {
        ((c as u32) + 32) as u32
    } else {
        c as u32
    }
}

/// `kw` occurs at position `p` of `s`, ignoring ASCII case.
pub open spec fn matches_at(s: Seq<char>, p: int, kw: Seq<char>) -> bool {
    &&& 0 <= p
    &&& p + kw.len() <= s.len()
    &&& forall|j: int| 0 <= j < kw.len() ==> #[trigger] fold_case(s[p + j]) == fold_case(kw[j])
}

pub fn is_space_char(c: char) -> (r: bool)
    ensures
        r == is_space(c),
{
    let v = c as u32;
    (9 <= v && v <= 13) || v == 32 || v == 133 || v == 160 || v == 5760 || (8192 <= v && v <= 8202)
        || v == 8232 || v == 8233 || v == 8239 || v == 8287 || v == 12288
}

pub fn fold_case_char(c: char) -> (r: u32)
    ensures
        r == fold_case(c),
{
    let v = c as u32;
    if 65 <= v && v <= 90 {
        v + 32
    } else {
        v
    }
}

/// The characters of `s`, one per element.
pub fn chars_of(s: &str) -> (r: Vec<char>)
    ensures
        r@ == s@,
{
    let n = s.unicode_len();
    let mut r: Vec<char> = Vec::new();
    let mut i: usize = 0;
    while i < n
        invariant
            n == s@.len(),
            i <= n,
            r@ == s@.subrange(0, i as int),
        decreases n - i,
    {
        r.push(s.get_char(i));
        i = i + 1;
    }
    assert(r@ =~= s@);
    r
}

/// Whether `kw` occurs at position `p` of `s`, ignoring ASCII case.
pub fn matches_at_exec(s: &Vec<char>, p: usize, kw: &str) -> (r: bool)
    ensures
        r == matches_at(s@, p as int, kw@),
{
    let n = kw.unicode_len();
    if p > s.len() || n > s.len() - p {
        return false;
    }
    let end: usize = p + n;
    let mut j: usize = 0;
    while j < n
        invariant
            n == kw@.len(),
            end == p + n,
            p + n <= s@.len(),
            j <= n,
            forall|t: int| 0 <= t < j ==> #[trigger] fold_case(s@[p + t]) == fold_case(kw@[t]),
        decreases n - j,
    {
        if fold_case_char(s[end - n + j]) != fold_case_char(kw.get_char(j)) {
            return false;
        }
        j = j + 1;
    }
    true
}

/// Relies on std's `FromIterator<char>` for `String`: the string holds exactly
/// the given characters, in order.
#[verifier::external_body]
pub fn string_from_chars(v: &[char]) -> (r: String)
    ensures
        r@ == v@,
{
    String::from_iter(v.iter())
}

/// The characters of `s` from `lo` (inclusive) to `hi` (exclusive) as a string.
pub fn substring(s: &Vec<char>, lo: usize, hi: usize) -> (r: String)
    requires
        lo <= hi <= s@.len(),
    ensures
        r@ == s@.subrange(lo as int, hi as int),
{
    let mut v: Vec<char> = Vec::new();
    let mut i: usize = lo;
    while i < hi
        invariant
            lo <= i <= hi <= s@.len(),
            v@ == s@.subrange(lo as int, i as int),
        decreases hi - i,
    {
        v.push(s[i]);
        i = i + 1;
    }
    string_from_chars(v.as_slice())
}

/// Whether two strings hold the same characters.
pub fn same_text(a: &str, b: &str) -> (r: bool)
    ensures
        r == (a@ == b@),
{
    let n = a.unicode_len();
    if n != b.unicode_len() {
        return false;
    }
    let mut i: usize = 0;
    while i < n
        invariant
            n == a@.len(),
            n == b@.len(),
            i <= n,
            forall|t: int| 0 <= t < i ==> a@[t] == b@[t],
        decreases n - i,
    {
        if a.get_char(i) != b.get_char(i) {
            return false;
        }
        i = i + 1;
    }
    assert(a@ =~= b@);
    true
}

} // verus!
