//! Document dates: seconds since the Unix epoch, read from RFC 3339 text,
//! from `%Y-%m-%dT%T%z` text, or from a decimal number of seconds.

use vstd::prelude::*;
use crate::text::chars_of;

verus! {

/// A point in time, as seconds since 1970-01-01T00:00:00Z.
#[derive(Clone, Copy, Debug, PartialEq, Eq, Structural)]
pub struct Date(pub i64);

impl Date {
    pub fn new(d: i64) -> (r: Date)
        ensures
            r.0 == d,
    {
        Date(d)
    }
}

/// The instant that chrono reads from RFC 3339 text, in epoch seconds.
pub uninterp spec fn rfc3339_seconds(s: Seq<char>) -> Option<i64>;

/// The instant that chrono reads from text in the given strftime format
/// (with an offset), in epoch seconds.
pub uninterp spec fn formatted_seconds(s: Seq<char>, fmt: Seq<char>) -> Option<i64>;

/// The RFC 3339 text, in UTC, that chrono writes for an instant in epoch
/// seconds, when the instant is within its range.
pub uninterp spec fn rfc3339_text(t: i64) -> Option<Seq<char>>;

/// Relies on chrono's `DateTime::parse_from_rfc3339`, read as epoch seconds
/// with `DateTime::timestamp`; the result depends on the text alone.
#[verifier::external_body]
pub(crate) fn parse_rfc3339(s: &str) -> (r: Option<i64>)
    ensures
        r == rfc3339_seconds(s@),
{
    chrono::DateTime::parse_from_rfc3339(s).ok().map(|d| d.timestamp())
}

/// Relies on chrono's `DateTime::parse_from_str`, read as epoch seconds with
/// `DateTime::timestamp`; the result depends on the text and format alone.
#[verifier::external_body]
pub(crate) fn parse_with_format(s: &str, fmt: &str) -> (r: Option<i64>)
    ensures
        r == formatted_seconds(s@, fmt@),
{
    chrono::DateTime::parse_from_str(s, fmt).ok().map(|d| d.timestamp())
}

/// Relies on chrono's `DateTime::from_timestamp` (whole seconds, `None` out
/// of range) and `DateTime::to_rfc3339` in UTC.
#[verifier::external_body]
fn utc_rfc3339(t: i64) -> (r: Option<String>)
    ensures
        r is Some <==> rfc3339_text(t) is Some,
        r matches Some(x) ==> rfc3339_text(t) == Some(x@),
{
    chrono::DateTime::from_timestamp(t, 0).map(|d| d.to_rfc3339())
}

/// The strftime format of a date with a numeric offset.
pub open spec fn offset_format() -> Seq<char> {
    seq!['%', 'Y', '-', '%', 'm', '-', '%', 'd', 'T', '%', 'T', '%', 'z']
}

pub open spec fn is_digit(c: char) -> bool {
    48 <= (c as u32) && (c as u32) <= 57
}

pub open spec fn all_digits(s: Seq<char>) -> bool {
    s.len() > 0 && forall|i: int| 0 <= i < s.len() ==> is_digit(#[trigger] s[i])
}

/// The value of a string of decimal digits.
pub open spec fn digits_value(s: Seq<char>) -> int
    decreases s.len(),
{
    if s.len() == 0 {
        0
    } else {
        digits_value(s.drop_last()) * 10 + ((s.last() as u32) as int - 48)
    }
}

/// The integer that decimal text denotes: an optional sign and one or more
/// digits.
pub open spec fn decimal_value(s: Seq<char>) -> Option<int> {
    if s.len() > 0 && s[0] == '-' && all_digits(s.drop_first()) {
        Some(-digits_value(s.drop_first()))
    } else if s.len() > 0 && s[0] == '+' && all_digits(s.drop_first()) {
        Some(digits_value(s.drop_first()))
    } else if all_digits(s) {
        Some(digits_value(s))
    } else {
        None
    }
}

/// Decimal text read as an `i64`, when it denotes one.
pub open spec fn decimal_i64(s: Seq<char>) -> Option<i64> {
    match decimal_value(s) {
        Some(v) => if i64::MIN <= v <= i64::MAX {
            Some(v as i64)
        } else {
            None
        },
        None => None,
    }
}

/// The epoch seconds that date text denotes: RFC 3339 first, then
/// `%Y-%m-%dT%T%z`, then a decimal number of seconds.
pub open spec fn date_seconds(s: Seq<char>) -> Option<i64> {
    match rfc3339_seconds(s) {
        Some(t) => Some(t),
        None => match formatted_seconds(s, offset_format()) {
            Some(t) => Some(t),
            None => decimal_i64(s),
        },
    }
}

proof fn lemma_digits_grow(s: Seq<char>, k: int)
    requires
        0 <= k <= s.len(),
        forall|i: int| 0 <= i < s.len() ==> is_digit(#[trigger] s[i]),
    ensures
        digits_value(s) >= digits_value(s.subrange(0, k)) >= 0,
    decreases s.len(),
{
    if s.len() == 0 {
        assert(s.subrange(0, k) =~= s);
    } else {
        let d = s.drop_last();
        assert forall|i: int| 0 <= i < d.len() implies is_digit(#[trigger] d[i]) by {
            assert(d[i] == s[i]);
        }
        if k == s.len() {
            assert(s.subrange(0, k) =~= s);
            lemma_digits_grow(d, 0);
        } else {
            assert(s.subrange(0, k) =~= d.subrange(0, k));
            lemma_digits_grow(d, k);
        }
        assert(is_digit(s.last()));
    }
}

const LIMIT: u128 = 9223372036854775808;

/// Reads decimal text as an `i64`: an optional `+` or `-`, then one or
/// more ASCII digits, with a value in range.
pub fn parse_decimal(s: &str) -> (r: Option<i64>)
    ensures
        r == decimal_i64(s@),
{
    let cs = chars_of(s);
    let n = cs.len();
    let mut start: usize = 0;
    let mut negative = false;
    if n > 0 && (cs[0] == '-' || cs[0] == '+') {
        negative = cs[0] == '-';
        start = 1;
    }
    let ghost digits = cs@.subrange(start as int, n as int);
    proof {
        if start == 1 {
            assert(digits =~= cs@.drop_first());
            assert(!is_digit(cs@[0]));
        } else {
            assert(digits =~= cs@);
        }
        lemma_decimal_shape(cs@, start as int);
    }
    if start >= n {
        return None;
    }
    let mut acc: u128 = 0;
    let mut i: usize = start;
    proof {
        assert(cs@.subrange(start as int, i as int) =~= Seq::<char>::empty());
    }
    while i < n
        invariant
            cs@ == s@,
            start <= i <= n,
            start < n,
            n == cs@.len(),
            digits == cs@.subrange(start as int, n as int),
            forall|t: int| start <= t < i ==> is_digit(#[trigger] cs@[t]),
            acc as int == digits_value(cs@.subrange(start as int, i as int)),
            acc <= LIMIT,
            negative == (start == 1 && cs@[0] == '-'),
            all_digits(digits) ==> decimal_value(cs@) == Some(
                if negative { -digits_value(digits) } else { digits_value(digits) },
            ),
            !all_digits(digits) ==> decimal_value(cs@) is None,
        decreases n - i,
    {
        let c = cs[i];
        let v = c as u32;
        if v < 48 || v > 57 {
            proof {
                assert(digits[i - start] == cs@[i as int]);
                assert(!is_digit(digits[i - start]));
            }
            return None;
        }
        let next = acc * 10 + (v - 48) as u128;
        proof {
            let p = cs@.subrange(start as int, i + 1);
            assert(p.drop_last() =~= cs@.subrange(start as int, i as int));
        }
        if next > LIMIT {
            proof {
                if all_digits(digits) {
                    lemma_digits_grow(digits, i + 1 - start);
                    assert(digits.subrange(0, i + 1 - start) =~= cs@.subrange(start as int, i + 1));
                }
            }
            return None;
        }
        acc = next;
        i = i + 1;
    }
    proof {
        assert(cs@.subrange(start as int, n as int) =~= digits);
        assert forall|t: int| 0 <= t < digits.len() implies is_digit(#[trigger] digits[t]) by {
            assert(digits[t] == cs@[start + t]);
        }
    }
    if negative {
        if acc == LIMIT {
            Some(i64::MIN)
        } else {
            Some(-(acc as i64))
        }
    } else if acc >= LIMIT {
        None
    } else {
        Some(acc as i64)
    }
}

/// How `decimal_value` reads text whose sign, if any, ends before `start`.
proof fn lemma_decimal_shape(s: Seq<char>, start: int)
    requires
        start == 0 || start == 1,
        start == 1 <==> (s.len() > 0 && (s[0] == '-' || s[0] == '+')),
        start == 1 ==> !is_digit(s[0]),
    ensures
        decimal_value(s) == (if all_digits(s.subrange(start, s.len() as int)) {
            if start == 1 && s[0] == '-' {
                Some(-digits_value(s.subrange(start, s.len() as int)))
            } else {
                Some(digits_value(s.subrange(start, s.len() as int)))
            }
        } else {
            None::<int>
        }),
{
    if start == 1 {
        assert(s.subrange(1, s.len() as int) =~= s.drop_first());
        assert(!all_digits(s));
    } else {
        assert(s.subrange(0, s.len() as int) =~= s);
    }
}

impl Date {
    /// Chooses the date from the readings of the text `s`: the RFC 3339
    /// reading, else the `%Y-%m-%dT%T%z` reading, else `s` as decimal
    /// seconds.
    pub fn pick(rfc3339: Option<i64>, formatted: Option<i64>, s: &str) -> (r: Option<Date>)
        ensures
            r is Some <==> (rfc3339 is Some || formatted is Some || decimal_i64(s@) is Some),
            r matches Some(d) ==> d.0 == (match rfc3339 {
                Some(t) => t,
                None => match formatted {
                    Some(t) => t,
                    None => decimal_i64(s@)->0,
                },
            }),
    {
        match rfc3339 {
            Some(t) => Some(Date(t)),
            None => match formatted {
                Some(t) => Some(Date(t)),
                None => match parse_decimal(s) {
                    Some(t) => Some(Date(t)),
                    None => None,
                },
            },
        }
    }

    /// Reads a date from text; see `date_seconds`.
    pub fn parse(s: &str) -> (r: Option<Date>)
        ensures
            r is Some <==> date_seconds(s@) is Some,
            r matches Some(d) ==> date_seconds(s@) == Some(d.0),
    {
        let fmt = "%Y-%m-%dT%T%z";
        proof {
            reveal_strlit("%Y-%m-%dT%T%z");
            assert(fmt@ =~= offset_format());
        }
        let rfc = parse_rfc3339(s);
        let formatted = parse_with_format(s, fmt);
        Date::pick(rfc, formatted, s)
    }

    /// The date as RFC 3339 text in UTC, when chrono can represent it.
    pub fn to_rfc3339(&self) -> (r: Option<String>)
        ensures
            r is Some <==> rfc3339_text(self.0) is Some,
            r matches Some(x) ==> rfc3339_text(self.0) == Some(x@),
    {
        utc_rfc3339(self.0)
    }
}

} // verus!
