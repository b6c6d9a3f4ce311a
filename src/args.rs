use crate::note::NoteStatus;
use crate::query::Limit;
use vstd::prelude::*;

verus! {

/// The limit used when none is given, or when the given one is no number.
pub const DEFAULT_LIMIT: i32 = 100;

/// The status that a filter word names, if it names one.
pub open spec fn status_word(w: Seq<char>) -> Option<NoteStatus> {
    if w == "archived"@ {
        Some(NoteStatus::ARCHIVED)
    } else if w == "normal"@ {
        Some(NoteStatus::NORMAL)
    } else if w == "trashed"@ {
        Some(NoteStatus::TRASHED)
    } else {
        None
    }
}

/// The statuses that the filter words name, in order; other words are skipped.
pub open spec fn filters_of(words: Seq<String>) -> Seq<NoteStatus>
    decreases words.len(),
{
    if words.len() == 0 {
        Seq::empty()
    } else {
        let rest = filters_of(words.drop_last());
        match status_word(words.last()@) {
            Some(s) => rest.push(s),
            None => rest,
        }
    }
}

pub open spec fn is_digit(c: char) -> bool {
    '0' <= c && c <= '9'
}

/// The value of a string of decimal digits.
pub open spec fn digits_value(s: Seq<char>) -> int
    decreases s.len(),
{
    if s.len() == 0 {
        0
    } else {
        10 * digits_value(s.drop_last()) + (s.last() as int - '0' as int)
    }
}

/// The `i32` that `s` writes in decimal, with an optional sign, or `None`
/// where it writes none or one out of range.
pub open spec fn i32_of(s: Seq<char>) -> Option<i32> {
    let negative = s.len() > 0 && s[0] == '-';
    let digits = if s.len() > 0 && (s[0] == '-' || s[0] == '+') {
        s.drop_first()
    } else {
        s
    };
    let v = if negative {
        -digits_value(digits)
    } else {
        digits_value(digits)
    };
    if digits.len() == 0 || !(forall|i: int| 0 <= i < digits.len() ==> is_digit(#[trigger] digits[i])) {
        None
    } else if i32::MIN <= v <= i32::MAX {
        Some(v as i32)
    } else {
        None
    }
}

/// Relies on std's `str::parse::<i32>`: an optional `+` or `-` followed by
/// decimal digits, within the range of `i32`.
#[verifier::external_body]
fn parse_i32(s: &str) -> (r: Option<i32>)
    ensures
        r == i32_of(s@),
{
    s.parse::<i32>().ok()
}

/// The limit that the options ask for: no bound where every note is asked
/// for, else the given count where it is positive, else the default.
pub open spec fn limit_of(all: bool, count: Option<Seq<char>>) -> Limit {
    if all {
        Limit::INFINITE
    } else {
        match count {
            Some(s) => match i32_of(s) {
                Some(n) => if n >= 1 {
                    Limit::FINITE(n)
                } else {
                    Limit::FINITE(DEFAULT_LIMIT)
                },
                None => Limit::FINITE(DEFAULT_LIMIT),
            },
            None => Limit::FINITE(DEFAULT_LIMIT),
        }
    }
}

/// The statuses that the filter words name; unknown words are ignored.
pub fn parse_filters(words: &[String]) -> (r: Vec<NoteStatus>)
    ensures
        r@ == filters_of(words@),
{
    let archived = String::from_str("archived");
    let normal = String::from_str("normal");
    let trashed = String::from_str("trashed");
    let mut filters: Vec<NoteStatus> = Vec::new();
    let mut i: usize = 0;
    assert(words@.take(0) =~= Seq::<String>::empty());
    while i < words.len()
        invariant
            i <= words@.len(),
            archived@ == "archived"@,
            normal@ == "normal"@,
            trashed@ == "trashed"@,
            filters@ == filters_of(words@.take(i as int)),
        decreases words@.len() - i,
    {
        assert(words@.take(i + 1).drop_last() =~= words@.take(i as int));
        assert(words@.take(i + 1).last() == words@[i as int]);
        if words[i] == archived {
            filters.push(NoteStatus::ARCHIVED);
        } else if words[i] == normal {
            filters.push(NoteStatus::NORMAL);
        } else if words[i] == trashed {
            filters.push(NoteStatus::TRASHED);
        }
        i += 1;
    }
    assert(words@.take(words@.len() as int) =~= words@);
    filters
}

/// The limit that the options ask for: `all` lifts it, else a count that
/// does not read as a positive `i32` falls back to the default.
pub fn parse_limit(all: bool, count: Option<&str>) -> (r: Limit)
    ensures
        r matches Limit::FINITE(n) ==> n >= 1,
        r == limit_of(
            all,
            match count {
                Some(s) => Some(s@),
                None => None,
            },
        ),
{
    if all {
        return Limit::INFINITE;
    }
    match count {
        Some(s) => match parse_i32(s) {
            Some(n) => if n >= 1 {
                Limit::FINITE(n)
            } else {
                Limit::FINITE(DEFAULT_LIMIT)
            },
            None => Limit::FINITE(DEFAULT_LIMIT),
        },
        None => Limit::FINITE(DEFAULT_LIMIT),
    }
}

/// The tag titles given on the command line, as owned strings, in order.
pub fn parse_tags(titles: &[&str]) -> (r: Vec<String>)
    ensures
        r@.len() == titles@.len(),
        forall|i: int| 0 <= i < titles@.len() ==> #[trigger] r@[i]@ == titles@[i]@,
{
    let mut tags: Vec<String> = Vec::new();
    let mut i: usize = 0;
    while i < titles.len()
        invariant
            i <= titles@.len(),
            tags@.len() == i,
            forall|j: int| 0 <= j < i ==> #[trigger] tags@[j]@ == titles@[j]@,
        decreases titles@.len() - i,
    {
        tags.push(String::from_str(titles[i]));
        i += 1;
    }
    tags
}

} // verus!
