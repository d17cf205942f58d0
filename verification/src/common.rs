//! Logic that several sources share: case mapping, reading numbers out of
//! chapter names, and reading a publication status out of a status label.

use vstd::prelude::*;
use crate::model::{listing_defaults, new_manga, Manga, MangaStatus};
use crate::text::{
    chars_of, contains, is_digit, lemma_span_is, skip_while, str_contains, string_of, take_while,
};

verus! {

// ---------------------------------------------------------------------------
// Case mapping
// ---------------------------------------------------------------------------

/// The text that `str::to_lowercase` makes of `s`.
pub uninterp spec fn lowercase(s: Seq<char>) -> Seq<char>;

/// The text that `str::to_uppercase` makes of `s`.
pub uninterp spec fn uppercase(s: Seq<char>) -> Seq<char>;

/// Calls `str::to_lowercase` (Unicode lowercase mapping).  Claims only that the
/// result is a function of the text.
#[verifier::external_body]
pub(crate) fn to_lowercase(s: &str) -> (r: String)
    ensures
        r@ == lowercase(s@),
{
    s.to_lowercase()
}

/// Calls `str::to_uppercase` (Unicode uppercase mapping).  Claims only that the
/// result is a function of the text.
#[verifier::external_body]
pub(crate) fn to_uppercase(s: &str) -> (r: String)
    ensures
        r@ == uppercase(s@),
{
    s.to_uppercase()
}

// ---------------------------------------------------------------------------
// Numbers in chapter names
// ---------------------------------------------------------------------------

/// Characters that may continue a number: digits and the decimal point.
pub open spec fn is_number_char(c: char) -> bool {
    is_digit(c) || c == '.'
}

/// The number text in `s`: from its first digit, the digits and points that follow.
pub open spec fn number_text(s: Seq<char>) -> Seq<char> {
    take_while(skip_while(s, |c: char| !is_digit(c)), |c: char| is_number_char(c))
}

/// The number text in `v[from..]`.
pub fn number_text_from(v: &Vec<char>, from: usize) -> (r: String)
    requires
        from <= v.len(),
    ensures
        r@ == number_text(v@.skip(from as int)),
{
    let ghost t = v@.skip(from as int);
    let ghost f = |c: char| !is_digit(c);
    let ghost g = |c: char| is_number_char(c);
    let mut a = from;
    while a < v.len() && !('0' <= v[a] && v[a] <= '9')
        invariant
            from <= a <= v.len(),
            forall|j: int| from <= j < a ==> !is_digit(#[trigger] v@[j]),
        decreases v.len() - a,
    {
        a = a + 1;
    }
    proof {
        assert forall|j: int| 0 <= j < a - from implies f(t[j]) by {
            assert(t[j] == v@[from + j]);
        }
        if a < v.len() {
            assert(t[a - from] == v@[a as int]);
        }
        lemma_span_is(t, f, a - from);
    }
    let mut b = a;
    while b < v.len() && (('0' <= v[b] && v[b] <= '9') || v[b] == '.')
        invariant
            a <= b <= v.len(),
            forall|j: int| a <= j < b ==> is_number_char(#[trigger] v@[j]),
        decreases v.len() - b,
    {
        b = b + 1;
    }
    proof {
        let u = t.skip(a - from);
        assert(u =~= v@.skip(a as int));
        assert forall|j: int| 0 <= j < b - a implies g(u[j]) by {
            assert(u[j] == v@[a + j]);
        }
        if b < v.len() {
            assert(u[b - a] == v@[b as int]);
        }
        lemma_span_is(u, g, b - a);
        assert(u.take(b - a) =~= v@.subrange(a as int, b as int));
    }
    string_of(v, a, b)
}

/// The number text in `s`: from its first digit, the digits and points that follow.
pub fn number_text_of(s: &str) -> (r: String)
    ensures
        r@ == number_text(s@),
{
    let v = chars_of(s);
    assert(v@.skip(0) =~= v@);
    number_text_from(&v, 0)
}

// ---------------------------------------------------------------------------
// Status labels
// ---------------------------------------------------------------------------

/// The status that a label names when read, in lower case, for `ongoing` and then
/// `completed`; a missing label names none.
pub open spec fn keyword_status(label: Option<Seq<char>>) -> MangaStatus {
    match label {
        Some(s) => if contains(lowercase(s), "ongoing"@) {
            MangaStatus::Ongoing
        } else if contains(lowercase(s), "completed"@) {
            MangaStatus::Completed
        } else {
            MangaStatus::Unknown
        },
        None => MangaStatus::Unknown,
    }
}

/// The status that a status label names: `ongoing` or `completed`, in any case.
pub fn status_from_label(label: &Option<String>) -> (r: MangaStatus)
    ensures
        r == keyword_status(label.deep_view()),
{
    match label {
        Some(s) => {
            let lower = to_lowercase(s.as_str());
            if str_contains(lower.as_str(), "ongoing") {
                MangaStatus::Ongoing
            } else if str_contains(lower.as_str(), "completed") {
                MangaStatus::Completed
            } else {
                MangaStatus::Unknown
            }
        },
        None => MangaStatus::Unknown,
    }
}

/// The text of an optional value, empty when missing (`unwrap_or_default`).
pub open spec fn text_or_empty(o: Option<String>) -> Seq<char> {
    match o {
        Some(t) => t@,
        None => Seq::empty(),
    }
}

/// The string held by `o`, or an empty string.
pub fn string_or_empty(o: Option<String>) -> (r: String)
    ensures
        r@ == text_or_empty(o),
        o matches Some(t) ==> r == t,
{
    match o {
        Some(t) => t,
        None => String::new(),
    }
}

/// A catalogue entry with a key, a title (empty when missing) and a cover.
pub fn entry(key: String, title: Option<String>, cover: Option<String>) -> (m: Manga)
    ensures
        m.key == key,
        m.title@ == text_or_empty(title),
        m.cover == cover,
        m.description is None,
        listing_defaults(m),
{
    let mut m = new_manga(key, string_or_empty(title));
    m.cover = cover;
    m
}

/// The first of a list of texts, empty when there is none.
pub open spec fn first_text(texts: Seq<String>) -> Seq<char> {
    if texts.len() == 0 {
        Seq::empty()
    } else {
        texts[0]@
    }
}

/// The first of a list of texts, empty when there is none.
pub fn first_or_empty(texts: &Vec<String>) -> (r: String)
    ensures
        r@ == first_text(texts@),
{
    if texts.len() == 0 {
        String::new()
    } else {
        texts[0].clone()
    }
}

/// `o` when it holds a value, else `fallback` (`o.or(fallback)`).
pub fn or_else_keep(o: Option<String>, fallback: Option<String>) -> (r: Option<String>)
    ensures
        r == (match o {
            Some(_) => o,
            None => fallback,
        }),
{
    match o {
        Some(v) => Some(v),
        None => fallback,
    }
}

/// `Some(s)` when `s` is not empty (`Some(s).filter(|t| !t.is_empty())`).
pub fn non_empty(s: String) -> (r: Option<String>)
    ensures
        r.deep_view() == (if s@.len() == 0 {
            None
        } else {
            Some(s@)
        }),
        r matches Some(t) ==> t == s,
{
    if s.as_str().is_empty() {
        None
    } else {
        Some(s)
    }
}

} // verus!
