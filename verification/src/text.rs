//! Character-level text handling shared by all sources.
//!
//! Strings are modelled by their view, the sequence of their characters.
//! The spec functions below describe the searching, splitting and trimming
//! operations that the sources perform on urls, page text and script bodies.

use vstd::prelude::*;

verus! {

// ---------------------------------------------------------------------------
// Searching
// ---------------------------------------------------------------------------

/// `p` occurs in `s` starting at index `i`.
pub open spec fn occurs_at(s: Seq<char>, p: Seq<char>, i: int) -> bool {
    0 <= i && i + p.len() <= s.len() && s.subrange(i, i + p.len()) == p
}

/// The leftmost index at or after `start` where `p` occurs in `s`.
pub open spec fn find_from(s: Seq<char>, p: Seq<char>, start: int) -> Option<int>
    decreases s.len() + 1 - start,
{
    if start < 0 || start + p.len() > s.len() {
        None
    } else if occurs_at(s, p, start) {
        Some(start)
    } else {
        find_from(s, p, start + 1)
    }
}

/// The leftmost index where `p` occurs in `s`.
pub open spec fn find(s: Seq<char>, p: Seq<char>) -> Option<int> {
    find_from(s, p, 0)
}

/// `p` occurs somewhere in `s`.
pub open spec fn contains(s: Seq<char>, p: Seq<char>) -> bool {
    find(s, p) is Some
}

/// `p` is a prefix of `s`.
pub open spec fn starts_with(s: Seq<char>, p: Seq<char>) -> bool {
    p.len() <= s.len() && s.take(p.len() as int) == p
}

/// `p` is a suffix of `s`.
pub open spec fn ends_with(s: Seq<char>, p: Seq<char>) -> bool {
    p.len() <= s.len() && s.skip(s.len() - p.len()) == p
}

/// `s` with the prefix `p` removed, when `s` starts with `p`.
pub open spec fn strip_prefix(s: Seq<char>, p: Seq<char>) -> Option<Seq<char>> {
    if starts_with(s, p) {
        Some(s.skip(p.len() as int))
    } else {
        None
    }
}

/// What `find_from` returns: the first occurrence at or after `start`, and no earlier one.
pub proof fn lemma_find_from(s: Seq<char>, p: Seq<char>, start: int)
    requires
        0 <= start,
    ensures
        match find_from(s, p, start) {
            Some(i) => start <= i && occurs_at(s, p, i) && forall|j: int|
                start <= j < i ==> !occurs_at(s, p, j),
            None => forall|j: int| start <= j ==> !occurs_at(s, p, j),
        },
    decreases s.len() + 1 - start,
{
    if start + p.len() > s.len() {
    } else if occurs_at(s, p, start) {
    } else {
        lemma_find_from(s, p, start + 1);
    }
}

/// An occurrence at `i` with none before it is what `find_from` returns.
pub proof fn lemma_find_from_is(s: Seq<char>, p: Seq<char>, start: int, i: int)
    requires
        0 <= start <= i,
        occurs_at(s, p, i),
        forall|j: int| start <= j < i ==> !occurs_at(s, p, j),
    ensures
        find_from(s, p, start) == Some(i),
    decreases i - start,
{
    if start < i {
        assert(!occurs_at(s, p, start));
        lemma_find_from_is(s, p, start + 1, i);
    }
}

/// With no occurrence at or after `start`, `find_from` returns nothing.
pub proof fn lemma_find_from_none(s: Seq<char>, p: Seq<char>, start: int)
    requires
        0 <= start,
        forall|j: int| start <= j ==> !occurs_at(s, p, j),
    ensures
        find_from(s, p, start) is None,
    decreases s.len() + 1 - start,
{
    if start + p.len() <= s.len() {
        assert(!occurs_at(s, p, start));
        lemma_find_from_none(s, p, start + 1);
    }
}

/// Occurrences in a suffix of `s` are occurrences in `s`, shifted.
pub proof fn lemma_occurs_skip(s: Seq<char>, p: Seq<char>, k: int, j: int)
    requires
        0 <= k <= s.len(),
        0 <= j,
    ensures
        occurs_at(s.skip(k), p, j) == occurs_at(s, p, k + j),
{
    if j + p.len() <= s.skip(k).len() {
        assert(s.skip(k).subrange(j, j + p.len()) =~= s.subrange(k + j, k + j + p.len()));
    }
}

/// Searching a suffix of `s` is searching `s` from the suffix's start.
pub proof fn lemma_find_skip(s: Seq<char>, p: Seq<char>, k: int)
    requires
        0 <= k <= s.len(),
    ensures
        find(s.skip(k), p) == (match find_from(s, p, k) {
            Some(i) => Some(i - k),
            None => None,
        }),
{
    let t = s.skip(k);
    lemma_find_from(s, p, k);
    lemma_find_from(t, p, 0);
    assert forall|j: int| 0 <= j implies occurs_at(t, p, j) == occurs_at(s, p, k + j) by {
        lemma_occurs_skip(s, p, k, j);
    }
    match find_from(s, p, k) {
        Some(i) => {
            assert forall|j: int| 0 <= j < i - k implies !occurs_at(t, p, j) by {
                assert(!occurs_at(s, p, k + j));
            }
            assert(occurs_at(t, p, i - k));
            lemma_find_from_is(t, p, 0, i - k);
        },
        None => {
            assert forall|j: int| 0 <= j implies !occurs_at(t, p, j) by {
                assert(!occurs_at(s, p, k + j));
            }
            lemma_find_from_none(t, p, 0);
        },
    }
}

/// Searching across a stretch with no occurrence finds what searching after it finds.
pub proof fn lemma_find_from_gap(s: Seq<char>, p: Seq<char>, a: int, b: int)
    requires
        0 <= a <= b,
        forall|j: int| a <= j < b ==> !occurs_at(s, p, j),
    ensures
        find_from(s, p, a) == find_from(s, p, b),
    decreases b - a,
{
    if a < b {
        if a + p.len() <= s.len() {
            assert(!occurs_at(s, p, a));
            lemma_find_from_gap(s, p, a + 1, b);
        } else {
            lemma_find_from(s, p, b);
            assert(find_from(s, p, b) is None);
        }
    }
}

/// Text in front of `s` in which no occurrence of `p` starts leaves the pieces of
/// `s` split on `p` as they were: the second piece is the same.
pub proof fn lemma_second_piece_prefix(pre: Seq<char>, s: Seq<char>, p: Seq<char>)
    requires
        forall|j: int| 0 <= j < pre.len() ==> !occurs_at(pre + s, p, j),
    ensures
        second_piece(pre + s, p) == second_piece(s, p),
{
    let t = pre + s;
    let k = pre.len() as int;
    lemma_find_from_gap(t, p, 0, k);
    lemma_find_skip(t, p, k);
    assert(t.skip(k) =~= s);
    lemma_find_from(s, p, 0);
    match find(s, p) {
        Some(i) => {
            assert(find(t.skip(k), p) == Some(i));
            assert(find_from(t, p, k) is Some);
            assert(find(t, p) == Some(i + k));
            assert(t.skip(i + k + p.len()) =~= s.skip(i + p.len()));
        },
        None => {},
    }
}

/// One differing character rules an occurrence out.
pub proof fn lemma_not_occurs(s: Seq<char>, p: Seq<char>, j: int, k: int)
    requires
        0 <= k < p.len(),
        0 <= j + k < s.len(),
        s[j + k] != p[k],
    ensures
        !occurs_at(s, p, j),
{
    if occurs_at(s, p, j) {
        assert(s.subrange(j, j + p.len())[k] == s[j + k]);
    }
}

/// Text without the first character of `p` holds no occurrence of `p`.
pub proof fn lemma_find_absent_first(s: Seq<char>, p: Seq<char>)
    requires
        p.len() > 0,
        forall|j: int| 0 <= j < s.len() ==> s[j] != p[0],
    ensures
        find(s, p) is None,
{
    assert forall|j: int| 0 <= j implies !occurs_at(s, p, j) by {
        if j < s.len() {
            lemma_not_occurs(s, p, j, 0);
        }
    }
    lemma_find_from_none(s, p, 0);
}

/// The first occurrence of a one-character separator is its first position.
pub proof fn lemma_find_char(s: Seq<char>, c: char, i: int)
    requires
        0 <= i < s.len(),
        s[i] == c,
        forall|j: int| 0 <= j < i ==> s[j] != c,
    ensures
        find(s, seq![c]) == Some(i),
{
    assert(s.subrange(i, i + 1) =~= seq![c]);
    assert forall|j: int| 0 <= j < i implies !occurs_at(s, seq![c], j) by {
        lemma_not_occurs(s, seq![c], j, 0);
    }
    lemma_find_from_is(s, seq![c], 0, i);
}

// ---------------------------------------------------------------------------
// Splitting
// ---------------------------------------------------------------------------

/// The first piece of `s` split on `p` (what `split(p).next()` yields).
pub open spec fn head(s: Seq<char>, p: Seq<char>) -> Seq<char> {
    match find(s, p) {
        Some(i) => s.take(i),
        None => s,
    }
}

/// Everything after the first occurrence of `p` in `s`.
pub open spec fn after_first(s: Seq<char>, p: Seq<char>) -> Option<Seq<char>> {
    match find(s, p) {
        Some(i) => Some(s.skip(i + p.len())),
        None => None,
    }
}

/// The second piece of `s` split on `p` (what `split(p).nth(1)` yields).
pub open spec fn second_piece(s: Seq<char>, p: Seq<char>) -> Option<Seq<char>> {
    match after_first(s, p) {
        Some(rest) => Some(head(rest, p)),
        None => None,
    }
}

/// All pieces of `s` split on the non-empty separator `p`, in order.
pub open spec fn split(s: Seq<char>, p: Seq<char>) -> Seq<Seq<char>>
    decreases s.len(),
{
    if p.len() == 0 {
        seq![s]
    } else {
        match find(s, p) {
            Some(i) => {
                if 0 <= i && i + p.len() <= s.len() {
                    seq![s.take(i)] + split(s.skip(i + p.len()), p)
                } else {
                    seq![s]
                }
            },
            None => seq![s],
        }
    }
}

/// The last piece of `s` split on `p` (what `split(p).last()` yields).
pub open spec fn last_piece(s: Seq<char>, p: Seq<char>) -> Seq<char> {
    split(s, p).last()
}

/// `s` with every occurrence of the non-empty `p` replaced by `w`.
pub open spec fn replace(s: Seq<char>, p: Seq<char>, w: Seq<char>) -> Seq<char>
    decreases s.len(),
{
    if p.len() == 0 {
        s
    } else {
        match find(s, p) {
            Some(i) => {
                if 0 <= i && i + p.len() <= s.len() {
                    s.take(i) + w + replace(s.skip(i + p.len()), p, w)
                } else {
                    s
                }
            },
            None => s,
        }
    }
}

/// `s` with every character `c` replaced by `w`.
pub open spec fn replace_char(s: Seq<char>, c: char, w: Seq<char>) -> Seq<char>
    decreases s.len(),
{
    if s.len() == 0 {
        s
    } else {
        replace_char(s.drop_last(), c, w) + (if s.last() == c {
            w
        } else {
            seq![s.last()]
        })
    }
}

/// The pieces of `list` joined by `sep`.
pub open spec fn join(list: Seq<Seq<char>>, sep: Seq<char>) -> Seq<char>
    decreases list.len(),
{
    if list.len() == 0 {
        Seq::empty()
    } else if list.len() == 1 {
        list[0]
    } else {
        join(list.drop_last(), sep) + sep + list.last()
    }
}

// ---------------------------------------------------------------------------
// Character classes and trimming
// ---------------------------------------------------------------------------

/// The characters with the Unicode `White_Space` property (what `char::is_whitespace` tests).
pub open spec fn is_white_space(c: char) -> bool {
    ||| ('\u{9}' <= c && c <= '\u{d}')
    ||| c == ' '
    ||| c == '\u{85}'
    ||| c == '\u{a0}'
    ||| c == '\u{1680}'
    ||| ('\u{2000}' <= c && c <= '\u{200a}')
    ||| c == '\u{2028}'
    ||| c == '\u{2029}'
    ||| c == '\u{202f}'
    ||| c == '\u{205f}'
    ||| c == '\u{3000}'
}

/// An ASCII decimal digit.
pub open spec fn is_digit(c: char) -> bool {
    '0' <= c && c <= '9'
}

/// `s` without its leading white space.
pub open spec fn trim_start(s: Seq<char>) -> Seq<char>
    decreases s.len(),
{
    if s.len() > 0 && is_white_space(s[0]) {
        trim_start(s.drop_first())
    } else {
        s
    }
}

/// `s` without its trailing white space.
pub open spec fn trim_end(s: Seq<char>) -> Seq<char>
    decreases s.len(),
{
    if s.len() > 0 && is_white_space(s.last()) {
        trim_end(s.drop_last())
    } else {
        s
    }
}

/// `s` without leading and trailing white space (what `str::trim` yields).
pub open spec fn trim(s: Seq<char>) -> Seq<char> {
    trim_end(trim_start(s))
}

/// The number of leading characters of `s` that satisfy `f`.
pub open spec fn span(s: Seq<char>, f: spec_fn(char) -> bool) -> nat
    decreases s.len(),
{
    if s.len() > 0 && f(s[0]) {
        1 + span(s.drop_first(), f)
    } else {
        0
    }
}

/// The longest prefix of `s` whose characters satisfy `f` (what `take_while` yields).
pub open spec fn take_while(s: Seq<char>, f: spec_fn(char) -> bool) -> Seq<char> {
    s.take(span(s, f) as int)
}

/// `s` without its longest prefix whose characters satisfy `f`
/// (what `skip_while` and `trim_start_matches` yield).
pub open spec fn skip_while(s: Seq<char>, f: spec_fn(char) -> bool) -> Seq<char> {
    s.skip(span(s, f) as int)
}

/// What `span` counts: a prefix of characters satisfying `f`, ended by one that does not.
pub proof fn lemma_span(s: Seq<char>, f: spec_fn(char) -> bool)
    ensures
        span(s, f) <= s.len(),
        forall|j: int| 0 <= j < span(s, f) ==> f(s[j]),
        span(s, f) < s.len() ==> !f(s[span(s, f) as int]),
    decreases s.len(),
{
    if s.len() > 0 && f(s[0]) {
        lemma_span(s.drop_first(), f);
        assert forall|j: int| 0 <= j < span(s, f) implies f(s[j]) by {
            if j > 0 {
                assert(s[j] == s.drop_first()[j - 1]);
            }
        }
    }
}

/// A prefix of characters satisfying `f`, ended by one that does not, is what `span` counts.
pub proof fn lemma_span_is(s: Seq<char>, f: spec_fn(char) -> bool, n: int)
    requires
        0 <= n <= s.len(),
        forall|j: int| 0 <= j < n ==> f(s[j]),
        n < s.len() ==> !f(s[n]),
    ensures
        span(s, f) == n,
    decreases n,
{
    if n > 0 {
        assert forall|j: int| 0 <= j < n - 1 implies f(s.drop_first()[j]) by {
            assert(f(s[j + 1]));
        }
        if n - 1 < s.drop_first().len() {
            assert(s.drop_first()[n - 1] == s[n]);
        }
        lemma_span_is(s.drop_first(), f, n - 1);
    }
}

/// Trimming the start drops exactly the leading white space.
pub proof fn lemma_trim_start(s: Seq<char>)
    ensures
        trim_start(s) == skip_while(s, |c: char| is_white_space(c)),
    decreases s.len(),
{
    let f = |c: char| is_white_space(c);
    if s.len() > 0 && is_white_space(s[0]) {
        lemma_trim_start(s.drop_first());
        assert(f(s[0]));
        assert(span(s, f) == 1 + span(s.drop_first(), f));
        lemma_span(s.drop_first(), f);
        assert(s.drop_first().skip(span(s.drop_first(), f) as int) =~= s.skip(
            span(s, f) as int,
        ));
    } else {
        assert(s.skip(0) =~= s);
    }
}

/// Trimming the end drops exactly the trailing white space: `trim_end(s)` is the
/// prefix of `s` of length `n` whenever the characters from `n` on are white space
/// and the one before is not.
pub proof fn lemma_trim_end_is(s: Seq<char>, n: int)
    requires
        0 <= n <= s.len(),
        forall|j: int| n <= j < s.len() ==> is_white_space(s[j]),
        n > 0 ==> !is_white_space(s[n - 1]),
    ensures
        trim_end(s) == s.take(n),
    decreases s.len(),
{
    if s.len() > n {
        assert(is_white_space(s.last()));
        assert forall|j: int| n <= j < s.drop_last().len() implies is_white_space(
            s.drop_last()[j],
        ) by {
            assert(s.drop_last()[j] == s[j]);
        }
        if n > 0 {
            assert(s.drop_last()[n - 1] == s[n - 1]);
        }
        lemma_trim_end_is(s.drop_last(), n);
        assert(s.drop_last().take(n) =~= s.take(n));
    } else {
        assert(s.take(n) =~= s);
        if n > 0 {
            assert(s.last() == s[n - 1]);
        }
    }
}

// ---------------------------------------------------------------------------
// Decimal numbers
// ---------------------------------------------------------------------------

/// The ASCII digit for `d`, which lies in `0..10`.
pub open spec fn digit_char(d: int) -> char {
    ((d + 48) as u32) as char
}

/// The decimal digits of the natural number `n`, without leading zeros.
pub open spec fn digits(n: nat) -> Seq<char>
    decreases n,
{
    if n < 10 {
        seq![digit_char(n as int)]
    } else {
        digits(n / 10).push(digit_char((n % 10) as int))
    }
}

/// The decimal text of `n`, with a leading `-` when negative (what `Display` writes).
pub open spec fn decimal(n: int) -> Seq<char> {
    if n < 0 {
        seq!['-'] + digits((-n) as nat)
    } else {
        digits(n as nat)
    }
}

// ---------------------------------------------------------------------------
// Executable building blocks
// ---------------------------------------------------------------------------

/// Appends one character to a string (`String::push`).
#[verifier::external_body]
pub(crate) fn push_char(s: &mut String, c: char)
    ensures
        final(s)@ == old(s)@.push(c),
{
    s.push(c);
}

/// The characters of a string slice, in order.
pub fn chars_of(s: &str) -> (v: Vec<char>)
    ensures
        v@ == s@,
{
    let mut v: Vec<char> = Vec::new();
    for c in it: s.chars()
        invariant
            v@ == it.seq().take(it.index() as int),
            it.seq() == s@,
    {
        v.push(c);
    }
    v
}

/// The string made of the characters `v[from..to]`.
pub fn string_of(v: &Vec<char>, from: usize, to: usize) -> (r: String)
    requires
        from <= to <= v.len(),
    ensures
        r@ == v@.subrange(from as int, to as int),
{
    let mut r = String::new();
    let mut i = from;
    while i < to
        invariant
            from <= i <= to <= v.len(),
            r@ == v@.subrange(from as int, i as int),
        decreases to - i,
    {
        push_char(&mut r, v[i]);
        assert(v@.subrange(from as int, i + 1) =~= v@.subrange(from as int, i as int).push(v@[i as int]));
        i = i + 1;
    }
    r
}

/// The string made of all the characters of `v`.
pub fn string_of_all(v: &Vec<char>) -> (r: String)
    ensures
        r@ == v@,
{
    let r = string_of(v, 0, v.len());
    assert(v@.subrange(0, v@.len() as int) =~= v@);
    r
}

/// Whether `p` occurs in `s` at index `i`.
pub fn occurs_at_exec(s: &Vec<char>, p: &Vec<char>, i: usize) -> (b: bool)
    ensures
        b == occurs_at(s@, p@, i as int),
{
    if i > s.len() || p.len() > s.len() - i {
        return false;
    }
    let mut k: usize = 0;
    while k < p.len()
        invariant
            i + p.len() <= s.len(),
            k <= p.len(),
            forall|j: int| 0 <= j < k ==> s@[i + j] == p@[j],
        decreases p.len() - k,
    {
        if s[i + k] != p[k] {
            assert(s@.subrange(i as int, i + p.len())[k as int] != p@[k as int]);
            return false;
        }
        k = k + 1;
    }
    assert(s@.subrange(i as int, i + p.len()) =~= p@);
    true
}

/// The leftmost index at or after `start` where `p` occurs in `s`.
pub fn find_from_exec(s: &Vec<char>, p: &Vec<char>, start: usize) -> (r: Option<usize>)
    ensures
        r matches Some(i) ==> find_from(s@, p@, start as int) == Some(i as int),
        r is None ==> find_from(s@, p@, start as int) is None,
{
    if p.len() > s.len() || start > s.len() - p.len() {
        return None;
    }
    if p.len() == 0 {
        assert(s@.subrange(start as int, start as int) =~= p@);
        return Some(start);
    }
    let mut i = start;
    while i <= s.len() - p.len()
        invariant
            1 <= p.len() <= s.len(),
            start <= i,
            find_from(s@, p@, start as int) == find_from(s@, p@, i as int),
        decreases s.len() - i,
    {
        if occurs_at_exec(s, p, i) {
            return Some(i);
        }
        i = i + 1;
    }
    None
}

/// Whether `s` starts with `p`.
pub fn starts_with_exec(s: &Vec<char>, p: &Vec<char>) -> (b: bool)
    ensures
        b == starts_with(s@, p@),
{
    let b = occurs_at_exec(s, p, 0);
    if p.len() <= s.len() {
        assert(s@.subrange(0, p@.len() as int) =~= s@.take(p@.len() as int));
    }
    b
}

/// Whether `s` ends with `p`.
pub fn ends_with_exec(s: &Vec<char>, p: &Vec<char>) -> (b: bool)
    ensures
        b == ends_with(s@, p@),
{
    if p.len() > s.len() {
        return false;
    }
    let b = occurs_at_exec(s, p, s.len() - p.len());
    assert(s@.subrange(s@.len() - p@.len(), s@.len() as int) =~= s@.skip(s@.len() - p@.len()));
    b
}

/// Whether `p` occurs in `s`.
pub fn contains_exec(s: &Vec<char>, p: &Vec<char>) -> (b: bool)
    ensures
        b == contains(s@, p@),
{
    find_from_exec(s, p, 0).is_some()
}

/// Whether the text `s` contains the text `p`.
pub fn str_contains(s: &str, p: &str) -> (b: bool)
    ensures
        b == contains(s@, p@),
{
    contains_exec(&chars_of(s), &chars_of(p))
}

/// Whether the text `s` starts with the text `p`.
pub fn str_starts_with(s: &str, p: &str) -> (b: bool)
    ensures
        b == starts_with(s@, p@),
{
    starts_with_exec(&chars_of(s), &chars_of(p))
}

/// Whether the text `s` ends with the text `p`.
pub fn str_ends_with(s: &str, p: &str) -> (b: bool)
    ensures
        b == ends_with(s@, p@),
{
    ends_with_exec(&chars_of(s), &chars_of(p))
}

/// The text `s` with the prefix `p` removed, when it starts with `p`.
pub fn str_strip_prefix(s: &str, p: &str) -> (r: Option<String>)
    ensures
        r.deep_view() == strip_prefix(s@, p@),
{
    let sv = chars_of(s);
    let pv = chars_of(p);
    if starts_with_exec(&sv, &pv) {
        let r = string_of(&sv, pv.len(), sv.len());
        assert(sv@.subrange(pv@.len() as int, sv@.len() as int) =~= sv@.skip(pv@.len() as int));
        Some(r)
    } else {
        None
    }
}

/// The end of the first piece of `s[from..]` split on `p`, and whether a separator follows it.
pub fn piece_end(s: &Vec<char>, p: &Vec<char>, from: usize) -> (r: (usize, bool))
    requires
        from <= s.len(),
    ensures
        from <= r.0 <= s.len(),
        s@.subrange(from as int, r.0 as int) == head(s@.skip(from as int), p@),
        r.1 == (find(s@.skip(from as int), p@) is Some),
        r.1 ==> r.0 + p.len() <= s.len() && find(s@.skip(from as int), p@) == Some(
            r.0 - from,
        ),
{
    proof {
        lemma_find_skip(s@, p@, from as int);
        lemma_find_from(s@, p@, from as int);
    }
    match find_from_exec(s, p, from) {
        Some(i) => {
            assert(s@.subrange(from as int, i as int) =~= s@.skip(from as int).take(
                i - from,
            ));
            (i, true)
        },
        None => {
            assert(s@.subrange(from as int, s@.len() as int) =~= s@.skip(from as int));
            (s.len(), false)
        },
    }
}

/// The first piece of `s` split on `p` (`s.split(p).next()`).
pub fn head_str(s: &str, p: &str) -> (r: String)
    ensures
        r@ == head(s@, p@),
{
    let sv = chars_of(s);
    let pv = chars_of(p);
    let (e, _) = piece_end(&sv, &pv, 0);
    assert(sv@.skip(0) =~= sv@);
    string_of(&sv, 0, e)
}

/// The second piece of `s` split on `p` (`s.split(p).nth(1)`).
pub fn second_piece_str(s: &str, p: &str) -> (r: Option<String>)
    ensures
        r.deep_view() == second_piece(s@, p@),
{
    let sv = chars_of(s);
    let pv = chars_of(p);
    proof {
        lemma_find_from(sv@, pv@, 0);
    }
    match find_from_exec(&sv, &pv, 0) {
        Some(i) => {
            assert(occurs_at(sv@, pv@, i as int));
            assert(i + pv.len() <= sv.len());
            let k = i + pv.len();
            let (e, _) = piece_end(&sv, &pv, k);
            Some(string_of(&sv, k, e))
        },
        None => None,
    }
}

/// Everything after the first `p` in `s`.
pub fn after_first_str(s: &str, p: &str) -> (r: Option<String>)
    ensures
        r.deep_view() == after_first(s@, p@),
{
    let sv = chars_of(s);
    let pv = chars_of(p);
    proof {
        lemma_find_from(sv@, pv@, 0);
    }
    match find_from_exec(&sv, &pv, 0) {
        Some(i) => {
            assert(occurs_at(sv@, pv@, i as int));
            assert(i + pv.len() <= sv.len());
            let k = i + pv.len();
            assert(sv@.subrange(k as int, sv@.len() as int) =~= sv@.skip(k as int));
            Some(string_of(&sv, k, sv.len()))
        },
        None => None,
    }
}

/// Splitting a suffix: the pieces of `s[pos..]` are its first piece followed by the
/// pieces after the separator that ends it.
proof fn lemma_split_step(s: Seq<char>, p: Seq<char>, pos: int, j: int)
    requires
        p.len() > 0,
        0 <= pos <= j,
        j + p.len() <= s.len(),
        find(s.skip(pos), p) == Some(j - pos),
    ensures
        split(s.skip(pos), p) == seq![s.subrange(pos, j)] + split(s.skip(j + p.len()), p),
{
    assert(s.skip(pos).take(j - pos) =~= s.subrange(pos, j));
    assert(s.skip(pos).skip(j - pos + p.len()) =~= s.skip(j + p.len()));
}

/// The characters `v[from..to]`.
pub fn sub_chars(v: &Vec<char>, from: usize, to: usize) -> (r: Vec<char>)
    requires
        from <= to <= v.len(),
    ensures
        r@ == v@.subrange(from as int, to as int),
{
    let mut r: Vec<char> = Vec::new();
    let mut i = from;
    while i < to
        invariant
            from <= i <= to <= v.len(),
            r@ == v@.subrange(from as int, i as int),
        decreases to - i,
    {
        r.push(v[i]);
        assert(v@.subrange(from as int, i + 1) =~= v@.subrange(from as int, i as int).push(v@[i as int]));
        i = i + 1;
    }
    r
}

/// All pieces of `sv` split on `pv`.
pub fn split_chars(sv: &Vec<char>, pv: &Vec<char>) -> (r: Vec<String>)
    ensures
        r.deep_view() == split(sv@, pv@),
{
    let mut r: Vec<String> = Vec::new();
    if pv.len() == 0 {
        r.push(string_of_all(sv));
        assert(r.deep_view() =~= seq![sv@]);
        return r;
    }
    let mut pos: usize = 0;
    assert(sv@.skip(0) =~= sv@);
    loop
        invariant
            pv.len() > 0,
            pos <= sv.len(),
            r.deep_view() + split(sv@.skip(pos as int), pv@) == split(sv@, pv@),
        decreases sv.len() - pos,
    {
        let (e, more) = piece_end(sv, pv, pos);
        let piece = string_of(sv, pos, e);
        let ghost before = r.deep_view();
        r.push(piece);
        assert(r.deep_view() =~= before.push(sv@.subrange(pos as int, e as int)));
        if more {
            proof {
                lemma_split_step(sv@, pv@, pos as int, e as int);
                assert(r.deep_view() + split(sv@.skip(e + pv.len()), pv@) =~= before + split(
                    sv@.skip(pos as int),
                    pv@,
                ));
            }
            pos = e + pv.len();
        } else {
            assert(split(sv@.skip(pos as int), pv@) == seq![sv@.skip(pos as int)]);
            assert(sv@.subrange(pos as int, e as int) =~= sv@.skip(pos as int));
            assert(r.deep_view() =~= before + split(sv@.skip(pos as int), pv@));
            return r;
        }
    }
}

/// All pieces of `s` split on `p` (`s.split(p)`).
pub fn split_str(s: &str, p: &str) -> (r: Vec<String>)
    ensures
        r.deep_view() == split(s@, p@),
{
    split_chars(&chars_of(s), &chars_of(p))
}

/// Splitting always yields at least one piece.
pub proof fn lemma_split_nonempty(s: Seq<char>, p: Seq<char>)
    ensures
        split(s, p).len() >= 1,
    decreases s.len(),
{
}

/// The last piece of `s` split on `p` (`s.split(p).last()`).
pub fn last_piece_str(s: &str, p: &str) -> (r: String)
    ensures
        r@ == last_piece(s@, p@),
{
    let sv = chars_of(s);
    let pv = chars_of(p);
    if pv.len() == 0 {
        return string_of_all(&sv);
    }
    let mut pos: usize = 0;
    assert(sv@.skip(0) =~= sv@);
    loop
        invariant
            pv.len() > 0,
            pos <= sv.len(),
            sv@ == s@,
            pv@ == p@,
            split(sv@.skip(pos as int), pv@).last() == split(sv@, pv@).last(),
        decreases sv.len() - pos,
    {
        let (e, more) = piece_end(&sv, &pv, pos);
        if more {
            proof {
                lemma_split_step(sv@, pv@, pos as int, e as int);
                lemma_split_nonempty(sv@.skip(e + pv.len()), pv@);
                let rest = split(sv@.skip(e + pv.len()), pv@);
                assert((seq![sv@.subrange(pos as int, e as int)] + rest).last() == rest.last());
            }
            pos = e + pv.len();
        } else {
            assert(split(sv@.skip(pos as int), pv@) == seq![sv@.skip(pos as int)]);
            assert(sv@.subrange(pos as int, sv@.len() as int) =~= sv@.skip(pos as int));
            return string_of(&sv, pos, sv.len());
        }
    }
}

/// `s` with every `p` replaced by `w` (`s.replace(p, w)`).
pub fn replace_str(s: &str, p: &str, w: &str) -> (r: String)
    ensures
        r@ == replace(s@, p@, w@),
{
    let sv = chars_of(s);
    let pv = chars_of(p);
    if pv.len() == 0 {
        return string_of_all(&sv);
    }
    let mut r = String::new();
    let mut pos: usize = 0;
    assert(sv@.skip(0) =~= sv@);
    loop
        invariant
            pv.len() > 0,
            pos <= sv.len(),
            sv@ == s@,
            pv@ == p@,
            r@ + replace(sv@.skip(pos as int), pv@, w@) == replace(sv@, pv@, w@),
        decreases sv.len() - pos,
    {
        let (e, more) = piece_end(&sv, &pv, pos);
        let piece = string_of(&sv, pos, e);
        let ghost before = r@;
        r.append(piece.as_str());
        if more {
            proof {
                let t = sv@.skip(pos as int);
                assert(t.take(e - pos) =~= sv@.subrange(pos as int, e as int));
                assert(t.skip(e - pos + pv@.len()) =~= sv@.skip(e + pv.len()));
                assert(replace(t, pv@, w@) == sv@.subrange(pos as int, e as int) + w@ + replace(
                    sv@.skip(e + pv.len()),
                    pv@,
                    w@,
                ));
            }
            r.append(w);
            assert(r@ + replace(sv@.skip(e + pv.len()), pv@, w@) =~= before + replace(
                sv@.skip(pos as int),
                pv@,
                w@,
            ));
            pos = e + pv.len();
        } else {
            assert(sv@.subrange(pos as int, e as int) =~= sv@.skip(pos as int));
            assert(r@ =~= before + replace(sv@.skip(pos as int), pv@, w@));
            return r;
        }
    }
}

/// `s` with every character `c` replaced by `w` (`s.replace(c, w)`).
pub fn replace_char_str(s: &str, c: char, w: &str) -> (r: String)
    ensures
        r@ == replace_char(s@, c, w@),
{
    let sv = chars_of(s);
    let mut r = String::new();
    let mut i: usize = 0;
    assert(sv@.take(0) =~= Seq::<char>::empty());
    while i < sv.len()
        invariant
            i <= sv.len(),
            r@ == replace_char(sv@.take(i as int), c, w@),
        decreases sv.len() - i,
    {
        assert(sv@.take(i + 1).drop_last() =~= sv@.take(i as int));
        if sv[i] == c {
            r.append(w);
        } else {
            push_char(&mut r, sv[i]);
            assert(r@ =~= replace_char(sv@.take(i + 1), c, w@));
        }
        i = i + 1;
    }
    assert(sv@.take(sv@.len() as int) =~= sv@);
    r
}

/// The strings of `list` joined by `sep` (`list.join(sep)`).
pub fn join_str(list: &Vec<String>, sep: &str) -> (r: String)
    ensures
        r@ == join(list.deep_view(), sep@),
{
    let mut r = String::new();
    let mut i: usize = 0;
    assert(list.deep_view().take(0) =~= Seq::<Seq<char>>::empty());
    while i < list.len()
        invariant
            i <= list.len(),
            r@ == join(list.deep_view().take(i as int), sep@),
        decreases list.len() - i,
    {
        assert(list.deep_view().take(i + 1).drop_last() =~= list.deep_view().take(i as int));
        if i == 0 {
            r.append(list[i].as_str());
            assert(r@ =~= join(list.deep_view().take(i + 1), sep@));
        } else {
            r.append(sep);
            r.append(list[i].as_str());
        }
        i = i + 1;
    }
    assert(list.deep_view().take(list.len() as int) =~= list.deep_view());
    r
}

/// Whether `c` is white space (`char::is_whitespace`).
pub fn is_white_space_exec(c: char) -> (b: bool)
    ensures
        b == is_white_space(c),
{
    ('\u{9}' <= c && c <= '\u{d}') || c == ' ' || c == '\u{85}' || c == '\u{a0}' || c
        == '\u{1680}' || ('\u{2000}' <= c && c <= '\u{200a}') || c == '\u{2028}' || c
        == '\u{2029}' || c == '\u{202f}' || c == '\u{205f}' || c == '\u{3000}'
}

/// The bounds of `v` without its leading and trailing white space.
pub fn trim_bounds(v: &Vec<char>) -> (r: (usize, usize))
    ensures
        r.0 <= r.1 <= v.len(),
        v@.subrange(r.0 as int, r.1 as int) == trim(v@),
{
    let mut a: usize = 0;
    while a < v.len() && is_white_space_exec(v[a])
        invariant
            a <= v.len(),
            forall|j: int| 0 <= j < a ==> is_white_space(v@[j]),
        decreases v.len() - a,
    {
        a = a + 1;
    }
    let ghost f = |c: char| is_white_space(c);
    proof {
        lemma_span_is(v@, f, a as int);
        lemma_trim_start(v@);
    }
    let mut b: usize = v.len();
    while b > a && is_white_space_exec(v[b - 1])
        invariant
            a <= b <= v.len(),
            forall|j: int| b <= j < v.len() ==> is_white_space(v@[j]),
        decreases b,
    {
        b = b - 1;
    }
    proof {
        let t = v@.skip(a as int);
        assert forall|j: int| b - a <= j < t.len() implies is_white_space(t[j]) by {
            assert(t[j] == v@[a + j]);
        }
        if b > a {
            assert(t[b - a - 1] == v@[b - 1]);
        }
        lemma_trim_end_is(t, b - a);
        assert(t.take(b - a) =~= v@.subrange(a as int, b as int));
    }
    (a, b)
}

/// `s` without leading and trailing white space (`s.trim()`).
pub fn trim_str(s: &str) -> (r: String)
    ensures
        r@ == trim(s@),
{
    let v = chars_of(s);
    let (a, b) = trim_bounds(&v);
    string_of(&v, a, b)
}

/// `url` without the first of the two site addresses `a` and `b` that it starts with.
pub open spec fn strip_either(url: Seq<char>, a: Seq<char>, b: Seq<char>) -> Seq<char> {
    match strip_prefix(url, a) {
        Some(rest) => rest,
        None => match strip_prefix(url, b) {
            Some(rest) => rest,
            None => url,
        },
    }
}

/// `url` without the first of the site addresses `a` and `b` that it starts with
/// (`url.strip_prefix(a).or_else(|| url.strip_prefix(b)).unwrap_or(url)`).
pub fn strip_either_str(url: &str, a: &str, b: &str) -> (r: String)
    ensures
        r@ == strip_either(url@, a@, b@),
{
    match str_strip_prefix(url, a) {
        Some(rest) => rest,
        None => match str_strip_prefix(url, b) {
            Some(rest) => rest,
            None => String::from_str(url),
        },
    }
}

/// A url with a site address in front of a path: stripping the address gives the path back.
pub proof fn lemma_strip_prefix_concat(a: Seq<char>, path: Seq<char>)
    ensures
        strip_prefix(a + path, a) == Some(path),
{
    assert((a + path).take(a.len() as int) =~= a);
    assert((a + path).skip(a.len() as int) =~= path);
}

/// A path followed by more text starts with whatever the path starts with.
pub proof fn lemma_starts_with_concat(s: Seq<char>, t: Seq<char>, p: Seq<char>)
    requires
        starts_with(s, p),
    ensures
        starts_with(s + t, p),
{
    assert((s + t).take(p.len() as int) =~= s.take(p.len() as int));
}

/// Whether two texts are the same.
pub fn str_equals(a: &str, b: &str) -> (r: bool)
    ensures
        r == (a@ == b@),
{
    let av = chars_of(a);
    let bv = chars_of(b);
    if av.len() != bv.len() {
        return false;
    }
    let r = starts_with_exec(&av, &bv);
    assert(av@.take(av@.len() as int) =~= av@);
    r
}

/// The decimal text of `n`.
pub fn decimal_string(n: i64) -> (r: String)
    ensures
        r@ == decimal(n as int),
{
    let neg = n < 0;
    // Work with the magnitude as an unsigned number so that `i64::MIN` fits.
    let mut m: u64 = if neg {
        if n == i64::MIN {
            9223372036854775808u64
        } else {
            (-n) as u64
        }
    } else {
        n as u64
    };
    let ghost mag: nat = m as nat;
    // Collect the digits from least to most significant.
    let mut rev: Vec<char> = Vec::new();
    assert(rev@.reverse() =~= Seq::<char>::empty());
    assert(digits(mag) =~= digits(m as nat) + rev@.reverse());
    while m >= 10
        invariant
            digits(mag) == digits(m as nat) + rev@.reverse(),
        decreases m,
    {
        let ghost old_rev = rev@;
        let ghost old_m = m as nat;
        rev.push(char_from_digit((m % 10) as u32));
        m = m / 10;
        proof {
            assert(rev@.reverse() =~= seq![digit_char((old_m % 10) as int)] + old_rev.reverse());
            assert(digits(old_m) == digits(old_m / 10).push(digit_char((old_m % 10) as int)));
            assert(digits(mag) =~= digits(m as nat) + rev@.reverse());
        }
    }
    let ghost old_rev = rev@;
    rev.push(char_from_digit(m as u32));
    assert(rev@.reverse() =~= seq![digit_char(m as int)] + old_rev.reverse());
    assert(digits(m as nat) == seq![digit_char(m as int)]);
    assert(digits(mag) =~= rev@.reverse());
    let mut r = String::new();
    if neg {
        push_char(&mut r, '-');
    }
    let ghost prefix = r@;
    let mut i = rev.len();
    while i > 0
        invariant
            i <= rev@.len(),
            r@ == prefix + rev@.subrange(i as int, rev@.len() as int).reverse(),
        decreases i,
    {
        i = i - 1;
        let ghost before = r@;
        push_char(&mut r, rev[i]);
        assert(rev@.subrange(i as int, rev@.len() as int).reverse() =~= rev@.subrange(
            i + 1,
            rev@.len() as int,
        ).reverse().push(rev@[i as int]));
    }
    assert(rev@.subrange(0, rev@.len() as int) =~= rev@);
    r
}

/// The ASCII digit character for `d < 10`.
fn char_from_digit(d: u32) -> (c: char)
    requires
        d < 10,
    ensures
        c == digit_char(d as int),
{
    if d == 0 {
        '0'
    } else if d == 1 {
        '1'
    } else if d == 2 {
        '2'
    } else if d == 3 {
        '3'
    } else if d == 4 {
        '4'
    } else if d == 5 {
        '5'
    } else if d == 6 {
        '6'
    } else if d == 7 {
        '7'
    } else if d == 8 {
        '8'
    } else {
        '9'
    }
}

} // verus!
