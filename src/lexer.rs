//! Lexical layer: character classes, runs of characters, line ends,
//! identifiers, symbols and keywords, stated over the source as `Seq<char>`.
use vstd::prelude::*;

verus! {

/// The character classes that the grammar skips or collects.
pub enum CharClass {
    /// Horizontal space: ' ' and '\t'.
    Space,
    /// Any white space, line breaks included: ' ', '\t', '\r', '\n'.
    White,
    /// Characters of an identifier: ASCII letters and digits, '_' and '-'.
    Ident,
    /// Characters of a symbol: ASCII letters and digits and '_'.
    Symbol,
    /// Decimal digits.
    Digit,
}

pub open spec fn is_ascii_alnum(c: char) -> bool {
    ('a' <= c && c <= 'z') || ('A' <= c && c <= 'Z') || ('0' <= c && c <= '9')
}

pub open spec fn in_class(c: char, k: CharClass) -> bool {
    match k {
        CharClass::Space => c == ' ' || c == '\t',
        CharClass::White => c == ' ' || c == '\t' || c == '\r' || c == '\n',
        CharClass::Ident => is_ascii_alnum(c) || c == '_' || c == '-',
        CharClass::Symbol => is_ascii_alnum(c) || c == '_',
        CharClass::Digit => '0' <= c && c <= '9',
    }
}

/// The end of the longest run of characters of class `k` that starts at `p`.
pub open spec fn span_end(s: Seq<char>, p: int, k: CharClass) -> int
    decreases s.len() - p,
{
    if 0 <= p < s.len() && in_class(s[p], k) {
        span_end(s, p + 1, k)
    } else {
        p
    }
}

/// Where the white space that starts at `p` ends.
pub open spec fn skip_white(s: Seq<char>, p: int) -> int {
    span_end(s, p, CharClass::White)
}

/// Optional horizontal space, then "\n" or "\r\n": the position after it.
pub open spec fn end_line_at(s: Seq<char>, p: int) -> Option<int> {
    let q = span_end(s, p, CharClass::Space);
    if 0 <= q < s.len() && s[q] == '\n' {
        Some(q + 1)
    } else if 0 <= q && q + 1 < s.len() && s[q] == '\r' && s[q + 1] == '\n' {
        Some(q + 2)
    } else {
        None
    }
}

/// A non-empty run of characters of class `k` at `p`, and the position after it.
pub open spec fn token_at(s: Seq<char>, p: int, k: CharClass) -> Option<(Seq<char>, int)> {
    let q = span_end(s, p, k);
    if q > p {
        Some((s.subrange(p, q), q))
    } else {
        None
    }
}

/// An identifier at `p`, with white space allowed before and after it.
pub open spec fn ws_ident_at(s: Seq<char>, p: int) -> Option<(Seq<char>, int)> {
    match token_at(s, skip_white(s, p), CharClass::Ident) {
        Some((t, q)) => Some((t, skip_white(s, q))),
        None => None,
    }
}

/// Whether `w` is written in `s` at `p`.
pub open spec fn word_at(s: Seq<char>, p: int, w: Seq<char>) -> bool {
    0 <= p && p + w.len() <= s.len() && s.subrange(p, p + w.len()) == w
}

/// The keyword `w` at `p`, with white space allowed before and after it.
pub open spec fn ws_word_at(s: Seq<char>, p: int, w: Seq<char>) -> Option<int> {
    let a = skip_white(s, p);
    if word_at(s, a, w) {
        Some(skip_white(s, a + w.len()))
    } else {
        None
    }
}

/// The single character `c` at `p`.
pub open spec fn char_at(s: Seq<char>, p: int, c: char) -> Option<int> {
    if 0 <= p < s.len() && s[p] == c {
        Some(p + 1)
    } else {
        None
    }
}

/// The single character `c` at `p`, with white space allowed before and after it.
pub open spec fn ws_char_at(s: Seq<char>, p: int, c: char) -> Option<int> {
    match char_at(s, skip_white(s, p), c) {
        Some(q) => Some(skip_white(s, q)),
        None => None,
    }
}

/// A position handed back by the executable code, read as an `int`.
pub open spec fn pos_of(r: Option<usize>) -> Option<int> {
    match r {
        Some(q) => Some(q as int),
        None => None,
    }
}

pub proof fn lemma_span_end_bounds(s: Seq<char>, p: int, k: CharClass)
    requires
        0 <= p <= s.len(),
    ensures
        p <= span_end(s, p, k) <= s.len(),
        forall|i: int| p <= i < span_end(s, p, k) ==> in_class(#[trigger] s[i], k),
        span_end(s, p, k) < s.len() ==> !in_class(s[span_end(s, p, k)], k),
    decreases s.len() - p,
{
    if p < s.len() && in_class(s[p], k) {
        lemma_span_end_bounds(s, p + 1, k);
    }
}

pub fn class_has(c: char, k: &CharClass) -> (r: bool)
    ensures
        r == in_class(c, *k),
{
    let alnum = ('a' <= c && c <= 'z') || ('A' <= c && c <= 'Z') || ('0' <= c && c <= '9');
    match k {
        CharClass::Space => c == ' ' || c == '\t',
        CharClass::White => c == ' ' || c == '\t' || c == '\r' || c == '\n',
        CharClass::Ident => alnum || c == '_' || c == '-',
        CharClass::Symbol => alnum || c == '_',
        CharClass::Digit => '0' <= c && c <= '9',
    }
}

/// The end of the run of class `k` that starts at `p`.
pub fn span_end_exec(s: &Vec<char>, p: usize, k: &CharClass) -> (r: usize)
    requires
        p <= s@.len(),
    ensures
        r as int == span_end(s@, p as int, *k),
        p <= r <= s@.len(),
{
    let mut q: usize = p;
    while q < s.len() && class_has(s[q], k)
        invariant
            p <= q <= s@.len(),
            span_end(s@, p as int, *k) == span_end(s@, q as int, *k),
        decreases s@.len() - q,
    {
        q = q + 1;
    }
    q
}

pub fn skip_white_exec(s: &Vec<char>, p: usize) -> (r: usize)
    requires
        p <= s@.len(),
    ensures
        r as int == skip_white(s@, p as int),
        p <= r <= s@.len(),
{
    span_end_exec(s, p, &CharClass::White)
}

pub fn end_line_exec(s: &Vec<char>, p: usize) -> (r: Option<usize>)
    requires
        p <= s@.len(),
    ensures
        r matches Some(q) ==> q <= s@.len(),
        pos_of(r) == end_line_at(s@, p as int),
{
    let q = span_end_exec(s, p, &CharClass::Space);
    if q < s.len() && s[q] == '\n' {
        Some(q + 1)
    } else if q < s.len() && s[q] == '\r' && q + 1 < s.len() && s[q + 1] == '\n' {
        Some(q + 2)
    } else {
        None
    }
}

pub fn word_at_exec(s: &Vec<char>, p: usize, w: &[char]) -> (r: bool)
    requires
        p <= s@.len(),
    ensures
        r == word_at(s@, p as int, w@),
        r ==> p + w.len() <= s.len(),
{
    if w.len() > s.len() - p {
        return false;
    }
    let mut i: usize = 0;
    while i < w.len()
        invariant
            p + w@.len() <= s@.len(),
            i <= w@.len(),
            w@.len() == w.len(),
            forall|j: int| 0 <= j < i ==> s@[p + j] == w@[j],
        decreases w@.len() - i,
    {
        assert(p + i < s.len());
        if s[p + i] != w[i] {
            assert(s@.subrange(p as int, p + w@.len())[i as int] != w@[i as int]);
            return false;
        }
        i = i + 1;
    }
    assert(s@.subrange(p as int, p + w@.len()) =~= w@);
    true
}

/// The token of class `k` at `p`, as a `String`, and the position after it.
pub fn token_exec(text: &str, s: &Vec<char>, p: usize, k: &CharClass) -> (r: Option<(String, usize)>)
    requires
        text@ == s@,
        p <= s@.len(),
    ensures
        match r {
            Some((t, q)) => token_at(s@, p as int, *k) == Some((t@, q as int)) && q <= s@.len(),
            None => token_at(s@, p as int, *k) is None,
        },
{
    let q = span_end_exec(s, p, k);
    if q > p {
        let t = text.substring_char(p, q).to_owned();
        Some((t, q))
    } else {
        None
    }
}

/// An identifier with white space allowed before and after it.
pub fn ws_ident_exec(text: &str, s: &Vec<char>, p: usize) -> (r: Option<(String, usize)>)
    requires
        text@ == s@,
        p <= s@.len(),
    ensures
        match r {
            Some((t, q)) => ws_ident_at(s@, p as int) == Some((t@, q as int)) && q <= s@.len(),
            None => ws_ident_at(s@, p as int) is None,
        },
{
    let a = skip_white_exec(s, p);
    match token_exec(text, s, a, &CharClass::Ident) {
        Some((t, q)) => Some((t, skip_white_exec(s, q))),
        None => None,
    }
}

pub fn ws_word_exec(s: &Vec<char>, p: usize, w: &[char]) -> (r: Option<usize>)
    requires
        p <= s@.len(),
    ensures
        pos_of(r) == ws_word_at(s@, p as int, w@),
        r matches Some(q) ==> q <= s@.len(),
{
    let a = skip_white_exec(s, p);
    if word_at_exec(s, a, w) {
        Some(skip_white_exec(s, a + w.len()))
    } else {
        None
    }
}

pub fn char_exec(s: &Vec<char>, p: usize, c: char) -> (r: Option<usize>)
    requires
        p <= s@.len(),
    ensures
        pos_of(r) == char_at(s@, p as int, c),
        r matches Some(q) ==> q <= s@.len(),
{
    if p < s.len() && s[p] == c {
        Some(p + 1)
    } else {
        None
    }
}

pub fn ws_char_exec(s: &Vec<char>, p: usize, c: char) -> (r: Option<usize>)
    requires
        p <= s@.len(),
    ensures
        pos_of(r) == ws_char_at(s@, p as int, c),
        r matches Some(q) ==> q <= s@.len(),
{
    let a = skip_white_exec(s, p);
    match char_exec(s, a, c) {
        Some(q) => Some(skip_white_exec(s, q)),
        None => None,
    }
}

} // verus!
