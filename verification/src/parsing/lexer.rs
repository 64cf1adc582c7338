//! Lexical layer shared by the parsers: character classes, layout and words.

use vstd::prelude::*;

verus! {

pub open spec fn is_lower(c: char) -> bool {
    'a' <= c && c <= 'z'
}

pub open spec fn is_upper(c: char) -> bool {
    'A' <= c && c <= 'Z'
}

pub open spec fn is_digit(c: char) -> bool {
    '0' <= c && c <= '9'
}

/// Letters, digits and the underscore.
pub open spec fn is_word_char(c: char) -> bool {
    is_lower(c) || is_upper(c) || is_digit(c) || c == '_'
}

pub open spec fn is_space(c: char) -> bool {
    c == ' ' || c == '\t' || c == '\n' || c == '\r'
}

pub fn lower(c: char) -> (r: bool)
    ensures
        r == is_lower(c),
{
    'a' <= c && c <= 'z'
}

pub fn upper(c: char) -> (r: bool)
    ensures
        r == is_upper(c),
{
    'A' <= c && c <= 'Z'
}

pub fn digit(c: char) -> (r: bool)
    ensures
        r == is_digit(c),
{
    '0' <= c && c <= '9'
}

pub fn word_char(c: char) -> (r: bool)
    ensures
        r == is_word_char(c),
{
    lower(c) || upper(c) || digit(c) || c == '_'
}

/// Whether the character at `pos` exists and is `c`.
pub fn at(cs: &Vec<char>, pos: usize, c: char) -> (r: bool)
    ensures
        r == (pos < cs.len() && cs@[pos as int] == c),
{
    pos < cs.len() && cs[pos] == c
}

/// Whether the text at `pos` starts with `w`.
pub fn looking_at(cs: &Vec<char>, pos: usize, w: &[char]) -> (r: bool)
    ensures
        r == (pos + w@.len() <= cs.len() && cs@.subrange(pos as int, pos + w@.len()) == w@),
        r == text_at(cs@, pos as int, w@),
{
    if pos > cs.len() || w.len() > cs.len() - pos {
        return false;
    }
    let mut i: usize = 0;
    while i < w.len()
        invariant
            pos + w@.len() <= cs.len(),
            i <= w.len(),
            forall|k: int| 0 <= k < i ==> cs@[pos + k] == w@[k],
        decreases w.len() - i,
    {
        if cs[pos + i] != w[i] {
            assert(cs@.subrange(pos as int, pos + w@.len())[i as int] != w@[i as int]);
            return false;
        }
        i += 1;
    }
    assert(cs@.subrange(pos as int, pos + w@.len()) =~= w@);
    true
}

/// Whether the text at `pos` is the word `w`, not followed by a word character.
pub fn looking_at_word(cs: &Vec<char>, pos: usize, w: &[char]) -> (r: bool)
    ensures
        r == (pos + w@.len() <= cs.len() && cs@.subrange(pos as int, pos + w@.len()) == w@
            && !(pos + w@.len() < cs.len() && is_word_char(cs@[pos + w@.len()]))),
        r == word_at(cs@, pos as int, w@),
{
    if !looking_at(cs, pos, w) {
        return false;
    }
    let end = pos + w.len();
    !(end < cs.len() && word_char(cs[end]))
}

/// The end of the line that contains `p`: the position of the next line break, or the end.
pub open spec fn line_end(cs: Seq<char>, p: int) -> int
    decreases cs.len() - p,
{
    if 0 <= p < cs.len() && cs[p] != '\n' {
        line_end(cs, p + 1)
    } else {
        p
    }
}

/// The end of the layout at `p`: white space, and comments that run from `%`
/// to the end of the line.
pub open spec fn layout_end(cs: Seq<char>, p: int) -> int
    decreases cs.len() - p,
{
    if 0 <= p < cs.len() && is_space(cs[p]) {
        layout_end(cs, p + 1)
    } else if 0 <= p < cs.len() && cs[p] == '%' {
        proof {
            lemma_line_end_bounds(cs, p + 1);
        }
        layout_end(cs, line_end(cs, p + 1))
    } else {
        p
    }
}

pub proof fn lemma_line_end_bounds(cs: Seq<char>, p: int)
    requires
        0 <= p <= cs.len(),
    ensures
        p <= line_end(cs, p) <= cs.len(),
    decreases cs.len() - p,
{
    if p < cs.len() && cs[p] != '\n' {
        lemma_line_end_bounds(cs, p + 1);
    }
}

pub proof fn lemma_layout_end_bounds(cs: Seq<char>, p: int)
    requires
        0 <= p <= cs.len(),
    ensures
        p <= layout_end(cs, p) <= cs.len(),
    decreases cs.len() - p,
{
    if p < cs.len() && is_space(cs[p]) {
        lemma_layout_end_bounds(cs, p + 1);
    } else if p < cs.len() && cs[p] == '%' {
        lemma_line_end_bounds(cs, p + 1);
        lemma_layout_end_bounds(cs, line_end(cs, p + 1));
    }
}

/// Skips white space and comments that run from `%` to the end of the line.
pub fn skip_layout(cs: &Vec<char>, pos: usize) -> (r: usize)
    requires
        pos <= cs.len(),
    ensures
        pos <= r <= cs.len(),
        r == cs.len() || (!is_space(cs@[r as int]) && cs@[r as int] != '%'),
        r == layout_end(cs@, pos as int),
{
    let mut p = pos;
    while p < cs.len()
        invariant
            pos <= p <= cs.len(),
            layout_end(cs@, p as int) == layout_end(cs@, pos as int),
        decreases cs.len() - p,
    {
        let c = cs[p];
        if c == ' ' || c == '\t' || c == '\n' || c == '\r' {
            p += 1;
        } else if c == '%' {
            let ghost start = p;
            p += 1;
            while p < cs.len() && cs[p] != '\n'
                invariant
                    pos <= start < p <= cs.len(),
                    line_end(cs@, p as int) == line_end(cs@, start + 1),
                decreases cs.len() - p,
            {
                p += 1;
            }
        } else {
            return p;
        }
    }
    p
}

/// The end of the run of word characters at `p`.
pub open spec fn word_run_end(cs: Seq<char>, p: int) -> int
    decreases cs.len() - p,
{
    if 0 <= p < cs.len() && is_word_char(cs[p]) {
        word_run_end(cs, p + 1)
    } else {
        p
    }
}

/// The end of the run of decimal digits at `p`.
pub open spec fn digit_run_end(cs: Seq<char>, p: int) -> int
    decreases cs.len() - p,
{
    if 0 <= p < cs.len() && is_digit(cs[p]) {
        digit_run_end(cs, p + 1)
    } else {
        p
    }
}

/// The end of the run of underscores at `p`.
pub open spec fn underscore_run_end(cs: Seq<char>, p: int) -> int
    decreases cs.len() - p,
{
    if 0 <= p < cs.len() && cs[p] == '_' {
        underscore_run_end(cs, p + 1)
    } else {
        p
    }
}

/// Where the symbolic name at `p` ends: underscores, a lower-case letter,
/// and the rest of the run of word characters.
pub open spec fn symbol_name_end(cs: Seq<char>, p: int) -> Option<int> {
    let q = underscore_run_end(cs, p);
    if 0 <= q < cs.len() && is_lower(cs[q]) {
        Some(word_run_end(cs, q))
    } else {
        None
    }
}

/// Where the variable name at `p` ends: an upper-case letter and the rest of
/// the run of word characters.
pub open spec fn variable_name_end(cs: Seq<char>, p: int) -> Option<int> {
    if 0 <= p < cs.len() && is_upper(cs[p]) {
        Some(word_run_end(cs, p + 1))
    } else {
        None
    }
}

/// Where the natural numeral at `p` ends: `0` not followed by a digit, or a
/// non-zero digit and the rest of the run of digits.
pub open spec fn natural_end(cs: Seq<char>, p: int) -> Option<int> {
    if 0 <= p < cs.len() && is_digit(cs[p]) {
        if cs[p] == '0' {
            if p + 1 < cs.len() && is_digit(cs[p + 1]) {
                None
            } else {
                Some(p + 1)
            }
        } else {
            Some(digit_run_end(cs, p))
        }
    } else {
        None
    }
}

/// Whether the word `w` stands at `p`, not followed by a word character.
pub open spec fn word_at(cs: Seq<char>, p: int, w: Seq<char>) -> bool {
    &&& 0 <= p
    &&& p + w.len() <= cs.len()
    &&& cs.subrange(p, p + w.len()) == w
    &&& !(p + w.len() < cs.len() && is_word_char(cs[p + w.len()]))
}

/// Whether the text at `p` starts with `w`.
pub open spec fn text_at(cs: Seq<char>, p: int, w: Seq<char>) -> bool {
    0 <= p && p + w.len() <= cs.len() && cs.subrange(p, p + w.len()) == w
}

/// The end of the longest run of word characters starting at `pos`.
pub fn word_end(cs: &Vec<char>, pos: usize) -> (r: usize)
    requires
        pos <= cs.len(),
    ensures
        pos <= r <= cs.len(),
        forall|k: int| pos <= k < r ==> is_word_char(#[trigger] cs@[k]),
        r == cs.len() || !is_word_char(cs@[r as int]),
        r == word_run_end(cs@, pos as int),
{
    let mut p = pos;
    while p < cs.len() && word_char(cs[p])
        invariant
            pos <= p <= cs.len(),
            forall|k: int| pos <= k < p ==> is_word_char(#[trigger] cs@[k]),
            word_run_end(cs@, p as int) == word_run_end(cs@, pos as int),
        decreases cs.len() - p,
    {
        p += 1;
    }
    p
}

/// The end of the run of decimal digits starting at `pos`.
pub fn digits_end(cs: &Vec<char>, pos: usize) -> (r: usize)
    requires
        pos <= cs.len(),
    ensures
        pos <= r <= cs.len(),
        forall|k: int| pos <= k < r ==> is_digit(#[trigger] cs@[k]),
        r == cs.len() || !is_digit(cs@[r as int]),
        r == digit_run_end(cs@, pos as int),
{
    let mut p = pos;
    while p < cs.len() && digit(cs[p])
        invariant
            pos <= p <= cs.len(),
            forall|k: int| pos <= k < p ==> is_digit(#[trigger] cs@[k]),
            digit_run_end(cs@, p as int) == digit_run_end(cs@, pos as int),
        decreases cs.len() - p,
    {
        p += 1;
    }
    p
}

/// A symbolic name: underscores, a lower-case letter, then word characters.
pub open spec fn is_symbol_name(s: Seq<char>) -> bool {
    exists|u: int| 0 <= u < s.len() && is_lower(s[u])
        && (forall|k: int| 0 <= k < u ==> s[k] == '_')
        && (forall|k: int| u < k < s.len() ==> is_word_char(#[trigger] s[k]))
}

/// A variable name: an upper-case letter, then word characters.
pub open spec fn is_variable_name(s: Seq<char>) -> bool {
    s.len() > 0 && is_upper(s[0]) && (forall|k: int| 0 < k < s.len() ==> is_word_char(#[trigger] s[k]))
}

/// A decimal numeral without superfluous leading zeros.
pub open spec fn is_natural_numeral(s: Seq<char>) -> bool {
    &&& s.len() > 0
    &&& forall|k: int| 0 <= k < s.len() ==> is_digit(#[trigger] s[k])
    &&& (s[0] == '0' ==> s.len() == 1)
}

/// Scans a symbolic name at `pos` (the whole run of word characters).
pub fn scan_symbol_name(cs: &Vec<char>, pos: usize) -> (r: Option<usize>)
    requires
        pos <= cs.len(),
    ensures
        r matches Some(end) ==> pos < end <= cs.len() && is_symbol_name(cs@.subrange(pos as int, end as int))
            && (end == cs.len() || !is_word_char(cs@[end as int])),
        match r { Some(end) => symbol_name_end(cs@, pos as int) == Some(end as int), None => symbol_name_end(cs@, pos as int) is None },
{
    let mut p = pos;
    while p < cs.len() && cs[p] == '_'
        invariant
            pos <= p <= cs.len(),
            forall|k: int| pos <= k < p ==> cs@[k] == '_',
            underscore_run_end(cs@, p as int) == underscore_run_end(cs@, pos as int),
        decreases cs.len() - p,
    {
        p += 1;
    }
    if p < cs.len() && lower(cs[p]) {
        let end = word_end(cs, p);
        let ghost s = cs@.subrange(pos as int, end as int);
        assert(is_lower(s[p - pos]));
        assert forall|k: int| 0 <= k < p - pos implies s[k] == '_' by {
            assert(s[k] == cs@[pos + k]);
        }
        assert forall|k: int| p - pos < k < s.len() implies is_word_char(#[trigger] s[k]) by {
            assert(s[k] == cs@[pos + k]);
        }
        Some(end)
    } else {
        None
    }
}

/// Scans a variable name at `pos` (the whole run of word characters).
pub fn scan_variable_name(cs: &Vec<char>, pos: usize) -> (r: Option<usize>)
    requires
        pos <= cs.len(),
    ensures
        r matches Some(end) ==> pos < end <= cs.len() && is_variable_name(cs@.subrange(pos as int, end as int))
            && (end == cs.len() || !is_word_char(cs@[end as int])),
        match r { Some(end) => variable_name_end(cs@, pos as int) == Some(end as int), None => variable_name_end(cs@, pos as int) is None },
{
    if pos < cs.len() && upper(cs[pos]) {
        let end = word_end(cs, pos + 1);
        let ghost s = cs@.subrange(pos as int, end as int);
        assert forall|k: int| 0 < k < s.len() implies is_word_char(#[trigger] s[k]) by {
            assert(s[k] == cs@[pos + k]);
        }
        Some(end)
    } else {
        None
    }
}

/// Scans a natural numeral at `pos`: `0`, or a non-zero digit followed by digits.
pub fn scan_natural(cs: &Vec<char>, pos: usize) -> (r: Option<usize>)
    requires
        pos <= cs.len(),
    ensures
        r matches Some(end) ==> pos < end <= cs.len() && is_natural_numeral(cs@.subrange(pos as int, end as int))
            && (end == cs.len() || !is_digit(cs@[end as int])),
        match r { Some(end) => natural_end(cs@, pos as int) == Some(end as int), None => natural_end(cs@, pos as int) is None },
{
    if pos < cs.len() && digit(cs[pos]) {
        if cs[pos] == '0' {
            if pos + 1 < cs.len() && digit(cs[pos + 1]) {
                return None;
            }
            let ghost s = cs@.subrange(pos as int, pos + 1);
            assert(s[0] == cs@[pos as int]);
            return Some(pos + 1);
        }
        let end = digits_end(cs, pos);
        let ghost s = cs@.subrange(pos as int, end as int);
        assert forall|k: int| 0 <= k < s.len() implies is_digit(#[trigger] s[k]) by {
            assert(s[k] == cs@[pos + k]);
        }
        assert(s[0] == cs@[pos as int]);
        Some(end)
    } else {
        None
    }
}

} // verus!
