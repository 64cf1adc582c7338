//! Recognizers for the lexical and term rules of a grammar of answer set
//! programs in which names may carry primes (`'`) and leading underscores.

use crate::convenience::text::chars_of;
use crate::parsing::asp::char_at;
use crate::parsing::lexer::{
    at, digit, digit_run_end, is_digit, is_lower, is_upper, layout_end, lemma_layout_end_bounds, looking_at, lower,
    skip_layout, text_at, upper,
};
use vstd::prelude::*;

verus! {

/// The rules that can be recognized on their own.
#[derive(Copy, Clone, Debug, PartialEq, Eq)]
pub enum Rule {
    Infimum,
    Supremum,
    Numeral,
    Integer,
    Constant,
    Variable,
    Term,
}

/// A name character: a letter, a digit, an underscore or a prime.
pub open spec fn is_name_char(c: char) -> bool {
    is_lower(c) || is_upper(c) || is_digit(c) || c == '_' || c == '\''
}

/// Underscores and primes, one letter of the given case, then name characters.
pub open spec fn is_primed_name(s: Seq<char>, upper_case: bool) -> bool {
    exists|u: int| 0 <= u < s.len()
        && (if upper_case { is_upper(s[u]) } else { is_lower(s[u]) })
        && (forall|k: int| 0 <= k < u ==> s[k] == '_' || s[k] == '\'')
        && (forall|k: int| u < k < s.len() ==> is_name_char(#[trigger] s[k]))
}

/// `0`, or a non-zero digit followed by digits.
pub open spec fn is_numeral(s: Seq<char>) -> bool {
    &&& s.len() > 0
    &&& forall|k: int| 0 <= k < s.len() ==> is_digit(#[trigger] s[k])
    &&& (s[0] == '0' ==> s.len() == 1)
}

/// A numeral, or a minus sign followed by a numeral other than `0`.
pub open spec fn is_integer(s: Seq<char>) -> bool {
    is_numeral(s) || (s.len() > 1 && s[0] == '-' && is_numeral(s.drop_first()) && s[1] != '0')
}

pub open spec fn is_infimum(s: Seq<char>) -> bool {
    s == seq!['#', 'i', 'n', 'f'] || s == seq!['#', 'i', 'n', 'f', 'i', 'm', 'u', 'm']
}

pub open spec fn is_supremum(s: Seq<char>) -> bool {
    s == seq!['#', 's', 'u', 'p'] || s == seq!['#', 's', 'u', 'p', 'r', 'e', 'm', 'u', 'm']
}

/// What a token rule accepts as a whole text.
pub open spec fn accepts(rule: Rule, s: Seq<char>) -> bool {
    match rule {
        Rule::Infimum => is_infimum(s),
        Rule::Supremum => is_supremum(s),
        Rule::Numeral => is_numeral(s),
        Rule::Integer => is_integer(s),
        Rule::Constant => is_primed_name(s, false) && s != seq!['n', 'o', 't'],
        Rule::Variable => is_primed_name(s, true),
        Rule::Term => is_term_text(s),
    }
}

pub struct Parser;

// ================================================================ the grammar of terms

/// The end of the run of name characters at `p`.
pub open spec fn name_run_end(cs: Seq<char>, p: int) -> int
    decreases cs.len() - p,
{
    if 0 <= p < cs.len() && is_name_char(cs[p]) {
        name_run_end(cs, p + 1)
    } else {
        p
    }
}

/// The end of the run of underscores and primes at `p`.
pub open spec fn mark_run_end(cs: Seq<char>, p: int) -> int
    decreases cs.len() - p,
{
    if 0 <= p < cs.len() && (cs[p] == '_' || cs[p] == '\'') {
        mark_run_end(cs, p + 1)
    } else {
        p
    }
}

/// Where the longest name at `p` whose first letter has the given case ends.
pub open spec fn primed_name_end(cs: Seq<char>, p: int, upper_case: bool) -> Option<int> {
    let q = mark_run_end(cs, p);
    if 0 <= q < cs.len() && (if upper_case { is_upper(cs[q]) } else { is_lower(cs[q]) }) {
        Some(name_run_end(cs, q + 1))
    } else {
        None
    }
}

/// Where a token at `pos` and the layout after it end: an extremum, an
/// integer, a constant other than `not`, or a variable.
pub open spec fn token_end_at(cs: Seq<char>, pos: int) -> Option<int> {
    if text_at(cs, pos, seq!['#', 'i', 'n', 'f', 'i', 'm', 'u', 'm']) {
        Some(layout_end(cs, pos + 8))
    } else if text_at(cs, pos, seq!['#', 'i', 'n', 'f']) || text_at(cs, pos, seq!['#', 's', 'u', 'p']) {
        Some(layout_end(cs, pos + 4))
    } else if text_at(cs, pos, seq!['#', 's', 'u', 'p', 'r', 'e', 'm', 'u', 'm']) {
        Some(layout_end(cs, pos + 9))
    } else {
        let start = if char_at(cs, pos, '-') && pos + 1 < cs.len() && is_digit(cs[pos + 1]) { pos + 1 } else { pos };
        if 0 <= start < cs.len() && is_digit(cs[start]) {
            if cs[start] == '0' {
                if start > pos || (start + 1 < cs.len() && is_digit(cs[start + 1])) {
                    None
                } else {
                    Some(layout_end(cs, start + 1))
                }
            } else {
                Some(layout_end(cs, digit_run_end(cs, start)))
            }
        } else {
            match primed_name_end(cs, pos, false) {
                Some(end) => if end - pos == 3 && cs[pos] == 'n' && cs[pos + 1] == 'o' && cs[pos + 2] == 't' {
                    None
                } else {
                    Some(layout_end(cs, end))
                },
                None => match primed_name_end(cs, pos, true) {
                    Some(end) => Some(layout_end(cs, end)),
                    None => None,
                },
            }
        }
    }
}

/// The binary operator at `pos`: its precedence and its length.
pub open spec fn operator_at(cs: Seq<char>, pos: int) -> Option<(u8, int)> {
    if text_at(cs, pos, seq!['.', '.']) {
        Some((1u8, 2))
    } else if char_at(cs, pos, '+') || char_at(cs, pos, '-') {
        Some((2u8, 1))
    } else if char_at(cs, pos, '*') || char_at(cs, pos, '/') || char_at(cs, pos, '\\') {
        Some((3u8, 1))
    } else {
        None
    }
}

/// Where a negated, parenthesized or atomic term at `pos` ends.
pub open spec fn unary_end_at(cs: Seq<char>, pos: int) -> Option<int>
    decreases cs.len() - pos, 0nat,
{
    if char_at(cs, pos, '-') && !(pos + 1 < cs.len() && is_digit(cs[pos + 1])) {
        proof {
            lemma_layout_end_bounds(cs, pos + 1);
        }
        unary_end_at(cs, layout_end(cs, pos + 1))
    } else if char_at(cs, pos, '(') {
        let p = layout_end(cs, pos + 1);
        proof {
            lemma_layout_end_bounds(cs, pos + 1);
        }
        match term_end_at(cs, p, 0) {
            Some(q) => if char_at(cs, q, ')') { Some(layout_end(cs, q + 1)) } else { None },
            None => None,
        }
    } else {
        token_end_at(cs, pos)
    }
}

/// Where a term at `pos` whose binary operators bind tighter than `min` ends.
pub open spec fn term_end_at(cs: Seq<char>, pos: int, min: u8) -> Option<int>
    decreases cs.len() - pos, 1nat,
{
    match unary_end_at(cs, pos) {
        Some(p) => if pos < p <= cs.len() { term_rest_end_at(cs, p, min) } else { None },
        None => None,
    }
}

/// Where the operations that continue a term at `p`, binding tighter than `min`, end.
pub open spec fn term_rest_end_at(cs: Seq<char>, p: int, min: u8) -> Option<int>
    decreases cs.len() - p, 2nat,
{
    match operator_at(cs, p) {
        Some((prec, len)) => if prec <= min {
            Some(p)
        } else {
            let q = layout_end(cs, p + len);
            proof {
                lemma_layout_end_bounds(cs, p + len);
            }
            match term_end_at(cs, q, prec) {
                Some(end) => if p < end <= cs.len() { term_rest_end_at(cs, end, min) } else { None },
                None => None,
            }
        },
        None => Some(p),
    }
}

/// Whether a whole text is a term, with layout around it.
pub open spec fn is_term_text(s: Seq<char>) -> bool {
    term_end_at(s, layout_end(s, 0), 0) == Some(s.len() as int)
}

/// The end of a run of name characters.
fn name_end(cs: &Vec<char>, pos: usize) -> (r: usize)
    requires
        pos <= cs.len(),
    ensures
        pos <= r <= cs.len(),
        forall|k: int| pos <= k < r ==> is_name_char(#[trigger] cs@[k]),
        r == cs.len() || !is_name_char(cs@[r as int]),
        r == name_run_end(cs@, pos as int),
{
    let mut p = pos;
    while p < cs.len() && (lower(cs[p]) || upper(cs[p]) || digit(cs[p]) || cs[p] == '_' || cs[p] == '\'')
        invariant
            pos <= p <= cs.len(),
            forall|k: int| pos <= k < p ==> is_name_char(#[trigger] cs@[k]),
            name_run_end(cs@, p as int) == name_run_end(cs@, pos as int),
        decreases cs.len() - p,
    {
        p += 1;
    }
    p
}

/// A name whose first letter has the given case; the end of the longest such name.
fn primed_name(cs: &Vec<char>, pos: usize, upper_case: bool) -> (r: Option<usize>)
    requires
        pos <= cs.len(),
    ensures
        r matches Some(end) ==> pos < end <= cs.len()
            && is_primed_name(cs@.subrange(pos as int, end as int), upper_case)
            && (end == cs.len() || !is_name_char(cs@[end as int])),
        r is None ==> forall|end: int| pos < end <= cs.len()
            ==> !is_primed_name(#[trigger] cs@.subrange(pos as int, end), upper_case),
        match r {
            Some(end) => primed_name_end(cs@, pos as int, upper_case) == Some(end as int),
            None => primed_name_end(cs@, pos as int, upper_case) is None,
        },
{
    let mut p = pos;
    while p < cs.len() && (cs[p] == '_' || cs[p] == '\'')
        invariant
            pos <= p <= cs.len(),
            forall|k: int| pos <= k < p ==> cs@[k] == '_' || cs@[k] == '\'',
            mark_run_end(cs@, p as int) == mark_run_end(cs@, pos as int),
        decreases cs.len() - p,
    {
        p += 1;
    }
    if p < cs.len() && (if upper_case { upper(cs[p]) } else { lower(cs[p]) }) {
        let end = name_end(cs, p + 1);
        let ghost s = cs@.subrange(pos as int, end as int);
        assert(s[p - pos] == cs@[p as int]);
        assert forall|k: int| 0 <= k < p - pos implies s[k] == '_' || s[k] == '\'' by {
            assert(s[k] == cs@[pos + k]);
        }
        assert forall|k: int| p - pos < k < s.len() implies is_name_char(#[trigger] s[k]) by {
            assert(s[k] == cs@[pos + k]);
        }
        Some(end)
    } else {
        assert forall|end: int| pos < end <= cs.len()
            implies !is_primed_name(#[trigger] cs@.subrange(pos as int, end), upper_case) by {
            let s = cs@.subrange(pos as int, end);
            if is_primed_name(s, upper_case) {
                let u = choose|u: int| 0 <= u < s.len()
                    && (if upper_case { is_upper(s[u]) } else { is_lower(s[u]) })
                    && (forall|k: int| 0 <= k < u ==> s[k] == '_' || s[k] == '\'')
                    && (forall|k: int| u < k < s.len() ==> is_name_char(#[trigger] s[k]));
                assert(s[u] == cs@[pos + u]);
                if pos + u < p {
                    assert(cs@[pos + u] == '_' || cs@[pos + u] == '\'');
                } else if pos + u > p {
                    assert(s[p - pos] == cs@[p as int]);
                } else {
                }
            }
        }
        None
    }
}

/// Whether the whole text is a primed name whose first letter has the given case.
fn whole_primed_name(cs: &Vec<char>, upper_case: bool) -> (r: bool)
    ensures
        r == is_primed_name(cs@, upper_case),
{
    match primed_name(cs, 0, upper_case) {
        Some(end) => {
            assert(cs@.subrange(0, cs@.len() as int) =~= cs@);
            if end == cs.len() {
                assert(cs@.subrange(0, end as int) =~= cs@);
                true
            } else {
                proof {
                    if is_primed_name(cs@, upper_case) {
                        let s = cs@;
                        let u = choose|u: int| 0 <= u < s.len()
                            && (if upper_case { is_upper(s[u]) } else { is_lower(s[u]) })
                            && (forall|k: int| 0 <= k < u ==> s[k] == '_' || s[k] == '\'')
                            && (forall|k: int| u < k < s.len() ==> is_name_char(#[trigger] s[k]));
                        let t = cs@.subrange(0, end as int);
                        let v = choose|v: int| 0 <= v < t.len()
                            && (if upper_case { is_upper(t[v]) } else { is_lower(t[v]) })
                            && (forall|k: int| 0 <= k < v ==> t[k] == '_' || t[k] == '\'')
                            && (forall|k: int| v < k < t.len() ==> is_name_char(#[trigger] t[k]));
                        assert(t[v] == s[v]);
                        if v < u {
                            assert(s[v] == '_' || s[v] == '\'');
                        } else if u < v {
                            assert(t[u] == s[u]);
                            assert(t[u] == '_' || t[u] == '\'');
                        }
                        assert(u == v);
                        assert(is_name_char(s[end as int]));
                    }
                }
                false
            }
        },
        None => {
            proof {
                if cs@.len() > 0 {
                    assert(cs@.subrange(0, cs@.len() as int) =~= cs@);
                }
            }
            false
        },
    }
}

/// Whether the whole text is a numeral.
fn whole_numeral(cs: &Vec<char>, from: usize) -> (r: bool)
    requires
        from <= cs.len(),
    ensures
        r == is_numeral(cs@.skip(from as int)),
{
    let ghost s = cs@.skip(from as int);
    if from == cs.len() {
        return false;
    }
    let mut i = from;
    while i < cs.len()
        invariant
            from <= i <= cs.len(),
            s == cs@.skip(from as int),
            forall|k: int| 0 <= k < i - from ==> is_digit(#[trigger] s[k]),
        decreases cs.len() - i,
    {
        if !digit(cs[i]) {
            assert(s[i - from] == cs@[i as int]);
            return false;
        }
        assert(s[i - from] == cs@[i as int]);
        i += 1;
    }
    assert(s[0] == cs@[from as int]);
    !(cs[from] == '0' && cs.len() - from > 1)
}

impl Parser {
    /// Whether the whole input is accepted by the rule; a term may be surrounded
    /// by layout.
    pub fn recognize(rule: Rule, input: &str) -> (r: bool)
        ensures
            r == accepts(rule, input@),
    {
        let cs = chars_of(input);
        match rule {
            Rule::Infimum => {
                let r = looking_at(&cs, 0, &['#', 'i', 'n', 'f']) && cs.len() == 4
                    || looking_at(&cs, 0, &['#', 'i', 'n', 'f', 'i', 'm', 'u', 'm']) && cs.len() == 8;
                proof {
                    assert(cs@.subrange(0, cs@.len() as int) =~= cs@);
                    assert(['#', 'i', 'n', 'f']@ =~= seq!['#', 'i', 'n', 'f']);
                    assert(['#', 'i', 'n', 'f', 'i', 'm', 'u', 'm']@ =~= seq!['#', 'i', 'n', 'f', 'i', 'm', 'u', 'm']);
                }
                r
            },
            Rule::Supremum => {
                let r = looking_at(&cs, 0, &['#', 's', 'u', 'p']) && cs.len() == 4
                    || looking_at(&cs, 0, &['#', 's', 'u', 'p', 'r', 'e', 'm', 'u', 'm']) && cs.len() == 9;
                proof {
                    assert(cs@.subrange(0, cs@.len() as int) =~= cs@);
                    assert(['#', 's', 'u', 'p']@ =~= seq!['#', 's', 'u', 'p']);
                    assert(['#', 's', 'u', 'p', 'r', 'e', 'm', 'u', 'm']@ =~= seq!['#', 's', 'u', 'p', 'r', 'e', 'm', 'u', 'm']);
                }
                r
            },
            Rule::Numeral => {
                assert(cs@.skip(0) =~= cs@);
                whole_numeral(&cs, 0)
            },
            Rule::Integer => {
                assert(cs@.skip(0) =~= cs@);
                if at(&cs, 0, '-') {
                    assert(cs@.skip(1) =~= cs@.drop_first());
                    let r = whole_numeral(&cs, 1) && cs[1] != '0';
                    proof {
                        if is_numeral(cs@) {
                            assert(is_digit(cs@[0]));
                        }
                    }
                    r
                } else {
                    whole_numeral(&cs, 0)
                }
            },
            Rule::Constant => {
                let r = whole_primed_name(&cs, false);
                let n = cs.len() == 3 && cs[0] == 'n' && cs[1] == 'o' && cs[2] == 't';
                proof {
                    if cs@ == seq!['n', 'o', 't'] {
                        assert(cs@[0] == 'n' && cs@[1] == 'o' && cs@[2] == 't');
                    }
                    if n {
                        assert(cs@ =~= seq!['n', 'o', 't']);
                    }
                }
                r && !n
            },
            Rule::Variable => whole_primed_name(&cs, true),
            Rule::Term => {
                let p = skip_layout(&cs, 0);
                match term_end(&cs, p, 0) {
                    Some(end) => end == cs.len(),
                    None => false,
                }
            },
        }
    }
}

/// The end of a numeral, an integer, a constant or a variable at `pos`, and of the layout after it.
fn token_end(cs: &Vec<char>, pos: usize) -> (r: Option<usize>)
    requires
        pos <= cs.len(),
    ensures
        r matches Some(end) ==> pos < end <= cs.len(),
        match r {
            Some(end) => token_end_at(cs@, pos as int) == Some(end as int),
            None => token_end_at(cs@, pos as int) is None,
        },
{
    if looking_at(cs, pos, &['#', 'i', 'n', 'f', 'i', 'm', 'u', 'm']) {
        return Some(skip_layout(cs, pos + 8));
    }
    if looking_at(cs, pos, &['#', 'i', 'n', 'f']) || looking_at(cs, pos, &['#', 's', 'u', 'p']) {
        return Some(skip_layout(cs, pos + 4));
    }
    if looking_at(cs, pos, &['#', 's', 'u', 'p', 'r', 'e', 'm', 'u', 'm']) {
        return Some(skip_layout(cs, pos + 9));
    }
    let start = if at(cs, pos, '-') && pos + 1 < cs.len() && digit(cs[pos + 1]) { pos + 1 } else { pos };
    if start < cs.len() && digit(cs[start]) {
        if cs[start] == '0' {
            if start > pos || (start + 1 < cs.len() && digit(cs[start + 1])) {
                return None;
            }
            return Some(skip_layout(cs, start + 1));
        }
        let mut p = start;
        while p < cs.len() && digit(cs[p])
            invariant
                start <= p <= cs.len(),
                digit_run_end(cs@, p as int) == digit_run_end(cs@, start as int),
            decreases cs.len() - p,
        {
            p += 1;
        }
        return Some(skip_layout(cs, p));
    }
    if let Some(end) = primed_name(cs, pos, false) {
        if end - pos == 3 && cs[pos] == 'n' && cs[pos + 1] == 'o' && cs[pos + 2] == 't' {
            return None;
        }
        return Some(skip_layout(cs, end));
    }
    match primed_name(cs, pos, true) {
        Some(end) => Some(skip_layout(cs, end)),
        None => None,
    }
}

/// The binary operator at `pos`: its precedence and length.
fn operator(cs: &Vec<char>, pos: usize) -> (r: Option<(u8, usize)>)
    requires
        pos <= cs.len(),
    ensures
        r matches Some((prec, len)) ==> 1 <= prec <= 3 && 1 <= len <= 2 && pos + len <= cs.len(),
        match r {
            Some((prec, len)) => operator_at(cs@, pos as int) == Some((prec, len as int)),
            None => operator_at(cs@, pos as int) is None,
        },
{
    if looking_at(cs, pos, &['.', '.']) {
        Some((1, 2))
    } else if at(cs, pos, '+') || at(cs, pos, '-') {
        Some((2, 1))
    } else if at(cs, pos, '*') || at(cs, pos, '/') || at(cs, pos, '\\') {
        Some((3, 1))
    } else {
        None
    }
}

/// The end of a term at `pos` whose binary operators bind tighter than `min`.
fn term_end(cs: &Vec<char>, pos: usize, min: u8) -> (r: Option<usize>)
    requires
        pos <= cs.len(),
    ensures
        r matches Some(end) ==> pos < end <= cs.len(),
        match r {
            Some(end) => term_end_at(cs@, pos as int, min) == Some(end as int),
            None => term_end_at(cs@, pos as int, min) is None,
        },
    decreases cs.len() - pos, 1nat,
{
    let mut p = match unary_end(cs, pos) {
        Some(end) => end,
        None => return None,
    };
    loop
        invariant
            pos < p <= cs.len(),
            term_rest_end_at(cs@, p as int, min) == term_end_at(cs@, pos as int, min),
        decreases cs.len() - p,
    {
        match operator(cs, p) {
            Some((prec, len)) => {
                if prec <= min {
                    return Some(p);
                }
                match term_end(cs, skip_layout(cs, p + len), prec) {
                    Some(end) => p = end,
                    None => return None,
                }
            },
            None => return Some(p),
        }
    }
}

/// The end of a negated, parenthesized or atomic term at `pos`.
fn unary_end(cs: &Vec<char>, pos: usize) -> (r: Option<usize>)
    requires
        pos <= cs.len(),
    ensures
        r matches Some(end) ==> pos < end <= cs.len(),
        match r {
            Some(end) => unary_end_at(cs@, pos as int) == Some(end as int),
            None => unary_end_at(cs@, pos as int) is None,
        },
    decreases cs.len() - pos, 0nat,
{
    if at(cs, pos, '-') && !(pos + 1 < cs.len() && digit(cs[pos + 1])) {
        let p = skip_layout(cs, pos + 1);
        return unary_end(cs, p);
    }
    if at(cs, pos, '(') {
        let p = skip_layout(cs, pos + 1);
        return match term_end(cs, p, 0) {
            Some(q) => if at(cs, q, ')') { Some(skip_layout(cs, q + 1)) } else { None },
            None => None,
        };
    }
    token_end(cs, pos)
}

} // verus!
