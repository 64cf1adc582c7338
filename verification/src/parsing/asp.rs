//! A recursive-descent parser for the mini-gringo dialect of answer set programs.
//!
//! Every function starts at a position past layout and, on success, returns the
//! node and the position past the layout that follows it.

use crate::convenience::text::{digits_value, string_of};
use crate::parsing::lexer::{
    at, digit, is_digit, is_symbol_name, is_variable_name, is_natural_numeral, layout_end, lemma_layout_end_bounds,
    looking_at, looking_at_word, natural_end, scan_natural, scan_symbol_name, scan_variable_name, skip_layout,
    symbol_name_end, text_at, variable_name_end, word_at, word_char, is_word_char,
};
use crate::parsing::{finish, start, ParseError, Parser};
use crate::syntax_tree::asp::{
    Atom, AtomModel, AtomicFormula, AtomicFormulaModel, BinaryOperator, Body, BodyModel, Comparison,
    ComparisonModel, Head, HeadModel, Literal, LiteralModel, PrecomputedTerm, PrecomputedTermModel, Predicate,
    PredicateModel, Program, ProgramModel, Relation, Rule, RuleModel, Sign, Term, TermModel, UnaryOperator,
    Variable, VariableModel,
};
use crate::convenience::sets::views;
use vstd::prelude::*;

verus! {

/// The value of the natural numeral `cs[from..to]`, if it fits.
pub fn natural_value(cs: &Vec<char>, from: usize, to: usize) -> (r: Option<usize>)
    requires
        from <= to <= cs.len(),
        forall|k: int| from <= k < to ==> '0' <= #[trigger] cs@[k] && cs@[k] <= '9',
    ensures
        r matches Some(v) ==> v == digits_value(cs@.subrange(from as int, to as int)) && v <= isize::MAX,
        r is None ==> digits_value(cs@.subrange(from as int, to as int)) > isize::MAX,
{
    let mut v: usize = 0;
    let mut i = from;
    while i < to
        invariant
            from <= i <= to <= cs.len(),
            forall|k: int| from <= k < to ==> '0' <= #[trigger] cs@[k] && cs@[k] <= '9',
            v == digits_value(cs@.subrange(from as int, i as int)),
            v <= isize::MAX,
        decreases to - i,
    {
        let d = (cs[i] as u32 - '0' as u32) as usize;
        assert(cs@.subrange(from as int, i + 1).drop_last() =~= cs@.subrange(from as int, i as int));
        assert(cs@.subrange(from as int, i + 1).last() == cs@[i as int]);
        if v > (isize::MAX as usize - d) / 10 {
            proof {
                lemma_digits_value_prefix(cs@.subrange(from as int, to as int), (i + 1 - from) as int);
                assert(cs@.subrange(from as int, to as int).take((i + 1 - from) as int) =~= cs@.subrange(from as int, i + 1));
            }
            return None;
        }
        v = v * 10 + d;
        i += 1;
    }
    Some(v)
}

pub proof fn lemma_digits_value_prefix(s: Seq<char>, n: int)
    requires
        0 <= n <= s.len(),
        forall|k: int| 0 <= k < s.len() ==> '0' <= #[trigger] s[k] && s[k] <= '9',
    ensures
        digits_value(s) >= digits_value(s.take(n)),
    decreases s.len(),
{
    if n < s.len() {
        assert(s.drop_last().take(n) =~= s.take(n));
        lemma_digits_value_prefix(s.drop_last(), n);
        assert(digits_value(s) >= digits_value(s.drop_last()));
    } else {
        assert(s.take(n) =~= s);
    }
}


// ================================================================ the grammar
//
// The grammar of programs, in the manner of a parsing expression grammar: each
// rule reads from a position and gives the node read and the position past
// the layout after it, trying its alternatives in order.

/// Whether an executable reading agrees with the grammar.
pub open spec fn read_as<T: View>(r: Option<(T, usize)>, s: Option<(T::V, int)>) -> bool {
    match r {
        Some((t, e)) => s == Some((t@, e as int)),
        None => s is None,
    }
}

/// Whether the whole text reads as `s`: the result of a parser of a whole text.
pub open spec fn reads_whole<T: View>(r: Result<T, ParseError>, s: Option<(T::V, int)>, len: int) -> bool {
    match s {
        Some((x, e)) => if e == len { r matches Ok(y) && y@ == x } else { r is Err },
        None => r is Err,
    }
}

/// Whether the character at `p` is `c`.
pub open spec fn char_at(cs: Seq<char>, p: int, c: char) -> bool {
    0 <= p < cs.len() && cs[p] == c
}

/// An integer: an optional minus sign directly followed by a natural numeral,
/// other than `-0`, whose value fits.
pub open spec fn read_integer(cs: Seq<char>, pos: int) -> Option<(isize, int)> {
    let negative = char_at(cs, pos, '-');
    let start = if negative { pos + 1 } else { pos };
    match natural_end(cs, start) {
        Some(end) => {
            let v = digits_value(cs.subrange(start, end));
            if negative && end == start + 1 && cs[start] == '0' {
                None
            } else if v > isize::MAX {
                None
            } else {
                Some(((if negative { -v } else { v as int }) as isize, layout_end(cs, end)))
            }
        },
        None => None,
    }
}

/// A symbol: a symbolic name other than the keyword `not`.
pub open spec fn read_symbol(cs: Seq<char>, pos: int) -> Option<(Seq<char>, int)> {
    match symbol_name_end(cs, pos) {
        Some(end) => if cs.subrange(pos, end) == seq!['n', 'o', 't'] {
            None
        } else {
            Some((cs.subrange(pos, end), layout_end(cs, end)))
        },
        None => None,
    }
}

pub open spec fn read_variable(cs: Seq<char>, pos: int) -> Option<(VariableModel, int)> {
    match variable_name_end(cs, pos) {
        Some(end) => Some((VariableModel(cs.subrange(pos, end)), layout_end(cs, end))),
        None => None,
    }
}

/// `#infimum`, `#inf`, `#supremum` or `#sup` as a word.
pub open spec fn read_extremum(cs: Seq<char>, pos: int) -> Option<(PrecomputedTermModel, int)> {
    if word_at(cs, pos, seq!['#', 'i', 'n', 'f', 'i', 'm', 'u', 'm']) {
        Some((PrecomputedTermModel::Infimum, layout_end(cs, pos + 8)))
    } else if word_at(cs, pos, seq!['#', 'i', 'n', 'f']) {
        Some((PrecomputedTermModel::Infimum, layout_end(cs, pos + 4)))
    } else if word_at(cs, pos, seq!['#', 's', 'u', 'p', 'r', 'e', 'm', 'u', 'm']) {
        Some((PrecomputedTermModel::Supremum, layout_end(cs, pos + 9)))
    } else if word_at(cs, pos, seq!['#', 's', 'u', 'p']) {
        Some((PrecomputedTermModel::Supremum, layout_end(cs, pos + 4)))
    } else {
        None
    }
}

pub open spec fn read_precomputed_term(cs: Seq<char>, pos: int) -> Option<(PrecomputedTermModel, int)> {
    match read_extremum(cs, pos) {
        Some(x) => Some(x),
        None => match read_integer(cs, pos) {
            Some((n, end)) => Some((PrecomputedTermModel::Numeral(n), end)),
            None => match read_symbol(cs, pos) {
                Some((s, end)) => Some((PrecomputedTermModel::Symbol(s), end)),
                None => None,
            },
        },
    }
}

/// The binary operator at `pos` with its precedence and its length.
pub open spec fn read_binary_operator(cs: Seq<char>, pos: int) -> Option<(BinaryOperator, u8, int)> {
    if text_at(cs, pos, seq!['.', '.']) {
        Some((BinaryOperator::Interval, 1u8, 2))
    } else if char_at(cs, pos, '+') {
        Some((BinaryOperator::Add, 2u8, 1))
    } else if char_at(cs, pos, '-') {
        Some((BinaryOperator::Subtract, 2u8, 1))
    } else if char_at(cs, pos, '*') {
        Some((BinaryOperator::Multiply, 3u8, 1))
    } else if char_at(cs, pos, '/') {
        Some((BinaryOperator::Divide, 3u8, 1))
    } else if char_at(cs, pos, '\\') {
        Some((BinaryOperator::Modulo, 3u8, 1))
    } else {
        None
    }
}

/// A term in parentheses, a precomputed term or a variable.
pub open spec fn read_term_primary(cs: Seq<char>, pos: int) -> Option<(TermModel, int)>
    decreases cs.len() - pos, 0nat,
{
    if char_at(cs, pos, '(') {
        let p = layout_end(cs, pos + 1);
        proof {
            lemma_layout_end_bounds(cs, pos + 1);
        }
        match read_term_expr(cs, p, 0) {
            Some((t, q)) => if char_at(cs, q, ')') { Some((t, layout_end(cs, q + 1))) } else { None },
            None => None,
        }
    } else {
        match read_precomputed_term(cs, pos) {
            Some((c, end)) => Some((TermModel::PrecomputedTerm(c), end)),
            None => match read_variable(cs, pos) {
                Some((v, end)) => Some((TermModel::Variable(v), end)),
                None => None,
            },
        }
    }
}

/// A minus sign that is not directly followed by a digit negates what follows.
pub open spec fn read_term_unary(cs: Seq<char>, pos: int) -> Option<(TermModel, int)>
    decreases cs.len() - pos, 1nat,
{
    if char_at(cs, pos, '-') && !(pos + 1 < cs.len() && is_digit(cs[pos + 1])) {
        let p = layout_end(cs, pos + 1);
        proof {
            lemma_layout_end_bounds(cs, pos + 1);
        }
        match read_term_unary(cs, p) {
            Some((arg, end)) => Some((TermModel::UnaryOperation { op: UnaryOperator::Negative, arg: Box::new(arg) }, end)),
            None => None,
        }
    } else {
        read_term_primary(cs, pos)
    }
}

/// Binary operations whose precedence exceeds `min`, all associating to the left.
pub open spec fn read_term_expr(cs: Seq<char>, pos: int, min: u8) -> Option<(TermModel, int)>
    decreases cs.len() - pos, 2nat,
{
    match read_term_unary(cs, pos) {
        Some((lhs, p)) => if pos < p <= cs.len() { read_term_rest(cs, lhs, p, min) } else { None },
        None => None,
    }
}

/// The operations that follow `lhs` at `p`, with precedence above `min`.
pub open spec fn read_term_rest(cs: Seq<char>, lhs: TermModel, p: int, min: u8) -> Option<(TermModel, int)>
    decreases cs.len() - p, 3nat,
{
    match read_binary_operator(cs, p) {
        Some((op, prec, len)) => if prec <= min {
            Some((lhs, p))
        } else {
            let q = layout_end(cs, p + len);
            proof {
                lemma_layout_end_bounds(cs, p + len);
            }
            match read_term_expr(cs, q, prec) {
                Some((rhs, end)) => if p < end <= cs.len() {
                    read_term_rest(cs, TermModel::BinaryOperation { op, lhs: Box::new(lhs), rhs: Box::new(rhs) }, end, min)
                } else {
                    None
                },
                None => Some((lhs, p)),
            }
        },
        None => Some((lhs, p)),
    }
}

pub open spec fn read_term(cs: Seq<char>, pos: int) -> Option<(TermModel, int)> {
    read_term_expr(cs, pos, 0)
}

/// A predicate: a symbol, `/` and the arity.
pub open spec fn read_predicate(cs: Seq<char>, pos: int) -> Option<(PredicateModel, int)> {
    match read_symbol(cs, pos) {
        Some((symbol, p)) => if char_at(cs, p, '/') {
            let q = layout_end(cs, p + 1);
            match natural_end(cs, q) {
                Some(end) => {
                    let v = digits_value(cs.subrange(q, end));
                    if v > isize::MAX { None } else { Some((PredicateModel { symbol, arity: v as usize }, layout_end(cs, end))) }
                },
                None => None,
            }
        } else {
            None
        },
        None => None,
    }
}

/// The terms from `p` on, after the terms `read`, up to the closing parenthesis.
pub open spec fn read_terms_from(cs: Seq<char>, read: Seq<TermModel>, p: int) -> Option<(Seq<TermModel>, int)>
    decreases cs.len() - p,
{
    match read_term(cs, p) {
        Some((t, q)) => if !(p < q <= cs.len()) {
            None
        } else if char_at(cs, q, ',') {
            proof {
                lemma_layout_end_bounds(cs, q + 1);
            }
            read_terms_from(cs, read.push(t), layout_end(cs, q + 1))
        } else if char_at(cs, q, ')') {
            Some((read.push(t), layout_end(cs, q + 1)))
        } else {
            None
        },
        None => None,
    }
}

/// A comma-separated list of terms closed by `)`, after the opening parenthesis.
pub open spec fn read_term_list(cs: Seq<char>, pos: int) -> Option<(Seq<TermModel>, int)> {
    if char_at(cs, pos, ')') {
        Some((seq![], layout_end(cs, pos + 1)))
    } else {
        read_terms_from(cs, seq![], pos)
    }
}

pub open spec fn read_atom(cs: Seq<char>, pos: int) -> Option<(AtomModel, int)> {
    match read_symbol(cs, pos) {
        Some((predicate_symbol, p)) => if char_at(cs, p, '(') {
            match read_term_list(cs, layout_end(cs, p + 1)) {
                Some((terms, end)) => Some((AtomModel { predicate_symbol, terms }, end)),
                None => None,
            }
        } else {
            Some((AtomModel { predicate_symbol, terms: seq![] }, p))
        },
        None => None,
    }
}

/// No sign, `not`, or `not not`; each `not` a word of its own.
pub open spec fn read_sign(cs: Seq<char>, pos: int) -> (Sign, int) {
    if word_at(cs, pos, seq!['n', 'o', 't']) {
        let p = layout_end(cs, pos + 3);
        if word_at(cs, p, seq!['n', 'o', 't']) {
            (Sign::DoubleNegation, layout_end(cs, p + 3))
        } else {
            (Sign::Negation, p)
        }
    } else {
        (Sign::NoSign, pos)
    }
}

pub open spec fn read_literal(cs: Seq<char>, pos: int) -> Option<(LiteralModel, int)> {
    let (sign, p) = read_sign(cs, pos);
    match read_atom(cs, p) {
        Some((atom, end)) => Some((LiteralModel { sign, atom }, end)),
        None => None,
    }
}

pub open spec fn read_relation(cs: Seq<char>, pos: int) -> Option<(Relation, int)> {
    if text_at(cs, pos, seq!['!', '=']) {
        Some((Relation::NotEqual, layout_end(cs, pos + 2)))
    } else if text_at(cs, pos, seq!['<', '=']) {
        Some((Relation::LessEqual, layout_end(cs, pos + 2)))
    } else if text_at(cs, pos, seq!['>', '=']) {
        Some((Relation::GreaterEqual, layout_end(cs, pos + 2)))
    } else if char_at(cs, pos, '<') {
        Some((Relation::Less, layout_end(cs, pos + 1)))
    } else if char_at(cs, pos, '>') {
        Some((Relation::Greater, layout_end(cs, pos + 1)))
    } else if char_at(cs, pos, '=') {
        Some((Relation::Equal, layout_end(cs, pos + 1)))
    } else {
        None
    }
}

pub open spec fn read_comparison(cs: Seq<char>, pos: int) -> Option<(ComparisonModel, int)> {
    match read_term(cs, pos) {
        Some((lhs, p)) => match read_relation(cs, p) {
            Some((relation, q)) => match read_term(cs, q) {
                Some((rhs, end)) => Some((ComparisonModel { relation, lhs, rhs }, end)),
                None => None,
            },
            None => None,
        },
        None => None,
    }
}

/// A comparison if there is one, a literal otherwise.
pub open spec fn read_atomic_formula(cs: Seq<char>, pos: int) -> Option<(AtomicFormulaModel, int)> {
    match read_comparison(cs, pos) {
        Some((c, end)) => Some((AtomicFormulaModel::Comparison(c), end)),
        None => match read_literal(cs, pos) {
            Some((l, end)) => Some((AtomicFormulaModel::Literal(l), end)),
            None => None,
        },
    }
}

/// A choice atom in braces, a basic atom, or nothing for a constraint.
pub open spec fn read_head(cs: Seq<char>, pos: int) -> Option<(HeadModel, int)> {
    if char_at(cs, pos, '{') {
        match read_atom(cs, layout_end(cs, pos + 1)) {
            Some((a, q)) => if char_at(cs, q, '}') { Some((HeadModel::Choice(a), layout_end(cs, q + 1))) } else { None },
            None => None,
        }
    } else {
        match read_atom(cs, pos) {
            Some((a, end)) => Some((HeadModel::Basic(a), end)),
            None => Some((HeadModel::Falsity, pos)),
        }
    }
}

/// The atomic formulas that follow the formulas `read` at `p`, each after a comma.
pub open spec fn read_body_rest(cs: Seq<char>, read: Seq<AtomicFormulaModel>, p: int) -> Option<(BodyModel, int)>
    decreases cs.len() - p,
{
    if char_at(cs, p, ',') {
        let q = layout_end(cs, p + 1);
        proof {
            lemma_layout_end_bounds(cs, p + 1);
        }
        match read_atomic_formula(cs, q) {
            Some((f, end)) => if q < end <= cs.len() { read_body_rest(cs, read.push(f), end) } else { None },
            None => None,
        }
    } else {
        Some((BodyModel { formulas: read }, p))
    }
}

/// Comma-separated atomic formulas, possibly none.
pub open spec fn read_body(cs: Seq<char>, pos: int) -> Option<(BodyModel, int)> {
    match read_atomic_formula(cs, pos) {
        Some((f, p)) => read_body_rest(cs, seq![f], p),
        None => Some((BodyModel { formulas: seq![] }, pos)),
    }
}

/// A head, then `:-`, a body and a period; or a head that is not empty and a period.
pub open spec fn read_rule(cs: Seq<char>, pos: int) -> Option<(RuleModel, int)> {
    match read_head(cs, pos) {
        Some((head, p)) => if text_at(cs, p, seq![':', '-']) {
            match read_body(cs, layout_end(cs, p + 2)) {
                Some((body, end)) => if char_at(cs, end, '.') && !char_at(cs, end + 1, '.') {
                    Some((RuleModel { head, body }, layout_end(cs, end + 1)))
                } else {
                    None
                },
                None => None,
            }
        } else if !(head is Falsity) && char_at(cs, p, '.') {
            Some((RuleModel { head, body: BodyModel { formulas: seq![] } }, layout_end(cs, p + 1)))
        } else {
            None
        },
        None => None,
    }
}

/// The rules from `p` to the end, after the rules `read`.
pub open spec fn read_rules_from(cs: Seq<char>, read: Seq<RuleModel>, p: int) -> Option<(ProgramModel, int)>
    decreases cs.len() - p,
{
    if 0 <= p < cs.len() {
        match read_rule(cs, p) {
            Some((r, end)) => if p < end <= cs.len() { read_rules_from(cs, read.push(r), end) } else { None },
            None => None,
        }
    } else {
        Some((ProgramModel { rules: read }, p))
    }
}

pub open spec fn read_program(cs: Seq<char>, pos: int) -> Option<(ProgramModel, int)> {
    read_rules_from(cs, seq![], pos)
}

/// An integer: an optional minus sign directly followed by a natural numeral other than `-0`.
pub(crate) fn integer(cs: &Vec<char>, pos: usize) -> (r: Option<(isize, usize)>)
    requires
        pos <= cs.len(),
    ensures
        r matches Some((_, end)) ==> pos < end <= cs.len(),
        read_as(r, read_integer(cs@, pos as int)),
{
    let negative = at(cs, pos, '-');
    let start = if negative { pos + 1 } else { pos };
    match scan_natural(cs, start) {
        Some(end) => {
            if negative && end == start + 1 && cs[start] == '0' {
                return None;
            }
            assert forall|k: int| start <= k < end implies '0' <= #[trigger] cs@[k] && cs@[k] <= '9' by {
                assert(cs@.subrange(start as int, end as int)[k - start] == cs@[k]);
            }
            match natural_value(cs, start, end) {
                Some(v) => {
                    let n: isize = if negative { -(v as isize) } else { v as isize };
                    Some((n, skip_layout(cs, end)))
                },
                None => None,
            }
        },
        None => None,
    }
}

/// Whether `cs[from..to]` is the keyword `not`.
fn is_not_keyword(cs: &Vec<char>, from: usize, to: usize) -> (r: bool)
    requires
        from <= to <= cs.len(),
    ensures
        r == (cs@.subrange(from as int, to as int) == seq!['n', 'o', 't']),
{
    if to - from == 3 && cs[from] == 'n' && cs[from + 1] == 'o' && cs[from + 2] == 't' {
        assert(cs@.subrange(from as int, to as int) =~= seq!['n', 'o', 't']);
        true
    } else {
        proof {
            if cs@.subrange(from as int, to as int) == seq!['n', 'o', 't'] {
                assert(cs@.subrange(from as int, to as int).len() == seq!['n', 'o', 't'].len());
                assert(cs@.subrange(from as int, to as int)[0] == 'n');
                assert(cs@.subrange(from as int, to as int)[1] == 'o');
                assert(cs@.subrange(from as int, to as int)[2] == 't');
            }
        }
        false
    }
}

/// A symbol: a symbolic name other than the keyword `not`.
fn symbol(cs: &Vec<char>, pos: usize) -> (r: Option<(String, usize)>)
    requires
        pos <= cs.len(),
    ensures
        r matches Some((s, end)) ==> pos < end <= cs.len() && is_symbol_name(s@)
            && s@ != seq!['n', 'o', 't'],
        read_as(r, read_symbol(cs@, pos as int)),
{
    match scan_symbol_name(cs, pos) {
        Some(end) => {
            if is_not_keyword(cs, pos, end) {
                None
            } else {
                Some((string_of(cs, pos, end), skip_layout(cs, end)))
            }
        },
        None => None,
    }
}

fn variable(cs: &Vec<char>, pos: usize) -> (r: Option<(Variable, usize)>)
    requires
        pos <= cs.len(),
    ensures
        r matches Some((v, end)) ==> pos < end <= cs.len() && is_variable_name(v@.0),
        read_as(r, read_variable(cs@, pos as int)),
{
    match scan_variable_name(cs, pos) {
        Some(end) => Some((Variable(string_of(cs, pos, end)), skip_layout(cs, end))),
        None => None,
    }
}

/// `#inf`, `#infimum`, `#sup` or `#supremum`, not followed by a word character.
fn extremum(cs: &Vec<char>, pos: usize) -> (r: Option<(PrecomputedTerm, usize)>)
    requires
        pos <= cs.len(),
    ensures
        r matches Some((t, end)) ==> pos < end <= cs.len()
            && (t is Infimum || t is Supremum),
        read_as(r, read_extremum(cs@, pos as int)),
{
    if looking_at_word(cs, pos, &['#', 'i', 'n', 'f', 'i', 'm', 'u', 'm']) {
        Some((PrecomputedTerm::Infimum, skip_layout(cs, pos + 8)))
    } else if looking_at_word(cs, pos, &['#', 'i', 'n', 'f']) {
        Some((PrecomputedTerm::Infimum, skip_layout(cs, pos + 4)))
    } else if looking_at_word(cs, pos, &['#', 's', 'u', 'p', 'r', 'e', 'm', 'u', 'm']) {
        Some((PrecomputedTerm::Supremum, skip_layout(cs, pos + 9)))
    } else if looking_at_word(cs, pos, &['#', 's', 'u', 'p']) {
        Some((PrecomputedTerm::Supremum, skip_layout(cs, pos + 4)))
    } else {
        None
    }
}

fn precomputed_term(cs: &Vec<char>, pos: usize) -> (r: Option<(PrecomputedTerm, usize)>)
    requires
        pos <= cs.len(),
    ensures
        r matches Some((t, end)) ==> pos < end <= cs.len()
            && (t matches PrecomputedTerm::Symbol(s) ==> is_symbol_name(s@) && s@ != seq!['n', 'o', 't']),
        read_as(r, read_precomputed_term(cs@, pos as int)),
{
    if let Some((t, end)) = extremum(cs, pos) {
        return Some((t, end));
    }
    if let Some((n, end)) = integer(cs, pos) {
        return Some((PrecomputedTerm::Numeral(n), end));
    }
    match symbol(cs, pos) {
        Some((s, end)) => Some((PrecomputedTerm::Symbol(s), end)),
        None => None,
    }
}

/// The binary operator at `pos` with its precedence and length.
fn binary_operator(cs: &Vec<char>, pos: usize) -> (r: Option<(BinaryOperator, u8, usize)>)
    requires
        pos <= cs.len(),
    ensures
        r matches Some((_, prec, len)) ==> 1 <= prec <= 3 && 1 <= len <= 2 && pos + len <= cs.len(),
        match r {
            Some((op, prec, len)) => read_binary_operator(cs@, pos as int) == Some((op, prec, len as int)),
            None => read_binary_operator(cs@, pos as int) is None,
        },
{
    if looking_at(cs, pos, &['.', '.']) {
        Some((BinaryOperator::Interval, 1, 2))
    } else if at(cs, pos, '+') {
        Some((BinaryOperator::Add, 2, 1))
    } else if at(cs, pos, '-') {
        Some((BinaryOperator::Subtract, 2, 1))
    } else if at(cs, pos, '*') {
        Some((BinaryOperator::Multiply, 3, 1))
    } else if at(cs, pos, '/') {
        Some((BinaryOperator::Divide, 3, 1))
    } else if at(cs, pos, '\\') {
        Some((BinaryOperator::Modulo, 3, 1))
    } else {
        None
    }
}

fn term_primary(cs: &Vec<char>, pos: usize) -> (r: Option<(Term, usize)>)
    requires
        pos <= cs.len(),
    ensures
        r matches Some((_, end)) ==> pos < end <= cs.len(),
        read_as(r, read_term_primary(cs@, pos as int)),
    decreases cs.len() - pos, 0nat,
{
    if at(cs, pos, '(') {
        let p = skip_layout(cs, pos + 1);
        match term_expr(cs, p, 0) {
            Some((t, q)) => {
                if at(cs, q, ')') {
                    Some((t, skip_layout(cs, q + 1)))
                } else {
                    None
                }
            },
            None => None,
        }
    } else if let Some((c, end)) = precomputed_term(cs, pos) {
        Some((Term::PrecomputedTerm(c), end))
    } else {
        match variable(cs, pos) {
            Some((v, end)) => Some((Term::Variable(v), end)),
            None => None,
        }
    }
}

/// A minus sign that is not directly followed by a digit negates what follows.
fn term_unary(cs: &Vec<char>, pos: usize) -> (r: Option<(Term, usize)>)
    requires
        pos <= cs.len(),
    ensures
        r matches Some((_, end)) ==> pos < end <= cs.len(),
        read_as(r, read_term_unary(cs@, pos as int)),
    decreases cs.len() - pos, 1nat,
{
    if at(cs, pos, '-') && !(pos + 1 < cs.len() && digit(cs[pos + 1])) {
        let p = skip_layout(cs, pos + 1);
        match term_unary(cs, p) {
            Some((arg, end)) => Some((Term::UnaryOperation { op: UnaryOperator::Negative, arg: Box::new(arg) }, end)),
            None => None,
        }
    } else {
        term_primary(cs, pos)
    }
}

/// Binary operations whose precedence exceeds `min`, all associating to the left.
fn term_expr(cs: &Vec<char>, pos: usize, min: u8) -> (r: Option<(Term, usize)>)
    requires
        pos <= cs.len(),
    ensures
        r matches Some((_, end)) ==> pos < end <= cs.len(),
        read_as(r, read_term_expr(cs@, pos as int, min)),
    decreases cs.len() - pos, 2nat,
{
    let (mut lhs, mut p) = match term_unary(cs, pos) {
        Some(x) => x,
        None => return None,
    };
    assert(read_term_expr(cs@, pos as int, min) == read_term_rest(cs@, lhs@, p as int, min));
    loop
        invariant
            pos < p <= cs.len(),
            read_term_rest(cs@, lhs@, p as int, min) == read_term_expr(cs@, pos as int, min),
        decreases cs.len() - p,
    {
        match binary_operator(cs, p) {
            Some((op, prec, len)) => {
                if prec <= min {
                    return Some((lhs, p));
                }
                let q = skip_layout(cs, p + len);
                match term_expr(cs, q, prec) {
                    Some((rhs, end)) => {
                        let ghost before = lhs@;
                        lhs = Term::BinaryOperation { op, lhs: Box::new(lhs), rhs: Box::new(rhs) };
                        assert(lhs@ == TermModel::BinaryOperation { op, lhs: Box::new(before), rhs: Box::new(rhs@) });
                        p = end;
                    },
                    None => return Some((lhs, p)),
                }
            },
            None => return Some((lhs, p)),
        }
    }
}

fn term(cs: &Vec<char>, pos: usize) -> (r: Option<(Term, usize)>)
    requires
        pos <= cs.len(),
    ensures
        r matches Some((_, end)) ==> pos < end <= cs.len(),
        read_as(r, read_term(cs@, pos as int)),
{
    term_expr(cs, pos, 0)
}

fn predicate(cs: &Vec<char>, pos: usize) -> (r: Option<(Predicate, usize)>)
    requires
        pos <= cs.len(),
    ensures
        r matches Some((p, end)) ==> pos < end <= cs.len() && is_symbol_name(p@.symbol),
        read_as(r, read_predicate(cs@, pos as int)),
{
    let (symbol, p) = match symbol(cs, pos) {
        Some(x) => x,
        None => return None,
    };
    if !at(cs, p, '/') {
        return None;
    }
    let q = skip_layout(cs, p + 1);
    match scan_natural(cs, q) {
        Some(end) => {
            assert forall|k: int| q <= k < end implies '0' <= #[trigger] cs@[k] && cs@[k] <= '9' by {
                assert(cs@.subrange(q as int, end as int)[k - q] == cs@[k]);
            }
            match natural_value(cs, q, end) {
                Some(arity) => Some((Predicate { symbol, arity }, skip_layout(cs, end))),
                None => None,
            }
        },
        None => None,
    }
}

/// A comma-separated list of terms closed by `)`, after the opening parenthesis.
fn term_list(cs: &Vec<char>, pos: usize) -> (r: Option<(Vec<Term>, usize)>)
    requires
        pos <= cs.len(),
    ensures
        r matches Some((_, end)) ==> pos < end <= cs.len(),
        match r { Some((ts, e)) => read_term_list(cs@, pos as int) == Some((views(ts@), e as int)), None => read_term_list(cs@, pos as int) is None },
{
    let mut terms: Vec<Term> = Vec::new();
    if at(cs, pos, ')') {
        return Some((terms, skip_layout(cs, pos + 1)));
    }
    let mut p = pos;
    assert(views(terms@) =~= Seq::<TermModel>::empty());
    loop
        invariant
            pos <= p <= cs.len(),
            read_terms_from(cs@, views(terms@), p as int) == read_term_list(cs@, pos as int),
        decreases cs.len() - p,
    {
        match term(cs, p) {
            Some((t, q)) => {
                let ghost before = views(terms@);
                terms.push(t);
                assert(views(terms@) =~= before.push(t@));
                if at(cs, q, ',') {
                    p = skip_layout(cs, q + 1);
                } else if at(cs, q, ')') {
                    return Some((terms, skip_layout(cs, q + 1)));
                } else {
                    return None;
                }
            },
            None => return None,
        }
    }
}

fn atom(cs: &Vec<char>, pos: usize) -> (r: Option<(Atom, usize)>)
    requires
        pos <= cs.len(),
    ensures
        r matches Some((a, end)) ==> pos < end <= cs.len() && is_symbol_name(a@.predicate_symbol),
        read_as(r, read_atom(cs@, pos as int)),
{
    let (predicate_symbol, p) = match symbol(cs, pos) {
        Some(x) => x,
        None => return None,
    };
    if at(cs, p, '(') {
        match term_list(cs, skip_layout(cs, p + 1)) {
            Some((terms, end)) => Some((Atom { predicate_symbol, terms }, end)),
            None => None,
        }
    } else {
        let a = Atom { predicate_symbol, terms: Vec::new() };
        assert(a@.terms =~= Seq::<TermModel>::empty());
        Some((a, p))
    }
}

/// No sign, `not`, or `not not`; each `not` must end a word.
fn sign(cs: &Vec<char>, pos: usize) -> (r: (Sign, usize))
    requires
        pos <= cs.len(),
    ensures
        pos <= r.1 <= cs.len(),
        r.0 != Sign::NoSign ==> pos < r.1,
        (r.0, r.1 as int) == read_sign(cs@, pos as int),
{
    if looking_at_word(cs, pos, &['n', 'o', 't']) {
        let p = skip_layout(cs, pos + 3);
        if looking_at_word(cs, p, &['n', 'o', 't']) {
            (Sign::DoubleNegation, skip_layout(cs, p + 3))
        } else {
            (Sign::Negation, p)
        }
    } else {
        (Sign::NoSign, pos)
    }
}

fn literal(cs: &Vec<char>, pos: usize) -> (r: Option<(Literal, usize)>)
    requires
        pos <= cs.len(),
    ensures
        r matches Some((_, end)) ==> pos < end <= cs.len(),
        read_as(r, read_literal(cs@, pos as int)),
{
    let (sign, p) = sign(cs, pos);
    match atom(cs, p) {
        Some((atom, end)) => Some((Literal { sign, atom }, end)),
        None => None,
    }
}

fn relation(cs: &Vec<char>, pos: usize) -> (r: Option<(Relation, usize)>)
    requires
        pos <= cs.len(),
    ensures
        r matches Some((_, end)) ==> pos < end <= cs.len(),
        read_as(r, read_relation(cs@, pos as int)),
{
    if looking_at(cs, pos, &['!', '=']) {
        Some((Relation::NotEqual, skip_layout(cs, pos + 2)))
    } else if looking_at(cs, pos, &['<', '=']) {
        Some((Relation::LessEqual, skip_layout(cs, pos + 2)))
    } else if looking_at(cs, pos, &['>', '=']) {
        Some((Relation::GreaterEqual, skip_layout(cs, pos + 2)))
    } else if at(cs, pos, '<') {
        Some((Relation::Less, skip_layout(cs, pos + 1)))
    } else if at(cs, pos, '>') {
        Some((Relation::Greater, skip_layout(cs, pos + 1)))
    } else if at(cs, pos, '=') {
        Some((Relation::Equal, skip_layout(cs, pos + 1)))
    } else {
        None
    }
}

fn comparison(cs: &Vec<char>, pos: usize) -> (r: Option<(Comparison, usize)>)
    requires
        pos <= cs.len(),
    ensures
        r matches Some((_, end)) ==> pos < end <= cs.len(),
        read_as(r, read_comparison(cs@, pos as int)),
{
    let (lhs, p) = match term(cs, pos) {
        Some(x) => x,
        None => return None,
    };
    let (relation, q) = match relation(cs, p) {
        Some(x) => x,
        None => return None,
    };
    match term(cs, q) {
        Some((rhs, end)) => Some((Comparison { relation, lhs, rhs }, end)),
        None => None,
    }
}

fn atomic_formula(cs: &Vec<char>, pos: usize) -> (r: Option<(AtomicFormula, usize)>)
    requires
        pos <= cs.len(),
    ensures
        r matches Some((_, end)) ==> pos < end <= cs.len(),
        read_as(r, read_atomic_formula(cs@, pos as int)),
{
    if let Some((c, end)) = comparison(cs, pos) {
        return Some((AtomicFormula::Comparison(c), end));
    }
    match literal(cs, pos) {
        Some((l, end)) => Some((AtomicFormula::Literal(l), end)),
        None => None,
    }
}

/// A choice atom in braces, a basic atom, or nothing for a constraint.
fn head(cs: &Vec<char>, pos: usize) -> (r: Option<(Head, usize)>)
    requires
        pos <= cs.len(),
    ensures
        r matches Some((h, end)) ==> pos <= end <= cs.len() && (!(h is Falsity) ==> pos < end),
        read_as(r, read_head(cs@, pos as int)),
{
    if at(cs, pos, '{') {
        let p = skip_layout(cs, pos + 1);
        match atom(cs, p) {
            Some((a, q)) => {
                if at(cs, q, '}') {
                    Some((Head::Choice(a), skip_layout(cs, q + 1)))
                } else {
                    None
                }
            },
            None => None,
        }
    } else {
        match atom(cs, pos) {
            Some((a, end)) => Some((Head::Basic(a), end)),
            None => Some((Head::Falsity, pos)),
        }
    }
}

/// Comma-separated atomic formulas, possibly none.
fn body(cs: &Vec<char>, pos: usize) -> (r: Option<(Body, usize)>)
    requires
        pos <= cs.len(),
    ensures
        r matches Some((_, end)) ==> pos <= end <= cs.len(),
        read_as(r, read_body(cs@, pos as int)),
{
    let mut formulas: Vec<AtomicFormula> = Vec::new();
    assert(views(formulas@) =~= Seq::<AtomicFormulaModel>::empty());
    let (first, mut p) = match atomic_formula(cs, pos) {
        Some(x) => x,
        None => return Some((Body { formulas }, pos)),
    };
    formulas.push(first);
    assert(views(formulas@) =~= seq![first@]);
    loop
        invariant
            pos <= p <= cs.len(),
            read_body_rest(cs@, views(formulas@), p as int) == read_body(cs@, pos as int),
        decreases cs.len() - p,
    {
        if at(cs, p, ',') {
            let q = skip_layout(cs, p + 1);
            match atomic_formula(cs, q) {
                Some((f, end)) => {
                    let ghost before = views(formulas@);
                    formulas.push(f);
                    assert(views(formulas@) =~= before.push(f@));
                    p = end;
                },
                None => return None,
            }
        } else {
            return Some((Body { formulas }, p));
        }
    }
}

fn rule(cs: &Vec<char>, pos: usize) -> (r: Option<(Rule, usize)>)
    requires
        pos <= cs.len(),
    ensures
        r matches Some((_, end)) ==> pos < end <= cs.len(),
        read_as(r, read_rule(cs@, pos as int)),
{
    let (head, p) = match head(cs, pos) {
        Some(x) => x,
        None => return None,
    };
    if looking_at(cs, p, &[':', '-']) {
        let q = skip_layout(cs, p + 2);
        match body(cs, q) {
            Some((body, end)) => {
                if at(cs, end, '.') && !at(cs, end + 1, '.') {
                    Some((Rule { head, body }, skip_layout(cs, end + 1)))
                } else {
                    None
                }
            },
            None => None,
        }
    } else if !matches!(head, Head::Falsity) && at(cs, p, '.') {
        let r = Rule { head, body: Body { formulas: Vec::new() } };
        assert(r@.body.formulas =~= Seq::<AtomicFormulaModel>::empty());
        Some((r, skip_layout(cs, p + 1)))
    } else {
        None
    }
}

fn program(cs: &Vec<char>, pos: usize) -> (r: Option<(Program, usize)>)
    requires
        pos <= cs.len(),
    ensures
        r matches Some((_, end)) ==> pos <= end <= cs.len(),
        read_as(r, read_program(cs@, pos as int)),
{
    let mut rules: Vec<Rule> = Vec::new();
    let mut p = pos;
    assert(views(rules@) =~= Seq::<RuleModel>::empty());
    while p < cs.len()
        invariant
            pos <= p <= cs.len(),
            read_rules_from(cs@, views(rules@), p as int) == read_program(cs@, pos as int),
        decreases cs.len() - p,
    {
        match rule(cs, p) {
            Some((r, end)) => {
                let ghost before = views(rules@);
                rules.push(r);
                assert(views(rules@) =~= before.push(r@));
                p = end;
            },
            None => return None,
        }
    }
    Some((Program { rules }, p))
}


/// The unary operator: a minus sign.
pub open spec fn read_unary_operator(cs: Seq<char>, pos: int) -> Option<(UnaryOperator, int)> {
    if char_at(cs, pos, '-') { Some((UnaryOperator::Negative, layout_end(cs, pos + 1))) } else { None }
}

/// A binary operator on its own.
pub open spec fn read_binary_operator_token(cs: Seq<char>, pos: int) -> Option<(BinaryOperator, int)> {
    match read_binary_operator(cs, pos) {
        Some((op, _, len)) => Some((op, layout_end(cs, pos + len))),
        None => None,
    }
}

/// A sign on its own, which may be empty.
pub open spec fn read_sign_whole(cs: Seq<char>, pos: int) -> Option<(Sign, int)> {
    Some(read_sign(cs, pos))
}

pub struct PrecomputedTermParser;

impl Parser for PrecomputedTermParser {
    type Node = PrecomputedTerm;

    fn parse(input: &str) -> (r: Result<PrecomputedTerm, ParseError>)
        ensures
            reads_whole(r, read_precomputed_term(input@, layout_end(input@, 0)), input@.len() as int),
    {
        let (cs, p) = start(input);
        finish(precomputed_term(&cs, p), cs.len(), p)
    }
}

pub struct VariableParser;

impl Parser for VariableParser {
    type Node = Variable;

    fn parse(input: &str) -> (r: Result<Variable, ParseError>)
        ensures
            reads_whole(r, read_variable(input@, layout_end(input@, 0)), input@.len() as int),
    {
        let (cs, p) = start(input);
        finish(variable(&cs, p), cs.len(), p)
    }
}

pub struct TermParser;

impl Parser for TermParser {
    type Node = Term;

    fn parse(input: &str) -> (r: Result<Term, ParseError>)
        ensures
            reads_whole(r, read_term(input@, layout_end(input@, 0)), input@.len() as int),
    {
        let (cs, p) = start(input);
        finish(term(&cs, p), cs.len(), p)
    }
}

pub struct PredicateParser;

impl Parser for PredicateParser {
    type Node = Predicate;

    fn parse(input: &str) -> (r: Result<Predicate, ParseError>)
        ensures
            reads_whole(r, read_predicate(input@, layout_end(input@, 0)), input@.len() as int),
    {
        let (cs, p) = start(input);
        finish(predicate(&cs, p), cs.len(), p)
    }
}

pub struct AtomParser;

impl Parser for AtomParser {
    type Node = Atom;

    fn parse(input: &str) -> (r: Result<Atom, ParseError>)
        ensures
            reads_whole(r, read_atom(input@, layout_end(input@, 0)), input@.len() as int),
    {
        let (cs, p) = start(input);
        finish(atom(&cs, p), cs.len(), p)
    }
}

pub struct LiteralParser;

impl Parser for LiteralParser {
    type Node = Literal;

    fn parse(input: &str) -> (r: Result<Literal, ParseError>)
        ensures
            reads_whole(r, read_literal(input@, layout_end(input@, 0)), input@.len() as int),
    {
        let (cs, p) = start(input);
        finish(literal(&cs, p), cs.len(), p)
    }
}

pub struct RelationParser;

impl Parser for RelationParser {
    type Node = Relation;

    fn parse(input: &str) -> (r: Result<Relation, ParseError>)
        ensures
            reads_whole(r, read_relation(input@, layout_end(input@, 0)), input@.len() as int),
    {
        let (cs, p) = start(input);
        finish(relation(&cs, p), cs.len(), p)
    }
}

pub struct ComparisonParser;

impl Parser for ComparisonParser {
    type Node = Comparison;

    fn parse(input: &str) -> (r: Result<Comparison, ParseError>)
        ensures
            reads_whole(r, read_comparison(input@, layout_end(input@, 0)), input@.len() as int),
    {
        let (cs, p) = start(input);
        finish(comparison(&cs, p), cs.len(), p)
    }
}

pub struct AtomicFormulaParser;

impl Parser for AtomicFormulaParser {
    type Node = AtomicFormula;

    fn parse(input: &str) -> (r: Result<AtomicFormula, ParseError>)
        ensures
            reads_whole(r, read_atomic_formula(input@, layout_end(input@, 0)), input@.len() as int),
    {
        let (cs, p) = start(input);
        finish(atomic_formula(&cs, p), cs.len(), p)
    }
}

pub struct HeadParser;

impl Parser for HeadParser {
    type Node = Head;

    fn parse(input: &str) -> (r: Result<Head, ParseError>)
        ensures
            reads_whole(r, read_head(input@, layout_end(input@, 0)), input@.len() as int),
    {
        let (cs, p) = start(input);
        finish(head(&cs, p), cs.len(), p)
    }
}

pub struct BodyParser;

impl Parser for BodyParser {
    type Node = Body;

    fn parse(input: &str) -> (r: Result<Body, ParseError>)
        ensures
            reads_whole(r, read_body(input@, layout_end(input@, 0)), input@.len() as int),
    {
        let (cs, p) = start(input);
        finish(body(&cs, p), cs.len(), p)
    }
}

pub struct RuleParser;

impl Parser for RuleParser {
    type Node = Rule;

    fn parse(input: &str) -> (r: Result<Rule, ParseError>)
        ensures
            reads_whole(r, read_rule(input@, layout_end(input@, 0)), input@.len() as int),
    {
        let (cs, p) = start(input);
        finish(rule(&cs, p), cs.len(), p)
    }
}

pub struct ProgramParser;

impl Parser for ProgramParser {
    type Node = Program;

    fn parse(input: &str) -> (r: Result<Program, ParseError>)
        ensures
            reads_whole(r, read_program(input@, layout_end(input@, 0)), input@.len() as int),
    {
        let (cs, p) = start(input);
        finish(program(&cs, p), cs.len(), p)
    }
}

pub struct UnaryOperatorParser;

impl Parser for UnaryOperatorParser {
    type Node = UnaryOperator;

    fn parse(input: &str) -> (r: Result<UnaryOperator, ParseError>)
        ensures
            reads_whole(r, read_unary_operator(input@, layout_end(input@, 0)), input@.len() as int),
    {
        let (cs, p) = start(input);
        if at(&cs, p, '-') {
            finish(Some((UnaryOperator::Negative, skip_layout(&cs, p + 1))), cs.len(), p)
        } else {
            Err(ParseError { position: p })
        }
    }
}

pub struct BinaryOperatorParser;

impl Parser for BinaryOperatorParser {
    type Node = BinaryOperator;

    fn parse(input: &str) -> (r: Result<BinaryOperator, ParseError>)
        ensures
            reads_whole(r, read_binary_operator_token(input@, layout_end(input@, 0)), input@.len() as int),
    {
        let (cs, p) = start(input);
        match binary_operator(&cs, p) {
            Some((op, _, len)) => finish(Some((op, skip_layout(&cs, p + len))), cs.len(), p),
            None => Err(ParseError { position: p }),
        }
    }
}

pub struct SignParser;

impl Parser for SignParser {
    type Node = Sign;

    fn parse(input: &str) -> (r: Result<Sign, ParseError>)
        ensures
            reads_whole(r, read_sign_whole(input@, layout_end(input@, 0)), input@.len() as int),
    {
        let (cs, p) = start(input);
        finish(Some(sign(&cs, p)), cs.len(), p)
    }
}

impl std::str::FromStr for PrecomputedTerm {
    type Err = ParseError;

    fn from_str(s: &str) -> Result<PrecomputedTerm, ParseError> {
        PrecomputedTermParser::parse(s)
    }
}

impl std::str::FromStr for Variable {
    type Err = ParseError;

    fn from_str(s: &str) -> Result<Variable, ParseError> {
        VariableParser::parse(s)
    }
}

impl std::str::FromStr for Term {
    type Err = ParseError;

    fn from_str(s: &str) -> Result<Term, ParseError> {
        TermParser::parse(s)
    }
}

impl std::str::FromStr for Predicate {
    type Err = ParseError;

    fn from_str(s: &str) -> Result<Predicate, ParseError> {
        PredicateParser::parse(s)
    }
}

impl std::str::FromStr for Atom {
    type Err = ParseError;

    fn from_str(s: &str) -> Result<Atom, ParseError> {
        AtomParser::parse(s)
    }
}

impl std::str::FromStr for Literal {
    type Err = ParseError;

    fn from_str(s: &str) -> Result<Literal, ParseError> {
        LiteralParser::parse(s)
    }
}

impl std::str::FromStr for Relation {
    type Err = ParseError;

    fn from_str(s: &str) -> Result<Relation, ParseError> {
        RelationParser::parse(s)
    }
}

impl std::str::FromStr for Comparison {
    type Err = ParseError;

    fn from_str(s: &str) -> Result<Comparison, ParseError> {
        ComparisonParser::parse(s)
    }
}

impl std::str::FromStr for AtomicFormula {
    type Err = ParseError;

    fn from_str(s: &str) -> Result<AtomicFormula, ParseError> {
        AtomicFormulaParser::parse(s)
    }
}

impl std::str::FromStr for Head {
    type Err = ParseError;

    fn from_str(s: &str) -> Result<Head, ParseError> {
        HeadParser::parse(s)
    }
}

impl std::str::FromStr for Body {
    type Err = ParseError;

    fn from_str(s: &str) -> Result<Body, ParseError> {
        BodyParser::parse(s)
    }
}

impl std::str::FromStr for Rule {
    type Err = ParseError;

    fn from_str(s: &str) -> Result<Rule, ParseError> {
        RuleParser::parse(s)
    }
}

impl std::str::FromStr for Program {
    type Err = ParseError;

    fn from_str(s: &str) -> Result<Program, ParseError> {
        ProgramParser::parse(s)
    }
}

impl std::str::FromStr for UnaryOperator {
    type Err = ParseError;

    fn from_str(s: &str) -> Result<UnaryOperator, ParseError> {
        UnaryOperatorParser::parse(s)
    }
}

impl std::str::FromStr for BinaryOperator {
    type Err = ParseError;

    fn from_str(s: &str) -> Result<BinaryOperator, ParseError> {
        BinaryOperatorParser::parse(s)
    }
}

impl std::str::FromStr for Sign {
    type Err = ParseError;

    fn from_str(s: &str) -> Result<Sign, ParseError> {
        SignParser::parse(s)
    }
}

} // verus!
