//! Reading back what the formatter writes, for terms: the default text of a
//! valid term reads as the term again.

use crate::convenience::text::{all_digits, decimal, digit_char, digits_value, integer_text, lemma_decimal_digits, lemma_decimal_nonempty};
use crate::formatting::asp::{operator_text, precomputed_text, term_precedence, term_text, wrap};
use crate::parsing::asp::{
    char_at, read_binary_operator, read_extremum, read_integer, read_precomputed_term, read_symbol,
    read_term_expr, read_term_primary, read_term_rest, read_term_unary, read_variable,
};
use crate::parsing::lexer::{
    digit_run_end, is_digit, is_lower, is_space, is_symbol_name, is_upper, is_variable_name, is_word_char,
    layout_end, natural_end, symbol_name_end, text_at, underscore_run_end, variable_name_end, word_at,
    word_run_end,
};
use crate::syntax_tree::asp::{BinaryOperator, PrecomputedTermModel, TermModel, UnaryOperator, VariableModel};
use vstd::prelude::*;

verus! {

// ================================================================ text

/// Whether a word ends at `e`: the text ends there, or a character that
/// cannot continue a word follows.
pub open spec fn boundary(cs: Seq<char>, e: int) -> bool {
    e == cs.len() || (0 <= e < cs.len() && !is_word_char(cs[e]))
}

pub proof fn lemma_text_at_concat(cs: Seq<char>, pos: int, a: Seq<char>, b: Seq<char>)
    requires
        text_at(cs, pos, a + b),
    ensures
        text_at(cs, pos, a),
        text_at(cs, pos + a.len(), b),
{
    let w = cs.subrange(pos, pos + (a + b).len());
    assert(w == a + b);
    assert(cs.subrange(pos, pos + a.len()) =~= w.subrange(0, a.len() as int));
    assert(w.subrange(0, a.len() as int) =~= a);
    assert(cs.subrange(pos + a.len(), pos + a.len() + b.len()) =~= w.subrange(a.len() as int, w.len() as int));
    assert(w.subrange(a.len() as int, w.len() as int) =~= b);
}

pub proof fn lemma_text_at_char(cs: Seq<char>, pos: int, a: Seq<char>, i: int)
    requires
        text_at(cs, pos, a),
        0 <= i < a.len(),
    ensures
        cs[pos + i] == a[i],
{
    assert(cs.subrange(pos, pos + a.len())[i] == cs[pos + i]);
}

/// Layout ends at the first character that is neither white space nor `%`.
pub proof fn lemma_layout_end_at(cs: Seq<char>, p: int)
    requires
        0 <= p <= cs.len(),
        p == cs.len() || (!is_space(cs[p]) && cs[p] != '%'),
    ensures
        layout_end(cs, p) == p,
{
}

/// A single space before a character that is neither white space nor `%` is skipped.
pub proof fn lemma_layout_end_space(cs: Seq<char>, p: int)
    requires
        0 <= p < cs.len(),
        cs[p] == ' ',
        p + 1 == cs.len() || (!is_space(cs[p + 1]) && cs[p + 1] != '%'),
    ensures
        layout_end(cs, p) == p + 1,
{
    assert(layout_end(cs, p) == layout_end(cs, p + 1));
}

// ================================================================ runs of characters

pub proof fn lemma_word_run_end(cs: Seq<char>, p: int, e: int)
    requires
        0 <= p <= e <= cs.len(),
        forall|k: int| p <= k < e ==> is_word_char(#[trigger] cs[k]),
        boundary(cs, e),
    ensures
        word_run_end(cs, p) == e,
    decreases e - p,
{
    if p < e {
        lemma_word_run_end(cs, p + 1, e);
    }
}

pub proof fn lemma_digit_run_end(cs: Seq<char>, p: int, e: int)
    requires
        0 <= p <= e <= cs.len(),
        forall|k: int| p <= k < e ==> is_digit(#[trigger] cs[k]),
        boundary(cs, e),
    ensures
        digit_run_end(cs, p) == e,
    decreases e - p,
{
    if p < e {
        lemma_digit_run_end(cs, p + 1, e);
    }
}

pub proof fn lemma_underscore_run_end(cs: Seq<char>, p: int, e: int)
    requires
        0 <= p <= e < cs.len(),
        forall|k: int| p <= k < e ==> #[trigger] cs[k] == '_',
        cs[e] != '_',
    ensures
        underscore_run_end(cs, p) == e,
    decreases e - p,
{
    if p < e {
        lemma_underscore_run_end(cs, p + 1, e);
    }
}

// ================================================================ numerals

pub proof fn lemma_digit_char(d: nat)
    requires
        d < 10,
    ensures
        is_digit(digit_char(d)),
        digit_char(d) as nat - '0' as nat == d,
{
}

pub proof fn lemma_decimal_value(n: nat)
    ensures
        digits_value(decimal(n)) == n,
        n >= 1 ==> decimal(n)[0] != '0',
        all_digits(decimal(n)),
        decimal(n).len() >= 1,
    decreases n,
{
    lemma_decimal_digits(n);
    lemma_decimal_nonempty(n);
    if n >= 10 {
        lemma_decimal_value(n / 10);
        lemma_digit_char(n % 10);
        assert(decimal(n).drop_last() == decimal(n / 10));
        assert(decimal(n).last() == digit_char(n % 10));
        assert(decimal(n)[0] == decimal(n / 10)[0]);
        assert(digits_value(decimal(n)) == digits_value(decimal(n / 10)) * 10 + (n % 10));
        assert((n / 10) * 10 + n % 10 == n);
    } else {
        lemma_digit_char(n);
        assert(decimal(n).drop_last() =~= Seq::<char>::empty());
        assert(decimal(n).last() == digit_char(n));
        assert(digits_value(decimal(n)) == digits_value(Seq::<char>::empty()) * 10 + (n as int));
    }
}

pub proof fn lemma_read_natural(cs: Seq<char>, p: int, n: nat)
    requires
        0 <= p,
        text_at(cs, p, decimal(n)),
        boundary(cs, p + decimal(n).len()),
    ensures
        natural_end(cs, p) == Some(p + decimal(n).len()),
        digits_value(cs.subrange(p, p + decimal(n).len())) == n,
{
    lemma_decimal_value(n);
    let e = p + decimal(n).len();
    assert forall|k: int| p <= k < e implies is_digit(#[trigger] cs[k]) by {
        lemma_text_at_char(cs, p, decimal(n), k - p);
    }
    lemma_text_at_char(cs, p, decimal(n), 0);
    if cs[p] == '0' {
        assert(decimal(n).len() == 1) by {
            if n >= 10 {
                assert(decimal(n)[0] != '0');
            }
        }
    } else {
        lemma_digit_run_end(cs, p, e);
    }
}

/// The text of a numeral other than the least one reads as the numeral.
pub proof fn lemma_read_numeral(cs: Seq<char>, pos: int, n: isize)
    requires
        0 <= pos,
        n != isize::MIN,
        text_at(cs, pos, integer_text(n as int)),
        boundary(cs, pos + integer_text(n as int).len()),
    ensures
        read_integer(cs, pos) == Some((n, layout_end(cs, pos + integer_text(n as int).len()))),
{
    if n < 0 {
        let m = (-n) as nat;
        lemma_text_at_concat(cs, pos, seq!['-'], decimal(m));
        lemma_text_at_char(cs, pos, seq!['-'], 0);
        lemma_read_natural(cs, pos + 1, m);
        lemma_decimal_value(m);
        lemma_text_at_char(cs, pos + 1, decimal(m), 0);
        assert(m <= isize::MAX);
    } else {
        let m = n as nat;
        lemma_read_natural(cs, pos, m);
        lemma_decimal_value(m);
        lemma_text_at_char(cs, pos, decimal(m), 0);
    }
}

pub proof fn lemma_read_symbol(cs: Seq<char>, pos: int, s: Seq<char>)
    requires
        0 <= pos,
        is_symbol_name(s),
        s != seq!['n', 'o', 't'],
        text_at(cs, pos, s),
        boundary(cs, pos + s.len()),
    ensures
        read_symbol(cs, pos) == Some((s, layout_end(cs, pos + s.len()))),
        symbol_name_end(cs, pos) == Some(pos + s.len()),
{
    let u = choose|u: int| 0 <= u < s.len() && is_lower(s[u])
        && (forall|k: int| 0 <= k < u ==> s[k] == '_')
        && (forall|k: int| u < k < s.len() ==> is_word_char(#[trigger] s[k]));
    assert forall|k: int| pos <= k < pos + u implies #[trigger] cs[k] == '_' by {
        lemma_text_at_char(cs, pos, s, k - pos);
    }
    lemma_text_at_char(cs, pos, s, u);
    lemma_underscore_run_end(cs, pos, pos + u);
    assert forall|k: int| pos + u <= k < pos + s.len() implies is_word_char(#[trigger] cs[k]) by {
        lemma_text_at_char(cs, pos, s, k - pos);
    }
    lemma_word_run_end(cs, pos + u, pos + s.len());
}

pub proof fn lemma_read_variable_name(cs: Seq<char>, pos: int, s: Seq<char>)
    requires
        0 <= pos,
        is_variable_name(s),
        text_at(cs, pos, s),
        boundary(cs, pos + s.len()),
    ensures
        read_variable(cs, pos) == Some((VariableModel(s), layout_end(cs, pos + s.len()))),
        variable_name_end(cs, pos) == Some(pos + s.len()),
{
    lemma_text_at_char(cs, pos, s, 0);
    assert forall|k: int| pos + 1 <= k < pos + s.len() implies is_word_char(#[trigger] cs[k]) by {
        lemma_text_at_char(cs, pos, s, k - pos);
    }
    lemma_word_run_end(cs, pos + 1, pos + s.len());
}

// ================================================================ terms

/// The precedence with which the parser reads the operator of a binary operation.
pub open spec fn operator_binding(op: BinaryOperator) -> u8 {
    match op {
        BinaryOperator::Interval => 1,
        BinaryOperator::Add | BinaryOperator::Subtract => 2,
        _ => 3,
    }
}

/// How tightly a term holds together when it is read: the binding of its
/// operator, or more than any operator where it has none.
pub open spec fn binding(t: TermModel) -> u8 {
    match t {
        TermModel::BinaryOperation { op, .. } => operator_binding(op),
        _ => 4,
    }
}

pub open spec fn valid_precomputed(c: PrecomputedTermModel) -> bool {
    match c {
        PrecomputedTermModel::Numeral(n) => n != isize::MIN,
        PrecomputedTermModel::Symbol(s) => is_symbol_name(s) && s != seq!['n', 'o', 't'],
        _ => true,
    }
}

/// A term whose text reads back as itself: its symbols and variables are
/// well-formed names, its numerals have a negation, and no minus sign stands
/// directly before the numeral zero.
pub open spec fn valid_term(t: TermModel) -> bool
    decreases t,
{
    match t {
        TermModel::PrecomputedTerm(c) => valid_precomputed(c),
        TermModel::Variable(v) => is_variable_name(v.0),
        TermModel::UnaryOperation { arg, .. } =>
            valid_term(*arg) && *arg != TermModel::PrecomputedTerm(PrecomputedTermModel::Numeral(0)),
        TermModel::BinaryOperation { lhs, rhs, .. } => valid_term(*lhs) && valid_term(*rhs),
    }
}

/// Whether an operator that may follow at `q` binds no tighter than `k`.
pub open spec fn operator_bound(cs: Seq<char>, q: int, k: u8) -> bool {
    match read_binary_operator(cs, q) {
        Some((_, prec, _)) => prec <= k,
        None => true,
    }
}

pub proof fn lemma_operator_text(cs: Seq<char>, p: int, op: BinaryOperator)
    requires
        0 <= p,
        text_at(cs, p, operator_text(op)),
        p + operator_text(op).len() < cs.len(),
        !is_space(cs[p + operator_text(op).len()]) && cs[p + operator_text(op).len()] != '%',
    ensures
        boundary(cs, p),
        read_binary_operator(cs, layout_end(cs, p)) == Some((op, operator_binding(op), if op is Interval { 2int } else { 1int })),
        layout_end(cs, layout_end(cs, p) + (if op is Interval { 2int } else { 1int })) == p + operator_text(op).len(),
        layout_end(cs, p) == (if op is Interval { p } else { p + 1 }),
{
    reveal_strlit(" + ");
    reveal_strlit(" - ");
    reveal_strlit(" * ");
    reveal_strlit(" / ");
    reveal_strlit(" \\ ");
    reveal_strlit("..");
    let o = operator_text(op);
    lemma_text_at_char(cs, p, o, 0);
    lemma_text_at_char(cs, p, o, 1);
    if op is Interval {
        assert(cs.subrange(p, p + 2) =~= seq!['.', '.']);
        lemma_layout_end_at(cs, p + 2);
    } else {
        lemma_text_at_char(cs, p, o, 2);
        lemma_layout_end_space(cs, p);
        lemma_layout_end_space(cs, p + 2);
        assert(cs[p + 1] != '.');
    }
}

pub proof fn lemma_term_text_start(t: TermModel)
    requires
        valid_term(t),
    ensures
        term_text(t).len() > 0,
        !is_space(term_text(t)[0]),
        term_text(t)[0] != '%',
        term_text(t)[0] != '(' ==> !(t is BinaryOperation) || term_text(t)[0] == term_text(*t->lhs)[0],
    decreases t,
{
    reveal_strlit("#inf");
    reveal_strlit("#sup");
    reveal_strlit("-");
    reveal_strlit("(");
    match t {
        TermModel::PrecomputedTerm(c) => match c {
            PrecomputedTermModel::Numeral(n) => {
                if n < 0 {
                    lemma_decimal_value((-n) as nat);
                } else {
                    lemma_decimal_value(n as nat);
                    assert(is_digit(term_text(t)[0]));
                }
            },
            PrecomputedTermModel::Symbol(s) => {
                let u = choose|u: int| 0 <= u < s.len() && is_lower(s[u])
                    && (forall|k: int| 0 <= k < u ==> s[k] == '_')
                    && (forall|k: int| u < k < s.len() ==> is_word_char(#[trigger] s[k]));
                if u > 0 {
                    assert(s[0] == '_');
                }
            },
            _ => {},
        },
        TermModel::Variable(v) => {},
        TermModel::UnaryOperation { arg, .. } => {},
        TermModel::BinaryOperation { op, lhs, rhs } => {
            lemma_term_text_start(*lhs);
        },
    }
}

pub proof fn lemma_read_precomputed(cs: Seq<char>, pos: int, c: PrecomputedTermModel)
    requires
        0 <= pos,
        valid_precomputed(c),
        text_at(cs, pos, precomputed_text(c)),
        boundary(cs, pos + precomputed_text(c).len()),
    ensures
        read_precomputed_term(cs, pos) == Some((c, layout_end(cs, pos + precomputed_text(c).len()))),
{
    reveal_strlit("#inf");
    reveal_strlit("#sup");
    let t = precomputed_text(c);
    lemma_term_text_start(TermModel::PrecomputedTerm(c));
    lemma_text_at_char(cs, pos, t, 0);
    match c {
        PrecomputedTermModel::Infimum => {
            assert(cs.subrange(pos, pos + 4) =~= seq!['#', 'i', 'n', 'f']);
            assert(!word_at(cs, pos, seq!['#', 'i', 'n', 'f', 'i', 'm', 'u', 'm'])) by {
                if pos + 8 <= cs.len() && cs.subrange(pos, pos + 8) == seq!['#', 'i', 'n', 'f', 'i', 'm', 'u', 'm'] {
                    assert(cs.subrange(pos, pos + 8)[4] == cs[pos + 4]);
                }
            }
        },
        PrecomputedTermModel::Supremum => {
            assert(cs.subrange(pos, pos + 4) =~= seq!['#', 's', 'u', 'p']);
            assert(!word_at(cs, pos, seq!['#', 's', 'u', 'p', 'r', 'e', 'm', 'u', 'm'])) by {
                if pos + 9 <= cs.len() && cs.subrange(pos, pos + 9) == seq!['#', 's', 'u', 'p', 'r', 'e', 'm', 'u', 'm'] {
                    assert(cs.subrange(pos, pos + 9)[4] == cs[pos + 4]);
                }
            }
            assert(!word_at(cs, pos, seq!['#', 'i', 'n', 'f', 'i', 'm', 'u', 'm'])) by {
                if pos + 8 <= cs.len() && cs.subrange(pos, pos + 8) == seq!['#', 'i', 'n', 'f', 'i', 'm', 'u', 'm'] {
                    assert(cs.subrange(pos, pos + 8)[1] == cs[pos + 1]);
                    lemma_text_at_char(cs, pos, t, 1);
                }
            }
            assert(!word_at(cs, pos, seq!['#', 'i', 'n', 'f'])) by {
                if pos + 4 <= cs.len() && cs.subrange(pos, pos + 4) == seq!['#', 'i', 'n', 'f'] {
                    assert(cs.subrange(pos, pos + 4)[1] == cs[pos + 1]);
                    lemma_text_at_char(cs, pos, t, 1);
                }
            }
        },
        PrecomputedTermModel::Numeral(n) => {
            lemma_read_numeral(cs, pos, n);
            assert(cs[pos] != '#') by {
                if n < 0 {
                    lemma_decimal_value((-n) as nat);
                } else {
                    lemma_decimal_value(n as nat);
                }
            }
            assert(!word_at(cs, pos, seq!['#', 'i', 'n', 'f', 'i', 'm', 'u', 'm'])) by {
                if pos + 8 <= cs.len() && cs.subrange(pos, pos + 8) == seq!['#', 'i', 'n', 'f', 'i', 'm', 'u', 'm'] {
                    assert(cs.subrange(pos, pos + 8)[0] == cs[pos]);
                }
            }
            assert(!word_at(cs, pos, seq!['#', 'i', 'n', 'f'])) by {
                if pos + 4 <= cs.len() && cs.subrange(pos, pos + 4) == seq!['#', 'i', 'n', 'f'] {
                    assert(cs.subrange(pos, pos + 4)[0] == cs[pos]);
                }
            }
            assert(!word_at(cs, pos, seq!['#', 's', 'u', 'p', 'r', 'e', 'm', 'u', 'm'])) by {
                if pos + 9 <= cs.len() && cs.subrange(pos, pos + 9) == seq!['#', 's', 'u', 'p', 'r', 'e', 'm', 'u', 'm'] {
                    assert(cs.subrange(pos, pos + 9)[0] == cs[pos]);
                }
            }
            assert(!word_at(cs, pos, seq!['#', 's', 'u', 'p'])) by {
                if pos + 4 <= cs.len() && cs.subrange(pos, pos + 4) == seq!['#', 's', 'u', 'p'] {
                    assert(cs.subrange(pos, pos + 4)[0] == cs[pos]);
                }
            }
        },
        PrecomputedTermModel::Symbol(sym) => {
            lemma_read_symbol(cs, pos, sym);
            let u = choose|u: int| 0 <= u < sym.len() && is_lower(sym[u])
                && (forall|k: int| 0 <= k < u ==> sym[k] == '_')
                && (forall|k: int| u < k < sym.len() ==> is_word_char(#[trigger] sym[k]));
            if u > 0 {
                assert(sym[0] == '_');
            }
            assert(cs[pos] != '#' && cs[pos] != '-' && !is_digit(cs[pos]));
            assert(!word_at(cs, pos, seq!['#', 'i', 'n', 'f', 'i', 'm', 'u', 'm'])) by {
                if pos + 8 <= cs.len() && cs.subrange(pos, pos + 8) == seq!['#', 'i', 'n', 'f', 'i', 'm', 'u', 'm'] {
                    assert(cs.subrange(pos, pos + 8)[0] == cs[pos]);
                }
            }
            assert(!word_at(cs, pos, seq!['#', 'i', 'n', 'f'])) by {
                if pos + 4 <= cs.len() && cs.subrange(pos, pos + 4) == seq!['#', 'i', 'n', 'f'] {
                    assert(cs.subrange(pos, pos + 4)[0] == cs[pos]);
                }
            }
            assert(!word_at(cs, pos, seq!['#', 's', 'u', 'p', 'r', 'e', 'm', 'u', 'm'])) by {
                if pos + 9 <= cs.len() && cs.subrange(pos, pos + 9) == seq!['#', 's', 'u', 'p', 'r', 'e', 'm', 'u', 'm'] {
                    assert(cs.subrange(pos, pos + 9)[0] == cs[pos]);
                }
            }
            assert(!word_at(cs, pos, seq!['#', 's', 'u', 'p'])) by {
                if pos + 4 <= cs.len() && cs.subrange(pos, pos + 4) == seq!['#', 's', 'u', 'p'] {
                    assert(cs.subrange(pos, pos + 4)[0] == cs[pos]);
                }
            }
        },
    }
}

pub proof fn lemma_term_precedence(t: TermModel)
    ensures
        t is BinaryOperation ==> term_precedence(t) == 5 - binding(t),
        !(t is BinaryOperation) ==> term_precedence(t) <= 1 && binding(t) == 4,
        1 <= binding(t) <= 4,
{
}

pub proof fn lemma_wrap(text: Seq<char>, paren: bool)
    ensures
        paren ==> wrap(text, paren) == seq!['('] + text + seq![')'],
        !paren ==> wrap(text, paren) == text,
{
    reveal_strlit("(");
    reveal_strlit(")");
    assert("("@ =~= seq!['(']);
    assert(")"@ =~= seq![')']);
}

/// A term that binds tightest and is not zero does not begin with a digit.
pub proof fn lemma_first_char_not_digit(t: TermModel)
    requires
        valid_term(t),
        term_precedence(t) == 0,
        t != TermModel::PrecomputedTerm(PrecomputedTermModel::Numeral(0)),
    ensures
        term_text(t).len() > 0,
        !is_digit(term_text(t)[0]),
{
    reveal_strlit("#inf");
    reveal_strlit("#sup");
    reveal_strlit("-");
    lemma_term_text_start(t);
    match t {
        TermModel::PrecomputedTerm(PrecomputedTermModel::Numeral(n)) => {
            assert(n < 0);
            lemma_decimal_value((-n) as nat);
        },
        TermModel::PrecomputedTerm(PrecomputedTermModel::Symbol(sym)) => {
            assert(is_symbol_name(sym));
            let u = choose|u: int| 0 <= u < sym.len() && is_lower(sym[u])
                && (forall|k: int| 0 <= k < u ==> sym[k] == '_')
                && (forall|k: int| u < k < sym.len() ==> is_word_char(#[trigger] sym[k]));
            if u > 0 {
                assert(sym[0] == '_');
            }
        },
        TermModel::Variable(v) => {
            assert(is_variable_name(v.0));
        },
        _ => {},
    }
}

/// The text of a term without a binary operator at its top reads as the term.
pub proof fn lemma_read_unary_term(cs: Seq<char>, pos: int, t: TermModel)
    requires
        0 <= pos,
        valid_term(t),
        !(t is BinaryOperation),
        text_at(cs, pos, term_text(t)),
        boundary(cs, pos + term_text(t).len()),
    ensures
        read_term_unary(cs, pos) == Some((t, layout_end(cs, pos + term_text(t).len()))),
    decreases t, 0nat,
{
    reveal_strlit("-");
    reveal_strlit("(");
    reveal_strlit(")");
    reveal_strlit("#inf");
    reveal_strlit("#sup");
    let text = term_text(t);
    lemma_term_text_start(t);
    lemma_text_at_char(cs, pos, text, 0);
    match t {
        TermModel::PrecomputedTerm(c) => {
            lemma_read_precomputed(cs, pos, c);
            assert(text == precomputed_text(c));
            assert(cs[pos] == text[0]);
            if let PrecomputedTermModel::Numeral(n) = c {
                if n < 0 {
                    lemma_decimal_value((-n) as nat);
                    lemma_text_at_concat(cs, pos, seq!['-'], decimal((-n) as nat));
                    lemma_text_at_char(cs, pos + 1, decimal((-n) as nat), 0);
                } else {
                    lemma_decimal_value(n as nat);
                }
            }
            if let PrecomputedTermModel::Symbol(sym) = c {
                let u = choose|u: int| 0 <= u < sym.len() && is_lower(sym[u])
                    && (forall|k: int| 0 <= k < u ==> sym[k] == '_')
                    && (forall|k: int| u < k < sym.len() ==> is_word_char(#[trigger] sym[k]));
                if u > 0 {
                    assert(sym[0] == '_');
                }
            }
            assert(!char_at(cs, pos, '('));
            assert(read_term_primary(cs, pos) == Some((t, layout_end(cs, pos + text.len()))));
            assert(!(char_at(cs, pos, '-') && !(pos + 1 < cs.len() && is_digit(cs[pos + 1]))));
        },
        TermModel::Variable(v) => {
            lemma_read_variable_name(cs, pos, v.0);
            assert(is_upper(cs[pos]));
            assert(!word_at(cs, pos, seq!['#', 'i', 'n', 'f', 'i', 'm', 'u', 'm'])) by {
                if pos + 8 <= cs.len() && cs.subrange(pos, pos + 8) == seq!['#', 'i', 'n', 'f', 'i', 'm', 'u', 'm'] {
                    assert(cs.subrange(pos, pos + 8)[0] == cs[pos]);
                }
            }
            assert(!word_at(cs, pos, seq!['#', 'i', 'n', 'f'])) by {
                if pos + 4 <= cs.len() && cs.subrange(pos, pos + 4) == seq!['#', 'i', 'n', 'f'] {
                    assert(cs.subrange(pos, pos + 4)[0] == cs[pos]);
                }
            }
            assert(!word_at(cs, pos, seq!['#', 's', 'u', 'p', 'r', 'e', 'm', 'u', 'm'])) by {
                if pos + 9 <= cs.len() && cs.subrange(pos, pos + 9) == seq!['#', 's', 'u', 'p', 'r', 'e', 'm', 'u', 'm'] {
                    assert(cs.subrange(pos, pos + 9)[0] == cs[pos]);
                }
            }
            assert(!word_at(cs, pos, seq!['#', 's', 'u', 'p'])) by {
                if pos + 4 <= cs.len() && cs.subrange(pos, pos + 4) == seq!['#', 's', 'u', 'p'] {
                    assert(cs.subrange(pos, pos + 4)[0] == cs[pos]);
                }
            }
            assert(underscore_run_end(cs, pos) == pos);
            assert(read_extremum(cs, pos) is None);
            assert(read_integer(cs, pos) is None);
            assert(read_symbol(cs, pos) is None);
        },
        TermModel::UnaryOperation { op, arg } => {
            let a = *arg;
            let paren = term_precedence(a) > 0;
            let w = wrap(term_text(a), paren);
            assert(text == seq!['-'] + w);
            lemma_text_at_concat(cs, pos, seq!['-'], w);
            lemma_term_text_start(a);
            lemma_term_precedence(a);
            lemma_wrap(term_text(a), paren);
            if paren {
                lemma_text_at_char(cs, pos + 1, w, 0);
                lemma_layout_end_at(cs, pos + 1);
                lemma_read_wrapped(cs, pos + 1, a);
            } else {
                lemma_text_at_char(cs, pos + 1, w, 0);
                lemma_first_char_not_digit(a);
                lemma_layout_end_at(cs, pos + 1);
                lemma_read_unary_term(cs, pos + 1, a);
            }
        },
        TermModel::BinaryOperation { .. } => {},
    }
}

/// The text of a term in parentheses reads as the term.
pub proof fn lemma_read_wrapped(cs: Seq<char>, pos: int, t: TermModel)
    requires
        0 <= pos,
        valid_term(t),
        text_at(cs, pos, seq!['('] + term_text(t) + seq![')']),
    ensures
        read_term_unary(cs, pos) == Some((t, layout_end(cs, pos + term_text(t).len() + 2))),
        read_term_primary(cs, pos) == Some((t, layout_end(cs, pos + term_text(t).len() + 2))),
    decreases t, 2nat,
{
    let text = term_text(t);
    let e = pos + 1 + text.len();
    lemma_text_at_concat(cs, pos, seq!['('] + text, seq![')']);
    lemma_text_at_concat(cs, pos, seq!['('], text);
    lemma_text_at_char(cs, pos, seq!['('], 0);
    lemma_text_at_char(cs, e, seq![')'], 0);
    lemma_term_text_start(t);
    lemma_text_at_char(cs, pos + 1, text, 0);
    lemma_layout_end_at(cs, pos + 1);
    lemma_layout_end_at(cs, e);
    lemma_term_precedence(t);
    lemma_read_spine(cs, pos + 1, t, 0);
}

/// Reading the text of a term from `pos` with precedence `min` reaches the
/// point after the whole term, where the operators that may follow are read.
pub proof fn lemma_read_spine(cs: Seq<char>, pos: int, t: TermModel, min: u8)
    requires
        0 <= pos,
        valid_term(t),
        text_at(cs, pos, term_text(t)),
        boundary(cs, pos + term_text(t).len()),
        min < binding(t),
        operator_bound(cs, layout_end(cs, pos + term_text(t).len()), binding(t)),
    ensures
        read_term_expr(cs, pos, min) == read_term_rest(cs, t, layout_end(cs, pos + term_text(t).len()), min),
    decreases t, 1nat,
{
    let e = pos + term_text(t).len();
    lemma_term_text_start(t);
    crate::parsing::lexer::lemma_layout_end_bounds(cs, e);
    match t {
        TermModel::BinaryOperation { op, lhs, rhs } => {
            let a = *lhs;
            let b = *rhs;
            let k = operator_binding(op);
            lemma_term_precedence(t);
            lemma_term_precedence(a);
            lemma_term_precedence(b);
            let wa = term_precedence(t) < term_precedence(a);
            let wb = term_precedence(t) <= term_precedence(b);
            let ta = wrap(term_text(a), wa);
            let o = operator_text(op);
            let tb = wrap(term_text(b), wb);
            lemma_wrap(term_text(a), wa);
            lemma_wrap(term_text(b), wb);
            assert(term_text(t) == ta + o + tb);
            lemma_text_at_concat(cs, pos, ta + o, tb);
            lemma_text_at_concat(cs, pos, ta, o);
            let ea = pos + ta.len();
            let sb = ea + o.len();
            lemma_term_text_start(a);
            lemma_term_text_start(b);
            reveal_strlit("(");
            reveal_strlit(")");
            if wb {
                lemma_text_at_char(cs, sb, tb, 0);
            } else {
                lemma_text_at_char(cs, sb, tb, 0);
            }
            lemma_operator_text(cs, ea, op);
            let qa = layout_end(cs, ea);
            // the left operand
            if wa {
                lemma_read_wrapped(cs, pos, a);
                crate::parsing::lexer::lemma_layout_end_bounds(cs, ea);
            } else {
                lemma_read_spine(cs, pos, a, min);
            }
            assert(read_term_expr(cs, pos, min) == read_term_rest(cs, a, qa, min));
            // the right operand
            let q = layout_end(cs, e);
            if wb {
                lemma_read_wrapped(cs, sb, b);
                crate::parsing::lexer::lemma_layout_end_bounds(cs, sb);
            } else {
                lemma_read_spine(cs, sb, b, k);
            }
            assert(read_term_rest(cs, b, q, k) == Some((b, q)));
            assert(read_term_expr(cs, sb, k) == Some((b, q)));
        },
        _ => {
            lemma_read_unary_term(cs, pos, t);
        },
    }
}

/// The text of a term, followed by no operator that binds tighter than `min`,
/// reads as the term.
pub proof fn lemma_read_term(cs: Seq<char>, pos: int, t: TermModel, min: u8)
    requires
        0 <= pos,
        valid_term(t),
        text_at(cs, pos, term_text(t)),
        boundary(cs, pos + term_text(t).len()),
        min < binding(t),
        operator_bound(cs, layout_end(cs, pos + term_text(t).len()), min),
    ensures
        read_term_expr(cs, pos, min) == Some((t, layout_end(cs, pos + term_text(t).len()))),
{
    lemma_read_spine(cs, pos, t, min);
}

} // verus!
