//! A recursive-descent parser for many-sorted first-order formulas, theories,
//! specifications and user guides.
//!
//! Every function starts at a position past layout and, on success, returns the
//! node and the position past the layout that follows it.

use crate::convenience::text::string_of;
use crate::convenience::sets::views;
use crate::convenience::text::digits_value;
use crate::parsing::asp::{char_at, integer, natural_value, read_as, read_integer, reads_whole};
use crate::parsing::{finish, start, ParseError, Parser};
use crate::parsing::lexer::{
    at, is_digit, is_symbol_name, is_variable_name, is_word_char, layout_end, lemma_layout_end_bounds, looking_at,
    looking_at_word, natural_end, scan_natural, scan_symbol_name, scan_variable_name, skip_layout, symbol_name_end,
    text_at, variable_name_end, word_at, word_char, word_end, word_run_end, digit, upper,
};
use crate::syntax_tree::fol::{
    AnnotatedFormula, AnnotatedFormulaModel, Atom, AtomModel, AtomicFormula, AtomicFormulaModel, BinaryConnective,
    BinaryOperator, Comparison, ComparisonModel, Direction, Formula, FormulaModel, FunctionConstant,
    FunctionConstantModel, GeneralTerm, GeneralTermModel, Guard, GuardModel, IntegerTerm, IntegerTermModel,
    Predicate, PredicateModel, Quantification, QuantificationModel, Quantifier, Relation, Role, Sort,
    Specification, SpecificationModel, SymbolicTerm, SymbolicTermModel, Theory, TheoryModel, UnaryConnective,
    UnaryOperator, UserGuide, UserGuideEntry, UserGuideEntryModel, UserGuideModel, Variable, VariableModel,
};
use vstd::prelude::*;

verus! {

/// Words that never name a symbol.
pub open spec fn is_keyword(s: Seq<char>) -> bool {
    s == seq!['n', 'o', 't'] || s == seq!['a', 'n', 'd'] || s == seq!['o', 'r']
        || s == seq!['f', 'o', 'r', 'a', 'l', 'l'] || s == seq!['e', 'x', 'i', 's', 't', 's']
}


// ================================================================ the grammar
//
// The grammar of formulas, theories, specifications and user guides, in the
// manner of a parsing expression grammar: each rule reads from a position and
// gives the node read and the position past the layout after it, trying its
// alternatives in order.

/// A symbolic name that is not a keyword; the end of the name, before layout.
pub open spec fn read_name(cs: Seq<char>, pos: int) -> Option<int> {
    match symbol_name_end(cs, pos) {
        Some(end) => if is_keyword(cs.subrange(pos, end)) { None } else { Some(end) },
        None => None,
    }
}

/// An optional sort annotation after a name: `$i` or a bare `$` for integers,
/// `$s` for symbols, `$g` or nothing for the general sort.
pub open spec fn read_sort_suffix(cs: Seq<char>, pos: int) -> (Sort, int) {
    if word_at(cs, pos, seq!['$', 'i']) {
        (Sort::Integer, pos + 2)
    } else if word_at(cs, pos, seq!['$', 's']) {
        (Sort::Symbol, pos + 2)
    } else if word_at(cs, pos, seq!['$', 'g']) {
        (Sort::General, pos + 2)
    } else if char_at(cs, pos, '$') && !(pos + 1 < cs.len() && is_word_char(cs[pos + 1])) {
        (Sort::Integer, pos + 1)
    } else {
        (Sort::General, pos)
    }
}

/// A variable: a variable name with its sort.
pub open spec fn read_variable(cs: Seq<char>, pos: int) -> Option<(VariableModel, int)> {
    match variable_name_end(cs, pos) {
        Some(end) => {
            let (sort, p) = read_sort_suffix(cs, end);
            Some((VariableModel { name: cs.subrange(pos, end), sort }, layout_end(cs, p)))
        },
        None => None,
    }
}

/// A function constant: a name with an explicit sort.
pub open spec fn read_function_constant(cs: Seq<char>, pos: int) -> Option<(FunctionConstantModel, int)> {
    match read_name(cs, pos) {
        Some(end) => {
            let (sort, p) = read_sort_suffix(cs, end);
            if p == end { None } else { Some((FunctionConstantModel { name: cs.subrange(pos, end), sort }, layout_end(cs, p))) }
        },
        None => None,
    }
}

/// The operator of integer terms at `pos` with its precedence; a `-` that begins `->` is none.
pub open spec fn read_integer_operator(cs: Seq<char>, pos: int) -> Option<(BinaryOperator, u8)> {
    if char_at(cs, pos, '+') {
        Some((BinaryOperator::Add, 1u8))
    } else if char_at(cs, pos, '-') && !char_at(cs, pos + 1, '>') {
        Some((BinaryOperator::Subtract, 1u8))
    } else if char_at(cs, pos, '*') {
        Some((BinaryOperator::Multiply, 2u8))
    } else {
        None
    }
}

/// An integer term in parentheses, a numeral, or an integer variable or function constant.
pub open spec fn read_integer_primary(cs: Seq<char>, pos: int) -> Option<(IntegerTermModel, int)>
    decreases cs.len() - pos, 0nat,
{
    if char_at(cs, pos, '(') {
        let p = layout_end(cs, pos + 1);
        proof {
            lemma_layout_end_bounds(cs, pos + 1);
        }
        match read_integer_expr(cs, p, 0) {
            Some((t, q)) => if char_at(cs, q, ')') { Some((t, layout_end(cs, q + 1))) } else { None },
            None => None,
        }
    } else {
        match read_integer(cs, pos) {
            Some((n, end)) => Some((IntegerTermModel::Numeral(n), end)),
            None => match read_variable(cs, pos) {
                Some((v, end)) => if v.sort == Sort::Integer { Some((IntegerTermModel::Variable(v.name), end)) } else { None },
                None => match read_function_constant(cs, pos) {
                    Some((c, end)) => if c.sort == Sort::Integer {
                        Some((IntegerTermModel::FunctionConstant(c.name), end))
                    } else {
                        None
                    },
                    None => None,
                },
            },
        }
    }
}

/// A minus sign that is followed neither by a digit nor by `>` negates what follows.
pub open spec fn read_integer_unary(cs: Seq<char>, pos: int) -> Option<(IntegerTermModel, int)>
    decreases cs.len() - pos, 1nat,
{
    if char_at(cs, pos, '-') && !(pos + 1 < cs.len() && (is_digit(cs[pos + 1]) || cs[pos + 1] == '>')) {
        let p = layout_end(cs, pos + 1);
        proof {
            lemma_layout_end_bounds(cs, pos + 1);
        }
        match read_integer_unary(cs, p) {
            Some((arg, end)) => Some((IntegerTermModel::UnaryOperation { op: UnaryOperator::Negative, arg: Box::new(arg) }, end)),
            None => None,
        }
    } else {
        read_integer_primary(cs, pos)
    }
}

/// Integer operations whose precedence exceeds `min`, all associating to the left.
pub open spec fn read_integer_expr(cs: Seq<char>, pos: int, min: u8) -> Option<(IntegerTermModel, int)>
    decreases cs.len() - pos, 2nat,
{
    match read_integer_unary(cs, pos) {
        Some((lhs, p)) => if pos < p <= cs.len() { read_integer_rest(cs, lhs, p, min) } else { None },
        None => None,
    }
}

/// The integer operations that follow `lhs` at `p`, with precedence above `min`.
pub open spec fn read_integer_rest(cs: Seq<char>, lhs: IntegerTermModel, p: int, min: u8) -> Option<(IntegerTermModel, int)>
    decreases cs.len() - p, 3nat,
{
    match read_integer_operator(cs, p) {
        Some((op, prec)) => if prec <= min {
            Some((lhs, p))
        } else {
            let q = layout_end(cs, p + 1);
            proof {
                lemma_layout_end_bounds(cs, p + 1);
            }
            match read_integer_expr(cs, q, prec) {
                Some((rhs, end)) => if p < end <= cs.len() {
                    read_integer_rest(cs, IntegerTermModel::BinaryOperation { op, lhs: Box::new(lhs), rhs: Box::new(rhs) }, end, min)
                } else {
                    None
                },
                None => Some((lhs, p)),
            }
        },
        None => Some((lhs, p)),
    }
}

pub open spec fn read_integer_term(cs: Seq<char>, pos: int) -> Option<(IntegerTermModel, int)> {
    read_integer_expr(cs, pos, 0)
}

/// `#infimum`, `#inf`, `#supremum` or `#sup` as a word.
pub open spec fn read_extremum(cs: Seq<char>, pos: int) -> Option<(GeneralTermModel, int)> {
    if word_at(cs, pos, seq!['#', 'i', 'n', 'f', 'i', 'm', 'u', 'm']) {
        Some((GeneralTermModel::Infimum, layout_end(cs, pos + 8)))
    } else if word_at(cs, pos, seq!['#', 'i', 'n', 'f']) {
        Some((GeneralTermModel::Infimum, layout_end(cs, pos + 4)))
    } else if word_at(cs, pos, seq!['#', 's', 'u', 'p', 'r', 'e', 'm', 'u', 'm']) {
        Some((GeneralTermModel::Supremum, layout_end(cs, pos + 9)))
    } else if word_at(cs, pos, seq!['#', 's', 'u', 'p']) {
        Some((GeneralTermModel::Supremum, layout_end(cs, pos + 4)))
    } else {
        None
    }
}

/// A symbolic variable, a symbol, or a symbolic function constant.
pub open spec fn read_symbolic_term(cs: Seq<char>, pos: int) -> Option<(SymbolicTermModel, int)> {
    match read_variable(cs, pos) {
        Some((v, end)) => if v.sort == Sort::Symbol { Some((SymbolicTermModel::Variable(v.name), end)) } else { None },
        None => match read_name(cs, pos) {
            Some(end) => {
                let (sort, p) = read_sort_suffix(cs, end);
                if p == end {
                    Some((SymbolicTermModel::Symbol(cs.subrange(pos, end)), layout_end(cs, end)))
                } else if sort == Sort::Symbol {
                    Some((SymbolicTermModel::FunctionConstant(cs.subrange(pos, end)), layout_end(cs, p)))
                } else {
                    None
                }
            },
            None => None,
        },
    }
}

/// A general variable, read where it is one.
pub open spec fn read_general_variable(cs: Seq<char>, pos: int) -> Option<(GeneralTermModel, int)> {
    match read_variable(cs, pos) {
        Some((v, end)) => if v.sort == Sort::General { Some((GeneralTermModel::Variable(v.name), end)) } else { None },
        None => None,
    }
}

/// A general function constant, read where it is one.
pub open spec fn read_general_function_constant(cs: Seq<char>, pos: int) -> Option<(GeneralTermModel, int)> {
    match read_function_constant(cs, pos) {
        Some((c, end)) => if c.sort == Sort::General { Some((GeneralTermModel::FunctionConstant(c.name), end)) } else { None },
        None => None,
    }
}

/// A term of the general sort: an integer term if one can be read, else an
/// extremum, a general variable or function constant, or a symbolic term.
pub open spec fn read_general_term(cs: Seq<char>, pos: int) -> Option<(GeneralTermModel, int)> {
    match read_integer_term(cs, pos) {
        Some((t, end)) => Some((GeneralTermModel::IntegerTerm(t), end)),
        None => match read_extremum(cs, pos) {
            Some(x) => Some(x),
            None => match read_general_variable(cs, pos) {
                Some(x) => Some(x),
                None => match read_general_function_constant(cs, pos) {
                    Some(x) => Some(x),
                    None => match read_symbolic_term(cs, pos) {
                        Some((t, end)) => Some((GeneralTermModel::SymbolicTerm(t), end)),
                        None => None,
                    },
                },
            },
        },
    }
}

/// The terms from `p` on, after the terms `read`, up to the closing parenthesis.
pub open spec fn read_terms_from(cs: Seq<char>, read: Seq<GeneralTermModel>, p: int) -> Option<(Seq<GeneralTermModel>, int)>
    decreases cs.len() - p,
{
    match read_general_term(cs, p) {
        Some((t, q)) => if !(p < q <= cs.len()) {
            None
        } else if char_at(cs, q, ',') {
            proof {
                lemma_layout_end_bounds(cs, q + 1);
            }
            read_terms_from(cs, read.push(t), layout_end(cs, q + 1))
        } else if char_at(cs, q, ')') {
            Some((read.push(t), layout_end(cs, q + 1)))
        } else {
            None
        },
        None => None,
    }
}

/// A comma-separated list of general terms closed by `)`, after the opening parenthesis.
pub open spec fn read_term_list(cs: Seq<char>, pos: int) -> Option<(Seq<GeneralTermModel>, int)> {
    if char_at(cs, pos, ')') {
        Some((seq![], layout_end(cs, pos + 1)))
    } else {
        read_terms_from(cs, seq![], pos)
    }
}

/// A predicate symbol, not directly followed by `$`, with its arguments in parentheses if it has any.
pub open spec fn read_atom(cs: Seq<char>, pos: int) -> Option<(AtomModel, int)> {
    match read_name(cs, pos) {
        Some(end) => if char_at(cs, end, '$') {
            None
        } else {
            let predicate_symbol = cs.subrange(pos, end);
            let p = layout_end(cs, end);
            if char_at(cs, p, '(') {
                match read_term_list(cs, layout_end(cs, p + 1)) {
                    Some((terms, q)) => Some((AtomModel { predicate_symbol, terms }, q)),
                    None => None,
                }
            } else {
                Some((AtomModel { predicate_symbol, terms: seq![] }, p))
            }
        },
        None => None,
    }
}

/// A predicate: a name, `/` and the arity.
pub open spec fn read_predicate(cs: Seq<char>, pos: int) -> Option<(PredicateModel, int)> {
    match read_name(cs, pos) {
        Some(end) => {
            let p = layout_end(cs, end);
            if char_at(cs, p, '/') {
                let q = layout_end(cs, p + 1);
                match natural_end(cs, q) {
                    Some(e) => {
                        let v = digits_value(cs.subrange(q, e));
                        if v > isize::MAX {
                            None
                        } else {
                            Some((PredicateModel { symbol: cs.subrange(pos, end), arity: v as usize }, layout_end(cs, e)))
                        }
                    },
                    None => None,
                }
            } else {
                None
            }
        },
        None => None,
    }
}

/// A relation; `<` is none where it begins `<-`.
pub open spec fn read_relation(cs: Seq<char>, pos: int) -> Option<(Relation, int)> {
    if text_at(cs, pos, seq!['!', '=']) {
        Some((Relation::NotEqual, layout_end(cs, pos + 2)))
    } else if text_at(cs, pos, seq!['<', '=']) {
        Some((Relation::LessEqual, layout_end(cs, pos + 2)))
    } else if text_at(cs, pos, seq!['>', '=']) {
        Some((Relation::GreaterEqual, layout_end(cs, pos + 2)))
    } else if char_at(cs, pos, '<') && !char_at(cs, pos + 1, '-') {
        Some((Relation::Less, layout_end(cs, pos + 1)))
    } else if char_at(cs, pos, '>') {
        Some((Relation::Greater, layout_end(cs, pos + 1)))
    } else if char_at(cs, pos, '=') {
        Some((Relation::Equal, layout_end(cs, pos + 1)))
    } else {
        None
    }
}

pub open spec fn read_guard(cs: Seq<char>, pos: int) -> Option<(GuardModel, int)> {
    match read_relation(cs, pos) {
        Some((relation, p)) => match read_general_term(cs, p) {
            Some((term, end)) => Some((GuardModel { relation, term }, end)),
            None => None,
        },
        None => None,
    }
}

/// The guards that follow the guards `read` at `p`.
pub open spec fn read_guards_rest(cs: Seq<char>, term: GeneralTermModel, read: Seq<GuardModel>, p: int) -> Option<(ComparisonModel, int)>
    decreases cs.len() - p,
{
    match read_guard(cs, p) {
        Some((g, end)) => if p < end <= cs.len() { read_guards_rest(cs, term, read.push(g), end) } else { None },
        None => Some((ComparisonModel { term, guards: read }, p)),
    }
}

/// A term followed by one or more guards.
pub open spec fn read_comparison(cs: Seq<char>, pos: int) -> Option<(ComparisonModel, int)> {
    match read_general_term(cs, pos) {
        Some((term, p)) => match read_guard(cs, p) {
            Some((first, q)) => read_guards_rest(cs, term, seq![first], q),
            None => None,
        },
        None => None,
    }
}

/// `#true`, `#false`, a comparison, or an atom.
pub open spec fn read_atomic_formula(cs: Seq<char>, pos: int) -> Option<(AtomicFormulaModel, int)> {
    if word_at(cs, pos, seq!['#', 't', 'r', 'u', 'e']) {
        Some((AtomicFormulaModel::Truth, layout_end(cs, pos + 5)))
    } else if word_at(cs, pos, seq!['#', 'f', 'a', 'l', 's', 'e']) {
        Some((AtomicFormulaModel::Falsity, layout_end(cs, pos + 6)))
    } else {
        match read_comparison(cs, pos) {
            Some((c, end)) => Some((AtomicFormulaModel::Comparison(c), end)),
            None => match read_atom(cs, pos) {
                Some((a, end)) => Some((AtomicFormulaModel::Atom(a), end)),
                None => None,
            },
        }
    }
}

/// The binary connective at `pos`, its precedence, whether it associates to
/// the right, and its length.
pub open spec fn read_connective(cs: Seq<char>, pos: int) -> Option<(BinaryConnective, u8, bool, int)> {
    if text_at(cs, pos, seq!['<', '-', '>']) {
        Some((BinaryConnective::Equivalence, 1u8, true, 3))
    } else if text_at(cs, pos, seq!['-', '>']) {
        Some((BinaryConnective::Implication, 1u8, true, 2))
    } else if text_at(cs, pos, seq!['<', '-']) {
        Some((BinaryConnective::ReverseImplication, 1u8, false, 2))
    } else if word_at(cs, pos, seq!['o', 'r']) {
        Some((BinaryConnective::Disjunction, 2u8, false, 2))
    } else if word_at(cs, pos, seq!['a', 'n', 'd']) {
        Some((BinaryConnective::Conjunction, 3u8, false, 3))
    } else {
        None
    }
}

/// The variables from `q` on, after the variables `read`; at least one in all.
pub open spec fn read_variables_from(cs: Seq<char>, quantifier: Quantifier, read: Seq<VariableModel>, q: int) -> Option<(QuantificationModel, int)>
    decreases cs.len() - q,
{
    match read_variable(cs, q) {
        Some((v, end)) => if q < end <= cs.len() { read_variables_from(cs, quantifier, read.push(v), end) } else { None },
        None => if read.len() == 0 { None } else { Some((QuantificationModel { quantifier, variables: read }, q)) },
    }
}

/// `forall` or `exists` followed by one or more variables.
pub open spec fn read_quantification(cs: Seq<char>, pos: int) -> Option<(QuantificationModel, int)> {
    if word_at(cs, pos, seq!['f', 'o', 'r', 'a', 'l', 'l']) {
        read_variables_from(cs, Quantifier::Forall, seq![], layout_end(cs, pos + 6))
    } else if word_at(cs, pos, seq!['e', 'x', 'i', 's', 't', 's']) {
        read_variables_from(cs, Quantifier::Exists, seq![], layout_end(cs, pos + 6))
    } else {
        None
    }
}

/// An atomic formula or a formula in parentheses.
pub open spec fn read_formula_primary(cs: Seq<char>, pos: int) -> Option<(FormulaModel, int)>
    decreases cs.len() - pos, 0nat,
{
    match read_atomic_formula(cs, pos) {
        Some((a, end)) => Some((FormulaModel::AtomicFormula(a), end)),
        None => if char_at(cs, pos, '(') {
            let p = layout_end(cs, pos + 1);
            proof {
                lemma_layout_end_bounds(cs, pos + 1);
            }
            match read_formula_expr(cs, p, 0) {
                Some((f, q)) => if char_at(cs, q, ')') { Some((f, layout_end(cs, q + 1))) } else { None },
                None => None,
            }
        } else {
            None
        },
    }
}

/// Negations and quantifications, which bind tighter than every binary connective.
pub open spec fn read_formula_prefix(cs: Seq<char>, pos: int) -> Option<(FormulaModel, int)>
    decreases cs.len() - pos, 1nat,
{
    if word_at(cs, pos, seq!['n', 'o', 't']) {
        let p = layout_end(cs, pos + 3);
        proof {
            lemma_layout_end_bounds(cs, pos + 3);
        }
        match read_formula_prefix(cs, p) {
            Some((f, end)) => Some((FormulaModel::UnaryFormula { connective: UnaryConnective::Negation, formula: Box::new(f) }, end)),
            None => None,
        }
    } else {
        match read_quantification(cs, pos) {
            Some((quantification, p)) => if pos < p <= cs.len() {
                match read_formula_prefix(cs, p) {
                    Some((f, end)) => Some((FormulaModel::QuantifiedFormula { quantification, formula: Box::new(f) }, end)),
                    None => None,
                }
            } else {
                None
            },
            None => read_formula_primary(cs, pos),
        }
    }
}

/// Binary formulas whose connective's precedence exceeds `min`.
pub open spec fn read_formula_expr(cs: Seq<char>, pos: int, min: u8) -> Option<(FormulaModel, int)>
    decreases cs.len() - pos, 2nat,
{
    match read_formula_prefix(cs, pos) {
        Some((lhs, p)) => if pos < p <= cs.len() { read_formula_rest(cs, lhs, p, min) } else { None },
        None => None,
    }
}

/// The binary formulas that continue `lhs` at `p`, with precedence above `min`;
/// implications and equivalences associate to the right, the others to the left.
pub open spec fn read_formula_rest(cs: Seq<char>, lhs: FormulaModel, p: int, min: u8) -> Option<(FormulaModel, int)>
    decreases cs.len() - p, 3nat,
{
    match read_connective(cs, p) {
        Some((c, prec, right, len)) => if prec <= min {
            Some((lhs, p))
        } else {
            let q = layout_end(cs, p + len);
            proof {
                lemma_layout_end_bounds(cs, p + len);
            }
            let next_min: u8 = if right { (prec - 1) as u8 } else { prec };
            match read_formula_expr(cs, q, next_min) {
                Some((rhs, end)) => if p < end <= cs.len() {
                    read_formula_rest(cs, FormulaModel::BinaryFormula { connective: c, lhs: Box::new(lhs), rhs: Box::new(rhs) }, end, min)
                } else {
                    None
                },
                None => None,
            }
        },
        None => Some((lhs, p)),
    }
}

pub open spec fn read_formula(cs: Seq<char>, pos: int) -> Option<(FormulaModel, int)> {
    read_formula_expr(cs, pos, 0)
}

/// The formulas from `p` to the end, each closed by a full stop, after the formulas `read`.
pub open spec fn read_formulas_from(cs: Seq<char>, read: Seq<FormulaModel>, p: int) -> Option<(TheoryModel, int)>
    decreases cs.len() - p,
{
    if 0 <= p < cs.len() {
        match read_formula(cs, p) {
            Some((f, q)) => if p < q <= cs.len() && char_at(cs, q, '.') {
                proof {
                    lemma_layout_end_bounds(cs, q + 1);
                }
                read_formulas_from(cs, read.push(f), layout_end(cs, q + 1))
            } else {
                None
            },
            None => None,
        }
    } else {
        Some((TheoryModel { formulas: read }, p))
    }
}

pub open spec fn read_theory(cs: Seq<char>, pos: int) -> Option<(TheoryModel, int)> {
    read_formulas_from(cs, seq![], pos)
}

pub open spec fn read_role(cs: Seq<char>, pos: int) -> Option<(Role, int)> {
    if word_at(cs, pos, seq!['a', 's', 's', 'u', 'm', 'p', 't', 'i', 'o', 'n']) {
        Some((Role::Assumption, layout_end(cs, pos + 10)))
    } else if word_at(cs, pos, seq!['s', 'p', 'e', 'c']) {
        Some((Role::Spec, layout_end(cs, pos + 4)))
    } else if word_at(cs, pos, seq!['l', 'e', 'm', 'm', 'a']) {
        Some((Role::Lemma, layout_end(cs, pos + 5)))
    } else if word_at(cs, pos, seq!['d', 'e', 'f', 'i', 'n', 'i', 't', 'i', 'o', 'n']) {
        Some((Role::Definition, layout_end(cs, pos + 10)))
    } else if word_at(cs, pos, seq!['i', 'n', 'd', 'u', 'c', 't', 'i', 'v', 'e', '-', 'l', 'e', 'm', 'm', 'a']) {
        Some((Role::InductiveLemma, layout_end(cs, pos + 15)))
    } else {
        None
    }
}

pub open spec fn read_direction(cs: Seq<char>, pos: int) -> Option<(Direction, int)> {
    if word_at(cs, pos, seq!['u', 'n', 'i', 'v', 'e', 'r', 's', 'a', 'l']) {
        Some((Direction::Universal, layout_end(cs, pos + 9)))
    } else if word_at(cs, pos, seq!['f', 'o', 'r', 'w', 'a', 'r', 'd']) {
        Some((Direction::Forward, layout_end(cs, pos + 7)))
    } else if word_at(cs, pos, seq!['b', 'a', 'c', 'k', 'w', 'a', 'r', 'd']) {
        Some((Direction::Backward, layout_end(cs, pos + 8)))
    } else {
        None
    }
}

/// The direction in parentheses after a role, universal where there is none.
pub open spec fn read_annotation_direction(cs: Seq<char>, p: int) -> Option<(Direction, int)> {
    if char_at(cs, p, '(') {
        match read_direction(cs, layout_end(cs, p + 1)) {
            Some((d, q)) => if char_at(cs, q, ')') { Some((d, layout_end(cs, q + 1))) } else { None },
            None => None,
        }
    } else {
        Some((Direction::Universal, p))
    }
}

/// The name in brackets, a run of word characters; empty where there is none.
pub open spec fn read_annotation_name(cs: Seq<char>, p: int) -> Option<(Seq<char>, int)> {
    if char_at(cs, p, '[') {
        let start = layout_end(cs, p + 1);
        let end = word_run_end(cs, start);
        if end == start {
            None
        } else {
            let q = layout_end(cs, end);
            if char_at(cs, q, ']') { Some((cs.subrange(start, end), layout_end(cs, q + 1))) } else { None }
        }
    } else {
        Some((seq![], p))
    }
}

/// `role(direction)[name]: formula`, where the direction and the name may be left out.
pub open spec fn read_annotated_formula(cs: Seq<char>, pos: int) -> Option<(AnnotatedFormulaModel, int)> {
    match read_role(cs, pos) {
        Some((role, p)) => match read_annotation_direction(cs, p) {
            Some((direction, q)) => match read_annotation_name(cs, q) {
                Some((name, r)) => if char_at(cs, r, ':') {
                    match read_formula(cs, layout_end(cs, r + 1)) {
                        Some((formula, end)) => Some((AnnotatedFormulaModel { role, direction, name, formula }, end)),
                        None => None,
                    }
                } else {
                    None
                },
                None => None,
            },
            None => None,
        },
        None => None,
    }
}

/// The annotated formulas from `p` to the end, each closed by a full stop, after the formulas `read`.
pub open spec fn read_annotated_formulas_from(cs: Seq<char>, read: Seq<AnnotatedFormulaModel>, p: int) -> Option<(SpecificationModel, int)>
    decreases cs.len() - p,
{
    if 0 <= p < cs.len() {
        match read_annotated_formula(cs, p) {
            Some((f, q)) => if p < q <= cs.len() && char_at(cs, q, '.') {
                proof {
                    lemma_layout_end_bounds(cs, q + 1);
                }
                read_annotated_formulas_from(cs, read.push(f), layout_end(cs, q + 1))
            } else {
                None
            },
            None => None,
        }
    } else {
        Some((SpecificationModel { formulas: read }, p))
    }
}

pub open spec fn read_specification(cs: Seq<char>, pos: int) -> Option<(SpecificationModel, int)> {
    read_annotated_formulas_from(cs, seq![], pos)
}

/// The sort named after `->` in a placeholder declaration.
pub open spec fn read_sort_name(cs: Seq<char>, pos: int) -> Option<(Sort, int)> {
    if word_at(cs, pos, seq!['i', 'n', 't', 'e', 'g', 'e', 'r']) {
        Some((Sort::Integer, layout_end(cs, pos + 7)))
    } else if word_at(cs, pos, seq!['s', 'y', 'm', 'b', 'o', 'l']) {
        Some((Sort::Symbol, layout_end(cs, pos + 6)))
    } else if word_at(cs, pos, seq!['g', 'e', 'n', 'e', 'r', 'a', 'l']) {
        Some((Sort::General, layout_end(cs, pos + 7)))
    } else {
        None
    }
}

/// A placeholder: `name$sort`, or `name -> sort` with the sort spelled out.
pub open spec fn read_placeholder(cs: Seq<char>, pos: int) -> Option<(FunctionConstantModel, int)> {
    match read_function_constant(cs, pos) {
        Some(x) => Some(x),
        None => match read_name(cs, pos) {
            Some(end) => {
                let p = layout_end(cs, end);
                if text_at(cs, p, seq!['-', '>']) {
                    match read_sort_name(cs, layout_end(cs, p + 2)) {
                        Some((sort, q)) => Some((FunctionConstantModel { name: cs.subrange(pos, end), sort }, q)),
                        None => None,
                    }
                } else {
                    None
                }
            },
            None => None,
        },
    }
}

/// `input: p/n`, `input:` with a placeholder, `output: p/n`, or an annotated formula.
pub open spec fn read_user_guide_entry(cs: Seq<char>, pos: int) -> Option<(UserGuideEntryModel, int)> {
    if word_at(cs, pos, seq!['i', 'n', 'p', 'u', 't']) {
        let p = layout_end(cs, pos + 5);
        if char_at(cs, p, ':') {
            let q = layout_end(cs, p + 1);
            match read_predicate(cs, q) {
                Some((pr, end)) => Some((UserGuideEntryModel::InputPredicate(pr), end)),
                None => match read_placeholder(cs, q) {
                    Some((c, end)) => Some((UserGuideEntryModel::PlaceholderDeclaration(c), end)),
                    None => None,
                },
            }
        } else {
            None
        }
    } else if word_at(cs, pos, seq!['o', 'u', 't', 'p', 'u', 't']) {
        let p = layout_end(cs, pos + 6);
        if char_at(cs, p, ':') {
            match read_predicate(cs, layout_end(cs, p + 1)) {
                Some((pr, end)) => Some((UserGuideEntryModel::OutputPredicate(pr), end)),
                None => None,
            }
        } else {
            None
        }
    } else {
        match read_annotated_formula(cs, pos) {
            Some((f, end)) => Some((UserGuideEntryModel::AnnotatedFormula(f), end)),
            None => None,
        }
    }
}

/// The entries from `p` to the end, each closed by a full stop, after the entries `read`.
pub open spec fn read_entries_from(cs: Seq<char>, read: Seq<UserGuideEntryModel>, p: int) -> Option<(UserGuideModel, int)>
    decreases cs.len() - p,
{
    if 0 <= p < cs.len() {
        match read_user_guide_entry(cs, p) {
            Some((e, q)) => if p < q <= cs.len() && char_at(cs, q, '.') {
                proof {
                    lemma_layout_end_bounds(cs, q + 1);
                }
                read_entries_from(cs, read.push(e), layout_end(cs, q + 1))
            } else {
                None
            },
            None => None,
        }
    } else {
        Some((UserGuideModel { entries: read }, p))
    }
}

pub open spec fn read_user_guide(cs: Seq<char>, pos: int) -> Option<(UserGuideModel, int)> {
    read_entries_from(cs, seq![], pos)
}

/// The operator of integer terms on its own.
pub open spec fn read_integer_operator_token(cs: Seq<char>, pos: int) -> Option<(BinaryOperator, int)> {
    match read_integer_operator(cs, pos) {
        Some((op, _)) => Some((op, layout_end(cs, pos + 1))),
        None => None,
    }
}

/// The unary operator: a minus sign.
pub open spec fn read_unary_operator(cs: Seq<char>, pos: int) -> Option<(UnaryOperator, int)> {
    if char_at(cs, pos, '-') { Some((UnaryOperator::Negative, layout_end(cs, pos + 1))) } else { None }
}

/// The unary connective: `not` as a word.
pub open spec fn read_unary_connective(cs: Seq<char>, pos: int) -> Option<(UnaryConnective, int)> {
    if word_at(cs, pos, seq!['n', 'o', 't']) { Some((UnaryConnective::Negation, layout_end(cs, pos + 3))) } else { None }
}

/// A binary connective on its own.
pub open spec fn read_connective_token(cs: Seq<char>, pos: int) -> Option<(BinaryConnective, int)> {
    match read_connective(cs, pos) {
        Some((c, _, _, len)) => Some((c, layout_end(cs, pos + len))),
        None => None,
    }
}

/// `forall` or `exists` as a word.
pub open spec fn read_quantifier(cs: Seq<char>, pos: int) -> Option<(Quantifier, int)> {
    if word_at(cs, pos, seq!['f', 'o', 'r', 'a', 'l', 'l']) {
        Some((Quantifier::Forall, layout_end(cs, pos + 6)))
    } else if word_at(cs, pos, seq!['e', 'x', 'i', 's', 't', 's']) {
        Some((Quantifier::Exists, layout_end(cs, pos + 6)))
    } else {
        None
    }
}

/// Whether `cs[from..to]` is the word `w`.
fn is_word(cs: &Vec<char>, from: usize, to: usize, w: &[char]) -> (r: bool)
    requires
        from <= to <= cs.len(),
    ensures
        r == (cs@.subrange(from as int, to as int) == w@),
{
    if to - from != w.len() {
        proof {
            if cs@.subrange(from as int, to as int) == w@ {
                assert(cs@.subrange(from as int, to as int).len() == w@.len());
            }
        }
        return false;
    }
    let r = looking_at(cs, from, w);
    r
}

fn keyword(cs: &Vec<char>, from: usize, to: usize) -> (r: bool)
    requires
        from <= to <= cs.len(),
    ensures
        r == is_keyword(cs@.subrange(from as int, to as int)),
{
    let a = is_word(cs, from, to, &['n', 'o', 't']);
    let b = is_word(cs, from, to, &['a', 'n', 'd']);
    let c = is_word(cs, from, to, &['o', 'r']);
    let d = is_word(cs, from, to, &['f', 'o', 'r', 'a', 'l', 'l']);
    let e = is_word(cs, from, to, &['e', 'x', 'i', 's', 't', 's']);
    assert(['n', 'o', 't']@ == seq!['n', 'o', 't']);
    assert(['a', 'n', 'd']@ == seq!['a', 'n', 'd']);
    assert(['o', 'r']@ == seq!['o', 'r']);
    assert(['f', 'o', 'r', 'a', 'l', 'l']@ == seq!['f', 'o', 'r', 'a', 'l', 'l']);
    assert(['e', 'x', 'i', 's', 't', 's']@ == seq!['e', 'x', 'i', 's', 't', 's']);
    a || b || c || d || e
}

/// A symbolic name that is not a keyword; the end of the name, before layout.
fn name(cs: &Vec<char>, pos: usize) -> (r: Option<usize>)
    requires
        pos <= cs.len(),
    ensures
        r matches Some(end) ==> pos < end <= cs.len()
            && is_symbol_name(cs@.subrange(pos as int, end as int))
            && !is_keyword(cs@.subrange(pos as int, end as int)),
        match r { Some(e) => read_name(cs@, pos as int) == Some(e as int), None => read_name(cs@, pos as int) is None },
{
    match scan_symbol_name(cs, pos) {
        Some(end) => {
            if keyword(cs, pos, end) {
                None
            } else {
                Some(end)
            }
        },
        None => None,
    }
}

/// An optional sort annotation after a name: `$i` or a bare `$` for integers,
/// `$s` for symbols, `$g` or nothing for the general sort.
fn sort_suffix(cs: &Vec<char>, pos: usize) -> (r: (Sort, usize))
    requires
        pos <= cs.len(),
    ensures
        pos <= r.1 <= cs.len(),
        (r.0, r.1 as int) == read_sort_suffix(cs@, pos as int),
{
    if looking_at_word(cs, pos, &['$', 'i']) {
        (Sort::Integer, pos + 2)
    } else if looking_at_word(cs, pos, &['$', 's']) {
        (Sort::Symbol, pos + 2)
    } else if looking_at_word(cs, pos, &['$', 'g']) {
        (Sort::General, pos + 2)
    } else if at(cs, pos, '$') && !(pos + 1 < cs.len() && word_char(cs[pos + 1])) {
        (Sort::Integer, pos + 1)
    } else {
        (Sort::General, pos)
    }
}

/// A variable: a variable name with its sort.
fn variable(cs: &Vec<char>, pos: usize) -> (r: Option<(Variable, usize)>)
    requires
        pos <= cs.len(),
    ensures
        r matches Some((v, end)) ==> pos < end <= cs.len() && is_variable_name(v.name@),
        read_as(r, read_variable(cs@, pos as int)),
{
    match scan_variable_name(cs, pos) {
        Some(end) => {
            let (sort, p) = sort_suffix(cs, end);
            Some((Variable { name: string_of(cs, pos, end), sort }, skip_layout(cs, p)))
        },
        None => None,
    }
}

/// A function constant: a name with an explicit sort.
fn function_constant(cs: &Vec<char>, pos: usize) -> (r: Option<(FunctionConstant, usize)>)
    requires
        pos <= cs.len(),
    ensures
        r matches Some((c, end)) ==> pos < end <= cs.len() && is_symbol_name(c.name@),
        read_as(r, read_function_constant(cs@, pos as int)),
{
    match name(cs, pos) {
        Some(end) => {
            let (sort, p) = sort_suffix(cs, end);
            if p == end {
                None
            } else {
                Some((FunctionConstant { name: string_of(cs, pos, end), sort }, skip_layout(cs, p)))
            }
        },
        None => None,
    }
}

/// The binary operator at `pos` with its precedence; a `-` that begins `->` is none.
fn integer_operator(cs: &Vec<char>, pos: usize) -> (r: Option<(BinaryOperator, u8)>)
    requires
        pos <= cs.len(),
    ensures
        r matches Some((_, prec)) ==> 1 <= prec <= 2 && pos < cs.len(),
        r == read_integer_operator(cs@, pos as int),
{
    if at(cs, pos, '+') {
        Some((BinaryOperator::Add, 1))
    } else if at(cs, pos, '-') && !at(cs, pos + 1, '>') {
        Some((BinaryOperator::Subtract, 1))
    } else if at(cs, pos, '*') {
        Some((BinaryOperator::Multiply, 2))
    } else {
        None
    }
}

fn integer_primary(cs: &Vec<char>, pos: usize) -> (r: Option<(IntegerTerm, usize)>)
    requires
        pos <= cs.len(),
    ensures
        r matches Some((_, end)) ==> pos < end <= cs.len(),
        read_as(r, read_integer_primary(cs@, pos as int)),
    decreases cs.len() - pos, 0nat,
{
    if at(cs, pos, '(') {
        let p = skip_layout(cs, pos + 1);
        match integer_expr(cs, p, 0) {
            Some((t, q)) => {
                if at(cs, q, ')') {
                    Some((t, skip_layout(cs, q + 1)))
                } else {
                    None
                }
            },
            None => None,
        }
    } else if let Some((n, end)) = integer(cs, pos) {
        Some((IntegerTerm::Numeral(n), end))
    } else if let Some((v, end)) = variable(cs, pos) {
        if v.sort == Sort::Integer {
            Some((IntegerTerm::Variable(v.name), end))
        } else {
            None
        }
    } else {
        match function_constant(cs, pos) {
            Some((c, end)) => {
                if c.sort == Sort::Integer {
                    Some((IntegerTerm::FunctionConstant(c.name), end))
                } else {
                    None
                }
            },
            None => None,
        }
    }
}

/// A minus sign that is followed neither by a digit nor by `>` negates what follows.
fn integer_unary(cs: &Vec<char>, pos: usize) -> (r: Option<(IntegerTerm, usize)>)
    requires
        pos <= cs.len(),
    ensures
        r matches Some((_, end)) ==> pos < end <= cs.len(),
        read_as(r, read_integer_unary(cs@, pos as int)),
    decreases cs.len() - pos, 1nat,
{
    if at(cs, pos, '-') && !(pos + 1 < cs.len() && (digit(cs[pos + 1]) || cs[pos + 1] == '>')) {
        let p = skip_layout(cs, pos + 1);
        match integer_unary(cs, p) {
            Some((arg, end)) => Some((IntegerTerm::UnaryOperation { op: UnaryOperator::Negative, arg: Box::new(arg) }, end)),
            None => None,
        }
    } else {
        integer_primary(cs, pos)
    }
}

/// Binary operations whose precedence exceeds `min`, all associating to the left.
fn integer_expr(cs: &Vec<char>, pos: usize, min: u8) -> (r: Option<(IntegerTerm, usize)>)
    requires
        pos <= cs.len(),
    ensures
        r matches Some((_, end)) ==> pos < end <= cs.len(),
        read_as(r, read_integer_expr(cs@, pos as int, min)),
    decreases cs.len() - pos, 2nat,
{
    let (mut lhs, mut p) = match integer_unary(cs, pos) {
        Some(x) => x,
        None => return None,
    };
    assert(read_integer_expr(cs@, pos as int, min) == read_integer_rest(cs@, lhs@, p as int, min));
    loop
        invariant
            pos < p <= cs.len(),
            read_integer_rest(cs@, lhs@, p as int, min) == read_integer_expr(cs@, pos as int, min),
        decreases cs.len() - p,
    {
        match integer_operator(cs, p) {
            Some((op, prec)) => {
                if prec <= min {
                    return Some((lhs, p));
                }
                let q = skip_layout(cs, p + 1);
                match integer_expr(cs, q, prec) {
                    Some((rhs, end)) => {
                        let ghost before = lhs@;
                        lhs = IntegerTerm::BinaryOperation { op, lhs: Box::new(lhs), rhs: Box::new(rhs) };
                        assert(lhs@ == IntegerTermModel::BinaryOperation { op, lhs: Box::new(before), rhs: Box::new(rhs@) });
                        p = end;
                    },
                    None => return Some((lhs, p)),
                }
            },
            None => return Some((lhs, p)),
        }
    }
}

fn integer_term(cs: &Vec<char>, pos: usize) -> (r: Option<(IntegerTerm, usize)>)
    requires
        pos <= cs.len(),
    ensures
        r matches Some((_, end)) ==> pos < end <= cs.len(),
        read_as(r, read_integer_term(cs@, pos as int)),
{
    integer_expr(cs, pos, 0)
}

/// `#inf`, `#infimum`, `#sup` or `#supremum`, not followed by a word character.
fn extremum(cs: &Vec<char>, pos: usize) -> (r: Option<(GeneralTerm, usize)>)
    requires
        pos <= cs.len(),
    ensures
        r matches Some((t, end)) ==> pos < end <= cs.len() && (t is Infimum || t is Supremum),
        read_as(r, read_extremum(cs@, pos as int)),
{
    if looking_at_word(cs, pos, &['#', 'i', 'n', 'f', 'i', 'm', 'u', 'm']) {
        Some((GeneralTerm::Infimum, skip_layout(cs, pos + 8)))
    } else if looking_at_word(cs, pos, &['#', 'i', 'n', 'f']) {
        Some((GeneralTerm::Infimum, skip_layout(cs, pos + 4)))
    } else if looking_at_word(cs, pos, &['#', 's', 'u', 'p', 'r', 'e', 'm', 'u', 'm']) {
        Some((GeneralTerm::Supremum, skip_layout(cs, pos + 9)))
    } else if looking_at_word(cs, pos, &['#', 's', 'u', 'p']) {
        Some((GeneralTerm::Supremum, skip_layout(cs, pos + 4)))
    } else {
        None
    }
}

fn symbolic_term(cs: &Vec<char>, pos: usize) -> (r: Option<(SymbolicTerm, usize)>)
    requires
        pos <= cs.len(),
    ensures
        r matches Some((_, end)) ==> pos < end <= cs.len(),
        read_as(r, read_symbolic_term(cs@, pos as int)),
{
    if let Some((v, end)) = variable(cs, pos) {
        if v.sort == Sort::Symbol {
            return Some((SymbolicTerm::Variable(v.name), end));
        }
        return None;
    }
    match name(cs, pos) {
        Some(end) => {
            let (sort, p) = sort_suffix(cs, end);
            if p == end {
                Some((SymbolicTerm::Symbol(string_of(cs, pos, end)), skip_layout(cs, end)))
            } else if sort == Sort::Symbol {
                Some((SymbolicTerm::FunctionConstant(string_of(cs, pos, end)), skip_layout(cs, p)))
            } else {
                None
            }
        },
        None => None,
    }
}

/// A term of the general sort: an integer term if one can be read, else an
/// extremum, a general variable or function constant, or a symbolic term.
fn general_term(cs: &Vec<char>, pos: usize) -> (r: Option<(GeneralTerm, usize)>)
    requires
        pos <= cs.len(),
    ensures
        r matches Some((_, end)) ==> pos < end <= cs.len(),
        read_as(r, read_general_term(cs@, pos as int)),
{
    if let Some((t, end)) = integer_term(cs, pos) {
        return Some((GeneralTerm::IntegerTerm(t), end));
    }
    if let Some((t, end)) = extremum(cs, pos) {
        return Some((t, end));
    }
    if let Some((v, end)) = variable(cs, pos) {
        if v.sort == Sort::General {
            return Some((GeneralTerm::Variable(v.name), end));
        }
    }
    if let Some((c, end)) = function_constant(cs, pos) {
        if c.sort == Sort::General {
            return Some((GeneralTerm::FunctionConstant(c.name), end));
        }
    }
    match symbolic_term(cs, pos) {
        Some((t, end)) => Some((GeneralTerm::SymbolicTerm(t), end)),
        None => None,
    }
}

/// A comma-separated list of general terms closed by `)`, after the opening parenthesis.
fn term_list(cs: &Vec<char>, pos: usize) -> (r: Option<(Vec<GeneralTerm>, usize)>)
    requires
        pos <= cs.len(),
    ensures
        r matches Some((_, end)) ==> pos < end <= cs.len(),
        match r { Some((ts, e)) => read_term_list(cs@, pos as int) == Some((views(ts@), e as int)), None => read_term_list(cs@, pos as int) is None },
{
    let mut terms: Vec<GeneralTerm> = Vec::new();
    if at(cs, pos, ')') {
        return Some((terms, skip_layout(cs, pos + 1)));
    }
    let mut p = pos;
    assert(views(terms@) =~= Seq::<GeneralTermModel>::empty());
    loop
        invariant
            pos <= p <= cs.len(),
            read_terms_from(cs@, views(terms@), p as int) == read_term_list(cs@, pos as int),
        decreases cs.len() - p,
    {
        match general_term(cs, p) {
            Some((t, q)) => {
                let ghost before = views(terms@);
                terms.push(t);
                assert(views(terms@) =~= before.push(t@));
                if at(cs, q, ',') {
                    p = skip_layout(cs, q + 1);
                } else if at(cs, q, ')') {
                    return Some((terms, skip_layout(cs, q + 1)));
                } else {
                    return None;
                }
            },
            None => return None,
        }
    }
}

fn atom(cs: &Vec<char>, pos: usize) -> (r: Option<(Atom, usize)>)
    requires
        pos <= cs.len(),
    ensures
        r matches Some((a, end)) ==> pos < end <= cs.len() && is_symbol_name(a.predicate_symbol@),
        read_as(r, read_atom(cs@, pos as int)),
{
    let end = match name(cs, pos) {
        Some(end) => end,
        None => return None,
    };
    if at(cs, end, '$') {
        return None;
    }
    let predicate_symbol = string_of(cs, pos, end);
    let p = skip_layout(cs, end);
    if at(cs, p, '(') {
        match term_list(cs, skip_layout(cs, p + 1)) {
            Some((terms, q)) => Some((Atom { predicate_symbol, terms }, q)),
            None => None,
        }
    } else {
        let a = Atom { predicate_symbol, terms: Vec::new() };
        assert(a@.terms =~= Seq::<GeneralTermModel>::empty());
        Some((a, p))
    }
}

fn predicate(cs: &Vec<char>, pos: usize) -> (r: Option<(Predicate, usize)>)
    requires
        pos <= cs.len(),
    ensures
        r matches Some((p, end)) ==> pos < end <= cs.len() && is_symbol_name(p.symbol@),
        read_as(r, read_predicate(cs@, pos as int)),
{
    let end = match name(cs, pos) {
        Some(end) => end,
        None => return None,
    };
    let symbol = string_of(cs, pos, end);
    let p = skip_layout(cs, end);
    if !at(cs, p, '/') {
        return None;
    }
    let q = skip_layout(cs, p + 1);
    match scan_natural(cs, q) {
        Some(e) => {
            assert forall|k: int| q <= k < e implies '0' <= #[trigger] cs@[k] && cs@[k] <= '9' by {
                assert(cs@.subrange(q as int, e as int)[k - q] == cs@[k]);
            }
            match natural_value(cs, q, e) {
                Some(arity) => Some((Predicate { symbol, arity }, skip_layout(cs, e))),
                None => None,
            }
        },
        None => None,
    }
}

/// A relation; `<` is none where it begins `<-`.
fn relation(cs: &Vec<char>, pos: usize) -> (r: Option<(Relation, usize)>)
    requires
        pos <= cs.len(),
    ensures
        r matches Some((_, end)) ==> pos < end <= cs.len(),
        read_as(r, read_relation(cs@, pos as int)),
{
    if looking_at(cs, pos, &['!', '=']) {
        Some((Relation::NotEqual, skip_layout(cs, pos + 2)))
    } else if looking_at(cs, pos, &['<', '=']) {
        Some((Relation::LessEqual, skip_layout(cs, pos + 2)))
    } else if looking_at(cs, pos, &['>', '=']) {
        Some((Relation::GreaterEqual, skip_layout(cs, pos + 2)))
    } else if at(cs, pos, '<') && !at(cs, pos + 1, '-') {
        Some((Relation::Less, skip_layout(cs, pos + 1)))
    } else if at(cs, pos, '>') {
        Some((Relation::Greater, skip_layout(cs, pos + 1)))
    } else if at(cs, pos, '=') {
        Some((Relation::Equal, skip_layout(cs, pos + 1)))
    } else {
        None
    }
}

fn guard(cs: &Vec<char>, pos: usize) -> (r: Option<(Guard, usize)>)
    requires
        pos <= cs.len(),
    ensures
        r matches Some((_, end)) ==> pos < end <= cs.len(),
        read_as(r, read_guard(cs@, pos as int)),
{
    let (relation, p) = match relation(cs, pos) {
        Some(x) => x,
        None => return None,
    };
    match general_term(cs, p) {
        Some((term, end)) => Some((Guard { relation, term }, end)),
        None => None,
    }
}

/// A term followed by one or more guards.
fn comparison(cs: &Vec<char>, pos: usize) -> (r: Option<(Comparison, usize)>)
    requires
        pos <= cs.len(),
    ensures
        r matches Some((c, end)) ==> pos < end <= cs.len() && c.guards@.len() > 0,
        read_as(r, read_comparison(cs@, pos as int)),
{
    let (term, p) = match general_term(cs, pos) {
        Some(x) => x,
        None => return None,
    };
    let (first, q) = match guard(cs, p) {
        Some(x) => x,
        None => return None,
    };
    let mut guards: Vec<Guard> = Vec::new();
    guards.push(first);
    assert(views(guards@) =~= seq![first@]);
    let mut p = q;
    loop
        invariant
            pos < p <= cs.len(),
            guards@.len() > 0,
            read_guards_rest(cs@, term@, views(guards@), p as int) == read_comparison(cs@, pos as int),
        decreases cs.len() - p,
    {
        match guard(cs, p) {
            Some((g, end)) => {
                let ghost before = views(guards@);
                guards.push(g);
                assert(views(guards@) =~= before.push(g@));
                p = end;
            },
            None => return Some((Comparison { term, guards }, p)),
        }
    }
}

fn atomic_formula(cs: &Vec<char>, pos: usize) -> (r: Option<(AtomicFormula, usize)>)
    requires
        pos <= cs.len(),
    ensures
        r matches Some((_, end)) ==> pos < end <= cs.len(),
        read_as(r, read_atomic_formula(cs@, pos as int)),
{
    if looking_at_word(cs, pos, &['#', 't', 'r', 'u', 'e']) {
        return Some((AtomicFormula::Truth, skip_layout(cs, pos + 5)));
    }
    if looking_at_word(cs, pos, &['#', 'f', 'a', 'l', 's', 'e']) {
        return Some((AtomicFormula::Falsity, skip_layout(cs, pos + 6)));
    }
    if let Some((c, end)) = comparison(cs, pos) {
        return Some((AtomicFormula::Comparison(c), end));
    }
    match atom(cs, pos) {
        Some((a, end)) => Some((AtomicFormula::Atom(a), end)),
        None => None,
    }
}

/// The binary connective at `pos`, its precedence, whether it associates to
/// the right, and its length.
fn connective(cs: &Vec<char>, pos: usize) -> (r: Option<(BinaryConnective, u8, bool, usize)>)
    requires
        pos <= cs.len(),
    ensures
        r matches Some((_, prec, _, len)) ==> 1 <= prec <= 3 && 1 <= len <= 3 && pos + len <= cs.len(),
        match r { Some((c, prec, right, len)) => read_connective(cs@, pos as int) == Some((c, prec, right, len as int)), None => read_connective(cs@, pos as int) is None },
{
    if looking_at(cs, pos, &['<', '-', '>']) {
        Some((BinaryConnective::Equivalence, 1, true, 3))
    } else if looking_at(cs, pos, &['-', '>']) {
        Some((BinaryConnective::Implication, 1, true, 2))
    } else if looking_at(cs, pos, &['<', '-']) {
        Some((BinaryConnective::ReverseImplication, 1, false, 2))
    } else if looking_at_word(cs, pos, &['o', 'r']) {
        Some((BinaryConnective::Disjunction, 2, false, 2))
    } else if looking_at_word(cs, pos, &['a', 'n', 'd']) {
        Some((BinaryConnective::Conjunction, 3, false, 3))
    } else {
        None
    }
}

/// `forall` or `exists` followed by one or more variables.
fn quantification(cs: &Vec<char>, pos: usize) -> (r: Option<(Quantification, usize)>)
    requires
        pos <= cs.len(),
    ensures
        r matches Some((q, end)) ==> pos < end <= cs.len() && q.variables@.len() > 0,
        read_as(r, read_quantification(cs@, pos as int)),
{
    let (quantifier, p) = if looking_at_word(cs, pos, &['f', 'o', 'r', 'a', 'l', 'l']) {
        (Quantifier::Forall, skip_layout(cs, pos + 6))
    } else if looking_at_word(cs, pos, &['e', 'x', 'i', 's', 't', 's']) {
        (Quantifier::Exists, skip_layout(cs, pos + 6))
    } else {
        return None;
    };
    let mut variables: Vec<Variable> = Vec::new();
    let mut q = p;
    assert(views(variables@) =~= Seq::<VariableModel>::empty());
    loop
        invariant
            pos < p <= q <= cs.len(),
            variables@.len() > 0 ==> p < q,
            read_variables_from(cs@, quantifier, views(variables@), q as int) == read_quantification(cs@, pos as int),
        decreases cs.len() - q,
    {
        match variable(cs, q) {
            Some((v, end)) => {
                let ghost before = views(variables@);
                variables.push(v);
                assert(views(variables@) =~= before.push(v@));
                q = end;
            },
            None => {
                if variables.len() == 0 {
                    return None;
                }
                return Some((Quantification { quantifier, variables }, q));
            },
        }
    }
}

/// An atomic formula or a parenthesized formula.
fn formula_primary(cs: &Vec<char>, pos: usize) -> (r: Option<(Formula, usize)>)
    requires
        pos <= cs.len(),
    ensures
        r matches Some((_, end)) ==> pos < end <= cs.len(),
        read_as(r, read_formula_primary(cs@, pos as int)),
    decreases cs.len() - pos, 0nat,
{
    if let Some((a, end)) = atomic_formula(cs, pos) {
        return Some((Formula::AtomicFormula(a), end));
    }
    if at(cs, pos, '(') {
        let p = skip_layout(cs, pos + 1);
        match formula_expr(cs, p, 0) {
            Some((f, q)) => {
                if at(cs, q, ')') {
                    Some((f, skip_layout(cs, q + 1)))
                } else {
                    None
                }
            },
            None => None,
        }
    } else {
        None
    }
}

/// Negations and quantifications, which bind tighter than every binary connective.
fn formula_prefix(cs: &Vec<char>, pos: usize) -> (r: Option<(Formula, usize)>)
    requires
        pos <= cs.len(),
    ensures
        r matches Some((_, end)) ==> pos < end <= cs.len(),
        read_as(r, read_formula_prefix(cs@, pos as int)),
    decreases cs.len() - pos, 1nat,
{
    if looking_at_word(cs, pos, &['n', 'o', 't']) {
        let p = skip_layout(cs, pos + 3);
        return match formula_prefix(cs, p) {
            Some((f, end)) => Some((Formula::UnaryFormula { connective: UnaryConnective::Negation, formula: Box::new(f) }, end)),
            None => None,
        };
    }
    if let Some((quantification, p)) = quantification(cs, pos) {
        return match formula_prefix(cs, p) {
            Some((f, end)) => Some((Formula::QuantifiedFormula { quantification, formula: Box::new(f) }, end)),
            None => None,
        };
    }
    formula_primary(cs, pos)
}

/// Binary formulas whose connective's precedence exceeds `min`.
fn formula_expr(cs: &Vec<char>, pos: usize, min: u8) -> (r: Option<(Formula, usize)>)
    requires
        pos <= cs.len(),
    ensures
        r matches Some((_, end)) ==> pos < end <= cs.len(),
        read_as(r, read_formula_expr(cs@, pos as int, min)),
    decreases cs.len() - pos, 2nat,
{
    let (mut lhs, mut p) = match formula_prefix(cs, pos) {
        Some(x) => x,
        None => return None,
    };
    assert(read_formula_expr(cs@, pos as int, min) == read_formula_rest(cs@, lhs@, p as int, min));
    loop
        invariant
            pos < p <= cs.len(),
            read_formula_rest(cs@, lhs@, p as int, min) == read_formula_expr(cs@, pos as int, min),
        decreases cs.len() - p,
    {
        match connective(cs, p) {
            Some((c, prec, right, len)) => {
                if prec <= min {
                    return Some((lhs, p));
                }
                let q = skip_layout(cs, p + len);
                let next_min: u8 = if right { prec - 1 } else { prec };
                match formula_expr(cs, q, next_min) {
                    Some((rhs, end)) => {
                        let ghost before = lhs@;
                        lhs = Formula::BinaryFormula { connective: c, lhs: Box::new(lhs), rhs: Box::new(rhs) };
                        assert(lhs@ == FormulaModel::BinaryFormula { connective: c, lhs: Box::new(before), rhs: Box::new(rhs@) });
                        p = end;
                    },
                    None => return None,
                }
            },
            None => return Some((lhs, p)),
        }
    }
}

fn formula(cs: &Vec<char>, pos: usize) -> (r: Option<(Formula, usize)>)
    requires
        pos <= cs.len(),
    ensures
        r matches Some((_, end)) ==> pos < end <= cs.len(),
        read_as(r, read_formula(cs@, pos as int)),
{
    formula_expr(cs, pos, 0)
}

/// Formulas, each closed by a full stop.
fn theory(cs: &Vec<char>, pos: usize) -> (r: Option<(Theory, usize)>)
    requires
        pos <= cs.len(),
    ensures
        r matches Some((_, end)) ==> pos <= end <= cs.len(),
        read_as(r, read_theory(cs@, pos as int)),
{
    let mut formulas: Vec<Formula> = Vec::new();
    let mut p = pos;
    assert(views(formulas@) =~= Seq::<FormulaModel>::empty());
    while p < cs.len()
        invariant
            pos <= p <= cs.len(),
            read_formulas_from(cs@, views(formulas@), p as int) == read_theory(cs@, pos as int),
        decreases cs.len() - p,
    {
        match formula(cs, p) {
            Some((f, q)) => {
                if !at(cs, q, '.') {
                    return None;
                }
                let ghost before = views(formulas@);
                formulas.push(f);
                assert(views(formulas@) =~= before.push(f@));
                p = skip_layout(cs, q + 1);
            },
            None => return None,
        }
    }
    Some((Theory { formulas }, p))
}

fn role(cs: &Vec<char>, pos: usize) -> (r: Option<(Role, usize)>)
    requires
        pos <= cs.len(),
    ensures
        r matches Some((_, end)) ==> pos < end <= cs.len(),
        read_as(r, read_role(cs@, pos as int)),
{
    if looking_at_word(cs, pos, &['a', 's', 's', 'u', 'm', 'p', 't', 'i', 'o', 'n']) {
        Some((Role::Assumption, skip_layout(cs, pos + 10)))
    } else if looking_at_word(cs, pos, &['s', 'p', 'e', 'c']) {
        Some((Role::Spec, skip_layout(cs, pos + 4)))
    } else if looking_at_word(cs, pos, &['l', 'e', 'm', 'm', 'a']) {
        Some((Role::Lemma, skip_layout(cs, pos + 5)))
    } else if looking_at_word(cs, pos, &['d', 'e', 'f', 'i', 'n', 'i', 't', 'i', 'o', 'n']) {
        Some((Role::Definition, skip_layout(cs, pos + 10)))
    } else if looking_at_word(cs, pos, &['i', 'n', 'd', 'u', 'c', 't', 'i', 'v', 'e', '-', 'l', 'e', 'm', 'm', 'a']) {
        Some((Role::InductiveLemma, skip_layout(cs, pos + 15)))
    } else {
        None
    }
}

fn direction(cs: &Vec<char>, pos: usize) -> (r: Option<(Direction, usize)>)
    requires
        pos <= cs.len(),
    ensures
        r matches Some((_, end)) ==> pos < end <= cs.len(),
        read_as(r, read_direction(cs@, pos as int)),
{
    if looking_at_word(cs, pos, &['u', 'n', 'i', 'v', 'e', 'r', 's', 'a', 'l']) {
        Some((Direction::Universal, skip_layout(cs, pos + 9)))
    } else if looking_at_word(cs, pos, &['f', 'o', 'r', 'w', 'a', 'r', 'd']) {
        Some((Direction::Forward, skip_layout(cs, pos + 7)))
    } else if looking_at_word(cs, pos, &['b', 'a', 'c', 'k', 'w', 'a', 'r', 'd']) {
        Some((Direction::Backward, skip_layout(cs, pos + 8)))
    } else {
        None
    }
}

/// `role(direction)[name]: formula`, where the direction and the name may be left out.
fn annotated_formula(cs: &Vec<char>, pos: usize) -> (r: Option<(AnnotatedFormula, usize)>)
    requires
        pos <= cs.len(),
    ensures
        r matches Some((_, end)) ==> pos < end <= cs.len(),
        read_as(r, read_annotated_formula(cs@, pos as int)),
{
    let (role, mut p) = match role(cs, pos) {
        Some(x) => x,
        None => return None,
    };
    let mut direction = Direction::Universal;
    if at(cs, p, '(') {
        match self::direction(cs, skip_layout(cs, p + 1)) {
            Some((d, q)) => {
                if !at(cs, q, ')') {
                    return None;
                }
                direction = d;
                p = skip_layout(cs, q + 1);
            },
            None => return None,
        }
    }
    let mut name = String::new();
    if at(cs, p, '[') {
        let start = skip_layout(cs, p + 1);
        let end = word_end(cs, start);
        if end == start {
            return None;
        }
        name = string_of(cs, start, end);
        let q = skip_layout(cs, end);
        if !at(cs, q, ']') {
            return None;
        }
        p = skip_layout(cs, q + 1);
    }
    if !at(cs, p, ':') {
        return None;
    }
    match formula(cs, skip_layout(cs, p + 1)) {
        Some((f, end)) => Some((AnnotatedFormula { role, direction, name, formula: f }, end)),
        None => None,
    }
}

/// Annotated formulas, each closed by a full stop.
fn specification(cs: &Vec<char>, pos: usize) -> (r: Option<(Specification, usize)>)
    requires
        pos <= cs.len(),
    ensures
        r matches Some((_, end)) ==> pos <= end <= cs.len(),
        read_as(r, read_specification(cs@, pos as int)),
{
    let mut formulas: Vec<AnnotatedFormula> = Vec::new();
    let mut p = pos;
    assert(views(formulas@) =~= Seq::<AnnotatedFormulaModel>::empty());
    while p < cs.len()
        invariant
            pos <= p <= cs.len(),
            read_annotated_formulas_from(cs@, views(formulas@), p as int) == read_specification(cs@, pos as int),
        decreases cs.len() - p,
    {
        match annotated_formula(cs, p) {
            Some((f, q)) => {
                if !at(cs, q, '.') {
                    return None;
                }
                let ghost before = views(formulas@);
                formulas.push(f);
                assert(views(formulas@) =~= before.push(f@));
                p = skip_layout(cs, q + 1);
            },
            None => return None,
        }
    }
    Some((Specification { formulas }, p))
}

/// The sort named after `->` in a placeholder declaration.
fn sort_name(cs: &Vec<char>, pos: usize) -> (r: Option<(Sort, usize)>)
    requires
        pos <= cs.len(),
    ensures
        r matches Some((_, end)) ==> pos < end <= cs.len(),
        read_as(r, read_sort_name(cs@, pos as int)),
{
    if looking_at_word(cs, pos, &['i', 'n', 't', 'e', 'g', 'e', 'r']) {
        Some((Sort::Integer, skip_layout(cs, pos + 7)))
    } else if looking_at_word(cs, pos, &['s', 'y', 'm', 'b', 'o', 'l']) {
        Some((Sort::Symbol, skip_layout(cs, pos + 6)))
    } else if looking_at_word(cs, pos, &['g', 'e', 'n', 'e', 'r', 'a', 'l']) {
        Some((Sort::General, skip_layout(cs, pos + 7)))
    } else {
        None
    }
}

/// A placeholder: `name$sort`, or `name -> sort` with the sort spelled out.
fn placeholder(cs: &Vec<char>, pos: usize) -> (r: Option<(FunctionConstant, usize)>)
    requires
        pos <= cs.len(),
    ensures
        r matches Some((_, end)) ==> pos < end <= cs.len(),
        read_as(r, read_placeholder(cs@, pos as int)),
{
    if let Some((c, end)) = function_constant(cs, pos) {
        return Some((c, end));
    }
    let end = match name(cs, pos) {
        Some(end) => end,
        None => return None,
    };
    let p = skip_layout(cs, end);
    if !looking_at(cs, p, &['-', '>']) {
        return None;
    }
    match sort_name(cs, skip_layout(cs, p + 2)) {
        Some((sort, q)) => Some((FunctionConstant { name: string_of(cs, pos, end), sort }, q)),
        None => None,
    }
}

/// `input: p/n`, `input:` with a placeholder, `output: p/n`, or an annotated formula.
fn user_guide_entry(cs: &Vec<char>, pos: usize) -> (r: Option<(UserGuideEntry, usize)>)
    requires
        pos <= cs.len(),
    ensures
        r matches Some((_, end)) ==> pos < end <= cs.len(),
        read_as(r, read_user_guide_entry(cs@, pos as int)),
{
    if looking_at_word(cs, pos, &['i', 'n', 'p', 'u', 't']) {
        let p = skip_layout(cs, pos + 5);
        if !at(cs, p, ':') {
            return None;
        }
        let q = skip_layout(cs, p + 1);
        if let Some((pr, end)) = predicate(cs, q) {
            return Some((UserGuideEntry::InputPredicate(pr), end));
        }
        return match placeholder(cs, q) {
            Some((c, end)) => Some((UserGuideEntry::PlaceholderDeclaration(c), end)),
            None => None,
        };
    }
    if looking_at_word(cs, pos, &['o', 'u', 't', 'p', 'u', 't']) {
        let p = skip_layout(cs, pos + 6);
        if !at(cs, p, ':') {
            return None;
        }
        return match predicate(cs, skip_layout(cs, p + 1)) {
            Some((pr, end)) => Some((UserGuideEntry::OutputPredicate(pr), end)),
            None => None,
        };
    }
    match annotated_formula(cs, pos) {
        Some((f, end)) => Some((UserGuideEntry::AnnotatedFormula(f), end)),
        None => None,
    }
}

/// User guide entries, each closed by a full stop.
fn user_guide(cs: &Vec<char>, pos: usize) -> (r: Option<(UserGuide, usize)>)
    requires
        pos <= cs.len(),
    ensures
        r matches Some((_, end)) ==> pos <= end <= cs.len(),
        read_as(r, read_user_guide(cs@, pos as int)),
{
    let mut entries: Vec<UserGuideEntry> = Vec::new();
    let mut p = pos;
    assert(views(entries@) =~= Seq::<UserGuideEntryModel>::empty());
    while p < cs.len()
        invariant
            pos <= p <= cs.len(),
            read_entries_from(cs@, views(entries@), p as int) == read_user_guide(cs@, pos as int),
        decreases cs.len() - p,
    {
        match user_guide_entry(cs, p) {
            Some((e, q)) => {
                if !at(cs, q, '.') {
                    return None;
                }
                let ghost before = views(entries@);
                entries.push(e);
                assert(views(entries@) =~= before.push(e@));
                p = skip_layout(cs, q + 1);
            },
            None => return None,
        }
    }
    Some((UserGuide { entries }, p))
}

pub struct IntegerTermParser;

impl Parser for IntegerTermParser {
    type Node = IntegerTerm;

    fn parse(input: &str) -> (r: Result<IntegerTerm, ParseError>)
        ensures
            reads_whole(r, read_integer_term(input@, layout_end(input@, 0)), input@.len() as int),
    {
        let (cs, p) = start(input);
        finish(integer_term(&cs, p), cs.len(), p)
    }
}

pub struct SymbolicTermParser;

impl Parser for SymbolicTermParser {
    type Node = SymbolicTerm;

    fn parse(input: &str) -> (r: Result<SymbolicTerm, ParseError>)
        ensures
            reads_whole(r, read_symbolic_term(input@, layout_end(input@, 0)), input@.len() as int),
    {
        let (cs, p) = start(input);
        finish(symbolic_term(&cs, p), cs.len(), p)
    }
}

pub struct GeneralTermParser;

impl Parser for GeneralTermParser {
    type Node = GeneralTerm;

    fn parse(input: &str) -> (r: Result<GeneralTerm, ParseError>)
        ensures
            reads_whole(r, read_general_term(input@, layout_end(input@, 0)), input@.len() as int),
    {
        let (cs, p) = start(input);
        finish(general_term(&cs, p), cs.len(), p)
    }
}

pub struct PredicateParser;

impl Parser for PredicateParser {
    type Node = Predicate;

    fn parse(input: &str) -> (r: Result<Predicate, ParseError>)
        ensures
            reads_whole(r, read_predicate(input@, layout_end(input@, 0)), input@.len() as int),
    {
        let (cs, p) = start(input);
        finish(predicate(&cs, p), cs.len(), p)
    }
}

pub struct AtomParser;

impl Parser for AtomParser {
    type Node = Atom;

    fn parse(input: &str) -> (r: Result<Atom, ParseError>)
        ensures
            reads_whole(r, read_atom(input@, layout_end(input@, 0)), input@.len() as int),
    {
        let (cs, p) = start(input);
        finish(atom(&cs, p), cs.len(), p)
    }
}

pub struct RelationParser;

impl Parser for RelationParser {
    type Node = Relation;

    fn parse(input: &str) -> (r: Result<Relation, ParseError>)
        ensures
            reads_whole(r, read_relation(input@, layout_end(input@, 0)), input@.len() as int),
    {
        let (cs, p) = start(input);
        finish(relation(&cs, p), cs.len(), p)
    }
}

pub struct GuardParser;

impl Parser for GuardParser {
    type Node = Guard;

    fn parse(input: &str) -> (r: Result<Guard, ParseError>)
        ensures
            reads_whole(r, read_guard(input@, layout_end(input@, 0)), input@.len() as int),
    {
        let (cs, p) = start(input);
        finish(guard(&cs, p), cs.len(), p)
    }
}

pub struct ComparisonParser;

impl Parser for ComparisonParser {
    type Node = Comparison;

    fn parse(input: &str) -> (r: Result<Comparison, ParseError>)
        ensures
            reads_whole(r, read_comparison(input@, layout_end(input@, 0)), input@.len() as int),
    {
        let (cs, p) = start(input);
        finish(comparison(&cs, p), cs.len(), p)
    }
}

pub struct AtomicFormulaParser;

impl Parser for AtomicFormulaParser {
    type Node = AtomicFormula;

    fn parse(input: &str) -> (r: Result<AtomicFormula, ParseError>)
        ensures
            reads_whole(r, read_atomic_formula(input@, layout_end(input@, 0)), input@.len() as int),
    {
        let (cs, p) = start(input);
        finish(atomic_formula(&cs, p), cs.len(), p)
    }
}

pub struct QuantificationParser;

impl Parser for QuantificationParser {
    type Node = Quantification;

    fn parse(input: &str) -> (r: Result<Quantification, ParseError>)
        ensures
            reads_whole(r, read_quantification(input@, layout_end(input@, 0)), input@.len() as int),
    {
        let (cs, p) = start(input);
        finish(quantification(&cs, p), cs.len(), p)
    }
}

pub struct FunctionConstantParser;

impl Parser for FunctionConstantParser {
    type Node = FunctionConstant;

    fn parse(input: &str) -> (r: Result<FunctionConstant, ParseError>)
        ensures
            reads_whole(r, read_function_constant(input@, layout_end(input@, 0)), input@.len() as int),
    {
        let (cs, p) = start(input);
        finish(function_constant(&cs, p), cs.len(), p)
    }
}

pub struct VariableParser;

impl Parser for VariableParser {
    type Node = Variable;

    fn parse(input: &str) -> (r: Result<Variable, ParseError>)
        ensures
            reads_whole(r, read_variable(input@, layout_end(input@, 0)), input@.len() as int),
    {
        let (cs, p) = start(input);
        finish(variable(&cs, p), cs.len(), p)
    }
}

pub struct FormulaParser;

impl Parser for FormulaParser {
    type Node = Formula;

    fn parse(input: &str) -> (r: Result<Formula, ParseError>)
        ensures
            reads_whole(r, read_formula(input@, layout_end(input@, 0)), input@.len() as int),
    {
        let (cs, p) = start(input);
        finish(formula(&cs, p), cs.len(), p)
    }
}

pub struct TheoryParser;

impl Parser for TheoryParser {
    type Node = Theory;

    fn parse(input: &str) -> (r: Result<Theory, ParseError>)
        ensures
            reads_whole(r, read_theory(input@, layout_end(input@, 0)), input@.len() as int),
    {
        let (cs, p) = start(input);
        finish(theory(&cs, p), cs.len(), p)
    }
}

pub struct RoleParser;

impl Parser for RoleParser {
    type Node = Role;

    fn parse(input: &str) -> (r: Result<Role, ParseError>)
        ensures
            reads_whole(r, read_role(input@, layout_end(input@, 0)), input@.len() as int),
    {
        let (cs, p) = start(input);
        finish(role(&cs, p), cs.len(), p)
    }
}

pub struct DirectionParser;

impl Parser for DirectionParser {
    type Node = Direction;

    fn parse(input: &str) -> (r: Result<Direction, ParseError>)
        ensures
            reads_whole(r, read_direction(input@, layout_end(input@, 0)), input@.len() as int),
    {
        let (cs, p) = start(input);
        finish(direction(&cs, p), cs.len(), p)
    }
}

pub struct AnnotatedFormulaParser;

impl Parser for AnnotatedFormulaParser {
    type Node = AnnotatedFormula;

    fn parse(input: &str) -> (r: Result<AnnotatedFormula, ParseError>)
        ensures
            reads_whole(r, read_annotated_formula(input@, layout_end(input@, 0)), input@.len() as int),
    {
        let (cs, p) = start(input);
        finish(annotated_formula(&cs, p), cs.len(), p)
    }
}

pub struct SpecificationParser;

impl Parser for SpecificationParser {
    type Node = Specification;

    fn parse(input: &str) -> (r: Result<Specification, ParseError>)
        ensures
            reads_whole(r, read_specification(input@, layout_end(input@, 0)), input@.len() as int),
    {
        let (cs, p) = start(input);
        finish(specification(&cs, p), cs.len(), p)
    }
}

pub struct UserGuideEntryParser;

impl Parser for UserGuideEntryParser {
    type Node = UserGuideEntry;

    fn parse(input: &str) -> (r: Result<UserGuideEntry, ParseError>)
        ensures
            reads_whole(r, read_user_guide_entry(input@, layout_end(input@, 0)), input@.len() as int),
    {
        let (cs, p) = start(input);
        finish(user_guide_entry(&cs, p), cs.len(), p)
    }
}

pub struct UserGuideParser;

impl Parser for UserGuideParser {
    type Node = UserGuide;

    fn parse(input: &str) -> (r: Result<UserGuide, ParseError>)
        ensures
            reads_whole(r, read_user_guide(input@, layout_end(input@, 0)), input@.len() as int),
    {
        let (cs, p) = start(input);
        finish(user_guide(&cs, p), cs.len(), p)
    }
}

pub struct UnaryOperatorParser;

impl Parser for UnaryOperatorParser {
    type Node = UnaryOperator;

    fn parse(input: &str) -> (r: Result<UnaryOperator, ParseError>)
        ensures
            reads_whole(r, read_unary_operator(input@, layout_end(input@, 0)), input@.len() as int),
    {
        let (cs, p) = start(input);
        if at(&cs, p, '-') {
            finish(Some((UnaryOperator::Negative, skip_layout(&cs, p + 1))), cs.len(), p)
        } else {
            Err(ParseError { position: p })
        }
    }
}

pub struct BinaryOperatorParser;

impl Parser for BinaryOperatorParser {
    type Node = BinaryOperator;

    fn parse(input: &str) -> (r: Result<BinaryOperator, ParseError>)
        ensures
            reads_whole(r, read_integer_operator_token(input@, layout_end(input@, 0)), input@.len() as int),
    {
        let (cs, p) = start(input);
        match integer_operator(&cs, p) {
            Some((op, _)) => finish(Some((op, skip_layout(&cs, p + 1))), cs.len(), p),
            None => Err(ParseError { position: p }),
        }
    }
}

pub struct UnaryConnectiveParser;

impl Parser for UnaryConnectiveParser {
    type Node = UnaryConnective;

    fn parse(input: &str) -> (r: Result<UnaryConnective, ParseError>)
        ensures
            reads_whole(r, read_unary_connective(input@, layout_end(input@, 0)), input@.len() as int),
    {
        let (cs, p) = start(input);
        if looking_at_word(&cs, p, &['n', 'o', 't']) {
            finish(Some((UnaryConnective::Negation, skip_layout(&cs, p + 3))), cs.len(), p)
        } else {
            Err(ParseError { position: p })
        }
    }
}

pub struct BinaryConnectiveParser;

impl Parser for BinaryConnectiveParser {
    type Node = BinaryConnective;

    fn parse(input: &str) -> (r: Result<BinaryConnective, ParseError>)
        ensures
            reads_whole(r, read_connective_token(input@, layout_end(input@, 0)), input@.len() as int),
    {
        let (cs, p) = start(input);
        match connective(&cs, p) {
            Some((c, _, _, len)) => finish(Some((c, skip_layout(&cs, p + len))), cs.len(), p),
            None => Err(ParseError { position: p }),
        }
    }
}

pub struct QuantifierParser;

impl Parser for QuantifierParser {
    type Node = Quantifier;

    fn parse(input: &str) -> (r: Result<Quantifier, ParseError>)
        ensures
            reads_whole(r, read_quantifier(input@, layout_end(input@, 0)), input@.len() as int),
    {
        let (cs, p) = start(input);
        if looking_at_word(&cs, p, &['f', 'o', 'r', 'a', 'l', 'l']) {
            finish(Some((Quantifier::Forall, skip_layout(&cs, p + 6))), cs.len(), p)
        } else if looking_at_word(&cs, p, &['e', 'x', 'i', 's', 't', 's']) {
            finish(Some((Quantifier::Exists, skip_layout(&cs, p + 6))), cs.len(), p)
        } else {
            Err(ParseError { position: p })
        }
    }
}

impl std::str::FromStr for IntegerTerm {
    type Err = ParseError;

    fn from_str(s: &str) -> Result<IntegerTerm, ParseError> {
        IntegerTermParser::parse(s)
    }
}

impl std::str::FromStr for SymbolicTerm {
    type Err = ParseError;

    fn from_str(s: &str) -> Result<SymbolicTerm, ParseError> {
        SymbolicTermParser::parse(s)
    }
}

impl std::str::FromStr for GeneralTerm {
    type Err = ParseError;

    fn from_str(s: &str) -> Result<GeneralTerm, ParseError> {
        GeneralTermParser::parse(s)
    }
}

impl std::str::FromStr for Predicate {
    type Err = ParseError;

    fn from_str(s: &str) -> Result<Predicate, ParseError> {
        PredicateParser::parse(s)
    }
}

impl std::str::FromStr for Atom {
    type Err = ParseError;

    fn from_str(s: &str) -> Result<Atom, ParseError> {
        AtomParser::parse(s)
    }
}

impl std::str::FromStr for Relation {
    type Err = ParseError;

    fn from_str(s: &str) -> Result<Relation, ParseError> {
        RelationParser::parse(s)
    }
}

impl std::str::FromStr for Guard {
    type Err = ParseError;

    fn from_str(s: &str) -> Result<Guard, ParseError> {
        GuardParser::parse(s)
    }
}

impl std::str::FromStr for Comparison {
    type Err = ParseError;

    fn from_str(s: &str) -> Result<Comparison, ParseError> {
        ComparisonParser::parse(s)
    }
}

impl std::str::FromStr for AtomicFormula {
    type Err = ParseError;

    fn from_str(s: &str) -> Result<AtomicFormula, ParseError> {
        AtomicFormulaParser::parse(s)
    }
}

impl std::str::FromStr for Quantification {
    type Err = ParseError;

    fn from_str(s: &str) -> Result<Quantification, ParseError> {
        QuantificationParser::parse(s)
    }
}

impl std::str::FromStr for FunctionConstant {
    type Err = ParseError;

    fn from_str(s: &str) -> Result<FunctionConstant, ParseError> {
        FunctionConstantParser::parse(s)
    }
}

impl std::str::FromStr for Variable {
    type Err = ParseError;

    fn from_str(s: &str) -> Result<Variable, ParseError> {
        VariableParser::parse(s)
    }
}

impl std::str::FromStr for Formula {
    type Err = ParseError;

    fn from_str(s: &str) -> Result<Formula, ParseError> {
        FormulaParser::parse(s)
    }
}

impl std::str::FromStr for Theory {
    type Err = ParseError;

    fn from_str(s: &str) -> Result<Theory, ParseError> {
        TheoryParser::parse(s)
    }
}

impl std::str::FromStr for Role {
    type Err = ParseError;

    fn from_str(s: &str) -> Result<Role, ParseError> {
        RoleParser::parse(s)
    }
}

impl std::str::FromStr for Direction {
    type Err = ParseError;

    fn from_str(s: &str) -> Result<Direction, ParseError> {
        DirectionParser::parse(s)
    }
}

impl std::str::FromStr for AnnotatedFormula {
    type Err = ParseError;

    fn from_str(s: &str) -> Result<AnnotatedFormula, ParseError> {
        AnnotatedFormulaParser::parse(s)
    }
}

impl std::str::FromStr for Specification {
    type Err = ParseError;

    fn from_str(s: &str) -> Result<Specification, ParseError> {
        SpecificationParser::parse(s)
    }
}

impl std::str::FromStr for UserGuideEntry {
    type Err = ParseError;

    fn from_str(s: &str) -> Result<UserGuideEntry, ParseError> {
        UserGuideEntryParser::parse(s)
    }
}

impl std::str::FromStr for UserGuide {
    type Err = ParseError;

    fn from_str(s: &str) -> Result<UserGuide, ParseError> {
        UserGuideParser::parse(s)
    }
}

impl std::str::FromStr for UnaryOperator {
    type Err = ParseError;

    fn from_str(s: &str) -> Result<UnaryOperator, ParseError> {
        UnaryOperatorParser::parse(s)
    }
}

impl std::str::FromStr for BinaryOperator {
    type Err = ParseError;

    fn from_str(s: &str) -> Result<BinaryOperator, ParseError> {
        BinaryOperatorParser::parse(s)
    }
}

impl std::str::FromStr for UnaryConnective {
    type Err = ParseError;

    fn from_str(s: &str) -> Result<UnaryConnective, ParseError> {
        UnaryConnectiveParser::parse(s)
    }
}

impl std::str::FromStr for BinaryConnective {
    type Err = ParseError;

    fn from_str(s: &str) -> Result<BinaryConnective, ParseError> {
        BinaryConnectiveParser::parse(s)
    }
}

impl std::str::FromStr for Quantifier {
    type Err = ParseError;

    fn from_str(s: &str) -> Result<Quantifier, ParseError> {
        QuantifierParser::parse(s)
    }
}

} // verus!
