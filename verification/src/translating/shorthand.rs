//! The shorthand translation of programs whose terms are symbols and
//! variables only: each rule `H :- B1, ..., Bn` becomes
//! `forall V (B1 and ... and Bn -> H)`.

use crate::convenience::sets::views;
use crate::syntax_tree::asp;
use crate::syntax_tree::fol::{
    self, AtomicFormula, AtomicFormulaModel, BinaryConnective, Formula, FormulaModel,
    GeneralTermModel, SymbolicTermModel, Theory, TheoryModel, UnaryConnective,
};
use crate::syntax_tree::fol_ops::conjunction_of;
use crate::translating::tau_star::{atom_formula, compare, conj, implication, neg, relation, signed};
use vstd::prelude::*;

verus! {

/// Terms that the shorthand translation covers: symbols and variables.
pub open spec fn is_simple_term(t: asp::TermModel) -> bool {
    match t {
        asp::TermModel::PrecomputedTerm(asp::PrecomputedTermModel::Symbol(_)) => true,
        asp::TermModel::Variable(_) => true,
        _ => false,
    }
}

pub open spec fn is_simple_atom(a: asp::AtomModel) -> bool {
    forall|i: int| 0 <= i < a.terms.len() ==> is_simple_term(#[trigger] a.terms[i])
}

pub open spec fn is_simple_formula(f: asp::AtomicFormulaModel) -> bool {
    match f {
        asp::AtomicFormulaModel::Literal(l) => is_simple_atom(l.atom),
        asp::AtomicFormulaModel::Comparison(c) => is_simple_term(c.lhs) && is_simple_term(c.rhs),
    }
}

pub open spec fn is_simple_body(b: asp::BodyModel) -> bool {
    forall|i: int| 0 <= i < b.formulas.len() ==> is_simple_formula(#[trigger] b.formulas[i])
}

pub open spec fn is_simple_rule(r: asp::RuleModel) -> bool {
    &&& is_simple_body(r.body)
    &&& match r.head {
        asp::HeadModel::Basic(a) => is_simple_atom(a),
        asp::HeadModel::Choice(a) => is_simple_atom(a),
        asp::HeadModel::Falsity => true,
    }
}

/// Programs whose terms are all symbols or variables.
pub open spec fn is_simple_program(p: asp::ProgramModel) -> bool {
    forall|i: int| 0 <= i < p.rules.len() ==> is_simple_rule(#[trigger] p.rules[i])
}

/// A symbol or a variable as a first-order term.
pub open spec fn term_model(t: asp::TermModel) -> GeneralTermModel {
    match t {
        asp::TermModel::PrecomputedTerm(asp::PrecomputedTermModel::Symbol(s)) =>
            GeneralTermModel::SymbolicTerm(SymbolicTermModel::Symbol(s)),
        asp::TermModel::Variable(v) => GeneralTermModel::Variable(v.0),
        _ => GeneralTermModel::Infimum,
    }
}

pub open spec fn atom_model(a: asp::AtomModel) -> FormulaModel {
    atom_formula(a.predicate_symbol, a.terms.map_values(|t: asp::TermModel| term_model(t)))
}

pub open spec fn comparison_model(c: asp::ComparisonModel) -> FormulaModel {
    compare(term_model(c.lhs), relation(c.relation), term_model(c.rhs))
}

pub open spec fn body_formula_model(f: asp::AtomicFormulaModel) -> FormulaModel {
    match f {
        asp::AtomicFormulaModel::Literal(l) => signed(l.sign, atom_model(l.atom)),
        asp::AtomicFormulaModel::Comparison(c) => comparison_model(c),
    }
}

/// The conjunction of the translated body formulas.
pub open spec fn body_model(b: asp::BodyModel) -> FormulaModel {
    conjunction_of(b.formulas.map_values(|f: asp::AtomicFormulaModel| body_formula_model(f)))
}

/// The body and `not not` the head.
pub open spec fn choice_body_model(b: asp::BodyModel, head: asp::AtomModel) -> FormulaModel {
    conj(body_model(b), neg(neg(atom_model(head))))
}

/// `forall V (B -> H)` over the free variables `V` of the rule.
pub open spec fn shorthand_rule_model(r: asp::RuleModel) -> FormulaModel {
    match r.head {
        asp::HeadModel::Basic(a) => implication(body_model(r.body), atom_model(a)),
        asp::HeadModel::Choice(a) => implication(choice_body_model(r.body, a), atom_model(a)),
        asp::HeadModel::Falsity => implication(body_model(r.body), FormulaModel::AtomicFormula(AtomicFormulaModel::Falsity)),
    }.universal_closure()
}

/// `H` in place of `#true -> H`.
pub open spec fn drop_truth(f: FormulaModel) -> FormulaModel {
    match f {
        FormulaModel::BinaryFormula { connective, lhs, rhs } =>
            if connective == BinaryConnective::Implication && *lhs == FormulaModel::AtomicFormula(AtomicFormulaModel::Truth) {
                *rhs
            } else {
                f
            },
        _ => f,
    }
}

pub open spec fn shorthand_model(p: asp::ProgramModel) -> TheoryModel {
    TheoryModel { formulas: p.rules.map_values(|r: asp::RuleModel| drop_truth(shorthand_rule_model(r))) }
}

/// A symbol or a variable as a first-order term.
pub fn translate_term(term: asp::Term) -> (r: fol::GeneralTerm)
    requires
        is_simple_term(term@),
    ensures
        r@ == term_model(term@),
{
    match term {
        asp::Term::PrecomputedTerm(asp::PrecomputedTerm::Symbol(s)) =>
            fol::GeneralTerm::SymbolicTerm(fol::SymbolicTerm::Symbol(s)),
        asp::Term::Variable(v) => fol::GeneralTerm::Variable(v.0),
        _ => fol::GeneralTerm::Infimum,
    }
}

/// An atom over symbols and variables as a first-order atom.
pub fn translate_atom(atom: asp::Atom) -> (r: Formula)
    requires
        is_simple_atom(atom@),
    ensures
        r@ == atom_model(atom@),
{
    let ghost all = atom@.terms;
    let mut rest = atom.terms;
    let n = rest.len();
    let mut terms: Vec<fol::GeneralTerm> = Vec::new();
    let mut i: usize = 0;
    while i < n
        invariant
            n == all.len(),
            i <= n,
            is_simple_atom(atom@),
            all == atom@.terms,
            rest.len() == n - i,
            forall|k: int| 0 <= k < rest.len() ==> #[trigger] rest@[k]@ == all[k + i],
            terms.len() == i,
            forall|k: int| 0 <= k < i ==> #[trigger] terms@[k]@ == term_model(all[k]),
        decreases n - i,
    {
        let t = rest.remove(0);
        assert(t@ == all[i as int]);
        assert(is_simple_term(all[i as int]));
        terms.push(translate_term(t));
        i += 1;
    }
    assert(views(terms@) =~= all.map_values(|t: asp::TermModel| term_model(t)));
    Formula::AtomicFormula(AtomicFormula::Atom(fol::Atom { predicate_symbol: atom.predicate_symbol, terms }))
}

/// A comparison of symbols and variables as a first-order comparison.
pub fn translate_comparison(comparison: asp::Comparison) -> (r: Formula)
    requires
        is_simple_term(comparison@.lhs),
        is_simple_term(comparison@.rhs),
    ensures
        r@ == comparison_model(comparison@),
{
    let relation = match comparison.relation {
        asp::Relation::Equal => fol::Relation::Equal,
        asp::Relation::NotEqual => fol::Relation::NotEqual,
        asp::Relation::Less => fol::Relation::Less,
        asp::Relation::LessEqual => fol::Relation::LessEqual,
        asp::Relation::Greater => fol::Relation::Greater,
        asp::Relation::GreaterEqual => fol::Relation::GreaterEqual,
    };
    let guard = fol::Guard { relation, term: translate_term(comparison.rhs) };
    let ghost g = guard@;
    let mut guards: Vec<fol::Guard> = Vec::new();
    guards.push(guard);
    let r = Formula::AtomicFormula(AtomicFormula::Comparison(fol::Comparison {
        term: translate_term(comparison.lhs),
        guards,
    }));
    assert(views(guards@) =~= seq![g]);
    r
}

fn negate(f: Formula) -> (r: Formula)
    ensures
        r@ == neg(f@),
{
    Formula::UnaryFormula { connective: UnaryConnective::Negation, formula: Box::new(f) }
}

/// The conjunction of the translated body formulas.
pub fn body_translate(body: asp::Body) -> (r: Formula)
    requires
        is_simple_body(body@),
    ensures
        r@ == body_model(body@),
{
    let ghost all = body@.formulas;
    let mut rest = body.formulas;
    let n = rest.len();
    let mut formulas: Vec<Formula> = Vec::new();
    let mut i: usize = 0;
    while i < n
        invariant
            n == all.len(),
            i <= n,
            is_simple_body(body@),
            all == body@.formulas,
            rest.len() == n - i,
            forall|k: int| 0 <= k < rest.len() ==> #[trigger] rest@[k]@ == all[k + i],
            formulas.len() == i,
            forall|k: int| 0 <= k < i ==> #[trigger] formulas@[k]@ == body_formula_model(all[k]),
        decreases n - i,
    {
        let f = rest.remove(0);
        assert(f@ == all[i as int]);
        assert(is_simple_formula(all[i as int]));
        let formula = match f {
            asp::AtomicFormula::Literal(l) => match l.sign {
                asp::Sign::NoSign => translate_atom(l.atom),
                asp::Sign::Negation => negate(translate_atom(l.atom)),
                asp::Sign::DoubleNegation => negate(negate(translate_atom(l.atom))),
            },
            asp::AtomicFormula::Comparison(c) => translate_comparison(c),
        };
        formulas.push(formula);
        i += 1;
    }
    assert(views(formulas@) =~= all.map_values(|f: asp::AtomicFormulaModel| body_formula_model(f)));
    Formula::conjoin(formulas)
}

/// The body and `not not` the head of a choice rule.
pub fn choice_body_translate(body: asp::Body, head: asp::Atom) -> (r: Formula)
    requires
        is_simple_body(body@),
        is_simple_atom(head@),
    ensures
        r@ == choice_body_model(body@, head@),
{
    let body = body_translate(body);
    Formula::BinaryFormula {
        connective: BinaryConnective::Conjunction,
        lhs: Box::new(body),
        rhs: Box::new(negate(negate(translate_atom(head)))),
    }
}

/// `forall V (B -> H)` for a rule.
pub fn shorthand_rule(rule: asp::Rule) -> (r: Formula)
    requires
        is_simple_rule(rule@),
    ensures
        r@ == shorthand_rule_model(rule@),
{
    let (head, body) = match rule.head {
        asp::Head::Basic(a) => (translate_atom(a), body_translate(rule.body)),
        asp::Head::Choice(a) => (translate_atom(a.clone()), choice_body_translate(rule.body, a)),
        asp::Head::Falsity => (Formula::AtomicFormula(AtomicFormula::Falsity), body_translate(rule.body)),
    };
    Formula::BinaryFormula { connective: BinaryConnective::Implication, lhs: Box::new(body), rhs: Box::new(head) }
        .universal_closure()
}

/// The shorthand translation of a program: one formula for each rule, where
/// `#true -> H` is written `H`.
pub fn shorthand(p: asp::Program) -> (r: Theory)
    requires
        is_simple_program(p@),
    ensures
        r@ == shorthand_model(p@),
{
    let ghost all = p@.rules;
    let mut rest = p.rules;
    let n = rest.len();
    let mut formulas: Vec<Formula> = Vec::new();
    let mut i: usize = 0;
    while i < n
        invariant
            n == all.len(),
            i <= n,
            is_simple_program(p@),
            all == p@.rules,
            rest.len() == n - i,
            forall|k: int| 0 <= k < rest.len() ==> #[trigger] rest@[k]@ == all[k + i],
            formulas.len() == i,
            forall|k: int| 0 <= k < i ==> #[trigger] formulas@[k]@ == drop_truth(shorthand_rule_model(all[k])),
        decreases n - i,
    {
        let r = rest.remove(0);
        assert(r@ == all[i as int]);
        assert(is_simple_rule(all[i as int]));
        let translation = shorthand_rule(r);
        proof {
            reveal_with_fuel(crate::syntax_tree::fol::formula_model, 2);
        }
        let formula = match translation {
            Formula::BinaryFormula { connective: BinaryConnective::Implication, lhs, rhs } => match *lhs {
                Formula::AtomicFormula(AtomicFormula::Truth) => *rhs,
                other => Formula::BinaryFormula { connective: BinaryConnective::Implication, lhs: Box::new(other), rhs },
            },
            x => x,
        };
        formulas.push(formula);
        i += 1;
    }
    assert(views(formulas@) =~= all.map_values(|r: asp::RuleModel| drop_truth(shorthand_rule_model(r))));
    Theory { formulas }
}

} // verus!
