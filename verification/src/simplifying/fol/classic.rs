//! Simplifications that hold in classical logic.

use crate::convenience::sets::views;
use crate::syntax_tree::fol::{Formula, FormulaModel, Theory, TheoryModel, UnaryConnective};
use vstd::prelude::*;

verus! {

/// `F` in place of `not not F` at the root; the formula itself otherwise.
pub open spec fn without_double_negation(f: FormulaModel) -> FormulaModel {
    match f {
        FormulaModel::UnaryFormula { connective: UnaryConnective::Negation, formula } => match *formula {
            FormulaModel::UnaryFormula { connective: UnaryConnective::Negation, formula: inner } => *inner,
            _ => f,
        },
        _ => f,
    }
}

/// The formula with the simplification applied to every node, from the leaves
/// up: each node is simplified after its subformulas.
pub open spec fn simplified(f: FormulaModel) -> FormulaModel
    decreases f,
{
    without_double_negation(match f {
        FormulaModel::AtomicFormula(_) => f,
        FormulaModel::UnaryFormula { connective, formula } =>
            FormulaModel::UnaryFormula { connective, formula: Box::new(simplified(*formula)) },
        FormulaModel::BinaryFormula { connective, lhs, rhs } => FormulaModel::BinaryFormula {
            connective,
            lhs: Box::new(simplified(*lhs)),
            rhs: Box::new(simplified(*rhs)),
        },
        FormulaModel::QuantifiedFormula { quantification, formula } =>
            FormulaModel::QuantifiedFormula { quantification, formula: Box::new(simplified(*formula)) },
    })
}

/// Whether no negation anywhere in the formula stands directly before another.
pub open spec fn no_double_negation(f: FormulaModel) -> bool
    decreases f,
{
    match f {
        FormulaModel::AtomicFormula(_) => true,
        FormulaModel::UnaryFormula { connective: UnaryConnective::Negation, formula } =>
            !(*formula matches FormulaModel::UnaryFormula { connective: UnaryConnective::Negation, .. })
                && no_double_negation(*formula),
        FormulaModel::BinaryFormula { lhs, rhs, .. } => no_double_negation(*lhs) && no_double_negation(*rhs),
        FormulaModel::QuantifiedFormula { formula, .. } => no_double_negation(*formula),
    }
}

/// The simplification leaves no double negation anywhere.
pub proof fn lemma_simplified_no_double_negation(f: FormulaModel)
    ensures
        no_double_negation(simplified(f)),
    decreases f,
{
    match f {
        FormulaModel::AtomicFormula(_) => {},
        FormulaModel::UnaryFormula { connective, formula } => {
            lemma_simplified_no_double_negation(*formula);
            let inner = simplified(*formula);
            match inner {
                FormulaModel::UnaryFormula { connective: UnaryConnective::Negation, formula: g } => {
                    assert(no_double_negation(*g));
                },
                _ => {},
            }
        },
        FormulaModel::BinaryFormula { lhs, rhs, .. } => {
            lemma_simplified_no_double_negation(*lhs);
            lemma_simplified_no_double_negation(*rhs);
        },
        FormulaModel::QuantifiedFormula { formula, .. } => {
            lemma_simplified_no_double_negation(*formula);
        },
    }
}

/// A formula without double negations is left as it is.
pub proof fn lemma_simplified_unchanged(f: FormulaModel)
    requires
        no_double_negation(f),
    ensures
        simplified(f) == f,
    decreases f,
{
    match f {
        FormulaModel::AtomicFormula(_) => {},
        FormulaModel::UnaryFormula { formula, .. } => lemma_simplified_unchanged(*formula),
        FormulaModel::BinaryFormula { lhs, rhs, .. } => {
            lemma_simplified_unchanged(*lhs);
            lemma_simplified_unchanged(*rhs);
        },
        FormulaModel::QuantifiedFormula { formula, .. } => lemma_simplified_unchanged(*formula),
    }
}

/// Simplifying twice gives what simplifying once gives.
pub proof fn lemma_simplified_idempotent(f: FormulaModel)
    ensures
        simplified(simplified(f)) == simplified(f),
{
    lemma_simplified_no_double_negation(f);
    lemma_simplified_unchanged(simplified(f));
}

/// Removes a double negation at the root: `not not F` becomes `F`.
pub fn remove_double_negation(formula: Formula) -> (r: Formula)
    ensures
        r@ == without_double_negation(formula@),
{
    proof {
        reveal_with_fuel(crate::syntax_tree::fol::formula_model, 2);
    }
    match formula {
        Formula::UnaryFormula { connective: UnaryConnective::Negation, formula: f } => match *f {
            Formula::UnaryFormula { connective: UnaryConnective::Negation, formula: inner } => *inner,
            g => Formula::UnaryFormula { connective: UnaryConnective::Negation, formula: Box::new(g) },
        },
        x => x,
    }
}

/// Applies the classical simplifications to every node, from the leaves up.
pub fn simplify_formula(formula: Formula) -> (r: Formula)
    ensures
        r@ == simplified(formula@),
    decreases formula,
{
    let inner = match formula {
        Formula::AtomicFormula(a) => Formula::AtomicFormula(a),
        Formula::UnaryFormula { connective, formula } =>
            Formula::UnaryFormula { connective, formula: Box::new(simplify_formula(*formula)) },
        Formula::BinaryFormula { connective, lhs, rhs } => Formula::BinaryFormula {
            connective,
            lhs: Box::new(simplify_formula(*lhs)),
            rhs: Box::new(simplify_formula(*rhs)),
        },
        Formula::QuantifiedFormula { quantification, formula } =>
            Formula::QuantifiedFormula { quantification, formula: Box::new(simplify_formula(*formula)) },
    };
    remove_double_negation(inner)
}

/// Simplifies every formula of a theory.
pub fn simplify(theory: Theory) -> (r: Theory)
    ensures
        r@ == (TheoryModel { formulas: theory@.formulas.map_values(|f: FormulaModel| simplified(f)) }),
{
    let ghost all = theory@.formulas;
    let mut rest = theory.formulas;
    let n = rest.len();
    let mut formulas: Vec<Formula> = Vec::new();
    let mut i: usize = 0;
    while i < n
        invariant
            n == all.len(),
            i <= n,
            rest.len() == n - i,
            forall|k: int| 0 <= k < rest.len() ==> #[trigger] rest@[k]@ == all[k + i],
            formulas.len() == i,
            forall|k: int| 0 <= k < i ==> #[trigger] formulas@[k]@ == simplified(all[k]),
        decreases n - i,
    {
        let f = rest.remove(0);
        assert(f@ == all[i as int]);
        formulas.push(simplify_formula(f));
        i += 1;
    }
    assert(views(formulas@) =~= all.map_values(|f: FormulaModel| simplified(f)));
    Theory { formulas }
}

} // verus!
