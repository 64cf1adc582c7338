//! The translation gamma from here-and-there logic into classical logic: every
//! predicate `p` is split into `hp` (here) and `tp` (there).

use crate::convenience::sets::views;
use crate::convenience::text::concat;
use crate::syntax_tree::fol::{
    Atom, AtomModel, AtomicFormula, AtomicFormulaModel, BinaryConnective, Formula, FormulaModel,
    Theory, TheoryModel, UnaryConnective,
};
use vstd::prelude::*;

verus! {

/// The formula with `prefix` put in front of the symbol of every atom.
pub open spec fn prepend_predicate(f: FormulaModel, prefix: Seq<char>) -> FormulaModel
    decreases f,
{
    match f {
        FormulaModel::AtomicFormula(AtomicFormulaModel::Atom(a)) => FormulaModel::AtomicFormula(
            AtomicFormulaModel::Atom(AtomModel { predicate_symbol: prefix + a.predicate_symbol, terms: a.terms }),
        ),
        FormulaModel::AtomicFormula(_) => f,
        FormulaModel::UnaryFormula { connective, formula } => FormulaModel::UnaryFormula {
            connective,
            formula: Box::new(prepend_predicate(*formula, prefix)),
        },
        FormulaModel::BinaryFormula { connective, lhs, rhs } => FormulaModel::BinaryFormula {
            connective,
            lhs: Box::new(prepend_predicate(*lhs, prefix)),
            rhs: Box::new(prepend_predicate(*rhs, prefix)),
        },
        FormulaModel::QuantifiedFormula { quantification, formula } => FormulaModel::QuantifiedFormula {
            quantification,
            formula: Box::new(prepend_predicate(*formula, prefix)),
        },
    }
}

pub open spec fn here(f: FormulaModel) -> FormulaModel {
    prepend_predicate(f, "h"@)
}

pub open spec fn there(f: FormulaModel) -> FormulaModel {
    prepend_predicate(f, "t"@)
}

/// Renaming predicates keeps the free variables of a formula.
pub proof fn lemma_prepend_free_variables(f: FormulaModel, prefix: Seq<char>)
    ensures
        prepend_predicate(f, prefix).free_variables() == f.free_variables(),
    decreases f,
{
    match f {
        FormulaModel::AtomicFormula(_) => {},
        FormulaModel::UnaryFormula { formula, .. } => lemma_prepend_free_variables(*formula, prefix),
        FormulaModel::BinaryFormula { lhs, rhs, .. } => {
            lemma_prepend_free_variables(*lhs, prefix);
            lemma_prepend_free_variables(*rhs, prefix);
        },
        FormulaModel::QuantifiedFormula { formula, .. } => lemma_prepend_free_variables(*formula, prefix),
    }
}

/// gamma: atoms hold here; a negation speaks of there; an implication, a
/// reverse implication or an equivalence holds here and there.
pub open spec fn gamma_model(f: FormulaModel) -> FormulaModel
    decreases f,
{
    match f {
        FormulaModel::AtomicFormula(_) => here(f),
        FormulaModel::UnaryFormula { connective, formula } => FormulaModel::UnaryFormula {
            connective,
            formula: Box::new(there(*formula)),
        },
        FormulaModel::BinaryFormula { connective, lhs, rhs } => {
            if connective == BinaryConnective::Conjunction || connective == BinaryConnective::Disjunction {
                FormulaModel::BinaryFormula {
                    connective,
                    lhs: Box::new(gamma_model(*lhs)),
                    rhs: Box::new(gamma_model(*rhs)),
                }
            } else {
                FormulaModel::BinaryFormula {
                    connective: BinaryConnective::Conjunction,
                    lhs: Box::new(FormulaModel::BinaryFormula {
                        connective,
                        lhs: Box::new(gamma_model(*lhs)),
                        rhs: Box::new(gamma_model(*rhs)),
                    }),
                    rhs: Box::new(FormulaModel::BinaryFormula {
                        connective,
                        lhs: Box::new(there(*lhs)),
                        rhs: Box::new(there(*rhs)),
                    }),
                }
            }
        },
        FormulaModel::QuantifiedFormula { quantification, formula } => FormulaModel::QuantifiedFormula {
            quantification,
            formula: Box::new(gamma_model(*formula)),
        },
    }
}

/// Every atom of the formula has a predicate symbol that begins with `prefix`.
pub open spec fn atoms_prefixed(f: FormulaModel, prefix: Seq<char>) -> bool
    decreases f,
{
    match f {
        FormulaModel::AtomicFormula(AtomicFormulaModel::Atom(a)) => prefix.is_prefix_of(a.predicate_symbol),
        FormulaModel::AtomicFormula(_) => true,
        FormulaModel::UnaryFormula { formula, .. } => atoms_prefixed(*formula, prefix),
        FormulaModel::BinaryFormula { lhs, rhs, .. } => atoms_prefixed(*lhs, prefix) && atoms_prefixed(*rhs, prefix),
        FormulaModel::QuantifiedFormula { formula, .. } => atoms_prefixed(*formula, prefix),
    }
}

/// Every negation in the formula speaks of there alone: all atoms under it
/// have the prefix `t`.
pub open spec fn negations_there(f: FormulaModel) -> bool
    decreases f,
{
    match f {
        FormulaModel::AtomicFormula(_) => true,
        FormulaModel::UnaryFormula { formula, .. } => atoms_prefixed(*formula, "t"@),
        FormulaModel::BinaryFormula { lhs, rhs, .. } => negations_there(*lhs) && negations_there(*rhs),
        FormulaModel::QuantifiedFormula { formula, .. } => negations_there(*formula),
    }
}

/// Whether the formula is positive: built from atomic formulas by conjunction,
/// disjunction and quantifiers alone.
pub open spec fn positive_formula(f: FormulaModel) -> bool
    decreases f,
{
    match f {
        FormulaModel::AtomicFormula(_) => true,
        FormulaModel::UnaryFormula { .. } => false,
        FormulaModel::BinaryFormula { connective, lhs, rhs } =>
            (connective == BinaryConnective::Conjunction || connective == BinaryConnective::Disjunction)
                && positive_formula(*lhs) && positive_formula(*rhs),
        FormulaModel::QuantifiedFormula { formula, .. } => positive_formula(*formula),
    }
}

/// Putting a prefix in front of every atom gives atoms with that prefix.
pub proof fn lemma_prepend_prefixed(f: FormulaModel, prefix: Seq<char>)
    ensures
        atoms_prefixed(prepend_predicate(f, prefix), prefix),
    decreases f,
{
    match f {
        FormulaModel::AtomicFormula(AtomicFormulaModel::Atom(a)) => {
            assert((prefix + a.predicate_symbol).subrange(0, prefix.len() as int) =~= prefix);
        },
        FormulaModel::AtomicFormula(_) => {},
        FormulaModel::UnaryFormula { formula, .. } => lemma_prepend_prefixed(*formula, prefix),
        FormulaModel::BinaryFormula { lhs, rhs, .. } => {
            lemma_prepend_prefixed(*lhs, prefix);
            lemma_prepend_prefixed(*rhs, prefix);
        },
        FormulaModel::QuantifiedFormula { formula, .. } => lemma_prepend_prefixed(*formula, prefix),
    }
}

/// Said of here, every atom has the prefix `h`; said of there, the prefix `t`.
pub proof fn lemma_here_there_prefixes(f: FormulaModel)
    ensures
        atoms_prefixed(here(f), "h"@),
        atoms_prefixed(there(f), "t"@),
{
    lemma_prepend_prefixed(f, "h"@);
    lemma_prepend_prefixed(f, "t"@);
}

/// A formula said of there has its negations said of there.
pub proof fn lemma_there_negations(f: FormulaModel)
    ensures
        negations_there(there(f)),
    decreases f,
{
    match f {
        FormulaModel::AtomicFormula(_) => {},
        FormulaModel::UnaryFormula { formula, .. } => lemma_prepend_prefixed(*formula, "t"@),
        FormulaModel::BinaryFormula { lhs, rhs, .. } => {
            lemma_there_negations(*lhs);
            lemma_there_negations(*rhs);
        },
        FormulaModel::QuantifiedFormula { formula, .. } => lemma_there_negations(*formula),
    }
}

/// In gamma of any formula, wherever it stands, a negation speaks of there
/// alone: every atom under a negation has the prefix `t`.
pub proof fn lemma_gamma_negations_there(f: FormulaModel)
    ensures
        negations_there(gamma_model(f)),
    decreases f,
{
    match f {
        FormulaModel::AtomicFormula(_) => {},
        FormulaModel::UnaryFormula { formula, .. } => lemma_prepend_prefixed(*formula, "t"@),
        FormulaModel::BinaryFormula { lhs, rhs, .. } => {
            lemma_gamma_negations_there(*lhs);
            lemma_gamma_negations_there(*rhs);
            lemma_there_negations(*lhs);
            lemma_there_negations(*rhs);
            reveal_with_fuel(negations_there, 2);
        },
        FormulaModel::QuantifiedFormula { formula, .. } => lemma_gamma_negations_there(*formula),
    }
}

/// gamma of a positive formula is the formula said of here.
pub proof fn lemma_gamma_positive(f: FormulaModel)
    requires
        positive_formula(f),
    ensures
        gamma_model(f) == here(f),
    decreases f,
{
    match f {
        FormulaModel::AtomicFormula(_) => {},
        FormulaModel::UnaryFormula { .. } => {},
        FormulaModel::BinaryFormula { lhs, rhs, .. } => {
            lemma_gamma_positive(*lhs);
            lemma_gamma_positive(*rhs);
        },
        FormulaModel::QuantifiedFormula { formula, .. } => lemma_gamma_positive(*formula),
    }
}

/// gamma commutes with the connectives: a conjunction, a disjunction or a
/// quantified formula goes to the same connective over gamma of its parts; an
/// implication, a reverse implication or an equivalence `F o G` goes to the
/// conjunction of `gamma(F) o gamma(G)` and of the whole formula said of there;
/// a negation `not F` goes to `not` of `F` said of there.
pub proof fn lemma_gamma_commutes(f: FormulaModel)
    ensures
        match f {
            FormulaModel::AtomicFormula(_) => gamma_model(f) == here(f),
            FormulaModel::UnaryFormula { connective, formula } =>
                gamma_model(f) == (FormulaModel::UnaryFormula { connective, formula: Box::new(there(*formula)) }),
            FormulaModel::BinaryFormula { connective, lhs, rhs } => {
                let inner = FormulaModel::BinaryFormula {
                    connective,
                    lhs: Box::new(gamma_model(*lhs)),
                    rhs: Box::new(gamma_model(*rhs)),
                };
                if connective == BinaryConnective::Conjunction || connective == BinaryConnective::Disjunction {
                    gamma_model(f) == inner
                } else {
                    gamma_model(f) == (FormulaModel::BinaryFormula {
                        connective: BinaryConnective::Conjunction,
                        lhs: Box::new(inner),
                        rhs: Box::new(there(f)),
                    })
                }
            },
            FormulaModel::QuantifiedFormula { quantification, formula } =>
                gamma_model(f) == (FormulaModel::QuantifiedFormula { quantification, formula: Box::new(gamma_model(*formula)) }),
        },
{
}

fn prepend_predicate_exec(formula: Formula, prefix: &str) -> (r: Formula)
    ensures
        r@ == prepend_predicate(formula@, prefix@),
    decreases formula,
{
    match formula {
        Formula::AtomicFormula(AtomicFormula::Atom(a)) => {
            let symbol = concat(prefix, a.predicate_symbol.as_str());
            Formula::AtomicFormula(AtomicFormula::Atom(Atom { predicate_symbol: symbol, terms: a.terms }))
        },
        Formula::AtomicFormula(a) => Formula::AtomicFormula(a),
        Formula::UnaryFormula { connective, formula } => Formula::UnaryFormula {
            connective,
            formula: Box::new(prepend_predicate_exec(*formula, prefix)),
        },
        Formula::BinaryFormula { connective, lhs, rhs } => Formula::BinaryFormula {
            connective,
            lhs: Box::new(prepend_predicate_exec(*lhs, prefix)),
            rhs: Box::new(prepend_predicate_exec(*rhs, prefix)),
        },
        Formula::QuantifiedFormula { quantification, formula } => Formula::QuantifiedFormula {
            quantification,
            formula: Box::new(prepend_predicate_exec(*formula, prefix)),
        },
    }
}

pub(crate) fn here_exec(formula: Formula) -> (r: Formula)
    ensures
        r@ == here(formula@),
{
    prepend_predicate_exec(formula, "h")
}

pub(crate) fn there_exec(formula: Formula) -> (r: Formula)
    ensures
        r@ == there(formula@),
{
    prepend_predicate_exec(formula, "t")
}

/// gamma of a formula.
pub fn gamma_formula(formula: Formula) -> (r: Formula)
    ensures
        r@ == gamma_model(formula@),
    decreases formula,
{
    proof {
        reveal_with_fuel(crate::syntax_tree::fol::formula_model, 2);
    }
    match formula {
        Formula::AtomicFormula(a) => here_exec(Formula::AtomicFormula(a)),
        Formula::UnaryFormula { connective, formula } => Formula::UnaryFormula {
            connective,
            formula: Box::new(there_exec(*formula)),
        },
        Formula::BinaryFormula { connective, lhs, rhs } => {
            match connective {
                BinaryConnective::Conjunction | BinaryConnective::Disjunction => Formula::BinaryFormula {
                    connective,
                    lhs: Box::new(gamma_formula(*lhs)),
                    rhs: Box::new(gamma_formula(*rhs)),
                },
                _ => {
                    let there_part = Formula::BinaryFormula {
                        connective,
                        lhs: Box::new(there_exec((*lhs).clone())),
                        rhs: Box::new(there_exec((*rhs).clone())),
                    };
                    let here_part = Formula::BinaryFormula {
                        connective,
                        lhs: Box::new(gamma_formula(*lhs)),
                        rhs: Box::new(gamma_formula(*rhs)),
                    };
                    Formula::BinaryFormula {
                        connective: BinaryConnective::Conjunction,
                        lhs: Box::new(here_part),
                        rhs: Box::new(there_part),
                    }
                },
            }
        },
        Formula::QuantifiedFormula { quantification, formula } => Formula::QuantifiedFormula {
            quantification,
            formula: Box::new(gamma_formula(*formula)),
        },
    }
}

/// gamma of each formula of a theory.
pub fn gamma(theory: Theory) -> (r: Theory)
    ensures
        r@ == (TheoryModel { formulas: theory@.formulas.map_values(|f: FormulaModel| gamma_model(f)) }),
{
    let ghost all = theory@.formulas;
    let mut rest = theory.formulas;
    let n = rest.len();
    let mut formulas: Vec<Formula> = Vec::new();
    let mut i: usize = 0;
    while i < n
        invariant
            n == all.len(),
            i <= n,
            rest.len() == n - i,
            forall|k: int| 0 <= k < rest.len() ==> #[trigger] rest@[k]@ == all[k + i],
            formulas.len() == i,
            forall|k: int| 0 <= k < i ==> #[trigger] formulas@[k]@ == gamma_model(all[k]),
        decreases n - i,
    {
        let f = rest.remove(0);
        assert(f@ == all[i as int]);
        formulas.push(gamma_formula(f));
        i += 1;
    }
    assert(views(formulas@) =~= all.map_values(|f: FormulaModel| gamma_model(f)));
    Theory { formulas }
}

} // verus!
