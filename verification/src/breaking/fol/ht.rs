//! Breaking equivalences apart in a way that is sound in here-and-there logic.

use crate::convenience::sets::views;
use crate::syntax_tree::fol::{
    BinaryConnective, Formula, FormulaModel, Quantifier, Theory, TheoryModel,
};
use vstd::prelude::*;

verus! {

/// `F <-> G` becomes `F -> G` and `F <- G`, also under universal quantifiers;
/// any other formula stays as it is.
pub open spec fn broken_equivalences(f: FormulaModel) -> Seq<FormulaModel>
    decreases f,
{
    match f {
        FormulaModel::BinaryFormula { connective: BinaryConnective::Equivalence, lhs, rhs } => seq![
            FormulaModel::BinaryFormula { connective: BinaryConnective::Implication, lhs, rhs },
            FormulaModel::BinaryFormula { connective: BinaryConnective::ReverseImplication, lhs, rhs },
        ],
        FormulaModel::QuantifiedFormula { quantification, formula } =>
            if quantification.quantifier == Quantifier::Forall {
                broken_equivalences(*formula).map_values(|g: FormulaModel| g.quantify(Quantifier::Forall, quantification.variables))
            } else {
                seq![f]
            },
        _ => seq![f],
    }
}

/// The parts of a formula once its equivalences are broken apart.
pub fn break_equivalences(formula: Formula) -> (r: Theory)
    ensures
        r@ == (TheoryModel { formulas: broken_equivalences(formula@) }),
    decreases formula,
{
    proof {
        reveal_with_fuel(crate::syntax_tree::fol::formula_model, 2);
    }
    match formula {
        Formula::BinaryFormula { connective: BinaryConnective::Equivalence, lhs, rhs } => {
            let mut formulas: Vec<Formula> = Vec::new();
            formulas.push(Formula::BinaryFormula {
                connective: BinaryConnective::Implication,
                lhs: Box::new((*lhs).clone()),
                rhs: Box::new((*rhs).clone()),
            });
            formulas.push(Formula::BinaryFormula { connective: BinaryConnective::ReverseImplication, lhs, rhs });
            let ghost l = lhs@;
            assert(views(formulas@) =~= broken_equivalences(formula@));
            Theory { formulas }
        },
        Formula::QuantifiedFormula { quantification, formula: inner } => {
            if quantification.quantifier == Quantifier::Forall {
                let parts = break_equivalences(*inner);
                let ghost all = parts@.formulas;
                let mut rest = parts.formulas;
                let n = rest.len();
                let mut formulas: Vec<Formula> = Vec::new();
                let mut i: usize = 0;
                while i < n
                    invariant
                        n == all.len(),
                        i <= n,
                        rest.len() == n - i,
                        forall|k: int| 0 <= k < rest.len() ==> #[trigger] rest@[k]@ == all[k + i],
                        formulas.len() == i,
                        forall|k: int| 0 <= k < i ==> #[trigger] formulas@[k]@
                            == all[k].quantify(Quantifier::Forall, views(quantification.variables@)),
                    decreases n - i,
                {
                    let f = rest.remove(0);
                    assert(f@ == all[i as int]);
                    let vars = crate::convenience::sets::duplicate_all(&quantification.variables);
                    formulas.push(f.quantify(Quantifier::Forall, vars));
                    i += 1;
                }
                assert(views(formulas@) =~= all.map_values(|g: FormulaModel| g.quantify(Quantifier::Forall, views(quantification.variables@))));
                Theory { formulas }
            } else {
                let mut formulas: Vec<Formula> = Vec::new();
                formulas.push(Formula::QuantifiedFormula { quantification, formula: inner });
                assert(views(formulas@) =~= seq![formulas@[0]@]);
                Theory { formulas }
            }
        },
        x => {
            let mut formulas: Vec<Formula> = Vec::new();
            formulas.push(x);
            assert(views(formulas@) =~= seq![formulas@[0]@]);
            Theory { formulas }
        },
    }
}

} // verus!
