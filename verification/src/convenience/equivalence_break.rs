//! Splitting an equivalence, possibly under a quantifier, into its two directions.

use crate::convenience::sets::views;
use crate::convenience::text::concat;
use crate::syntax_tree::fol::{
    AnnotatedFormula, AnnotatedFormulaModel, BinaryConnective, Formula, FormulaModel,
};
use vstd::prelude::*;

verus! {

/// `Qx (F <-> G)` becomes `Qx (F -> G)` and `Qx (F <- G)`, and `F <-> G`
/// becomes `F -> G` and `F <- G`; other formulas cannot be broken.
pub open spec fn equivalence_parts(f: FormulaModel) -> Option<Seq<FormulaModel>> {
    match f {
        FormulaModel::QuantifiedFormula { quantification, formula } => match *formula {
            FormulaModel::BinaryFormula { connective: BinaryConnective::Equivalence, lhs, rhs } => Some(seq![
                FormulaModel::QuantifiedFormula {
                    quantification,
                    formula: Box::new(FormulaModel::BinaryFormula { connective: BinaryConnective::Implication, lhs, rhs }),
                },
                FormulaModel::QuantifiedFormula {
                    quantification,
                    formula: Box::new(FormulaModel::BinaryFormula { connective: BinaryConnective::ReverseImplication, lhs, rhs }),
                },
            ]),
            _ => None,
        },
        FormulaModel::BinaryFormula { connective: BinaryConnective::Equivalence, lhs, rhs } => Some(seq![
            FormulaModel::BinaryFormula { connective: BinaryConnective::Implication, lhs, rhs },
            FormulaModel::BinaryFormula { connective: BinaryConnective::ReverseImplication, lhs, rhs },
        ]),
        _ => None,
    }
}

/// An annotated formula split into its two directions, named by the suffixes
/// `_forward` and `_backward`; the formula alone if it cannot be broken.
pub open spec fn annotated_parts(a: AnnotatedFormulaModel) -> Seq<AnnotatedFormulaModel> {
    match equivalence_parts(a.formula) {
        Some(parts) => seq![
            AnnotatedFormulaModel { name: a.name + "_forward"@, formula: parts[0], ..a },
            AnnotatedFormulaModel { name: a.name + "_backward"@, formula: parts[1], ..a },
        ],
        None => seq![a],
    }
}

/// A broken equivalence has two parts.
pub proof fn lemma_equivalence_parts_len(f: FormulaModel)
    ensures
        equivalence_parts(f) matches Some(parts) ==> parts.len() == 2,
{
}

impl Formula {
    /// The two directions of an equivalence, possibly under a quantifier.
    pub fn break_equivalences(self) -> (r: Option<Vec<Formula>>)
        ensures
            r is Some <==> equivalence_parts(self@) is Some,
            r matches Some(fs) ==> equivalence_parts(self@) == Some(views(fs@)),
    {
        proof {
            reveal_with_fuel(crate::syntax_tree::fol::formula_model, 3);
        }
        let whole = self.clone();
        match self {
            Formula::QuantifiedFormula { quantification: q, formula: f } => match *f {
                Formula::BinaryFormula { connective: BinaryConnective::Equivalence, lhs: f1, rhs: f2 } => {
                    let imp1 = Formula::QuantifiedFormula {
                        quantification: q.clone(),
                        formula: Box::new(Formula::BinaryFormula {
                            connective: BinaryConnective::Implication,
                            lhs: Box::new((*f1).clone()),
                            rhs: Box::new((*f2).clone()),
                        }),
                    };
                    let imp2 = Formula::QuantifiedFormula {
                        quantification: q,
                        formula: Box::new(Formula::BinaryFormula {
                            connective: BinaryConnective::ReverseImplication,
                            lhs: f1,
                            rhs: f2,
                        }),
                    };
                    let mut r: Vec<Formula> = Vec::new();
                    r.push(imp1);
                    r.push(imp2);
                    assert(views(r@) =~= equivalence_parts(whole@)->0);
                    Some(r)
                },
                _ => None,
            },
            Formula::BinaryFormula { connective: BinaryConnective::Equivalence, lhs: f1, rhs: f2 } => {
                let imp1 = Formula::BinaryFormula {
                    connective: BinaryConnective::Implication,
                    lhs: Box::new((*f1).clone()),
                    rhs: Box::new((*f2).clone()),
                };
                let imp2 = Formula::BinaryFormula { connective: BinaryConnective::ReverseImplication, lhs: f1, rhs: f2 };
                let mut r: Vec<Formula> = Vec::new();
                r.push(imp1);
                r.push(imp2);
                assert(views(r@) =~= equivalence_parts(whole@)->0);
                Some(r)
            },
            _ => None,
        }
    }
}

impl AnnotatedFormula {
    /// The two directions of the formula, named `name_forward` and
    /// `name_backward`; the annotated formula alone if it cannot be broken.
    pub fn break_equivalences(self) -> (r: Vec<AnnotatedFormula>)
        ensures
            views(r@) == annotated_parts(self@),
    {
        match self.formula.clone().break_equivalences() {
            Some(mut formulas) => {
                let ghost parts = views(formulas@);
                proof {
                    lemma_equivalence_parts_len(self@.formula);
                }
                assert(formulas.len() == 2);
                let f2 = AnnotatedFormula {
                    role: self.role,
                    direction: self.direction,
                    name: concat(self.name.as_str(), "_backward"),
                    formula: formulas.pop().unwrap(),
                };
                let f1 = AnnotatedFormula {
                    role: self.role,
                    direction: self.direction,
                    name: concat(self.name.as_str(), "_forward"),
                    formula: formulas.pop().unwrap(),
                };
                assert(f2@.formula == parts[1]);
                assert(f1@.formula == parts[0]);
                let mut r: Vec<AnnotatedFormula> = Vec::new();
                r.push(f1);
                r.push(f2);
                assert(views(r@) =~= annotated_parts(self@));
                r
            },
            None => {
                let mut r: Vec<AnnotatedFormula> = Vec::new();
                r.push(self);
                assert(views(r@) =~= seq![r@[0]@]);
                r
            },
        }
    }
}

} // verus!
