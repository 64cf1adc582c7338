//! Formulas whose immediate subformulas are held by value.

use crate::syntax_tree::fol::{
    AtomicFormula, AtomicFormulaModel, BinaryConnective, Formula, FormulaModel, Quantification,
    QuantificationModel, UnaryConnective,
};
use vstd::prelude::*;

verus! {

/// A formula whose immediate subformulas are not boxed.
pub enum UnboxedFormula {
    AtomicFormula(AtomicFormula),
    UnaryFormula { connective: UnaryConnective, formula: Formula },
    BinaryFormula { connective: BinaryConnective, lhs: Formula, rhs: Formula },
    QuantifiedFormula { quantification: Quantification, formula: Formula },
}

pub enum UnboxedFormulaModel {
    AtomicFormula(AtomicFormulaModel),
    UnaryFormula { connective: UnaryConnective, formula: FormulaModel },
    BinaryFormula { connective: BinaryConnective, lhs: FormulaModel, rhs: FormulaModel },
    QuantifiedFormula { quantification: QuantificationModel, formula: FormulaModel },
}

impl View for UnboxedFormula {
    type V = UnboxedFormulaModel;
    open spec fn view(&self) -> UnboxedFormulaModel {
        match self {
            UnboxedFormula::AtomicFormula(a) => UnboxedFormulaModel::AtomicFormula(a@),
            UnboxedFormula::UnaryFormula { connective, formula } =>
                UnboxedFormulaModel::UnaryFormula { connective: *connective, formula: formula@ },
            UnboxedFormula::BinaryFormula { connective, lhs, rhs } =>
                UnboxedFormulaModel::BinaryFormula { connective: *connective, lhs: lhs@, rhs: rhs@ },
            UnboxedFormula::QuantifiedFormula { quantification, formula } =>
                UnboxedFormulaModel::QuantifiedFormula { quantification: quantification@, formula: formula@ },
        }
    }
}

/// The formula with its immediate subformulas taken out of their boxes.
pub open spec fn unboxed(f: FormulaModel) -> UnboxedFormulaModel {
    match f {
        FormulaModel::AtomicFormula(a) => UnboxedFormulaModel::AtomicFormula(a),
        FormulaModel::UnaryFormula { connective, formula } =>
            UnboxedFormulaModel::UnaryFormula { connective, formula: *formula },
        FormulaModel::BinaryFormula { connective, lhs, rhs } =>
            UnboxedFormulaModel::BinaryFormula { connective, lhs: *lhs, rhs: *rhs },
        FormulaModel::QuantifiedFormula { quantification, formula } =>
            UnboxedFormulaModel::QuantifiedFormula { quantification, formula: *formula },
    }
}

/// The formula with its immediate subformulas put back into boxes.
pub open spec fn reboxed(u: UnboxedFormulaModel) -> FormulaModel {
    match u {
        UnboxedFormulaModel::AtomicFormula(a) => FormulaModel::AtomicFormula(a),
        UnboxedFormulaModel::UnaryFormula { connective, formula } =>
            FormulaModel::UnaryFormula { connective, formula: Box::new(formula) },
        UnboxedFormulaModel::BinaryFormula { connective, lhs, rhs } =>
            FormulaModel::BinaryFormula { connective, lhs: Box::new(lhs), rhs: Box::new(rhs) },
        UnboxedFormulaModel::QuantifiedFormula { quantification, formula } =>
            FormulaModel::QuantifiedFormula { quantification, formula: Box::new(formula) },
    }
}

/// Taking the subformulas of a node out of their boxes.
pub trait Unbox {
    type Unboxed;

    fn unbox(self) -> Self::Unboxed;
}

impl Unbox for Formula {
    type Unboxed = UnboxedFormula;

    fn unbox(self) -> (r: UnboxedFormula)
        ensures
            r@ == unboxed(self@),
    {
        match self {
            Formula::AtomicFormula(f) => UnboxedFormula::AtomicFormula(f),
            Formula::UnaryFormula { connective, formula } => UnboxedFormula::UnaryFormula { connective, formula: *formula },
            Formula::BinaryFormula { connective, lhs, rhs } => UnboxedFormula::BinaryFormula { connective, lhs: *lhs, rhs: *rhs },
            Formula::QuantifiedFormula { quantification, formula } =>
                UnboxedFormula::QuantifiedFormula { quantification, formula: *formula },
        }
    }
}

impl UnboxedFormula {
    /// The formula with its subformulas put back into boxes.
    pub fn rebox(self) -> (r: Formula)
        ensures
            r@ == reboxed(self@),
    {
        match self {
            UnboxedFormula::AtomicFormula(f) => Formula::AtomicFormula(f),
            UnboxedFormula::UnaryFormula { connective, formula } => Formula::UnaryFormula { connective, formula: Box::new(formula) },
            UnboxedFormula::BinaryFormula { connective, lhs, rhs } =>
                Formula::BinaryFormula { connective, lhs: Box::new(lhs), rhs: Box::new(rhs) },
            UnboxedFormula::QuantifiedFormula { quantification, formula } =>
                Formula::QuantifiedFormula { quantification, formula: Box::new(formula) },
        }
    }
}

/// Reboxing an unboxed formula gives the formula back.
pub proof fn lemma_rebox_unbox(f: FormulaModel)
    ensures
        reboxed(unboxed(f)) == f,
{
}

/// Unboxing a reboxed formula gives the unboxed formula back.
pub proof fn lemma_unbox_rebox(u: UnboxedFormulaModel)
    ensures
        unboxed(reboxed(u)) == u,
{
}

} // verus!
