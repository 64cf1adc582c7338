//! Applying an operation to every node of a formula, from the leaves up.

use crate::syntax_tree::fol::Formula;
use vstd::prelude::*;

verus! {

/// Whether `r` can come out of applying `f` to every node of `x` from the
/// leaves up: the subformulas first, then the node built from their results.
pub open spec fn post_order<F: Fn(Formula) -> Formula>(f: F, x: Formula, r: Formula) -> bool
    decreases x,
{
    match x {
        Formula::AtomicFormula(_) => call_ensures(f, (x,), r),
        Formula::UnaryFormula { connective: c, formula } => exists|g: Formula|
            #[trigger] call_ensures(f, (Formula::UnaryFormula { connective: c, formula: Box::new(g) },), r)
                && post_order(f, *formula, g),
        Formula::BinaryFormula { connective: c, lhs, rhs } => exists|g: Formula, h: Formula|
            #[trigger] call_ensures(f, (Formula::BinaryFormula { connective: c, lhs: Box::new(g), rhs: Box::new(h) },), r)
                && post_order(f, *lhs, g) && post_order(f, *rhs, h),
        Formula::QuantifiedFormula { quantification: q, formula } => exists|g: Formula|
            #[trigger] call_ensures(f, (Formula::QuantifiedFormula { quantification: q, formula: Box::new(g) },), r)
                && post_order(f, *formula, g),
    }
}

/// Trees whose nodes an operation can be applied to.
pub trait Apply: Sized {
    /// Applies `f` to each node of the tree, from the leaves up.
    fn apply<F: Fn(Self) -> Self>(self, f: &F) -> Self
        requires
            forall|x: Self| call_requires(*f, (x,)),
    ;
}

impl Apply for Formula {
    #[verifier::spinoff_prover]
    fn apply<F: Fn(Formula) -> Formula>(self, f: &F) -> (r: Formula)
        ensures
            post_order(*f, self, r),
        decreases self,
    {
        let ghost x = self;
        let res = match self {
            Formula::AtomicFormula(a) => {
                let r = f(Formula::AtomicFormula(a));
                r
            },
            Formula::UnaryFormula { connective, formula } => {
                let ghost sub = *formula;
                let ghost c = connective;
                let g = (*formula).apply(f);
                let ghost gg = g;
                let r = f(Formula::UnaryFormula { connective, formula: Box::new(g) });
                assert(post_order(*f, sub, gg));
                assert(call_ensures(*f, (Formula::UnaryFormula { connective: c, formula: Box::new(gg) },), r));
                assert(post_order(*f, x, r));
                r
            },
            Formula::BinaryFormula { connective, lhs, rhs } => {
                let ghost (l, rr) = (*lhs, *rhs);
                let ghost c = connective;
                let g = (*lhs).apply(f);
                let h = (*rhs).apply(f);
                let ghost (gg, hh) = (g, h);
                let r = f(Formula::BinaryFormula { connective, lhs: Box::new(g), rhs: Box::new(h) });
                assert(post_order(*f, l, gg) && post_order(*f, rr, hh));
                assert(call_ensures(*f, (Formula::BinaryFormula { connective: c, lhs: Box::new(gg), rhs: Box::new(hh) },), r));
                assert(post_order(*f, x, r));
                r
            },
            Formula::QuantifiedFormula { quantification, formula } => {
                let ghost sub = *formula;
                let ghost q = quantification;
                let g = (*formula).apply(f);
                let ghost gg = g;
                let r = f(Formula::QuantifiedFormula { quantification, formula: Box::new(g) });
                assert(post_order(*f, sub, gg));
                assert(call_ensures(*f, (Formula::QuantifiedFormula { quantification: q, formula: Box::new(gg) },), r));
                assert(post_order(*f, x, r));
                r
            },
        };
        res
    }
}

} // verus!
