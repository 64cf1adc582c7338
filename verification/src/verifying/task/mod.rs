pub mod strong_equivalence;
pub mod external_equivalence;
pub mod intuitionistic;
pub mod external_decomposition;

use crate::convenience::with_warnings::WithWarnings;
use crate::verifying::problem::Problem;
use vstd::prelude::*;

verus! {

/// A verification task: something that decomposes into problems for a prover.
pub trait Task: Sized {
    type Error;
    type Warning;

    /// Whether the task is of the form that it can be decomposed at all.
    spec fn well_formed(&self) -> bool;

    /// The problems whose proofs together settle the task, or the reason it was refused.
    fn decompose(self) -> Result<WithWarnings<Vec<Problem>, Self::Warning>, Self::Error>
        requires
            self.well_formed(),
    ;
}

} // verus!
