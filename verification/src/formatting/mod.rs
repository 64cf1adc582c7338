pub mod asp;
pub mod fol;
pub mod iltp;
pub mod tptp;

use vstd::prelude::*;

verus! {

/// The side on which an operator groups operands of its own precedence.
#[derive(Copy, Clone, Debug, Eq, PartialEq, Structural)]
pub enum Associativity {
    Left,
    Right,
}

} // verus!
