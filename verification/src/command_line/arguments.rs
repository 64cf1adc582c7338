//! The choices that the command line offers.

use vstd::prelude::*;

verus! {

/// A property of a program to analyze.
#[derive(Copy, Clone, Debug, PartialEq, Eq, PartialOrd, Ord, Hash, Structural)]
pub enum Property {
    Tightness,
}

/// A translation of programs or theories.
#[derive(Copy, Clone, Debug, PartialEq, Eq, PartialOrd, Ord, Hash, Structural)]
pub enum Translation {
    Completion,
    Gamma,
    TauStar,
}

/// The kind of equivalence to verify.
#[derive(Copy, Clone, Debug, PartialEq, Eq, PartialOrd, Ord, Hash, Structural)]
pub enum Equivalence {
    Strong,
    External,
}

/// How a problem with several conjectures is split into problems with one.
#[derive(Copy, Clone, Debug, PartialEq, Eq, PartialOrd, Ord, Hash, Structural)]
pub enum Decomposition {
    Independent,
    Sequential,
}

impl Default for Decomposition {
    fn default() -> (r: Decomposition)
        ensures
            r == Decomposition::Sequential,
    {
        Decomposition::Sequential
    }
}

/// What the program is asked to do.
#[derive(Debug, PartialEq, Eq)]
pub enum Command {
    /// Analyze a property of a given answer set program or first-order theory.
    Analyze { property: Property, input: Option<String> },
    /// Tighten a logic program.
    Tighten { input: Option<String> },
    /// Translate a given answer set program or first-order theory.
    Translate { with: Translation, input: Option<String> },
    /// Create and optionally verify a set of problem files from a claim about
    /// answer set programs or first-order theories.
    Verify {
        equivalence: Equivalence,
        decomposition: Decomposition,
        direction: crate::syntax_tree::fol::Direction,
        bypass_tightness: bool,
        no_simplify: bool,
        no_eq_break: bool,
        no_proof_search: bool,
        time_limit: usize,
        prover_instances: usize,
        prover_cores: usize,
        save_problems: Option<String>,
        files: Vec<String>,
    },
}

/// The arguments of the program.
#[derive(Debug, PartialEq, Eq)]
pub struct Arguments {
    pub command: Command,
}

} // verus!
