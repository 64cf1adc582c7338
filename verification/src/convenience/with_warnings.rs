//! Results that carry warnings along with their data.

use vstd::prelude::*;

verus! {

/// Data together with the warnings that arose while computing it.
#[derive(Debug, PartialEq, Eq)]
pub struct WithWarnings<D, W> {
    pub data: D,
    pub warnings: Vec<W>,
}

impl<D, W> WithWarnings<D, W> {
    /// Data without warnings.
    pub fn flawless(data: D) -> (r: Self)
        ensures
            r.data == data,
            r.warnings@ == Seq::<W>::empty(),
    {
        WithWarnings { data, warnings: Vec::new() }
    }

    /// The same data with one more warning at the end.
    pub fn add_warning(self, warning: W) -> (r: Self)
        ensures
            r.data == self.data,
            r.warnings@ == self.warnings@.push(warning),
    {
        let mut this = self;
        this.warnings.push(warning);
        this
    }

    /// The same data with the given warnings before its own.
    pub fn preface_warnings(self, warnings: Vec<W>) -> (r: Self)
        ensures
            r.data == self.data,
            r.warnings@ == warnings@ + self.warnings@,
    {
        let mut all = warnings;
        let mut own = self.warnings;
        all.append(&mut own);
        WithWarnings { data: self.data, warnings: all }
    }
}

} // verus!
