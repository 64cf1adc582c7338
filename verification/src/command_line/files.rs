//! The files given on the command line, sorted by the ending of their names.

use crate::convenience::text::chars_of;
use vstd::prelude::*;

verus! {

/// What a file holds, as the ending of its name tells.
#[derive(Copy, Clone, Debug, PartialEq, Eq, Structural)]
pub enum FileKind {
    /// `.lp`
    Program,
    /// `.help.spec`
    ProofOutline,
    /// `.spec`, but not `.help.spec`
    Specification,
    /// `.ug`
    UserGuide,
    /// any other ending
    Other,
}

pub open spec fn ends_with(s: Seq<char>, suffix: Seq<char>) -> bool {
    s.len() >= suffix.len() && s.subrange(s.len() - suffix.len(), s.len() as int) == suffix
}

/// The kind of a file by the ending of its name; the first ending that
/// matches decides.
pub open spec fn file_kind(name: Seq<char>) -> FileKind {
    if ends_with(name, ".lp"@) {
        FileKind::Program
    } else if ends_with(name, ".help.spec"@) {
        FileKind::ProofOutline
    } else if ends_with(name, ".spec"@) {
        FileKind::Specification
    } else if ends_with(name, ".ug"@) {
        FileKind::UserGuide
    } else {
        FileKind::Other
    }
}

fn has_suffix(name: &str, suffix: &str) -> (r: bool)
    ensures
        r == ends_with(name@, suffix@),
{
    let s = chars_of(name);
    let t = chars_of(suffix);
    if s.len() < t.len() {
        return false;
    }
    let offset = s.len() - t.len();
    let mut i: usize = 0;
    while i < t.len()
        invariant
            s@ == name@,
            t@ == suffix@,
            offset == s.len() - t.len(),
            i <= t.len(),
            forall|k: int| 0 <= k < i ==> s@[offset + k] == t@[k],
        decreases t.len() - i,
    {
        if s[offset + i] != t[i] {
            assert(s@.subrange(offset as int, s.len() as int)[i as int] != t@[i as int]);
            return false;
        }
        i += 1;
    }
    assert(s@.subrange(offset as int, s.len() as int) =~= t@);
    true
}

/// The kind of a file by the ending of its name.
pub fn classify(name: &str) -> (r: FileKind)
    ensures
        r == file_kind(name@),
{
    if has_suffix(name, ".lp") {
        FileKind::Program
    } else if has_suffix(name, ".help.spec") {
        FileKind::ProofOutline
    } else if has_suffix(name, ".spec") {
        FileKind::Specification
    } else if has_suffix(name, ".ug") {
        FileKind::UserGuide
    } else {
        FileKind::Other
    }
}

/// The paths of the given files, by kind, in the order in which they came.
#[derive(Debug)]
pub struct Files {
    pub specifications: Vec<String>,
    pub programs: Vec<String>,
    pub user_guides: Vec<String>,
    pub proof_outlines: Vec<String>,
    pub other: Vec<String>,
}

/// Where the specification comes from: a program or a first-order specification.
#[derive(Debug, PartialEq, Eq)]
pub enum SpecificationSource<'a> {
    Program(&'a String),
    Specification(&'a String),
}

impl Files {
    pub fn empty() -> (r: Self)
        ensures
            r.specifications@.len() == 0,
            r.programs@.len() == 0,
            r.user_guides@.len() == 0,
            r.proof_outlines@.len() == 0,
            r.other@.len() == 0,
    {
        Files {
            specifications: Vec::new(),
            programs: Vec::new(),
            user_guides: Vec::new(),
            proof_outlines: Vec::new(),
            other: Vec::new(),
        }
    }

    /// Adds the path of a file under the kind that its name tells.
    pub fn add(&mut self, path: String, name: &str)
        ensures
            final(self).programs@ == if file_kind(name@) == FileKind::Program { old(self).programs@.push(path) } else { old(self).programs@ },
            final(self).proof_outlines@ == if file_kind(name@) == FileKind::ProofOutline { old(self).proof_outlines@.push(path) } else { old(self).proof_outlines@ },
            final(self).specifications@ == if file_kind(name@) == FileKind::Specification { old(self).specifications@.push(path) } else { old(self).specifications@ },
            final(self).user_guides@ == if file_kind(name@) == FileKind::UserGuide { old(self).user_guides@.push(path) } else { old(self).user_guides@ },
            final(self).other@ == if file_kind(name@) == FileKind::Other { old(self).other@.push(path) } else { old(self).other@ },
    {
        match classify(name) {
            FileKind::Program => self.programs.push(path),
            FileKind::ProofOutline => self.proof_outlines.push(path),
            FileKind::Specification => self.specifications.push(path),
            FileKind::UserGuide => self.user_guides.push(path),
            FileKind::Other => self.other.push(path),
        }
    }

    /// The first program.
    pub fn left(&self) -> (r: Option<&String>)
        ensures
            r == (if self.programs@.len() > 0 { Some(&self.programs@[0]) } else { None }),
    {
        if self.programs.len() > 0 { Some(&self.programs[0]) } else { None }
    }

    /// The second program.
    pub fn right(&self) -> (r: Option<&String>)
        ensures
            r == (if self.programs@.len() > 1 { Some(&self.programs@[1]) } else { None }),
    {
        if self.programs.len() > 1 { Some(&self.programs[1]) } else { None }
    }

    /// The first specification, or else the first program.
    pub fn specification(&self) -> (r: Option<SpecificationSource<'_>>)
        ensures
            r == (if self.specifications@.len() > 0 {
                Some(SpecificationSource::Specification(&self.specifications@[0]))
            } else if self.programs@.len() > 0 {
                Some(SpecificationSource::Program(&self.programs@[0]))
            } else {
                None
            }),
    {
        if self.specifications.len() > 0 {
            Some(SpecificationSource::Specification(&self.specifications[0]))
        } else if self.programs.len() > 0 {
            Some(SpecificationSource::Program(&self.programs[0]))
        } else {
            None
        }
    }

    /// The program to hold against the specification: the first program if a
    /// specification was given, the second otherwise.
    pub fn program(&self) -> (r: Option<&String>)
        ensures
            r == (if self.specifications@.len() == 0 {
                if self.programs@.len() > 1 { Some(&self.programs@[1]) } else { None }
            } else {
                if self.programs@.len() > 0 { Some(&self.programs@[0]) } else { None }
            }),
    {
        if self.specifications.len() == 0 {
            if self.programs.len() > 1 { Some(&self.programs[1]) } else { None }
        } else {
            if self.programs.len() > 0 { Some(&self.programs[0]) } else { None }
        }
    }

    /// The first user guide.
    pub fn user_guide(&self) -> (r: Option<&String>)
        ensures
            r == (if self.user_guides@.len() > 0 { Some(&self.user_guides@[0]) } else { None }),
    {
        if self.user_guides.len() > 0 { Some(&self.user_guides[0]) } else { None }
    }

    /// The first proof outline.
    pub fn proof_outline(&self) -> (r: Option<&String>)
        ensures
            r == (if self.proof_outlines@.len() > 0 { Some(&self.proof_outlines@[0]) } else { None }),
    {
        if self.proof_outlines.len() > 0 { Some(&self.proof_outlines[0]) } else { None }
    }
}

} // verus!
