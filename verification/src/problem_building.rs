//! Problems built from three theories: axioms, lemmas and conjectures.

use crate::convenience::sets::{extend, set_extend, views};
use crate::convenience::text::{decimal, numbered};
use crate::syntax_tree::fol::{Formula, FormulaModel, Predicate, PredicateModel, Theory};
use vstd::prelude::*;

verus! {

#[derive(Copy, Clone, Debug, PartialEq, Eq, Hash, Structural)]
pub enum Role {
    Axiom,
    Lemma,
    Conjecture,
}

#[derive(Debug, PartialEq, Eq, Hash)]
pub struct AnnotatedFormula {
    pub name: String,
    pub role: Role,
    pub formula: Formula,
}

pub struct AnnotatedFormulaModel {
    pub name: Seq<char>,
    pub role: Role,
    pub formula: FormulaModel,
}

impl View for AnnotatedFormula {
    type V = AnnotatedFormulaModel;
    open spec fn view(&self) -> AnnotatedFormulaModel {
        AnnotatedFormulaModel { name: self.name@, role: self.role, formula: self.formula@ }
    }
}

#[derive(Debug, PartialEq, Eq, Hash)]
pub struct Problem {
    pub formulas: Vec<AnnotatedFormula>,
}

pub struct ProblemModel {
    pub formulas: Seq<AnnotatedFormulaModel>,
}

impl View for Problem {
    type V = ProblemModel;
    open spec fn view(&self) -> ProblemModel {
        ProblemModel { formulas: views(self.formulas@) }
    }
}

/// The formulas of a theory, named `prefix` followed by their position, with the given role.
pub open spec fn annotated(fs: Seq<FormulaModel>, prefix: Seq<char>, role: Role) -> Seq<AnnotatedFormulaModel> {
    Seq::new(fs.len(), |i: int| AnnotatedFormulaModel { name: prefix + decimal(i as nat), role, formula: fs[i] })
}

pub open spec fn formulas_symbols(fs: Seq<AnnotatedFormulaModel>) -> Seq<Seq<char>>
    decreases fs.len(),
{
    if fs.len() == 0 { seq![] } else { set_extend(formulas_symbols(fs.drop_last()), fs.last().formula.symbols()) }
}

pub open spec fn formulas_predicates(fs: Seq<AnnotatedFormulaModel>) -> Seq<PredicateModel>
    decreases fs.len(),
{
    if fs.len() == 0 { seq![] } else { set_extend(formulas_predicates(fs.drop_last()), fs.last().formula.predicates()) }
}

/// Appends the formulas of a theory, named `prefix` and their position, with the given role.
fn add_all(formulas: &mut Vec<AnnotatedFormula>, theory: Theory, prefix: &str, role: Role)
    ensures
        views(final(formulas)@) == views(old(formulas)@) + annotated(theory@.formulas, prefix@, role),
{
    let ghost start = views(formulas@);
    let ghost all = theory@.formulas;
    let mut rest = theory.formulas;
    let n = rest.len();
    let mut i: usize = 0;
    while i < n
        invariant
            n == all.len(),
            i <= n,
            rest.len() == n - i,
            forall|k: int| 0 <= k < rest.len() ==> #[trigger] rest@[k]@ == all[k + i],
            views(formulas@) =~= start + annotated(all, prefix@, role).take(i as int),
        decreases n - i,
    {
        let formula = rest.remove(0);
        assert(formula@ == all[i as int]);
        let ghost before = views(formulas@);
        formulas.push(AnnotatedFormula { name: numbered(prefix, i), role, formula });
        assert(views(formulas@) =~= before.push(annotated(all, prefix@, role)[i as int]));
        assert(annotated(all, prefix@, role).take(i as int + 1)
            =~= annotated(all, prefix@, role).take(i as int).push(annotated(all, prefix@, role)[i as int]));
        i += 1;
    }
    assert(annotated(all, prefix@, role).take(n as int) =~= annotated(all, prefix@, role));
}

impl Problem {
    /// The axioms `axiom_i`, the lemmas `lemma_i` and the conjectures `conjecture_i`, in this order.
    pub fn from_parts(axioms: Theory, lemmas: Theory, conjectures: Theory) -> (r: Problem)
        ensures
            r@.formulas == annotated(axioms@.formulas, "axiom_"@, Role::Axiom)
                + annotated(lemmas@.formulas, "lemma_"@, Role::Lemma)
                + annotated(conjectures@.formulas, "conjecture_"@, Role::Conjecture),
    {
        let mut formulas: Vec<AnnotatedFormula> = Vec::new();
        assert(views(formulas@) =~= Seq::<AnnotatedFormulaModel>::empty());
        add_all(&mut formulas, axioms, "axiom_", Role::Axiom);
        add_all(&mut formulas, lemmas, "lemma_", Role::Lemma);
        add_all(&mut formulas, conjectures, "conjecture_", Role::Conjecture);
        Problem { formulas }
    }

    /// The symbols of all formulas, each once.
    pub fn symbols(&self) -> (r: Vec<String>)
        ensures
            views(r@) == formulas_symbols(self@.formulas),
    {
        let mut r: Vec<String> = Vec::new();
        let mut i: usize = 0;
        assert(views(r@) =~= Seq::<Seq<char>>::empty());
        while i < self.formulas.len()
            invariant
                i <= self.formulas.len(),
                views(r@) == formulas_symbols(self@.formulas.take(i as int)),
            decreases self.formulas.len() - i,
        {
            assert(self@.formulas.take(i as int + 1).drop_last() =~= self@.formulas.take(i as int));
            extend(&mut r, self.formulas[i].formula.symbols());
            i += 1;
        }
        assert(self@.formulas.take(self.formulas.len() as int) =~= self@.formulas);
        r
    }

    /// The predicates of all formulas, each once.
    pub fn predicates(&self) -> (r: Vec<Predicate>)
        ensures
            views(r@) == formulas_predicates(self@.formulas),
    {
        let mut r: Vec<Predicate> = Vec::new();
        let mut i: usize = 0;
        assert(views(r@) =~= Seq::<PredicateModel>::empty());
        while i < self.formulas.len()
            invariant
                i <= self.formulas.len(),
                views(r@) == formulas_predicates(self@.formulas.take(i as int)),
            decreases self.formulas.len() - i,
        {
            assert(self@.formulas.take(i as int + 1).drop_last() =~= self@.formulas.take(i as int));
            extend(&mut r, self.formulas[i].formula.predicates());
            i += 1;
        }
        assert(self@.formulas.take(self.formulas.len() as int) =~= self@.formulas);
        r
    }
}

} // verus!
