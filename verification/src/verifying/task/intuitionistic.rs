//! Comparing two programs in intuitionistic logic through their shorthand translations.

use crate::convenience::sets::views;
use crate::convenience::with_warnings::WithWarnings;
use crate::syntax_tree::asp;
use crate::syntax_tree::fol::{Formula, FormulaModel};
use crate::translating::shorthand::{is_simple_program, shorthand, shorthand_model};
use crate::verifying::problem::{
    entered, AnnotatedFormula, AnnotatedFormulaModel, Interpretation, Problem, ProblemModel, ProblemNameModel,
    ProblemNameTPTP, Role,
};
use crate::verifying::task::Task;
use vstd::prelude::*;

verus! {

/// An intuitionistic task never fails.
pub type IntuitionisticTaskError = std::convert::Infallible;

/// The task of showing that two programs have the same shorthand translation
/// up to intuitionistic equivalence.
pub struct IntuitionisticTask {
    pub left: asp::Program,
    pub right: asp::Program,
}

/// A problem named by a word alone, numbered from zero.
pub open spec fn word_name(word: Seq<char>) -> ProblemNameModel {
    ProblemNameModel { domain: word, number: seq![0i16, 0i16, 0i16] }
}

/// A formula of the task, as it enters a problem in the given role.
pub open spec fn task_formula(role: Role, f: FormulaModel) -> AnnotatedFormulaModel {
    AnnotatedFormulaModel { name: "anf"@, role, formula: f }
}

/// The problem that assumes `premises` and conjectures `conclusions`.
pub open spec fn task_problem(word: Seq<char>, premises: Seq<FormulaModel>, conclusions: Seq<FormulaModel>) -> ProblemModel {
    ProblemModel {
        name: word_name(word),
        interpretation: Interpretation::Standard,
        formulas: premises.map_values(|f: FormulaModel| task_formula(Role::Axiom, f))
            + conclusions.map_values(|f: FormulaModel| task_formula(Role::Conjecture, f)),
    }
}

pub(crate) fn named_problem(word: &str) -> (r: Problem)
    ensures
        r@ == (ProblemModel { name: word_name(word@), interpretation: Interpretation::Standard, formulas: seq![] }),
{
    let mut number: Vec<i16> = Vec::new();
    number.push(0);
    number.push(0);
    number.push(0);
    assert(number@ =~= seq![0i16, 0i16, 0i16]);
    Problem::with_name(ProblemNameTPTP { domain: word.to_string(), number })
}

/// The formulas, each annotated as `anf` in the given role.
fn annotate_all(formulas: &Vec<Formula>, role: Role) -> (r: Vec<AnnotatedFormula>)
    ensures
        views(r@) == views(formulas@).map_values(|f: FormulaModel| task_formula(role, f)),
{
    let mut r: Vec<AnnotatedFormula> = Vec::new();
    let mut i: usize = 0;
    while i < formulas.len()
        invariant
            i <= formulas.len(),
            views(r@) =~= views(formulas@).take(i as int).map_values(|f: FormulaModel| task_formula(role, f)),
        decreases formulas.len() - i,
    {
        proof {
            reveal_strlit("anf");
        }
        let ghost before = views(r@);
        let a = AnnotatedFormula { name: "anf".to_string(), role, formula: formulas[i].clone() };
        assert(a@ == task_formula(role, formulas@[i as int]@));
        r.push(a);
        assert(views(r@) =~= before.push(a@));
        assert(views(formulas@).take(i as int + 1) =~= views(formulas@).take(i as int).push(formulas@[i as int]@));
        i += 1;
    }
    assert(views(formulas@).take(formulas.len() as int) =~= views(formulas@));
    r
}

proof fn lemma_task_formulas_enter(fs: Seq<FormulaModel>, role: Role)
    ensures
        fs.map_values(|f: FormulaModel| task_formula(role, f)).map_values(|f: AnnotatedFormulaModel| entered(f))
            == fs.map_values(|f: FormulaModel| task_formula(role, f)),
{
    reveal_strlit("anf");
    assert(fs.map_values(|f: FormulaModel| task_formula(role, f)).map_values(|f: AnnotatedFormulaModel| entered(f))
        =~= fs.map_values(|f: FormulaModel| task_formula(role, f)));
}

impl Task for IntuitionisticTask {
    type Error = IntuitionisticTaskError;
    type Warning = std::convert::Infallible;

    open spec fn well_formed(&self) -> bool {
        is_simple_program(self.left@) && is_simple_program(self.right@)
    }

    /// A forward problem, from the left program's formulas to the right's,
    /// and a backward problem, from the right's to the left's.
    fn decompose(self) -> (r: Result<WithWarnings<Vec<Problem>, std::convert::Infallible>, IntuitionisticTaskError>)
        ensures
            r matches Ok(w) && w.warnings@.len() == 0 && w.data.len() == 2
                && w.data@[0]@ == task_problem("forward"@, shorthand_model(self.left@).formulas, shorthand_model(self.right@).formulas)
                && w.data@[1]@ == task_problem("backward"@, shorthand_model(self.right@).formulas, shorthand_model(self.left@).formulas),
    {
        let f1 = shorthand(self.left);
        let f2 = shorthand(self.right);
        let forward_premises = annotate_all(&f1.formulas, Role::Axiom);
        let backward_conclusions = annotate_all(&f1.formulas, Role::Conjecture);
        let forward_conclusions = annotate_all(&f2.formulas, Role::Conjecture);
        let backward_premises = annotate_all(&f2.formulas, Role::Axiom);
        let forward = named_problem("forward").add_annotated_formulas(forward_premises).add_annotated_formulas(
            forward_conclusions,
        );
        let backward = named_problem("backward").add_annotated_formulas(backward_premises).add_annotated_formulas(
            backward_conclusions,
        );
        proof {
            lemma_task_formulas_enter(views(f1.formulas@), Role::Axiom);
            lemma_task_formulas_enter(views(f1.formulas@), Role::Conjecture);
            lemma_task_formulas_enter(views(f2.formulas@), Role::Axiom);
            lemma_task_formulas_enter(views(f2.formulas@), Role::Conjecture);
            assert(forward@.formulas =~= task_problem("forward"@, views(f1.formulas@), views(f2.formulas@)).formulas);
            assert(backward@.formulas =~= task_problem("backward"@, views(f2.formulas@), views(f1.formulas@)).formulas);
        }
        let mut problems: Vec<Problem> = Vec::new();
        problems.push(forward);
        problems.push(backward);
        Ok(WithWarnings::flawless(problems))
    }
}

} // verus!
