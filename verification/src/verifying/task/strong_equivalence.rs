//! Strong equivalence of two programs, decided in classical logic: the
//! programs are translated into here-and-there logic and then by gamma, with
//! the axioms that what holds here also holds there.

use crate::convenience::sets::{extend, lemma_difference_of_contained, lemma_set_extend_contains, set_extend, views};
use crate::command_line::arguments::Decomposition;
use crate::syntax_tree::asp;
use crate::syntax_tree::fol::{BinaryConnective, Direction, Formula, FormulaModel, Predicate, PredicateModel, Quantifier, Theory, TheoryModel};
use crate::translating::gamma::{gamma, gamma_model, here, here_exec, lemma_prepend_free_variables, there, there_exec};
use crate::translating::tau_star::{globals_fit, tau_star, tau_star_theory};
use crate::simplifying::fol::classic::simplified;
use crate::breaking::fol::ht::broken_equivalences;
use crate::convenience::text::{decimal, numbered};
use crate::verifying::problem::{
    decomposable, decomposition, with_role, AnnotatedFormula, AnnotatedFormulaModel, Interpretation, Problem, ProblemModel,
    Role,
};
use crate::verifying::task::intuitionistic::{named_problem, word_name};
use vstd::prelude::*;

verus! {

/// `forall X1 ... Xn (hp(X1, ..., Xn) -> tp(X1, ..., Xn))` for the predicate `p/n`.
pub open spec fn transition_formula(p: PredicateModel) -> FormulaModel {
    let hp = here(p.to_formula());
    let tp = there(p.to_formula());
    FormulaModel::BinaryFormula {
        connective: BinaryConnective::Implication,
        lhs: Box::new(hp),
        rhs: Box::new(tp),
    }.quantify(Quantifier::Forall, hp.free_variables())
}

/// A transition axiom has no free variables.
pub proof fn lemma_transition_closed(p: PredicateModel)
    ensures
        transition_formula(p).free_variables().len() == 0,
{
    let a = p.to_formula();
    lemma_prepend_free_variables(a, "h"@);
    lemma_prepend_free_variables(a, "t"@);
    let vars = a.free_variables();
    let (hp, tp) = (here(a), there(a));
    assert(hp.free_variables() == vars);
    assert(tp.free_variables() == vars);
    let implication = FormulaModel::BinaryFormula {
        connective: BinaryConnective::Implication,
        lhs: Box::new(hp),
        rhs: Box::new(tp),
    };
    assert(implication.free_variables() == set_extend(vars, vars));
    lemma_set_extend_contains(vars, vars);
    if vars.len() > 0 {
        lemma_difference_of_contained(set_extend(vars, vars), vars);
        assert(transition_formula(p) == implication.quantify(Quantifier::Forall, vars));
    } else {
        assert(set_extend(vars, vars) =~= vars);
    }
}

/// The transition axiom of a predicate: what holds here also holds there.
pub fn transition(p: Predicate) -> (r: Formula)
    ensures
        r@ == transition_formula(p@),
{
    let hp = here_exec(p.clone().to_formula());
    let tp = there_exec(p.to_formula());
    let variables = hp.free_variables();
    let ghost (h, t) = (hp@, tp@);
    let implication = Formula::BinaryFormula {
        connective: BinaryConnective::Implication,
        lhs: Box::new(hp),
        rhs: Box::new(tp),
    };
    assert(implication@ == FormulaModel::BinaryFormula {
        connective: BinaryConnective::Implication,
        lhs: Box::new(h),
        rhs: Box::new(t),
    });
    implication.quantify(Quantifier::Forall, variables)
}

/// The predicate of first-order logic with the symbol and arity of a predicate of a program.
pub open spec fn first_order_predicate(p: asp::PredicateModel) -> PredicateModel {
    PredicateModel { symbol: p.symbol, arity: p.arity }
}

/// The transition axioms of the predicates of both programs, those of the
/// left program first, each predicate once.
pub open spec fn transition_axioms_model(left: asp::ProgramModel, right: asp::ProgramModel) -> TheoryModel {
    TheoryModel {
        formulas: set_extend(left.predicates(), right.predicates()).map_values(
            |p: asp::PredicateModel| transition_formula(first_order_predicate(p)),
        ),
    }
}

/// A strong equivalence task never fails.
pub type StrongEquivalenceTaskError = std::convert::Infallible;

/// The task of showing that two programs are strongly equivalent.
pub struct StrongEquivalenceTask {
    pub left: asp::Program,
    pub right: asp::Program,
    pub decomposition: Decomposition,
    pub direction: Direction,
    pub simplify: bool,
    pub break_equivalences: bool,
}

impl StrongEquivalenceTask {
    /// The transition axioms of the predicates of both programs.
    pub fn transition_axioms(&self) -> (r: Theory)
        ensures
            r@ == transition_axioms_model(self.left@, self.right@),
    {
        let mut predicates = self.left.predicates();
        extend(&mut predicates, self.right.predicates());
        let ghost ps = views(predicates@);
        let mut formulas: Vec<Formula> = Vec::new();
        let mut i: usize = 0;
        while i < predicates.len()
            invariant
                i <= predicates.len(),
                ps == views(predicates@),
                views(formulas@) == ps.take(i as int).map_values(
                    |p: asp::PredicateModel| transition_formula(first_order_predicate(p)),
                ),
            decreases predicates.len() - i,
        {
            let p = Predicate { symbol: predicates[i].symbol.clone(), arity: predicates[i].arity };
            assert(p@ == first_order_predicate(ps[i as int]));
            let ghost before = views(formulas@);
            let formula = transition(p);
            let ghost a = formula@;
            formulas.push(formula);
            assert(views(formulas@) =~= before.push(a));
            assert(ps.take(i as int + 1) =~= ps.take(i as int).push(ps[i as int]));
            assert(views(formulas@) =~= ps.take(i as int + 1).map_values(
                |p: asp::PredicateModel| transition_formula(first_order_predicate(p)),
            ));
            i += 1;
        }
        assert(ps.take(predicates.len() as int) =~= ps);
        Theory { formulas }
    }
}

// ================================================================ problems

/// The formulas, each broken into its implications where it is an equivalence.
pub open spec fn broken_all(fs: Seq<FormulaModel>) -> Seq<FormulaModel>
    decreases fs.len(),
{
    if fs.len() == 0 {
        seq![]
    } else {
        broken_all(fs.drop_last()) + broken_equivalences(fs.last())
    }
}

/// The classical theory of a program: its tau-star translation, by gamma,
/// simplified and with equivalences broken where asked.
pub open spec fn classical_theory(p: asp::ProgramModel, simplify: bool, break_equivalences: bool) -> Seq<FormulaModel> {
    let g = tau_star_theory(p).formulas.map_values(|f: FormulaModel| gamma_model(f));
    let s = if simplify { g.map_values(|f: FormulaModel| simplified(f)) } else { g };
    if break_equivalences { broken_all(s) } else { s }
}

/// The formulas named by a prefix and their positions, in the given role.
pub open spec fn numbered_formulas(fs: Seq<FormulaModel>, prefix: Seq<char>, role: Role) -> Seq<AnnotatedFormulaModel> {
    Seq::new(fs.len(), |i: int| AnnotatedFormulaModel { name: prefix + decimal(i as nat), role, formula: fs[i] })
}

/// The problem, named by a word, that assumes the transition axioms and the
/// premises and conjectures the conclusions.
pub open spec fn strong_problem(
    word: Seq<char>,
    axioms: Seq<FormulaModel>,
    premises: Seq<FormulaModel>,
    premise_prefix: Seq<char>,
    conclusions: Seq<FormulaModel>,
    conclusion_prefix: Seq<char>,
) -> ProblemModel {
    ProblemModel {
        name: word_name(word),
        interpretation: Interpretation::Standard,
        formulas: numbered_formulas(axioms, "transition_axiom_"@, Role::Axiom)
            + numbered_formulas(premises, premise_prefix, Role::Axiom)
            + numbered_formulas(conclusions, conclusion_prefix, Role::Conjecture),
    }
}

/// The forward problem: from the left program to the right one.
pub open spec fn forward_problem(t: StrongEquivalenceTaskModel) -> ProblemModel {
    strong_problem(
        "forward"@,
        transition_axioms_model(t.left, t.right).formulas,
        classical_theory(t.left, t.simplify, t.break_equivalences),
        "left_"@,
        classical_theory(t.right, t.simplify, t.break_equivalences),
        "right_"@,
    )
}

/// The backward problem: from the right program to the left one.
pub open spec fn backward_problem(t: StrongEquivalenceTaskModel) -> ProblemModel {
    strong_problem(
        "backward"@,
        transition_axioms_model(t.left, t.right).formulas,
        classical_theory(t.right, t.simplify, t.break_equivalences),
        "right_"@,
        classical_theory(t.left, t.simplify, t.break_equivalences),
        "left_"@,
    )
}

/// The problems of a strong equivalence task: those of the forward problem
/// where the direction is universal or forward, then those of the backward
/// problem where it is universal or backward, each decomposed as asked.
pub open spec fn strong_problems(t: StrongEquivalenceTaskModel) -> Seq<ProblemModel> {
    (if t.direction == Direction::Universal || t.direction == Direction::Forward {
        decomposition(forward_problem(t), t.decomposition)
    } else {
        seq![]
    }) + (if t.direction == Direction::Universal || t.direction == Direction::Backward {
        decomposition(backward_problem(t), t.decomposition)
    } else {
        seq![]
    })
}

pub struct StrongEquivalenceTaskModel {
    pub left: asp::ProgramModel,
    pub right: asp::ProgramModel,
    pub decomposition: Decomposition,
    pub direction: Direction,
    pub simplify: bool,
    pub break_equivalences: bool,
}

impl View for StrongEquivalenceTask {
    type V = StrongEquivalenceTaskModel;
    open spec fn view(&self) -> StrongEquivalenceTaskModel {
        StrongEquivalenceTaskModel {
            left: self.left@,
            right: self.right@,
            decomposition: self.decomposition,
            direction: self.direction,
            simplify: self.simplify,
            break_equivalences: self.break_equivalences,
        }
    }
}

/// Breaks the equivalences of all the formulas.
fn break_all(fs: Vec<Formula>) -> (r: Vec<Formula>)
    ensures
        views(r@) == broken_all(views(fs@)),
{
    let ghost all = views(fs@);
    let mut rest = fs;
    let n = rest.len();
    let mut r: Vec<Formula> = Vec::new();
    let mut i: usize = 0;
    while i < n
        invariant
            n == all.len(),
            i <= n,
            rest.len() == n - i,
            forall|k: int| 0 <= k < rest.len() ==> #[trigger] rest@[k]@ == all[k + i],
            views(r@) == broken_all(all.take(i as int)),
        decreases n - i,
    {
        let f = rest.remove(0);
        let mut parts = crate::breaking::fol::ht::break_equivalences(f).formulas;
        let ghost before = views(r@);
        let ghost ps = views(parts@);
        r.append(&mut parts);
        assert(views(r@) =~= before + ps);
        assert(all.take(i as int + 1).drop_last() =~= all.take(i as int));
        i += 1;
    }
    assert(all.take(n as int) =~= all);
    r
}

/// The formulas, named by a prefix and their positions, in the given role.
fn number_formulas(fs: Vec<Formula>, prefix: &str, role: Role) -> (r: Vec<AnnotatedFormula>)
    ensures
        views(r@) == numbered_formulas(views(fs@), prefix@, role),
{
    let ghost all = views(fs@);
    let mut rest = fs;
    let n = rest.len();
    let mut r: Vec<AnnotatedFormula> = Vec::new();
    let mut i: usize = 0;
    while i < n
        invariant
            n == all.len(),
            i <= n,
            rest.len() == n - i,
            forall|k: int| 0 <= k < rest.len() ==> #[trigger] rest@[k]@ == all[k + i],
            views(r@) =~= numbered_formulas(all.take(i as int), prefix@, role),
        decreases n - i,
    {
        let f = rest.remove(0);
        let a = AnnotatedFormula { name: numbered(prefix, i), role, formula: f };
        let ghost before = views(r@);
        r.push(a);
        assert(views(r@) =~= before.push(a@));
        assert(numbered_formulas(all.take(i as int + 1), prefix@, role)
            =~= numbered_formulas(all.take(i as int), prefix@, role).push(a@));
        i += 1;
    }
    assert(all.take(n as int) =~= all);
    r
}

/// The classical theory of a program.
fn classical(p: asp::Program, simplify: bool, break_equivalences: bool) -> (r: Vec<Formula>)
    requires
        globals_fit(p@),
    ensures
        views(r@) == classical_theory(p@, simplify, break_equivalences),
{
    let mut theory = gamma(tau_star(p));
    if simplify {
        theory = crate::simplifying::fol::classic::simplify(theory);
    }
    if break_equivalences {
        break_all(theory.formulas)
    } else {
        theory.formulas
    }
}

/// Concatenates two vectors.
fn joined<T>(a: Vec<T>, b: Vec<T>) -> (r: Vec<T>)
    ensures
        r@ == a@ + b@,
{
    let mut a = a;
    let mut b = b;
    a.append(&mut b);
    a
}

/// A problem from its parts.
fn build_problem(
    word: &str,
    axioms: Vec<AnnotatedFormula>,
    premises: Vec<AnnotatedFormula>,
    conclusions: Vec<AnnotatedFormula>,
) -> (r: Problem)
    ensures
        r@ == (ProblemModel {
            name: word_name(word@),
            interpretation: Interpretation::Standard,
            formulas: views(axioms@) + views(premises@) + views(conclusions@),
        }),
{
    let p = named_problem(word);
    let formulas = joined(joined(axioms, premises), conclusions);
    let r = Problem { name: p.name, interpretation: Interpretation::Standard, formulas };
    assert(views(r.formulas@) =~= views(axioms@) + views(premises@) + views(conclusions@));
    r
}

/// The decomposition of a problem, as a sequence of models.
fn decompose_problem(p: &Problem, strategy: Decomposition) -> (r: Vec<Problem>)
    requires
        decomposable(p@),
    ensures
        views(r@) == decomposition(p@, strategy),
{
    let r = p.decompose(strategy);
    assert(views(r@) =~= decomposition(p@, strategy));
    r
}

/// Whether the problems of a task can be formed: the global variables of both
/// programs can be numbered, and each direction that is asked for has at most
/// as many conjectures as a problem number holds.
pub open spec fn strong_decomposable(t: StrongEquivalenceTaskModel) -> bool {
    &&& globals_fit(t.left)
    &&& globals_fit(t.right)
    &&& (t.direction == Direction::Universal || t.direction == Direction::Forward
        ==> classical_theory(t.right, t.simplify, t.break_equivalences).len() <= i16::MAX)
    &&& (t.direction == Direction::Universal || t.direction == Direction::Backward
        ==> classical_theory(t.left, t.simplify, t.break_equivalences).len() <= i16::MAX)
}

/// The formulas of annotated formulas, in order.
pub open spec fn formulas_of(fs: Seq<AnnotatedFormulaModel>) -> Seq<FormulaModel> {
    fs.map_values(|a: AnnotatedFormulaModel| a.formula)
}

proof fn lemma_filter_all<A>(s: Seq<A>, pred: spec_fn(A) -> bool)
    requires
        forall|i: int| 0 <= i < s.len() ==> pred(#[trigger] s[i]),
    ensures
        s.filter(pred) == s,
    decreases s.len(),
{
    reveal(Seq::filter);
    if s.len() > 0 {
        lemma_filter_all(s.drop_last(), pred);
        assert(s.drop_last().push(s.last()) =~= s);
    } else {
        assert(s =~= Seq::<A>::empty());
    }
}

proof fn lemma_numbered_roles(fs: Seq<FormulaModel>, prefix: Seq<char>, role: Role, other: Role)
    requires
        role != other,
    ensures
        with_role(numbered_formulas(fs, prefix, role), role) == numbered_formulas(fs, prefix, role),
        with_role(numbered_formulas(fs, prefix, role), other) == Seq::<AnnotatedFormulaModel>::empty(),
        formulas_of(numbered_formulas(fs, prefix, role)) == fs,
{
    let n = numbered_formulas(fs, prefix, role);
    lemma_filter_all(n, |f: AnnotatedFormulaModel| f.role == role);
    assert forall|k: int| 0 <= k < n.len() implies (#[trigger] n[k]).role != other by {}
    crate::verifying::problem::lemma_none_with_role(n, other);
    assert(with_role(n, other) =~= Seq::<AnnotatedFormulaModel>::empty());
    assert(formulas_of(n) =~= fs);
}

/// The axioms and the conjectures of a problem of a strong equivalence task.
proof fn lemma_strong_problem_roles(
    word: Seq<char>,
    ax: Seq<FormulaModel>,
    pr: Seq<FormulaModel>,
    pp: Seq<char>,
    co: Seq<FormulaModel>,
    cp: Seq<char>,
)
    ensures
        formulas_of(with_role(strong_problem(word, ax, pr, pp, co, cp).formulas, Role::Axiom)) == ax + pr,
        formulas_of(with_role(strong_problem(word, ax, pr, pp, co, cp).formulas, Role::Conjecture)) == co,
{
    let a1 = numbered_formulas(ax, "transition_axiom_"@, Role::Axiom);
    let a2 = numbered_formulas(pr, pp, Role::Axiom);
    let c = numbered_formulas(co, cp, Role::Conjecture);
    lemma_numbered_roles(ax, "transition_axiom_"@, Role::Axiom, Role::Conjecture);
    lemma_numbered_roles(pr, pp, Role::Axiom, Role::Conjecture);
    lemma_numbered_roles(co, cp, Role::Conjecture, Role::Axiom);
    let pa = |f: AnnotatedFormulaModel| f.role == Role::Axiom;
    let pc = |f: AnnotatedFormulaModel| f.role == Role::Conjecture;
    Seq::filter_distributes_over_add(a1 + a2, c, pa);
    Seq::filter_distributes_over_add(a1, a2, pa);
    Seq::filter_distributes_over_add(a1 + a2, c, pc);
    Seq::filter_distributes_over_add(a1, a2, pc);
    assert(with_role(a1 + a2 + c, Role::Axiom) =~= a1 + a2);
    assert(with_role(a1 + a2 + c, Role::Conjecture) =~= c);
    assert(formulas_of(a1 + a2) =~= formulas_of(a1) + formulas_of(a2));
}

/// The two directions of a strong equivalence task swap the programs: after
/// the transition axioms, which both assume, the backward problem assumes
/// what the forward problem conjectures and conjectures what it assumes.
pub proof fn lemma_strong_directions_swap(t: StrongEquivalenceTaskModel)
    ensures
        ({
            let f = forward_problem(t);
            let b = backward_problem(t);
            let n = transition_axioms_model(t.left, t.right).formulas.len() as int;
            &&& formulas_of(with_role(b.formulas, Role::Axiom)).take(n) == formulas_of(with_role(f.formulas, Role::Axiom)).take(n)
            &&& formulas_of(with_role(b.formulas, Role::Axiom)).skip(n) == formulas_of(with_role(f.formulas, Role::Conjecture))
            &&& formulas_of(with_role(b.formulas, Role::Conjecture)) == formulas_of(with_role(f.formulas, Role::Axiom)).skip(n)
        }),
{
    let ax = transition_axioms_model(t.left, t.right).formulas;
    let l = classical_theory(t.left, t.simplify, t.break_equivalences);
    let r = classical_theory(t.right, t.simplify, t.break_equivalences);
    lemma_strong_problem_roles("forward"@, ax, l, "left_"@, r, "right_"@);
    lemma_strong_problem_roles("backward"@, ax, r, "right_"@, l, "left_"@);
    assert((ax + l).take(ax.len() as int) =~= ax);
    assert((ax + r).take(ax.len() as int) =~= ax);
    assert((ax + l).skip(ax.len() as int) =~= l);
    assert((ax + r).skip(ax.len() as int) =~= r);
}

/// The forward problem assumes, after the transition axioms, the classical
/// theory of the left program, one formula for each rule unless equivalences
/// are broken, and conjectures that of the right program.
pub proof fn lemma_forward_from_left_to_right(t: StrongEquivalenceTaskModel)
    ensures
        ({
            let f = forward_problem(t);
            let n = transition_axioms_model(t.left, t.right).formulas.len() as int;
            &&& formulas_of(with_role(f.formulas, Role::Axiom)).skip(n) == classical_theory(t.left, t.simplify, t.break_equivalences)
            &&& formulas_of(with_role(f.formulas, Role::Conjecture)) == classical_theory(t.right, t.simplify, t.break_equivalences)
            &&& !t.break_equivalences ==> formulas_of(with_role(f.formulas, Role::Axiom)).skip(n).len() == t.left.rules.len()
            &&& !t.break_equivalences ==> formulas_of(with_role(f.formulas, Role::Conjecture)).len() == t.right.rules.len()
        }),
{
    let ax = transition_axioms_model(t.left, t.right).formulas;
    let l = classical_theory(t.left, t.simplify, t.break_equivalences);
    let r = classical_theory(t.right, t.simplify, t.break_equivalences);
    lemma_strong_problem_roles("forward"@, ax, l, "left_"@, r, "right_"@);
    assert((ax + l).skip(ax.len() as int) =~= l);
}

proof fn lemma_strong_decomposable(word: Seq<char>, ax: Seq<FormulaModel>, pr: Seq<FormulaModel>, pp: Seq<char>, co: Seq<FormulaModel>, cp: Seq<char>)
    requires
        co.len() <= i16::MAX,
    ensures
        decomposable(strong_problem(word, ax, pr, pp, co, cp)),
{
    let p = strong_problem(word, ax, pr, pp, co, cp);
    let a = numbered_formulas(ax, "transition_axiom_"@, Role::Axiom) + numbered_formulas(pr, pp, Role::Axiom);
    let c = numbered_formulas(co, cp, Role::Conjecture);
    let pred = |f: AnnotatedFormulaModel| f.role == Role::Conjecture;
    Seq::filter_distributes_over_add(a, c, pred);
    c.filter_lemma(pred);
    assert forall|k: int| 0 <= k < a.len() implies (#[trigger] a[k]).role != Role::Conjecture by {}
    crate::verifying::problem::lemma_none_with_role(a, Role::Conjecture);
    assert(c.filter(pred).len() <= c.len());
    assert(with_role(p.formulas, Role::Conjecture).len() <= co.len());
}

impl StrongEquivalenceTask {
    /// Whether the task can be decomposed: the global variables of both
    /// programs can be numbered, and the classical theory that holds the
    /// conjectures of each direction that is asked for fits the numbers of
    /// its problems.
    pub fn decomposable(&self) -> (r: bool)
        ensures
            r == strong_decomposable(self@),
    {
        if !crate::translating::tau_star::global_variables_fit(&self.left)
            || !crate::translating::tau_star::global_variables_fit(&self.right) {
            return false;
        }
        let left = classical(self.left.clone(), self.simplify, self.break_equivalences);
        let right = classical(self.right.clone(), self.simplify, self.break_equivalences);
        let forward = matches!(self.direction, Direction::Universal | Direction::Forward);
        let backward = matches!(self.direction, Direction::Universal | Direction::Backward);
        (!forward || right.len() <= 32767) && (!backward || left.len() <= 32767)
    }

    /// The problems whose proofs show the programs strongly equivalent.
    ///
    /// A symbol that has the name of a propositional predicate is left as it
    /// is: the problems are not rewritten to tell the two apart, since no
    /// renaming of such symbols is defined in this library.
    pub fn decompose(self) -> (r: Vec<Problem>)
        requires
            strong_decomposable(self@),
        ensures
            views(r@) == strong_problems(self@),
    {
        let ghost t = self@;
        let axioms = self.transition_axioms().formulas;
        let left = classical(self.left, self.simplify, self.break_equivalences);
        let right = classical(self.right, self.simplify, self.break_equivalences);
        let mut problems: Vec<Problem> = Vec::new();
        if matches!(self.direction, Direction::Universal | Direction::Forward) {
            let p = build_problem(
                "forward",
                number_formulas(crate::convenience::sets::duplicate_all(&axioms), "transition_axiom_", Role::Axiom),
                number_formulas(crate::convenience::sets::duplicate_all(&left), "left_", Role::Axiom),
                number_formulas(crate::convenience::sets::duplicate_all(&right), "right_", Role::Conjecture),
            );
            proof {
                reveal_strlit("transition_axiom_");
                assert(p@ == forward_problem(t));
                lemma_strong_decomposable("forward"@, views(axioms@), views(left@), "left_"@, views(right@), "right_"@);
            }
            problems = decompose_problem(&p, self.decomposition);
        }
        let ghost front = views(problems@);
        if matches!(self.direction, Direction::Universal | Direction::Backward) {
            let p = build_problem(
                "backward",
                number_formulas(axioms, "transition_axiom_", Role::Axiom),
                number_formulas(right, "right_", Role::Axiom),
                number_formulas(left, "left_", Role::Conjecture),
            );
            proof {
                assert(p@ == backward_problem(t));
                lemma_strong_decomposable("backward"@, views(axioms@), views(right@), "right_"@, views(left@), "left_"@);
            }
            let back = decompose_problem(&p, self.decomposition);
            let ghost b = views(back@);
            problems = joined(problems, back);
            assert(views(problems@) =~= front + b);
        }
        assert(views(problems@) =~= strong_problems(t));
        problems
    }
}

} // verus!
