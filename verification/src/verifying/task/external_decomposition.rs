//! The external equivalence task as a whole: its checks, the translation of
//! both sides into specifications, the assumptions of the user guide, the
//! proof outline, and the problems that follow.

use crate::analyzing::graph::cyclic;
use crate::analyzing::private_recursion::{private_choice, private_dependency};
use crate::analyzing::tightness::tight;
use crate::convenience::sets::{contains, difference, extend, intersection, set_difference, set_extend, set_intersection, views};
use crate::convenience::text::{concat, decimal, numbered, push_decimal};
use crate::convenience::with_warnings::WithWarnings;
use crate::syntax_tree::asp;
use crate::syntax_tree::fol::{
    AnnotatedFormula, AnnotatedFormulaModel, AtomicFormula, AtomicFormulaModel, BinaryConnective, Direction, Formula,
    FormulaModel, FunctionConstant, FunctionConstantModel, Predicate, PredicateModel, Quantifier, Role, Specification, SpecificationModel,
    Theory, UserGuide, UserGuideModel,
};
use crate::syntax_tree::placeholders::{placed_annotated, placed_formula};
use crate::translating::completion::{completion, completion_model};
use crate::translating::tau_star::{globals_fit, tau_star, tau_star_theory};
use crate::verifying::outline::{outline_outcome, ProofOutline, ProofOutlineWarning, ProofOutlineWarningModel};
use crate::verifying::problem;
use crate::verifying::task::external_equivalence::{
    answer_set_predicates, assembled, assembled_decomposable, assembled_problems, assumption_overlap, assumptions_and_specs,
    ensure_absence_of_private_recursion, ensure_input_and_output_predicates_are_disjoint, ensure_placeholder_name_uniqueness,
    ensure_program_tightness, ensure_rule_heads_do_not_contain_input_predicates,
    ensure_specification_assumptions_do_not_contain_output_predicates, first_assumption_overlap, first_order_predicates,
    first_repeated_name, rename_specification, renamed_annotated, AssembledModel, ExternalEquivalenceTaskError,
    ExternalEquivalenceTaskErrorModel, ExternalEquivalenceTaskWarning, ExternalEquivalenceTaskWarningModel,
    ValidatedExternalEquivalenceTask,
};
use crate::command_line::arguments::Decomposition;
use vstd::prelude::*;

verus! {

/// What the program is held against: a program or a first-order specification.
pub enum TaskSpecification {
    Program(asp::Program),
    Specification(Specification),
}

pub enum TaskSpecificationModel {
    Program(asp::ProgramModel),
    Specification(SpecificationModel),
}

impl View for TaskSpecification {
    type V = TaskSpecificationModel;
    open spec fn view(&self) -> TaskSpecificationModel {
        match self {
            TaskSpecification::Program(p) => TaskSpecificationModel::Program(p@),
            TaskSpecification::Specification(s) => TaskSpecificationModel::Specification(s@),
        }
    }
}

/// The task of showing a program externally equivalent to a specification
/// under a user guide, helped by a proof outline.
pub struct ExternalEquivalenceTask {
    pub specification: TaskSpecification,
    pub program: asp::Program,
    pub user_guide: UserGuide,
    pub proof_outline: Specification,
    pub decomposition: Decomposition,
    pub direction: Direction,
    pub bypass_tightness: bool,
    pub simplify: bool,
    pub break_equivalences: bool,
}

pub struct ExternalEquivalenceTaskModel {
    pub specification: TaskSpecificationModel,
    pub program: asp::ProgramModel,
    pub user_guide: UserGuideModel,
    pub proof_outline: SpecificationModel,
    pub decomposition: Decomposition,
    pub direction: Direction,
    pub bypass_tightness: bool,
    pub simplify: bool,
    pub break_equivalences: bool,
}

impl View for ExternalEquivalenceTask {
    type V = ExternalEquivalenceTaskModel;
    open spec fn view(&self) -> ExternalEquivalenceTaskModel {
        ExternalEquivalenceTaskModel {
            specification: self.specification@,
            program: self.program@,
            user_guide: self.user_guide@,
            proof_outline: self.proof_outline@,
            decomposition: self.decomposition,
            direction: self.direction,
            bypass_tightness: self.bypass_tightness,
            simplify: self.simplify,
            break_equivalences: self.break_equivalences,
        }
    }
}

// ================================================================ the checks

pub open spec fn tightness_check(p: asp::ProgramModel, bypass: bool) -> Result<Seq<ExternalEquivalenceTaskWarningModel>, ExternalEquivalenceTaskErrorModel> {
    if tight(p) {
        Ok(seq![])
    } else if bypass {
        Ok(seq![ExternalEquivalenceTaskWarningModel::NonTightProgram(p)])
    } else {
        Err(ExternalEquivalenceTaskErrorModel::NonTightProgram(p))
    }
}

pub open spec fn recursion_check(p: asp::ProgramModel, private: Seq<PredicateModel>) -> Option<ExternalEquivalenceTaskErrorModel> {
    let a = answer_set_predicates(private);
    if private_choice(p, a) || cyclic(private_dependency(p, a)) {
        Some(ExternalEquivalenceTaskErrorModel::ProgramContainsPrivateRecursion(p))
    } else {
        None
    }
}

pub open spec fn disjoint_check(ug: UserGuideModel) -> Option<ExternalEquivalenceTaskErrorModel> {
    let o = set_intersection(ug.input_predicates(), ug.output_predicates());
    if o.len() == 0 { None } else { Some(ExternalEquivalenceTaskErrorModel::InputOutputPredicatesOverlap(o)) }
}

pub open spec fn heads_check(ug: UserGuideModel, p: asp::ProgramModel) -> Option<ExternalEquivalenceTaskErrorModel> {
    let o = set_intersection(ug.input_predicates(), first_order_predicates(p.head_predicates()));
    if o.len() == 0 { None } else { Some(ExternalEquivalenceTaskErrorModel::InputPredicateInRuleHead(o)) }
}

pub open spec fn uniqueness_check(ug: UserGuideModel) -> Option<ExternalEquivalenceTaskErrorModel> {
    match first_repeated_name(ug.placeholders(), seq![]) {
        Some(name) => Some(ExternalEquivalenceTaskErrorModel::PlaceholdersWithIdenticalNamesDifferentSorts(name)),
        None => None,
    }
}

pub open spec fn spec_assumptions_check(ug: UserGuideModel, s: SpecificationModel) -> Option<ExternalEquivalenceTaskErrorModel> {
    match first_assumption_overlap(s.formulas, ug.output_predicates()) {
        Some(o) => Some(ExternalEquivalenceTaskErrorModel::OutputPredicateInSpecificationAssumption(o)),
        None => None,
    }
}

/// The predicates of the user guide that are inputs or outputs.
pub open spec fn public_predicates(ug: UserGuideModel) -> Seq<PredicateModel> {
    set_extend(ug.input_predicates(), ug.output_predicates())
}

/// The predicates `start` with those of the annotated formulas added, each
/// once, in order of appearance.
pub open spec fn predicates_from(start: Seq<PredicateModel>, fs: Seq<AnnotatedFormulaModel>) -> Seq<PredicateModel>
    decreases fs.len(),
{
    if fs.len() == 0 {
        start
    } else {
        set_extend(predicates_from(start, fs.drop_last()), fs.last().formula.predicates())
    }
}

/// The predicates of the annotated formulas, each once, in order of appearance.
pub open spec fn formulas_predicates(fs: Seq<AnnotatedFormulaModel>) -> Seq<PredicateModel> {
    predicates_from(seq![], fs)
}

/// The predicates of what the program is held against that are not public.
pub open spec fn specification_private(t: ExternalEquivalenceTaskModel) -> Seq<PredicateModel> {
    let all = match t.specification {
        TaskSpecificationModel::Program(p) => first_order_predicates(p.predicates()),
        TaskSpecificationModel::Specification(s) => formulas_predicates(s.formulas),
    };
    set_difference(all, public_predicates(t.user_guide))
}

/// The predicates of the program that are not public.
pub open spec fn program_private(t: ExternalEquivalenceTaskModel) -> Seq<PredicateModel> {
    set_difference(first_order_predicates(t.program.predicates()), public_predicates(t.user_guide))
}

/// The warnings of the checks on the inputs, or the first error among them.
pub open spec fn checks(t: ExternalEquivalenceTaskModel) -> Result<Seq<ExternalEquivalenceTaskWarningModel>, ExternalEquivalenceTaskErrorModel> {
    if let Some(e) = disjoint_check(t.user_guide) {
        Err(e)
    } else {
        match tightness_check(t.program, t.bypass_tightness) {
            Err(e) => Err(e),
            Ok(w1) => if let Some(e) = recursion_check(t.program, program_private(t)) {
                Err(e)
            } else if let Some(e) = heads_check(t.user_guide, t.program) {
                Err(e)
            } else if let Some(e) = uniqueness_check(t.user_guide) {
                Err(e)
            } else {
                match t.specification {
                    TaskSpecificationModel::Program(sp) => match tightness_check(sp, t.bypass_tightness) {
                        Err(e) => Err(e),
                        Ok(w2) => if let Some(e) = recursion_check(sp, specification_private(t)) {
                            Err(e)
                        } else if let Some(e) = heads_check(t.user_guide, sp) {
                            Err(e)
                        } else {
                            Ok(w1 + w2)
                        },
                    },
                    TaskSpecificationModel::Specification(s) => if let Some(e) = spec_assumptions_check(t.user_guide, s) {
                        Err(e)
                    } else {
                        Ok(w1)
                    },
                }
            },
        }
    }
}

// ================================================================ control translation

/// The predicate defined by a completed definition: the atom on the left of an
/// equivalence, under universal quantifiers.
pub open spec fn head_of(f: FormulaModel) -> Option<PredicateModel>
    decreases f,
{
    match f {
        FormulaModel::BinaryFormula { connective: BinaryConnective::Equivalence, lhs, .. } => match *lhs {
            FormulaModel::AtomicFormula(AtomicFormulaModel::Atom(a)) => Some(a.predicate()),
            _ => None,
        },
        FormulaModel::QuantifiedFormula { quantification, formula } =>
            if quantification.quantifier == Quantifier::Forall { head_of(*formula) } else { None },
        _ => None,
    }
}

/// The formulas of a completed theory as a specification: the definition of a
/// public predicate is a specification, that of another predicate an
/// assumption, and the constraints, numbered from `k`, are specifications.
pub open spec fn controlled(fs: Seq<FormulaModel>, public: Seq<PredicateModel>, k: nat) -> Seq<AnnotatedFormulaModel>
    decreases fs.len(),
{
    if fs.len() == 0 {
        seq![]
    } else {
        let f = fs[0];
        match head_of(f) {
            Some(p) => seq![AnnotatedFormulaModel {
                role: if public.contains(p) { Role::Spec } else { Role::Assumption },
                direction: Direction::Universal,
                name: "completed_definition_of_"@ + p.symbol + "_"@ + decimal(p.arity as nat),
                formula: f,
            }] + controlled(fs.drop_first(), public, k),
            None => seq![AnnotatedFormulaModel {
                role: Role::Spec,
                direction: Direction::Universal,
                name: "constraint_"@ + decimal(k),
                formula: f,
            }] + controlled(fs.drop_first(), public, k + 1),
        }
    }
}

/// The tau-star translation of a program with the placeholders replaced.
pub open spec fn placed_translation(p: asp::ProgramModel, ps: Seq<FunctionConstantModel>) -> crate::syntax_tree::fol::TheoryModel {
    crate::syntax_tree::fol::TheoryModel {
        formulas: tau_star_theory(p).formulas.map_values(|f: FormulaModel| placed_formula(f, ps)),
    }
}

/// Whether a program can be translated and completed.
pub open spec fn translatable(p: asp::ProgramModel, ps: Seq<FunctionConstantModel>) -> bool {
    globals_fit(p) && completion_model(placed_translation(p, ps)) is Some
}

/// The completed translation of a program as a specification.
pub open spec fn program_side(p: asp::ProgramModel, ps: Seq<FunctionConstantModel>, public: Seq<PredicateModel>) -> Seq<AnnotatedFormulaModel> {
    controlled(completion_model(placed_translation(p, ps))->Some_0.formulas, public, 0)
}

pub open spec fn left_side(t: ExternalEquivalenceTaskModel) -> Seq<AnnotatedFormulaModel> {
    let ps = t.user_guide.placeholders();
    match t.specification {
        TaskSpecificationModel::Program(sp) => program_side(sp, ps, public_predicates(t.user_guide)),
        TaskSpecificationModel::Specification(s) => s.formulas.map_values(|a: AnnotatedFormulaModel| placed_annotated(a, ps)),
    }
}

/// The renaming of the private predicates that both sides have.
pub open spec fn shared_private_renaming(t: ExternalEquivalenceTaskModel) -> Seq<(PredicateModel, Seq<char>)> {
    set_intersection(specification_private(t), program_private(t)).map_values(|p: PredicateModel| (p, "p"@))
}

pub open spec fn right_side(t: ExternalEquivalenceTaskModel) -> Seq<AnnotatedFormulaModel> {
    program_side(t.program, t.user_guide.placeholders(), public_predicates(t.user_guide)).map_values(
        |a: AnnotatedFormulaModel| renamed_annotated(a, shared_private_renaming(t)),
    )
}

// ================================================================ the user guide and the outline

/// The assumptions of the user guide with their placeholders replaced, and a
/// warning for each formula of another role; an error for the first
/// assumption about an output predicate.
pub open spec fn guide_assumptions(fs: Seq<AnnotatedFormulaModel>, output: Seq<PredicateModel>, ps: Seq<FunctionConstantModel>)
    -> Result<(Seq<AnnotatedFormulaModel>, Seq<ExternalEquivalenceTaskWarningModel>), ExternalEquivalenceTaskErrorModel>
    decreases fs.len(),
{
    if fs.len() == 0 {
        Ok((seq![], seq![]))
    } else {
        let f = fs[0];
        if f.role == Role::Assumption {
            let o = assumption_overlap(f, output);
            if o.len() == 0 {
                match guide_assumptions(fs.drop_first(), output, ps) {
                    Ok((a, w)) => Ok((seq![placed_annotated(f, ps)] + a, w)),
                    Err(e) => Err(e),
                }
            } else {
                Err(ExternalEquivalenceTaskErrorModel::OutputPredicateInUserGuideAssumption(o))
            }
        } else {
            match guide_assumptions(fs.drop_first(), output, ps) {
                Ok((a, w)) => Ok((a, seq![ExternalEquivalenceTaskWarningModel::InvalidRoleWithinUserGuide(f)] + w)),
                Err(e) => Err(e),
            }
        }
    }
}

/// The input predicates and those of both sides: what definitions in the outline may not take.
pub open spec fn taken_predicates(t: ExternalEquivalenceTaskModel) -> Seq<PredicateModel> {
    predicates_from(predicates_from(t.user_guide.input_predicates(), left_side(t)), right_side(t))
}

/// The assembled task once the checks, the translation, the user guide and the outline have passed.
pub open spec fn assembled_of(t: ExternalEquivalenceTaskModel, guide: Seq<AnnotatedFormulaModel>, s: crate::verifying::outline::OutlineState) -> AssembledModel {
    let parts = assembled(guide, left_side(t), right_side(t), t.break_equivalences);
    AssembledModel {
        stable_premises: parts.stable_premises,
        forward_premises: parts.forward_premises,
        forward_conclusions: parts.forward_conclusions,
        backward_premises: parts.backward_premises,
        backward_conclusions: parts.backward_conclusions,
        forward_lemmas: s.forward_lemmas,
        backward_lemmas: s.backward_lemmas,
        forward_definitions: s.forward_definitions,
        backward_definitions: s.backward_definitions,
        decomposition: t.decomposition,
        direction: t.direction,
    }
}

/// The outcome of the task: the problems and all warnings in order, or the first error.
pub open spec fn external_outcome(t: ExternalEquivalenceTaskModel)
    -> Result<(Seq<problem::ProblemModel>, Seq<ExternalEquivalenceTaskWarningModel>), ExternalEquivalenceTaskErrorModel>
{
    match checks(t) {
        Err(e) => Err(e),
        Ok(w1) => match guide_assumptions(t.user_guide.formulas(), t.user_guide.output_predicates(), t.user_guide.placeholders()) {
            Err(e) => Err(e),
            Ok((guide, w2)) => match outline_outcome(t.proof_outline.formulas, taken_predicates(t), t.user_guide.placeholders()) {
                Err(e) => Err(ExternalEquivalenceTaskErrorModel::ProofOutlineError(e)),
                Ok(s) => {
                    let w3 = s.warnings.map_values(|w| ExternalEquivalenceTaskWarningModel::DefinitionWithWarning(w));
                    let parts = assembled(guide, left_side(t), right_side(t), t.break_equivalences);
                    Ok((assembled_problems(assembled_of(t, guide, s)), w1 + w2 + w3 + parts.warnings))
                },
            },
        },
    }
}

/// What the task needs of its inputs where the checks pass: both programs
/// translate and complete, the sides hold only assumptions and
/// specifications, and the problem numbers can be formed.
pub open spec fn external_decomposable(t: ExternalEquivalenceTaskModel) -> bool {
    checks(t) is Ok ==> {
        &&& translatable(t.program, t.user_guide.placeholders())
        &&& (t.specification matches TaskSpecificationModel::Program(sp) ==> translatable(sp, t.user_guide.placeholders()))
        &&& assumptions_and_specs(left_side(t))
        &&& assumptions_and_specs(right_side(t))
        &&& (guide_assumptions(t.user_guide.formulas(), t.user_guide.output_predicates(), t.user_guide.placeholders())
                matches Ok((guide, _)) ==>
            (outline_outcome(t.proof_outline.formulas, taken_predicates(t), t.user_guide.placeholders()) matches Ok(s) ==>
                assembled_decomposable(assembled_of(t, guide, s))))
    }
}

// ================================================================ the steps

/// Adds the predicates of the annotated formulas to `v`.
fn add_predicates(v: &mut Vec<Predicate>, fs: &Vec<AnnotatedFormula>)
    ensures
        views(final(v)@) == predicates_from(views(old(v)@), views(fs@)),
{
    let ghost start = views(v@);
    let mut i: usize = 0;
    while i < fs.len()
        invariant
            i <= fs.len(),
            views(v@) == predicates_from(start, views(fs@).take(i as int)),
        decreases fs.len() - i,
    {
        extend(v, fs[i].formula.predicates());
        assert(views(fs@).take(i as int + 1).drop_last() =~= views(fs@).take(i as int));
        i += 1;
    }
    assert(views(fs@).take(fs.len() as int) =~= views(fs@));
}

/// The predicates of formulas with the symbols and arities of predicates of a program.
fn first_order(ps: Vec<asp::Predicate>) -> (r: Vec<Predicate>)
    ensures
        views(r@) == first_order_predicates(views(ps@)),
{
    let ghost all = first_order_predicates(views(ps@));
    let mut r: Vec<Predicate> = Vec::new();
    let mut i: usize = 0;
    while i < ps.len()
        invariant
            i <= ps.len(),
            all == first_order_predicates(views(ps@)),
            views(r@) =~= all.take(i as int),
        decreases ps.len() - i,
    {
        let p = Predicate { symbol: ps[i].symbol.clone(), arity: ps[i].arity };
        let ghost before = views(r@);
        r.push(p);
        assert(views(r@) =~= before.push(all[i as int]));
        assert(all.take(i as int + 1) =~= all.take(i as int).push(all[i as int]));
        i += 1;
    }
    assert(all.take(ps.len() as int) =~= all);
    r
}

/// The input and output predicates of a user guide.
fn public_of(user_guide: &UserGuide) -> (r: Vec<Predicate>)
    ensures
        views(r@) == public_predicates(user_guide@),
{
    let mut r = user_guide.input_predicates();
    extend(&mut r, user_guide.output_predicates());
    r
}

/// The predicate that a completed definition defines, if the formula is one.
fn head_predicate(f: &Formula) -> (r: Option<Predicate>)
    ensures
        r matches Some(p) ==> head_of(f@) == Some(p@),
        r is None ==> head_of(f@) is None,
    decreases f,
{
    match f {
        Formula::BinaryFormula { connective, lhs, .. } => {
            if matches!(connective, BinaryConnective::Equivalence) {
                assert(f@->BinaryFormula_lhs == Box::new(lhs@));
                match &**lhs {
                    Formula::AtomicFormula(AtomicFormula::Atom(a)) => Some(a.predicate()),
                    _ => None,
                }
            } else {
                None
            }
        },
        Formula::QuantifiedFormula { quantification, formula } => {
            if matches!(quantification.quantifier, Quantifier::Forall) {
                head_predicate(formula)
            } else {
                None
            }
        },
        _ => None,
    }
}

/// The name of the completed definition of a predicate.
fn definition_name(p: &Predicate) -> (r: String)
    ensures
        r@ == "completed_definition_of_"@ + p@.symbol + "_"@ + decimal(p@.arity as nat),
{
    let mut s = concat("completed_definition_of_", p.symbol.as_str());
    s.append("_");
    push_decimal(&mut s, p.arity as u128);
    s
}

/// The formulas of a completed theory as a specification, by `controlled`.
fn control_translate(theory: Theory, public: &Vec<Predicate>) -> (r: Vec<AnnotatedFormula>)
    ensures
        views(r@) == controlled(theory@.formulas, views(public@), 0),
{
    let ghost all = theory@.formulas;
    let ghost pv = views(public@);
    let mut rest = theory.formulas;
    let n = rest.len();
    let mut r: Vec<AnnotatedFormula> = Vec::new();
    let mut k: usize = 0;
    let mut i: usize = 0;
    assert(all.skip(0) =~= all);
    assert(views(r@) + controlled(all, pv, 0) =~= controlled(all, pv, 0));
    while i < n
        invariant
            i <= n,
            k <= i,
            n == all.len(),
            pv == views(public@),
            rest.len() == n - i,
            forall|j: int| 0 <= j < rest.len() ==> #[trigger] rest@[j]@ == all[j + i],
            views(r@) + controlled(all.skip(i as int), pv, k as nat) == controlled(all, pv, 0),
        decreases n - i,
    {
        let f = rest.remove(0);
        let ghost tail = all.skip(i as int);
        assert(tail[0] == f@);
        assert(tail.drop_first() =~= all.skip(i as int + 1));
        let ghost before = views(r@);
        match head_predicate(&f) {
            Some(p) => {
                let role = if contains(public, &p) { Role::Spec } else { Role::Assumption };
                let name = definition_name(&p);
                let a = AnnotatedFormula { role, direction: Direction::Universal, name, formula: f };
                r.push(a);
                assert(views(r@) =~= before.push(a@));
                assert(before.push(a@) + controlled(all.skip(i as int + 1), pv, k as nat)
                    =~= before + controlled(tail, pv, k as nat));
            },
            None => {
                let name = numbered("constraint_", k);
                let a = AnnotatedFormula { role: Role::Spec, direction: Direction::Universal, name, formula: f };
                r.push(a);
                assert(views(r@) =~= before.push(a@));
                assert(before.push(a@) + controlled(all.skip(i as int + 1), pv, (k + 1) as nat)
                    =~= before + controlled(tail, pv, k as nat));
                k += 1;
            },
        }
        i += 1;
    }
    assert(all.skip(n as int) =~= Seq::<FormulaModel>::empty());
    assert(views(r@) =~= views(r@) + controlled(all.skip(n as int), pv, k as nat));
    r
}

/// The completed translation of a program as a specification, by
/// `program_side`; nothing where the program cannot be translated and completed.
fn translate_program(p: asp::Program, placeholders: &Vec<FunctionConstant>, public: &Vec<Predicate>) -> (r: Option<Vec<AnnotatedFormula>>)
    ensures
        (r is Some) == translatable(p@, views(placeholders@)),
        r matches Some(v) ==> views(v@) == program_side(p@, views(placeholders@), views(public@)),
{
    if !crate::translating::tau_star::global_variables_fit(&p) {
        return None;
    }
    let ghost pv = p@;
    let t = tau_star(p).replace_placeholders(placeholders);
    assert(t@.formulas =~= placed_translation(pv, views(placeholders@)).formulas);
    assert(t@ == placed_translation(pv, views(placeholders@)));
    match completion(t) {
        Some(c) => Some(control_translate(c, public)),
        None => None,
    }
}

/// Whether every formula is an assumption or a specification.
fn roles_fit(fs: &Vec<AnnotatedFormula>) -> (r: bool)
    ensures
        r == assumptions_and_specs(views(fs@)),
{
    let mut i: usize = 0;
    while i < fs.len()
        invariant
            i <= fs.len(),
            forall|j: int| 0 <= j < i ==> (#[trigger] views(fs@)[j].role == Role::Assumption || views(fs@)[j].role == Role::Spec),
        decreases fs.len() - i,
    {
        if !matches!(fs[i].role, Role::Assumption | Role::Spec) {
            assert(views(fs@)[i as int].role == fs@[i as int].role);
            return false;
        }
        i += 1;
    }
    true
}

/// A result whose assumptions and warnings follow those given.
spec fn prefixed(
    a: Seq<AnnotatedFormulaModel>,
    w: Seq<ExternalEquivalenceTaskWarningModel>,
    r: Result<(Seq<AnnotatedFormulaModel>, Seq<ExternalEquivalenceTaskWarningModel>), ExternalEquivalenceTaskErrorModel>,
) -> Result<(Seq<AnnotatedFormulaModel>, Seq<ExternalEquivalenceTaskWarningModel>), ExternalEquivalenceTaskErrorModel> {
    match r {
        Ok((a2, w2)) => Ok((a + a2, w + w2)),
        Err(e) => Err(e),
    }
}

/// The assumptions of a user guide with their placeholders replaced, by `guide_assumptions`.
fn user_guide_assumptions(fs: Vec<AnnotatedFormula>, output: &Vec<Predicate>, placeholders: &Vec<FunctionConstant>)
    -> (r: Result<(Vec<AnnotatedFormula>, Vec<ExternalEquivalenceTaskWarning>), ExternalEquivalenceTaskError>)
    ensures
        match guide_assumptions(views(fs@), views(output@), views(placeholders@)) {
            Ok((a, w)) => r matches Ok((x, y)) && views(x@) == a && views(y@) == w,
            Err(e) => r matches Err(x) && x@ == e,
        },
{
    let ghost all = views(fs@);
    let ghost ov = views(output@);
    let ghost pv = views(placeholders@);
    let mut rest = fs;
    let n = rest.len();
    let mut assumptions: Vec<AnnotatedFormula> = Vec::new();
    let mut warnings: Vec<ExternalEquivalenceTaskWarning> = Vec::new();
    let mut i: usize = 0;
    assert(all.skip(0) =~= all);
    proof {
        match guide_assumptions(all, ov, pv) {
            Ok((a, w)) => {
                assert(views(assumptions@) + a =~= a);
                assert(views(warnings@) + w =~= w);
            },
            Err(_) => {},
        }
    }
    while i < n
        invariant
            i <= n,
            n == all.len(),
            all == views(fs@),
            ov == views(output@),
            pv == views(placeholders@),
            rest.len() == n - i,
            forall|j: int| 0 <= j < rest.len() ==> #[trigger] rest@[j]@ == all[j + i],
            prefixed(views(assumptions@), views(warnings@), guide_assumptions(all.skip(i as int), ov, pv))
                == guide_assumptions(all, ov, pv),
        decreases n - i,
    {
        let f = rest.remove(0);
        let ghost tail = all.skip(i as int);
        let ghost next = all.skip(i as int + 1);
        assert(tail[0] == f@);
        assert(tail.drop_first() =~= next);
        let ghost before_a = views(assumptions@);
        let ghost before_w = views(warnings@);
        if matches!(f.role, Role::Assumption) {
            let overlap = intersection(&f.formula.predicates(), output);
            if overlap.len() > 0 {
                assert(assumption_overlap(tail[0], ov) == views(overlap@));
                assert(guide_assumptions(tail, ov, pv)
                    == Err::<(Seq<AnnotatedFormulaModel>, Seq<ExternalEquivalenceTaskWarningModel>), ExternalEquivalenceTaskErrorModel>(
                        ExternalEquivalenceTaskErrorModel::OutputPredicateInUserGuideAssumption(views(overlap@))));
                return Err(ExternalEquivalenceTaskError::OutputPredicateInUserGuideAssumption(overlap));
            }
            let g = f.replace_placeholders(placeholders);
            assumptions.push(g);
            assert(views(assumptions@) =~= before_a.push(g@));
            proof {
                match guide_assumptions(next, ov, pv) {
                    Ok((a, w)) => {
                        assert(before_a.push(g@) + a =~= before_a + (seq![g@] + a));
                    },
                    Err(_) => {},
                }
            }
        } else {
            let ghost fv = f@;
            let w = ExternalEquivalenceTaskWarning::InvalidRoleWithinUserGuide(f);
            warnings.push(w);
            assert(views(warnings@) =~= before_w.push(w@));
            proof {
                match guide_assumptions(next, ov, pv) {
                    Ok((a, ws)) => {
                        assert(before_w.push(w@) + ws =~= before_w + (seq![w@] + ws));
                    },
                    Err(_) => {},
                }
            }
        }
        i += 1;
    }
    assert(all.skip(n as int) =~= Seq::<AnnotatedFormulaModel>::empty());
    assert(views(assumptions@) + Seq::<AnnotatedFormulaModel>::empty() =~= views(assumptions@));
    assert(views(warnings@) + Seq::<ExternalEquivalenceTaskWarningModel>::empty() =~= views(warnings@));
    Ok((assumptions, warnings))
}

/// The renaming of each of the predicates to `p`.
fn private_renaming(shared: &Vec<Predicate>) -> (r: Vec<(Predicate, String)>)
    ensures
        views(r@) == views(shared@).map_values(|p: PredicateModel| (p, "p"@)),
{
    let ghost target = views(shared@).map_values(|p: PredicateModel| (p, "p"@));
    let mut r: Vec<(Predicate, String)> = Vec::new();
    let mut i: usize = 0;
    while i < shared.len()
        invariant
            i <= shared.len(),
            target == views(shared@).map_values(|p: PredicateModel| (p, "p"@)),
            views(r@) =~= target.take(i as int),
        decreases shared.len() - i,
    {
        let e = (shared[i].clone(), String::from_str("p"));
        let ghost before = views(r@);
        r.push(e);
        assert(views(r@) =~= before.push(target[i as int]));
        assert(target.take(i as int + 1) =~= target.take(i as int).push(target[i as int]));
        i += 1;
    }
    assert(target.take(shared.len() as int) =~= target);
    r
}

/// The warnings of a proof outline as warnings of the task.
fn outline_warnings(ws: Vec<ProofOutlineWarning>) -> (r: Vec<ExternalEquivalenceTaskWarning>)
    ensures
        views(r@) == views(ws@).map_values(|w: ProofOutlineWarningModel| ExternalEquivalenceTaskWarningModel::DefinitionWithWarning(w)),
{
    let ghost target = views(ws@).map_values(|w: ProofOutlineWarningModel| ExternalEquivalenceTaskWarningModel::DefinitionWithWarning(w));
    let mut rest = ws;
    let n = rest.len();
    let mut r: Vec<ExternalEquivalenceTaskWarning> = Vec::new();
    let mut i: usize = 0;
    while i < n
        invariant
            i <= n,
            n == target.len(),
            rest.len() == n - i,
            forall|j: int| 0 <= j < rest.len() ==> ExternalEquivalenceTaskWarningModel::DefinitionWithWarning(#[trigger] rest@[j]@) == target[j + i],
            views(r@) =~= target.take(i as int),
        decreases n - i,
    {
        let w = rest.remove(0);
        let e = ExternalEquivalenceTaskWarning::DefinitionWithWarning(w);
        let ghost before = views(r@);
        r.push(e);
        assert(views(r@) =~= before.push(target[i as int]));
        assert(target.take(i as int + 1) =~= target.take(i as int).push(target[i as int]));
        i += 1;
    }
    assert(target.take(n as int) =~= target);
    r
}

/// The tightness check of a program, by `tightness_check`.
fn tightness(program: &asp::Program, bypass_tightness: bool) -> (r: Result<Vec<ExternalEquivalenceTaskWarning>, ExternalEquivalenceTaskError>)
    ensures
        match tightness_check(program@, bypass_tightness) {
            Ok(w) => r matches Ok(x) && views(x@) == w,
            Err(e) => r matches Err(x) && x@ == e,
        },
{
    match ensure_program_tightness(program, bypass_tightness) {
        Ok(w) => {
            assert(tight(program@) ==> views(w.warnings@) =~= Seq::<ExternalEquivalenceTaskWarningModel>::empty());
            Ok(w.warnings)
        },
        Err(e) => Err(e),
    }
}

/// The predicates of what the program is held against that are not public.
fn specification_private_of(specification: &TaskSpecification, public: &Vec<Predicate>) -> (r: Vec<Predicate>)
    ensures
        views(r@) == set_difference(
            match specification@ {
                TaskSpecificationModel::Program(p) => first_order_predicates(p.predicates()),
                TaskSpecificationModel::Specification(s) => formulas_predicates(s.formulas),
            },
            views(public@),
        ),
{
    match specification {
        TaskSpecification::Program(p) => difference(&first_order(p.predicates()), public),
        TaskSpecification::Specification(s) => {
            let mut all: Vec<Predicate> = Vec::new();
            assert(views(all@) =~= Seq::<PredicateModel>::empty());
            add_predicates(&mut all, &s.formulas);
            assert(views(all@) == formulas_predicates(s@.formulas));
            difference(&all, public)
        },
    }
}

impl ExternalEquivalenceTask {
    /// The warnings of the checks on the inputs, or the first error among them, by `checks`.
    pub fn check(&self) -> (r: Result<Vec<ExternalEquivalenceTaskWarning>, ExternalEquivalenceTaskError>)
        ensures
            match checks(self@) {
                Ok(w) => r matches Ok(x) && views(x@) == w,
                Err(e) => r matches Err(x) && x@ == e,
            },
    {
        let public = public_of(&self.user_guide);
        let specification_private = specification_private_of(&self.specification, &public);
        let program_private = difference(&first_order(self.program.predicates()), &public);
        if let Err(e) = ensure_input_and_output_predicates_are_disjoint(&self.user_guide) {
            return Err(e);
        }
        let mut warnings = match tightness(&self.program, self.bypass_tightness) {
            Ok(w) => w,
            Err(e) => return Err(e),
        };
        if let Err(e) = ensure_absence_of_private_recursion(&self.program, &program_private) {
            return Err(e);
        }
        if let Err(e) = ensure_rule_heads_do_not_contain_input_predicates(&self.user_guide, &self.program) {
            return Err(e);
        }
        if let Err(e) = ensure_placeholder_name_uniqueness(&self.user_guide) {
            return Err(e);
        }
        match &self.specification {
            TaskSpecification::Program(sp) => {
                let mut more = match tightness(sp, self.bypass_tightness) {
                    Ok(w) => w,
                    Err(e) => return Err(e),
                };
                if let Err(e) = ensure_absence_of_private_recursion(sp, &specification_private) {
                    return Err(e);
                }
                if let Err(e) = ensure_rule_heads_do_not_contain_input_predicates(&self.user_guide, sp) {
                    return Err(e);
                }
                let ghost w1 = views(warnings@);
                let ghost w2 = views(more@);
                warnings.append(&mut more);
                assert(views(warnings@) =~= w1 + w2);
            },
            TaskSpecification::Specification(s) => {
                if let Err(e) = ensure_specification_assumptions_do_not_contain_output_predicates(&self.user_guide, s) {
                    return Err(e);
                }
            },
        }
        Ok(warnings)
    }
}

impl ExternalEquivalenceTask {
    /// The problems of the task with all warnings, or the first error: the
    /// checks, the translation of both sides, the assumptions of the user
    /// guide and the proof outline, then the assembled task decomposed.
    /// Nothing where the task cannot be decomposed (see `external_decomposable`):
    /// a program that cannot be translated and completed, a side with a formula
    /// that is neither an assumption nor a specification, or more problems than
    /// their numbers can count.
    ///
    /// A symbol that has the name of a propositional predicate is left as it
    /// is: the problems are not rewritten to tell the two apart, since no
    /// renaming of such symbols is defined in this library.
    pub fn checked_decompose(self)
        -> (r: Option<Result<WithWarnings<Vec<problem::Problem>, ExternalEquivalenceTaskWarning>, ExternalEquivalenceTaskError>>)
        ensures
            (r is Some) == external_decomposable(self@),
            r matches Some(x) ==> match external_outcome(self@) {
                Ok((ps, ws)) => x matches Ok(w) && views(w.data@) == ps && views(w.warnings@) == ws,
                Err(e) => x matches Err(y) && y@ == e,
            },
    {
        let ghost t = self@;
        let mut warnings = match self.check() {
            Ok(w) => w,
            Err(e) => return Some(Err(e)),
        };
        let placeholders = self.user_guide.placeholders();
        let public = public_of(&self.user_guide);
        let specification_private = specification_private_of(&self.specification, &public);
        let program_private = difference(&first_order(self.program.predicates()), &public);
        let shared = intersection(&specification_private, &program_private);
        let mapping = private_renaming(&shared);
        assert(views(mapping@) == shared_private_renaming(t));
        let left = match self.specification {
            TaskSpecification::Program(sp) => match translate_program(sp, &placeholders, &public) {
                Some(v) => v,
                None => return None,
            },
            TaskSpecification::Specification(s) => s.replace_placeholders(&placeholders).formulas,
        };
        assert(views(left@) == left_side(t));
        let right = match translate_program(self.program, &placeholders, &public) {
            Some(v) => v,
            None => return None,
        };
        let right = rename_specification(Specification { formulas: right }, &mapping).formulas;
        assert(views(right@) == right_side(t));
        if !roles_fit(&left) || !roles_fit(&right) {
            return None;
        }
        let (guide, mut guide_warnings) = match user_guide_assumptions(
            self.user_guide.formulas(),
            &self.user_guide.output_predicates(),
            &placeholders,
        ) {
            Ok(x) => x,
            Err(e) => return Some(Err(e)),
        };
        let mut taken = self.user_guide.input_predicates();
        add_predicates(&mut taken, &left);
        add_predicates(&mut taken, &right);
        assert(views(taken@) == taken_predicates(t));
        let outline = match ProofOutline::from_specification(self.proof_outline, taken, &placeholders) {
            Ok(o) => o,
            Err(e) => return Some(Err(ExternalEquivalenceTaskError::ProofOutlineError(e))),
        };
        let mut more = outline_warnings(outline.warnings);
        let validated = ValidatedExternalEquivalenceTask {
            left,
            right,
            user_guide_assumptions: guide,
            proof_outline: outline.data,
            decomposition: self.decomposition,
            direction: self.direction,
            break_equivalences: self.break_equivalences,
        };
        let assembled = validated.assemble();
        if !assembled.data.decomposable() {
            return None;
        }
        let mut last = assembled.warnings;
        let ghost w1 = views(warnings@);
        let ghost w2 = views(guide_warnings@);
        let ghost w3 = views(more@);
        let ghost w4 = views(last@);
        warnings.append(&mut guide_warnings);
        warnings.append(&mut more);
        warnings.append(&mut last);
        assert(views(warnings@) =~= w1 + w2 + w3 + w4);
        let problems = assembled.data.decompose();
        Some(Ok(WithWarnings { data: problems, warnings }))
    }

    /// The problems of the task with all warnings, or the first error, for a
    /// task that can be decomposed.
    pub fn decompose(self) -> (r: Result<WithWarnings<Vec<problem::Problem>, ExternalEquivalenceTaskWarning>, ExternalEquivalenceTaskError>)
        requires
            external_decomposable(self@),
        ensures
            match external_outcome(self@) {
                Ok((ps, ws)) => r matches Ok(w) && views(w.data@) == ps && views(w.warnings@) == ws,
                Err(e) => r matches Err(x) && x@ == e,
            },
    {
        self.checked_decompose().unwrap()
    }
}

} // verus!
