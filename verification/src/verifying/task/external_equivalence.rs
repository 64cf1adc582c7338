//! External equivalence of a program and a specification under a user guide:
//! the checks that the inputs must pass, and the renaming of private
//! predicates that keeps those of the two sides apart.

use crate::analyzing::graph::cyclic;
use crate::analyzing::private_recursion::{private_choice, private_dependency, PrivateRecursion};
use crate::analyzing::tightness::{tight, Tightness};
use crate::convenience::sets::{contains, intersection, set_intersection, views};
use crate::convenience::text::concat;
use crate::formatting::asp::{format_program, program_text};
use crate::formatting::fol::{format_predicate, predicate_text};
use crate::convenience::with_warnings::WithWarnings;
use crate::syntax_tree::asp;
use crate::syntax_tree::fol::{
    AnnotatedFormula, AnnotatedFormulaModel, Atom, AtomModel, AtomicFormula, AtomicFormulaModel,
    Formula, FormulaModel, Predicate, PredicateModel, Role, Specification, SpecificationModel,
    UserGuide,
};
use crate::command_line::arguments::Decomposition;
use crate::convenience::equivalence_break::annotated_parts;
use crate::syntax_tree::fol::Direction;
use crate::verifying::problem;
use crate::verifying::problem::{decomposable, decomposition, entered};
use crate::verifying::outline::{GeneralLemma, GeneralLemmaModel};
use crate::verifying::task::intuitionistic::{named_problem, word_name};
use crate::convenience::sets::duplicate_all;
use crate::convenience::text::{decimal, numbered};
use crate::verifying::outline::{problem_formula, ProofOutline, ProofOutlineError, ProofOutlineErrorModel, ProofOutlineWarning, ProofOutlineWarningModel};
use crate::verifying::task::strong_equivalence::first_order_predicate;
pub use crate::verifying::task::external_decomposition::{ExternalEquivalenceTask, TaskSpecification};
use vstd::prelude::*;

verus! {

/// What the check of an external equivalence lets pass but reports.
#[derive(Debug)]
pub enum ExternalEquivalenceTaskWarning {
    NonTightProgram(asp::Program),
    InconsistentDirectionAnnotation(AnnotatedFormula),
    InvalidRoleWithinUserGuide(AnnotatedFormula),
    DefinitionWithWarning(ProofOutlineWarning),
}

pub enum ExternalEquivalenceTaskWarningModel {
    NonTightProgram(asp::ProgramModel),
    InconsistentDirectionAnnotation(AnnotatedFormulaModel),
    InvalidRoleWithinUserGuide(AnnotatedFormulaModel),
    DefinitionWithWarning(ProofOutlineWarningModel),
}

impl View for ExternalEquivalenceTaskWarning {
    type V = ExternalEquivalenceTaskWarningModel;
    open spec fn view(&self) -> ExternalEquivalenceTaskWarningModel {
        match self {
            ExternalEquivalenceTaskWarning::NonTightProgram(p) => ExternalEquivalenceTaskWarningModel::NonTightProgram(p@),
            ExternalEquivalenceTaskWarning::InconsistentDirectionAnnotation(f) =>
                ExternalEquivalenceTaskWarningModel::InconsistentDirectionAnnotation(f@),
            ExternalEquivalenceTaskWarning::InvalidRoleWithinUserGuide(f) =>
                ExternalEquivalenceTaskWarningModel::InvalidRoleWithinUserGuide(f@),
            ExternalEquivalenceTaskWarning::DefinitionWithWarning(w) =>
                ExternalEquivalenceTaskWarningModel::DefinitionWithWarning(w@),
        }
    }
}

/// Why an external equivalence cannot be checked.
#[derive(Debug)]
pub enum ExternalEquivalenceTaskError {
    NonTightProgram(asp::Program),
    ProgramContainsPrivateRecursion(asp::Program),
    InputOutputPredicatesOverlap(Vec<Predicate>),
    InputPredicateInRuleHead(Vec<Predicate>),
    OutputPredicateInUserGuideAssumption(Vec<Predicate>),
    OutputPredicateInSpecificationAssumption(Vec<Predicate>),
    PlaceholdersWithIdenticalNamesDifferentSorts(String),
    ProofOutlineError(ProofOutlineError),
}

pub enum ExternalEquivalenceTaskErrorModel {
    NonTightProgram(asp::ProgramModel),
    ProgramContainsPrivateRecursion(asp::ProgramModel),
    InputOutputPredicatesOverlap(Seq<PredicateModel>),
    InputPredicateInRuleHead(Seq<PredicateModel>),
    OutputPredicateInUserGuideAssumption(Seq<PredicateModel>),
    OutputPredicateInSpecificationAssumption(Seq<PredicateModel>),
    PlaceholdersWithIdenticalNamesDifferentSorts(Seq<char>),
    ProofOutlineError(ProofOutlineErrorModel),
}

impl View for ExternalEquivalenceTaskError {
    type V = ExternalEquivalenceTaskErrorModel;
    open spec fn view(&self) -> ExternalEquivalenceTaskErrorModel {
        match self {
            ExternalEquivalenceTaskError::NonTightProgram(p) => ExternalEquivalenceTaskErrorModel::NonTightProgram(p@),
            ExternalEquivalenceTaskError::ProgramContainsPrivateRecursion(p) =>
                ExternalEquivalenceTaskErrorModel::ProgramContainsPrivateRecursion(p@),
            ExternalEquivalenceTaskError::InputOutputPredicatesOverlap(ps) =>
                ExternalEquivalenceTaskErrorModel::InputOutputPredicatesOverlap(views(ps@)),
            ExternalEquivalenceTaskError::InputPredicateInRuleHead(ps) =>
                ExternalEquivalenceTaskErrorModel::InputPredicateInRuleHead(views(ps@)),
            ExternalEquivalenceTaskError::OutputPredicateInUserGuideAssumption(ps) =>
                ExternalEquivalenceTaskErrorModel::OutputPredicateInUserGuideAssumption(views(ps@)),
            ExternalEquivalenceTaskError::OutputPredicateInSpecificationAssumption(ps) =>
                ExternalEquivalenceTaskErrorModel::OutputPredicateInSpecificationAssumption(views(ps@)),
            ExternalEquivalenceTaskError::PlaceholdersWithIdenticalNamesDifferentSorts(s) =>
                ExternalEquivalenceTaskErrorModel::PlaceholdersWithIdenticalNamesDifferentSorts(s@),
            ExternalEquivalenceTaskError::ProofOutlineError(e) => ExternalEquivalenceTaskErrorModel::ProofOutlineError(e@),
        }
    }
}

/// Whether a check passed without warnings.
pub open spec fn passed(r: Result<WithWarnings<(), ExternalEquivalenceTaskWarning>, ExternalEquivalenceTaskError>) -> bool {
    r matches Ok(w) && w.warnings@.len() == 0
}

/// Whether a check failed with the error `e`.
pub open spec fn failed_with(
    r: Result<WithWarnings<(), ExternalEquivalenceTaskWarning>, ExternalEquivalenceTaskError>,
    e: ExternalEquivalenceTaskErrorModel,
) -> bool {
    r matches Err(x) && x@ == e
}

// ================================================================ tightness and private recursion

/// A program must be tight; with `bypass_tightness` a program that is not
/// tight passes with a warning.
pub fn ensure_program_tightness(program: &asp::Program, bypass_tightness: bool)
    -> (r: Result<WithWarnings<(), ExternalEquivalenceTaskWarning>, ExternalEquivalenceTaskError>)
    ensures
        tight(program@) ==> passed(r),
        !tight(program@) && bypass_tightness ==> (r matches Ok(w)
            && views(w.warnings@) == seq![ExternalEquivalenceTaskWarningModel::NonTightProgram(program@)]),
        !tight(program@) && !bypass_tightness ==> failed_with(r, ExternalEquivalenceTaskErrorModel::NonTightProgram(program@)),
{
    if program.is_tight() {
        Ok(WithWarnings::flawless(()))
    } else if bypass_tightness {
        let r = WithWarnings::flawless(()).add_warning(ExternalEquivalenceTaskWarning::NonTightProgram(program.clone()));
        assert(views(r.warnings@) =~= seq![ExternalEquivalenceTaskWarningModel::NonTightProgram(program@)]);
        Ok(r)
    } else {
        Err(ExternalEquivalenceTaskError::NonTightProgram(program.clone()))
    }
}

/// The predicates of programs with the symbols and arities of predicates of formulas.
pub open spec fn answer_set_predicates(ps: Seq<PredicateModel>) -> Seq<asp::PredicateModel> {
    ps.map_values(|p: PredicateModel| asp::PredicateModel { symbol: p.symbol, arity: p.arity })
}

/// The private predicates of a program must not occur in choice rules or
/// depend on themselves.
pub fn ensure_absence_of_private_recursion(program: &asp::Program, private_predicates: &Vec<Predicate>)
    -> (r: Result<WithWarnings<(), ExternalEquivalenceTaskWarning>, ExternalEquivalenceTaskError>)
    ensures
        ({
            let private = answer_set_predicates(views(private_predicates@));
            if private_choice(program@, private) || cyclic(private_dependency(program@, private)) {
                failed_with(r, ExternalEquivalenceTaskErrorModel::ProgramContainsPrivateRecursion(program@))
            } else {
                passed(r)
            }
        }),
{
    let mut private: Vec<asp::Predicate> = Vec::new();
    let mut i: usize = 0;
    while i < private_predicates.len()
        invariant
            i <= private_predicates.len(),
            views(private@) == answer_set_predicates(views(private_predicates@)).take(i as int),
        decreases private_predicates.len() - i,
    {
        let p = asp::Predicate { symbol: private_predicates[i].symbol.clone(), arity: private_predicates[i].arity };
        let ghost all = answer_set_predicates(views(private_predicates@));
        let ghost before = views(private@);
        assert(p@ == all[i as int]);
        private.push(p);
        assert(views(private@) =~= before.push(all[i as int]));
        assert(all.take(i as int + 1) =~= all.take(i as int).push(all[i as int]));
        i += 1;
    }
    assert(answer_set_predicates(views(private_predicates@)).take(private_predicates.len() as int)
        =~= answer_set_predicates(views(private_predicates@)));
    if program.has_private_recursion(&private) {
        Err(ExternalEquivalenceTaskError::ProgramContainsPrivateRecursion(program.clone()))
    } else {
        Ok(WithWarnings::flawless(()))
    }
}

// ================================================================ input and output predicates

/// No predicate may be declared both an input and an output predicate.
pub fn ensure_input_and_output_predicates_are_disjoint(user_guide: &UserGuide)
    -> (r: Result<WithWarnings<(), ExternalEquivalenceTaskWarning>, ExternalEquivalenceTaskError>)
    ensures
        ({
            let overlap = set_intersection(user_guide@.input_predicates(), user_guide@.output_predicates());
            if overlap.len() == 0 {
                passed(r)
            } else {
                failed_with(r, ExternalEquivalenceTaskErrorModel::InputOutputPredicatesOverlap(overlap))
            }
        }),
{
    let input = user_guide.input_predicates();
    let output = user_guide.output_predicates();
    let overlap = intersection(&input, &output);
    if overlap.len() == 0 {
        Ok(WithWarnings::flawless(()))
    } else {
        Err(ExternalEquivalenceTaskError::InputOutputPredicatesOverlap(overlap))
    }
}

/// The predicates of formulas with the symbols and arities of predicates of programs.
pub open spec fn first_order_predicates(ps: Seq<asp::PredicateModel>) -> Seq<PredicateModel> {
    ps.map_values(|p: asp::PredicateModel| first_order_predicate(p))
}

/// No input predicate may occur in the head of a rule of the program.
pub fn ensure_rule_heads_do_not_contain_input_predicates(user_guide: &UserGuide, program: &asp::Program)
    -> (r: Result<WithWarnings<(), ExternalEquivalenceTaskWarning>, ExternalEquivalenceTaskError>)
    ensures
        ({
            let overlap = set_intersection(
                user_guide@.input_predicates(),
                first_order_predicates(program@.head_predicates()),
            );
            if overlap.len() == 0 {
                passed(r)
            } else {
                failed_with(r, ExternalEquivalenceTaskErrorModel::InputPredicateInRuleHead(overlap))
            }
        }),
{
    let input = user_guide.input_predicates();
    let heads = program.head_predicates();
    let mut converted: Vec<Predicate> = Vec::new();
    let mut i: usize = 0;
    while i < heads.len()
        invariant
            i <= heads.len(),
            views(converted@) == first_order_predicates(views(heads@)).take(i as int),
        decreases heads.len() - i,
    {
        let p = Predicate { symbol: heads[i].symbol.clone(), arity: heads[i].arity };
        let ghost all = first_order_predicates(views(heads@));
        let ghost before = views(converted@);
        assert(p@ == all[i as int]);
        converted.push(p);
        assert(views(converted@) =~= before.push(all[i as int]));
        assert(all.take(i as int + 1) =~= all.take(i as int).push(all[i as int]));
        i += 1;
    }
    assert(first_order_predicates(views(heads@)).take(heads.len() as int) =~= first_order_predicates(views(heads@)));
    let overlap = intersection(&input, &converted);
    if overlap.len() == 0 {
        Ok(WithWarnings::flawless(()))
    } else {
        Err(ExternalEquivalenceTaskError::InputPredicateInRuleHead(overlap))
    }
}

/// The output predicates in an assumption; none in a formula of another role.
pub open spec fn assumption_overlap(f: AnnotatedFormulaModel, output: Seq<PredicateModel>) -> Seq<PredicateModel> {
    if f.role == Role::Assumption { set_intersection(f.formula.predicates(), output) } else { seq![] }
}

/// The output predicates of the first assumption that has any.
pub open spec fn first_assumption_overlap(fs: Seq<AnnotatedFormulaModel>, output: Seq<PredicateModel>) -> Option<Seq<PredicateModel>>
    decreases fs.len(),
{
    if fs.len() == 0 {
        None
    } else if assumption_overlap(fs[0], output).len() > 0 {
        Some(assumption_overlap(fs[0], output))
    } else {
        first_assumption_overlap(fs.drop_first(), output)
    }
}

/// No assumption of a specification may speak of an output predicate; the
/// first that does is reported with those it speaks of.
pub fn ensure_specification_assumptions_do_not_contain_output_predicates(user_guide: &UserGuide, specification: &Specification)
    -> (r: Result<WithWarnings<(), ExternalEquivalenceTaskWarning>, ExternalEquivalenceTaskError>)
    ensures
        match first_assumption_overlap(specification@.formulas, user_guide@.output_predicates()) {
            None => passed(r),
            Some(overlap) => failed_with(r, ExternalEquivalenceTaskErrorModel::OutputPredicateInSpecificationAssumption(overlap)),
        },
{
    let output = user_guide.output_predicates();
    let ghost fs = specification@.formulas;
    let mut i: usize = 0;
    assert(fs.skip(0) =~= fs);
    while i < specification.formulas.len()
        invariant
            i <= specification.formulas.len(),
            fs == specification@.formulas,
            views(output@) == user_guide@.output_predicates(),
            first_assumption_overlap(fs, views(output@)) == first_assumption_overlap(fs.skip(i as int), views(output@)),
        decreases specification.formulas.len() - i,
    {
        let formula = &specification.formulas[i];
        assert(fs.skip(i as int)[0] == formula@);
        assert(fs.skip(i as int).drop_first() =~= fs.skip(i as int + 1));
        if matches!(formula.role, Role::Assumption) {
            let overlap = intersection(&formula.formula.predicates(), &output);
            if overlap.len() > 0 {
                return Err(ExternalEquivalenceTaskError::OutputPredicateInSpecificationAssumption(overlap));
            }
        }
        i += 1;
    }
    assert(fs.skip(i as int).len() == 0);
    Ok(WithWarnings::flawless(()))
}

// ================================================================ placeholders

/// The name of the first placeholder whose name occurs in `seen` or among the
/// placeholders before it.
pub open spec fn first_repeated_name(cs: Seq<crate::syntax_tree::fol::FunctionConstantModel>, seen: Seq<Seq<char>>) -> Option<Seq<char>>
    decreases cs.len(),
{
    if cs.len() == 0 {
        None
    } else if seen.contains(cs[0].name) {
        Some(cs[0].name)
    } else {
        first_repeated_name(cs.drop_first(), seen.push(cs[0].name))
    }
}

/// No two placeholders may have the same name; as placeholders are told apart
/// by name and sort, two of the same name have different sorts.
pub fn ensure_placeholder_name_uniqueness(user_guide: &UserGuide)
    -> (r: Result<WithWarnings<(), ExternalEquivalenceTaskWarning>, ExternalEquivalenceTaskError>)
    ensures
        match first_repeated_name(user_guide@.placeholders(), seq![]) {
            None => passed(r),
            Some(name) => failed_with(r, ExternalEquivalenceTaskErrorModel::PlaceholdersWithIdenticalNamesDifferentSorts(name)),
        },
{
    let placeholders = user_guide.placeholders();
    let ghost cs = views(placeholders@);
    let mut names: Vec<String> = Vec::new();
    let mut i: usize = 0;
    assert(cs.skip(0) =~= cs);
    assert(views(names@) =~= Seq::<Seq<char>>::empty());
    while i < placeholders.len()
        invariant
            i <= placeholders.len(),
            cs == views(placeholders@),
            cs == user_guide@.placeholders(),
            first_repeated_name(cs, seq![]) == first_repeated_name(cs.skip(i as int), views(names@)),
        decreases placeholders.len() - i,
    {
        let name = &placeholders[i].name;
        assert(cs.skip(i as int)[0] == placeholders@[i as int]@);
        assert(cs.skip(i as int).drop_first() =~= cs.skip(i as int + 1));
        if contains(&names, name) {
            return Err(ExternalEquivalenceTaskError::PlaceholdersWithIdenticalNamesDifferentSorts(name.clone()));
        }
        let ghost before = views(names@);
        names.push(name.clone());
        assert(views(names@) =~= before.push(name@));
        i += 1;
    }
    assert(cs.skip(i as int).len() == 0);
    Ok(WithWarnings::flawless(()))
}

// ================================================================ renaming private predicates

/// The extension that `mapping` gives a predicate: the first one listed for it.
pub open spec fn extension_of(mapping: Seq<(PredicateModel, Seq<char>)>, p: PredicateModel) -> Option<Seq<char>>
    decreases mapping.len(),
{
    if mapping.len() == 0 {
        None
    } else if mapping[0].0 == p {
        Some(mapping[0].1)
    } else {
        extension_of(mapping.drop_first(), p)
    }
}

/// The atom with `_` and the extension of its predicate after its symbol.
pub open spec fn renamed_atom(a: AtomModel, mapping: Seq<(PredicateModel, Seq<char>)>) -> AtomModel {
    match extension_of(mapping, a.predicate()) {
        Some(e) => AtomModel { predicate_symbol: a.predicate_symbol + "_"@ + e, terms: a.terms },
        None => a,
    }
}

/// The formula with every atom renamed.
pub open spec fn renamed_formula(f: FormulaModel, mapping: Seq<(PredicateModel, Seq<char>)>) -> FormulaModel
    decreases f,
{
    match f {
        FormulaModel::AtomicFormula(AtomicFormulaModel::Atom(a)) =>
            FormulaModel::AtomicFormula(AtomicFormulaModel::Atom(renamed_atom(a, mapping))),
        FormulaModel::AtomicFormula(_) => f,
        FormulaModel::UnaryFormula { connective, formula } =>
            FormulaModel::UnaryFormula { connective, formula: Box::new(renamed_formula(*formula, mapping)) },
        FormulaModel::BinaryFormula { connective, lhs, rhs } => FormulaModel::BinaryFormula {
            connective,
            lhs: Box::new(renamed_formula(*lhs, mapping)),
            rhs: Box::new(renamed_formula(*rhs, mapping)),
        },
        FormulaModel::QuantifiedFormula { quantification, formula } =>
            FormulaModel::QuantifiedFormula { quantification, formula: Box::new(renamed_formula(*formula, mapping)) },
    }
}

pub open spec fn renamed_annotated(a: AnnotatedFormulaModel, mapping: Seq<(PredicateModel, Seq<char>)>) -> AnnotatedFormulaModel {
    AnnotatedFormulaModel { formula: renamed_formula(a.formula, mapping), ..a }
}

fn extension(mapping: &Vec<(Predicate, String)>, p: &Predicate) -> (r: Option<String>)
    ensures
        r matches Some(e) ==> extension_of(views(mapping@), p@) == Some(e@),
        r is None ==> extension_of(views(mapping@), p@) is None,
{
    let ghost m = views(mapping@);
    let mut i: usize = 0;
    assert(m.skip(0) =~= m);
    while i < mapping.len()
        invariant
            i <= mapping.len(),
            m == views(mapping@),
            extension_of(m, p@) == extension_of(m.skip(i as int), p@),
        decreases mapping.len() - i,
    {
        assert(m.skip(i as int)[0] == mapping@[i as int]@);
        assert(m.skip(i as int).drop_first() =~= m.skip(i as int + 1));
        if mapping[i].0.symbol == p.symbol && mapping[i].0.arity == p.arity {
            return Some(mapping[i].1.clone());
        }
        i += 1;
    }
    None
}

/// Renames the predicate of an atom by its extension.
pub fn rename_atom(a: Atom, mapping: &Vec<(Predicate, String)>) -> (r: Atom)
    ensures
        r@ == renamed_atom(a@, views(mapping@)),
{
    match extension(mapping, &a.predicate()) {
        Some(e) => {
            let with_separator = concat(a.predicate_symbol.as_str(), "_");
            let symbol = concat(with_separator.as_str(), e.as_str());
            Atom { predicate_symbol: symbol, terms: a.terms }
        },
        None => a,
    }
}

/// Renames the predicates of the atoms of a formula by their extensions.
pub fn rename_formula(f: Formula, mapping: &Vec<(Predicate, String)>) -> (r: Formula)
    ensures
        r@ == renamed_formula(f@, views(mapping@)),
    decreases f,
{
    match f {
        Formula::AtomicFormula(AtomicFormula::Atom(a)) => Formula::AtomicFormula(AtomicFormula::Atom(rename_atom(a, mapping))),
        Formula::AtomicFormula(a) => Formula::AtomicFormula(a),
        Formula::UnaryFormula { connective, formula } =>
            Formula::UnaryFormula { connective, formula: Box::new(rename_formula(*formula, mapping)) },
        Formula::BinaryFormula { connective, lhs, rhs } => Formula::BinaryFormula {
            connective,
            lhs: Box::new(rename_formula(*lhs, mapping)),
            rhs: Box::new(rename_formula(*rhs, mapping)),
        },
        Formula::QuantifiedFormula { quantification, formula } =>
            Formula::QuantifiedFormula { quantification, formula: Box::new(rename_formula(*formula, mapping)) },
    }
}

/// Renames the predicates of the atoms of every formula of a specification.
pub fn rename_specification(s: Specification, mapping: &Vec<(Predicate, String)>) -> (r: Specification)
    ensures
        r@ == (SpecificationModel {
            formulas: s@.formulas.map_values(|a: AnnotatedFormulaModel| renamed_annotated(a, views(mapping@))),
        }),
{
    let ghost all = s@.formulas;
    let ghost target = all.map_values(|a: AnnotatedFormulaModel| renamed_annotated(a, views(mapping@)));
    let mut formulas: Vec<AnnotatedFormula> = Vec::new();
    let mut i: usize = 0;
    while i < s.formulas.len()
        invariant
            i <= s.formulas.len(),
            all == s@.formulas,
            target == all.map_values(|a: AnnotatedFormulaModel| renamed_annotated(a, views(mapping@))),
            views(formulas@) == target.take(i as int),
        decreases s.formulas.len() - i,
    {
        let a = s.formulas[i].clone();
        assert(a@ == all[i as int]);
        let renamed = AnnotatedFormula {
            role: a.role,
            direction: a.direction,
            name: a.name,
            formula: rename_formula(a.formula, mapping),
        };
        let ghost before = views(formulas@);
        assert(renamed@ == target[i as int]);
        formulas.push(renamed);
        assert(views(formulas@) =~= before.push(target[i as int]));
        assert(target.take(i as int + 1) =~= target.take(i as int).push(target[i as int]));
        i += 1;
    }
    assert(target.take(s.formulas.len() as int) =~= target);
    Specification { formulas }
}

// ================================================================ assembly

/// A checked external equivalence task: the completed definitions and
/// constraints of both sides, the assumptions of the user guide and the proof outline.
pub struct ValidatedExternalEquivalenceTask {
    pub left: Vec<AnnotatedFormula>,
    pub right: Vec<AnnotatedFormula>,
    pub user_guide_assumptions: Vec<AnnotatedFormula>,
    pub proof_outline: ProofOutline,
    pub decomposition: Decomposition,
    pub direction: Direction,
    pub break_equivalences: bool,
}

/// The formulas of an external equivalence task sorted into the premises and
/// conclusions of the forward and the backward direction.
pub struct AssembledExternalEquivalenceTask {
    pub stable_premises: Vec<problem::AnnotatedFormula>,
    pub forward_premises: Vec<problem::AnnotatedFormula>,
    pub forward_conclusions: Vec<problem::AnnotatedFormula>,
    pub backward_premises: Vec<problem::AnnotatedFormula>,
    pub backward_conclusions: Vec<problem::AnnotatedFormula>,
    pub proof_outline: ProofOutline,
    pub decomposition: Decomposition,
    pub direction: Direction,
}

/// The premises and conclusions collected so far, with the warnings.
pub struct PartsModel {
    pub stable_premises: Seq<problem::AnnotatedFormulaModel>,
    pub forward_premises: Seq<problem::AnnotatedFormulaModel>,
    pub forward_conclusions: Seq<problem::AnnotatedFormulaModel>,
    pub backward_premises: Seq<problem::AnnotatedFormulaModel>,
    pub backward_conclusions: Seq<problem::AnnotatedFormulaModel>,
    pub warnings: Seq<ExternalEquivalenceTaskWarningModel>,
}

/// Whether a formula holds in the forward direction.
pub open spec fn goes_forward(d: Direction) -> bool {
    d == Direction::Universal || d == Direction::Forward
}

/// Whether a formula holds in the backward direction.
pub open spec fn goes_backward(d: Direction) -> bool {
    d == Direction::Universal || d == Direction::Backward
}

pub open spec fn as_premise(f: AnnotatedFormulaModel) -> problem::AnnotatedFormulaModel {
    problem_formula(f.name, f.formula, problem::Role::Axiom)
}

/// The conjectures that a formula of a specification gives: its two
/// implications where equivalences are broken and it is one, else itself.
pub open spec fn as_conclusions(f: AnnotatedFormulaModel, break_equivalences: bool) -> Seq<problem::AnnotatedFormulaModel> {
    if break_equivalences {
        annotated_parts(f).map_values(|g: AnnotatedFormulaModel| problem_formula(g.name, g.formula, problem::Role::Conjecture))
    } else {
        seq![problem_formula(f.name, f.formula, problem::Role::Conjecture)]
    }
}

/// Whether each formula is an assumption or a specification.
pub open spec fn assumptions_and_specs(fs: Seq<AnnotatedFormulaModel>) -> bool {
    forall|i: int| 0 <= i < fs.len() ==> (#[trigger] fs[i].role == Role::Assumption || fs[i].role == Role::Spec)
}

/// Sorting in one formula of the left side: an assumption is a premise of its
/// direction, where a backward one is inconsistent; a specification is a
/// forward premise and a backward conclusion.
pub open spec fn left_step(p: PartsModel, f: AnnotatedFormulaModel, break_equivalences: bool) -> PartsModel {
    if f.role == Role::Assumption {
        if f.direction == Direction::Universal {
            PartsModel { stable_premises: p.stable_premises.push(as_premise(f)), ..p }
        } else if f.direction == Direction::Forward {
            PartsModel { forward_premises: p.forward_premises.push(as_premise(f)), ..p }
        } else {
            PartsModel { warnings: p.warnings.push(ExternalEquivalenceTaskWarningModel::InconsistentDirectionAnnotation(f)), ..p }
        }
    } else {
        PartsModel {
            forward_premises: if goes_forward(f.direction) { p.forward_premises.push(as_premise(f)) } else { p.forward_premises },
            backward_conclusions: if goes_backward(f.direction) {
                p.backward_conclusions + as_conclusions(f, break_equivalences)
            } else {
                p.backward_conclusions
            },
            ..p
        }
    }
}

/// Sorting in one formula of the right side, the mirror image of the left.
pub open spec fn right_step(p: PartsModel, f: AnnotatedFormulaModel, break_equivalences: bool) -> PartsModel {
    if f.role == Role::Assumption {
        if f.direction == Direction::Universal {
            PartsModel { stable_premises: p.stable_premises.push(as_premise(f)), ..p }
        } else if f.direction == Direction::Forward {
            PartsModel { warnings: p.warnings.push(ExternalEquivalenceTaskWarningModel::InconsistentDirectionAnnotation(f)), ..p }
        } else {
            PartsModel { backward_premises: p.backward_premises.push(as_premise(f)), ..p }
        }
    } else {
        PartsModel {
            backward_premises: if goes_backward(f.direction) { p.backward_premises.push(as_premise(f)) } else { p.backward_premises },
            forward_conclusions: if goes_forward(f.direction) {
                p.forward_conclusions + as_conclusions(f, break_equivalences)
            } else {
                p.forward_conclusions
            },
            ..p
        }
    }
}

pub open spec fn left_parts(p: PartsModel, fs: Seq<AnnotatedFormulaModel>, break_equivalences: bool) -> PartsModel
    decreases fs.len(),
{
    if fs.len() == 0 {
        p
    } else {
        left_step(left_parts(p, fs.drop_last(), break_equivalences), fs.last(), break_equivalences)
    }
}

pub open spec fn right_parts(p: PartsModel, fs: Seq<AnnotatedFormulaModel>, break_equivalences: bool) -> PartsModel
    decreases fs.len(),
{
    if fs.len() == 0 {
        p
    } else {
        right_step(right_parts(p, fs.drop_last(), break_equivalences), fs.last(), break_equivalences)
    }
}

/// What the assembly of a task gives: the assumptions of the user guide are
/// premises of both directions, then the left side and the right side are sorted in.
pub open spec fn assembled(
    user_guide_assumptions: Seq<AnnotatedFormulaModel>,
    left: Seq<AnnotatedFormulaModel>,
    right: Seq<AnnotatedFormulaModel>,
    break_equivalences: bool,
) -> PartsModel {
    let start = PartsModel {
        stable_premises: user_guide_assumptions.map_values(|f: AnnotatedFormulaModel| as_premise(f)),
        forward_premises: seq![],
        forward_conclusions: seq![],
        backward_premises: seq![],
        backward_conclusions: seq![],
        warnings: seq![],
    };
    right_parts(left_parts(start, left, break_equivalences), right, break_equivalences)
}

/// The collected parts of an assembled task with its warnings.
pub open spec fn parts_of(a: AssembledExternalEquivalenceTask, warnings: Seq<ExternalEquivalenceTaskWarning>) -> PartsModel {
    PartsModel {
        stable_premises: views(a.stable_premises@),
        forward_premises: views(a.forward_premises@),
        forward_conclusions: views(a.forward_conclusions@),
        backward_premises: views(a.backward_premises@),
        backward_conclusions: views(a.backward_conclusions@),
        warnings: views(warnings),
    }
}

/// Appends the conjectures that a formula of a specification gives.
fn push_conclusions(target: &mut Vec<problem::AnnotatedFormula>, f: AnnotatedFormula, break_equivalences: bool)
    ensures
        views(final(target)@) == views(old(target)@) + as_conclusions(f@, break_equivalences),
{
    let ghost before = views(target@);
    if break_equivalences {
        let parts = f.break_equivalences();
        let ghost ps = views(parts@);
        let mut i: usize = 0;
        while i < parts.len()
            invariant
                i <= parts.len(),
                ps == views(parts@),
                ps == annotated_parts(f@),
                views(target@) =~= before + ps.take(i as int).map_values(
                    |g: AnnotatedFormulaModel| problem_formula(g.name, g.formula, problem::Role::Conjecture),
                ),
            decreases parts.len() - i,
        {
            let g = parts[i].clone().into_problem_formula(problem::Role::Conjecture);
            let ghost mid = views(target@);
            target.push(g);
            assert(views(target@) =~= mid.push(g@));
            assert(ps.take(i as int + 1) =~= ps.take(i as int).push(ps[i as int]));
            i += 1;
        }
        assert(ps.take(parts.len() as int) =~= ps);
    } else {
        let g = f.into_problem_formula(problem::Role::Conjecture);
        target.push(g);
        assert(views(target@) =~= before + seq![g@]);
    }
}

impl ValidatedExternalEquivalenceTask {
    /// Sorts the formulas of both sides into premises and conclusions of
    /// each direction, warning of assumptions whose direction cannot hold.
    pub fn assemble(self) -> (r: WithWarnings<AssembledExternalEquivalenceTask, ExternalEquivalenceTaskWarning>)
        requires
            assumptions_and_specs(views(self.left@)),
            assumptions_and_specs(views(self.right@)),
        ensures
            parts_of(r.data, r.warnings@) == assembled(
                views(self.user_guide_assumptions@),
                views(self.left@),
                views(self.right@),
                self.break_equivalences,
            ),
            r.data.decomposition == self.decomposition,
            r.data.direction == self.direction,
            r.data.proof_outline == self.proof_outline,
    {
        let brk = self.break_equivalences;
        let ghost guide = views(self.user_guide_assumptions@);
        let ghost left = views(self.left@);
        let ghost right = views(self.right@);
        let mut stable_premises: Vec<problem::AnnotatedFormula> = Vec::new();
        let mut i: usize = 0;
        while i < self.user_guide_assumptions.len()
            invariant
                i <= self.user_guide_assumptions.len(),
                guide == views(self.user_guide_assumptions@),
                views(stable_premises@) =~= guide.take(i as int).map_values(|f: AnnotatedFormulaModel| as_premise(f)),
            decreases self.user_guide_assumptions.len() - i,
        {
            let g = self.user_guide_assumptions[i].clone().into_problem_formula(problem::Role::Axiom);
            let ghost before = views(stable_premises@);
            stable_premises.push(g);
            assert(views(stable_premises@) =~= before.push(g@));
            assert(guide.take(i as int + 1) =~= guide.take(i as int).push(guide[i as int]));
            i += 1;
        }
        assert(guide.take(guide.len() as int) =~= guide);
        let mut forward_premises: Vec<problem::AnnotatedFormula> = Vec::new();
        let mut forward_conclusions: Vec<problem::AnnotatedFormula> = Vec::new();
        let mut backward_premises: Vec<problem::AnnotatedFormula> = Vec::new();
        let mut backward_conclusions: Vec<problem::AnnotatedFormula> = Vec::new();
        let mut warnings: Vec<ExternalEquivalenceTaskWarning> = Vec::new();
        let ghost start = PartsModel {
            stable_premises: views(stable_premises@),
            forward_premises: seq![],
            forward_conclusions: seq![],
            backward_premises: seq![],
            backward_conclusions: seq![],
            warnings: seq![],
        };
        assert(views(forward_premises@) =~= Seq::<problem::AnnotatedFormulaModel>::empty());
        assert(views(forward_conclusions@) =~= Seq::<problem::AnnotatedFormulaModel>::empty());
        assert(views(backward_premises@) =~= Seq::<problem::AnnotatedFormulaModel>::empty());
        assert(views(backward_conclusions@) =~= Seq::<problem::AnnotatedFormulaModel>::empty());
        assert(views(warnings@) =~= Seq::<ExternalEquivalenceTaskWarningModel>::empty());
        let mut rest = self.left;
        let n = rest.len();
        let mut k: usize = 0;
        while k < n
            invariant
                k <= n,
                n == left.len(),
                rest.len() == n - k,
                forall|j: int| 0 <= j < rest.len() ==> #[trigger] rest@[j]@ == left[j + k],
                assumptions_and_specs(left),
                (PartsModel {
                    stable_premises: views(stable_premises@),
                    forward_premises: views(forward_premises@),
                    forward_conclusions: views(forward_conclusions@),
                    backward_premises: views(backward_premises@),
                    backward_conclusions: views(backward_conclusions@),
                    warnings: views(warnings@),
                }) == left_parts(start, left.take(k as int), brk),
            decreases n - k,
        {
            let f = rest.remove(0);
            assert(f@ == left[k as int]);
            assert(left.take(k as int + 1).drop_last() =~= left.take(k as int));
            let ghost sp = views(stable_premises@);
            let ghost fp = views(forward_premises@);
            let ghost bc = views(backward_conclusions@);
            let ghost ws = views(warnings@);
            match f.role {
                Role::Assumption => match f.direction {
                    Direction::Universal => {
                        let g = f.into_problem_formula(problem::Role::Axiom);
                        stable_premises.push(g);
                        assert(views(stable_premises@) =~= sp.push(g@));
                    },
                    Direction::Forward => {
                        let g = f.into_problem_formula(problem::Role::Axiom);
                        forward_premises.push(g);
                        assert(views(forward_premises@) =~= fp.push(g@));
                    },
                    Direction::Backward => {
                        let w = ExternalEquivalenceTaskWarning::InconsistentDirectionAnnotation(f);
                        warnings.push(w);
                        assert(views(warnings@) =~= ws.push(w@));
                    },
                },
                _ => {
                    let forward = matches!(f.direction, Direction::Universal | Direction::Forward);
                    let backward = matches!(f.direction, Direction::Universal | Direction::Backward);
                    if forward {
                        let g = f.clone().into_problem_formula(problem::Role::Axiom);
                        forward_premises.push(g);
                        assert(views(forward_premises@) =~= fp.push(g@));
                    }
                    if backward {
                        push_conclusions(&mut backward_conclusions, f, brk);
                    }
                },
            }
            k += 1;
        }
        assert(left.take(n as int) =~= left);
        let ghost middle = left_parts(start, left, brk);
        let mut rest = self.right;
        let n = rest.len();
        let mut k: usize = 0;
        while k < n
            invariant
                k <= n,
                n == right.len(),
                rest.len() == n - k,
                forall|j: int| 0 <= j < rest.len() ==> #[trigger] rest@[j]@ == right[j + k],
                assumptions_and_specs(right),
                (PartsModel {
                    stable_premises: views(stable_premises@),
                    forward_premises: views(forward_premises@),
                    forward_conclusions: views(forward_conclusions@),
                    backward_premises: views(backward_premises@),
                    backward_conclusions: views(backward_conclusions@),
                    warnings: views(warnings@),
                }) == right_parts(middle, right.take(k as int), brk),
            decreases n - k,
        {
            let f = rest.remove(0);
            assert(f@ == right[k as int]);
            assert(right.take(k as int + 1).drop_last() =~= right.take(k as int));
            let ghost sp = views(stable_premises@);
            let ghost bp = views(backward_premises@);
            let ghost fc = views(forward_conclusions@);
            let ghost ws = views(warnings@);
            match f.role {
                Role::Assumption => match f.direction {
                    Direction::Universal => {
                        let g = f.into_problem_formula(problem::Role::Axiom);
                        stable_premises.push(g);
                        assert(views(stable_premises@) =~= sp.push(g@));
                    },
                    Direction::Forward => {
                        let w = ExternalEquivalenceTaskWarning::InconsistentDirectionAnnotation(f);
                        warnings.push(w);
                        assert(views(warnings@) =~= ws.push(w@));
                    },
                    Direction::Backward => {
                        let g = f.into_problem_formula(problem::Role::Axiom);
                        backward_premises.push(g);
                        assert(views(backward_premises@) =~= bp.push(g@));
                    },
                },
                _ => {
                    let forward = matches!(f.direction, Direction::Universal | Direction::Forward);
                    let backward = matches!(f.direction, Direction::Universal | Direction::Backward);
                    if backward {
                        let g = f.clone().into_problem_formula(problem::Role::Axiom);
                        backward_premises.push(g);
                        assert(views(backward_premises@) =~= bp.push(g@));
                    }
                    if forward {
                        push_conclusions(&mut forward_conclusions, f, brk);
                    }
                },
            }
            k += 1;
        }
        assert(right.take(n as int) =~= right);
        WithWarnings {
            data: AssembledExternalEquivalenceTask {
                stable_premises,
                forward_premises,
                forward_conclusions,
                backward_premises,
                backward_conclusions,
                proof_outline: self.proof_outline,
                decomposition: self.decomposition,
                direction: self.direction,
            },
            warnings,
        }
    }
}

// ================================================================ the problems of an assembled task

/// The problems that prove the lemmas of a proof outline in order: for the
/// `i`-th lemma, counted from `i`, one problem for each of its conjectures,
/// from the axioms so far; its consequences then join the axioms.
pub open spec fn lemma_problems(
    prefix: Seq<char>,
    axioms: Seq<problem::AnnotatedFormulaModel>,
    lemmas: Seq<GeneralLemmaModel>,
    i: nat,
) -> Seq<problem::ProblemModel>
    decreases lemmas.len(),
{
    if lemmas.len() == 0 {
        seq![]
    } else {
        let g = lemmas[0];
        conjecture_problems(prefix, axioms, g, i) + lemma_problems(prefix, axioms + g.consequences, lemmas.drop_first(), i + 1)
    }
}

/// The problems of the `i`-th lemma: one for each of its conjectures, from the axioms.
pub open spec fn conjecture_problems(
    prefix: Seq<char>,
    axioms: Seq<problem::AnnotatedFormulaModel>,
    g: GeneralLemmaModel,
    i: nat,
) -> Seq<problem::ProblemModel> {
    Seq::new(g.conjectures.len(), |j: int| problem::ProblemModel {
        name: word_name(prefix + decimal(i) + "_"@ + decimal(j as nat)),
        interpretation: problem::Interpretation::Standard,
        formulas: (axioms + seq![g.conjectures[j]]).map_values(|f: problem::AnnotatedFormulaModel| entered(f)),
    })
}

/// The consequences of all the lemmas, in order.
pub open spec fn all_consequences(lemmas: Seq<GeneralLemmaModel>) -> Seq<problem::AnnotatedFormulaModel>
    decreases lemmas.len(),
{
    if lemmas.len() == 0 {
        seq![]
    } else {
        all_consequences(lemmas.drop_last()) + lemmas.last().consequences
    }
}

/// The problem of one direction: the stable premises, the premises of the
/// direction, the consequences of its lemmas, and its conclusions.
pub open spec fn direction_problem(
    word: Seq<char>,
    stable: Seq<problem::AnnotatedFormulaModel>,
    premises: Seq<problem::AnnotatedFormulaModel>,
    lemmas: Seq<GeneralLemmaModel>,
    conclusions: Seq<problem::AnnotatedFormulaModel>,
) -> problem::ProblemModel {
    problem::ProblemModel {
        name: word_name(word),
        interpretation: problem::Interpretation::Standard,
        formulas: (stable + premises + all_consequences(lemmas) + conclusions).map_values(
            |f: problem::AnnotatedFormulaModel| entered(f),
        ),
    }
}

/// The problems of one direction: its definitions join the premises, its
/// lemmas are proved in order, then the direction's own problem is decomposed.
pub open spec fn direction_problems(
    word: Seq<char>,
    outline_prefix: Seq<char>,
    stable: Seq<problem::AnnotatedFormulaModel>,
    premises: Seq<problem::AnnotatedFormulaModel>,
    definitions: Seq<AnnotatedFormulaModel>,
    lemmas: Seq<GeneralLemmaModel>,
    conclusions: Seq<problem::AnnotatedFormulaModel>,
    strategy: Decomposition,
) -> Seq<problem::ProblemModel> {
    lemma_problems(outline_prefix, stable + premises + definitions.map_values(|f: AnnotatedFormulaModel| as_premise(f)), lemmas, 0)
        + decomposition(direction_problem(word, stable, premises, lemmas, conclusions), strategy)
}

/// The model of an assembled task.
pub struct AssembledModel {
    pub stable_premises: Seq<problem::AnnotatedFormulaModel>,
    pub forward_premises: Seq<problem::AnnotatedFormulaModel>,
    pub forward_conclusions: Seq<problem::AnnotatedFormulaModel>,
    pub backward_premises: Seq<problem::AnnotatedFormulaModel>,
    pub backward_conclusions: Seq<problem::AnnotatedFormulaModel>,
    pub forward_lemmas: Seq<GeneralLemmaModel>,
    pub backward_lemmas: Seq<GeneralLemmaModel>,
    pub forward_definitions: Seq<AnnotatedFormulaModel>,
    pub backward_definitions: Seq<AnnotatedFormulaModel>,
    pub decomposition: Decomposition,
    pub direction: Direction,
}

impl View for AssembledExternalEquivalenceTask {
    type V = AssembledModel;
    open spec fn view(&self) -> AssembledModel {
        AssembledModel {
            stable_premises: views(self.stable_premises@),
            forward_premises: views(self.forward_premises@),
            forward_conclusions: views(self.forward_conclusions@),
            backward_premises: views(self.backward_premises@),
            backward_conclusions: views(self.backward_conclusions@),
            forward_lemmas: views(self.proof_outline.forward_lemmas@),
            backward_lemmas: views(self.proof_outline.backward_lemmas@),
            forward_definitions: views(self.proof_outline.forward_definitions@),
            backward_definitions: views(self.proof_outline.backward_definitions@),
            decomposition: self.decomposition,
            direction: self.direction,
        }
    }
}

/// The problems of an assembled task: those of the forward direction where
/// it is universal or forward, then those of the backward direction where it
/// is universal or backward.
pub open spec fn assembled_problems(t: AssembledModel) -> Seq<problem::ProblemModel> {
    (if goes_forward(t.direction) {
        direction_problems("forward_problem"@, "forward_outline_"@, t.stable_premises, t.forward_premises,
            t.forward_definitions, t.forward_lemmas, t.forward_conclusions, t.decomposition)
    } else {
        seq![]
    }) + (if goes_backward(t.direction) {
        direction_problems("backward_problem"@, "backward_outline_"@, t.stable_premises, t.backward_premises,
            t.backward_definitions, t.backward_lemmas, t.backward_conclusions, t.decomposition)
    } else {
        seq![]
    })
}

/// Whether the problem numbers of the decomposition of each direction that is asked for can be formed.
pub open spec fn assembled_decomposable(t: AssembledModel) -> bool {
    &&& (goes_forward(t.direction) ==> decomposable(
        direction_problem("forward_problem"@, t.stable_premises, t.forward_premises, t.forward_lemmas, t.forward_conclusions),
    ))
    &&& (goes_backward(t.direction) ==> decomposable(
        direction_problem("backward_problem"@, t.stable_premises, t.backward_premises, t.backward_lemmas, t.backward_conclusions),
    ))
}

fn append_all(target: &mut Vec<problem::AnnotatedFormula>, fs: &Vec<problem::AnnotatedFormula>)
    ensures
        views(final(target)@) == views(old(target)@) + views(fs@),
{
    let mut copy = duplicate_all(fs);
    let ghost before = views(target@);
    target.append(&mut copy);
    assert(views(target@) =~= before + views(fs@));
}

/// The problems that prove the lemmas in order, and the axioms with all consequences added.
fn prove_lemmas(prefix: &str, axioms: Vec<problem::AnnotatedFormula>, lemmas: &Vec<GeneralLemma>) -> (r: Vec<problem::Problem>)
    requires
        lemmas.len() <= usize::MAX,
    ensures
        views(r@) == lemma_problems(prefix@, views(axioms@), views(lemmas@), 0),
{
    let ghost all = views(lemmas@);
    let mut axioms = axioms;
    let ghost start = views(axioms@);
    let mut problems: Vec<problem::Problem> = Vec::new();
    let mut i: usize = 0;
    assert(all.skip(0) =~= all);
    assert(views(problems@) + lemma_problems(prefix@, start, all, 0) =~= lemma_problems(prefix@, start, all, 0));
    while i < lemmas.len()
        invariant
            i <= lemmas.len(),
            all == views(lemmas@),
            views(problems@) + lemma_problems(prefix@, views(axioms@), all.skip(i as int), i as nat)
                == lemma_problems(prefix@, start, all, 0),
        decreases lemmas.len() - i,
    {
        let lemma = &lemmas[i];
        let ghost g = lemma@;
        let ghost ax = views(axioms@);
        assert(all.skip(i as int)[0] == g);
        assert(all.skip(i as int).drop_first() =~= all.skip(i as int + 1));
        let ghost here = conjecture_problems(prefix@, ax, g, i as nat);
        let ghost before = views(problems@);
        let mut j: usize = 0;
        assert(before + here.take(0) =~= before);
        while j < lemma.conjectures.len()
            invariant
                j <= lemma.conjectures.len(),
                g == lemma@,
                ax == views(axioms@),
                here == conjecture_problems(prefix@, ax, g, i as nat),
                views(problems@) == before + here.take(j as int),
            decreases lemma.conjectures.len() - j,
        {
            let mut name = numbered(prefix, i);
            name.append("_");
            let tail = numbered("", j);
            name.append(tail.as_str());
            proof {
                reveal_strlit("");
                reveal_strlit("_");
                assert(tail@ =~= decimal(j as nat));
                assert(name@ =~= prefix@ + decimal(i as nat) + "_"@ + decimal(j as nat));
            }
            let p = named_problem(name.as_str());
            let mut formulas = duplicate_all(&axioms);
            formulas.push(lemma.conjectures[j].clone());
            let ghost fs = views(formulas@);
            assert(fs =~= ax + seq![g.conjectures[j as int]]);
            let p = p.add_annotated_formulas(formulas);
            let ghost pm = p@;
            let ghost prior = views(problems@);
            problems.push(p);
            assert(views(problems@) =~= prior.push(pm));
            assert(here.take(j as int + 1) =~= here.take(j as int).push(here[j as int]));
            assert(pm.formulas =~= seq![].add(fs.map_values(|f: problem::AnnotatedFormulaModel| entered(f))));
            assert(pm == here[j as int]);
            assert(views(problems@) =~= before + here.take(j as int + 1));
            j += 1;
        }
        assert(here.take(here.len() as int) =~= here);
        append_all(&mut axioms, &lemma.consequences);
        assert(views(problems@) + lemma_problems(prefix@, views(axioms@), all.skip(i as int + 1), (i + 1) as nat)
            =~= before + lemma_problems(prefix@, ax, all.skip(i as int), i as nat));
        i += 1;
    }
    assert(all.skip(i as int) =~= Seq::<GeneralLemmaModel>::empty());
    assert(views(problems@) =~= views(problems@) + Seq::<problem::ProblemModel>::empty());
    problems
}

/// The consequences of all the lemmas, in order.
fn collect_consequences(lemmas: &Vec<GeneralLemma>) -> (r: Vec<problem::AnnotatedFormula>)
    ensures
        views(r@) == all_consequences(views(lemmas@)),
{
    let ghost all = views(lemmas@);
    let mut r: Vec<problem::AnnotatedFormula> = Vec::new();
    let mut i: usize = 0;
    while i < lemmas.len()
        invariant
            i <= lemmas.len(),
            all == views(lemmas@),
            views(r@) == all_consequences(all.take(i as int)),
        decreases lemmas.len() - i,
    {
        append_all(&mut r, &lemmas[i].consequences);
        assert(all.take(i as int + 1).drop_last() =~= all.take(i as int));
        i += 1;
    }
    assert(all.take(lemmas.len() as int) =~= all);
    r
}

/// The premises of one direction as axioms of a problem.
fn definitions_as_premises(fs: &Vec<AnnotatedFormula>) -> (r: Vec<problem::AnnotatedFormula>)
    ensures
        views(r@) == views(fs@).map_values(|f: AnnotatedFormulaModel| as_premise(f)),
{
    let ghost all = views(fs@);
    let mut r: Vec<problem::AnnotatedFormula> = Vec::new();
    let mut i: usize = 0;
    while i < fs.len()
        invariant
            i <= fs.len(),
            all == views(fs@),
            views(r@) =~= all.take(i as int).map_values(|f: AnnotatedFormulaModel| as_premise(f)),
        decreases fs.len() - i,
    {
        let g = fs[i].clone().into_problem_formula(problem::Role::Axiom);
        let ghost before = views(r@);
        r.push(g);
        assert(views(r@) =~= before.push(g@));
        assert(all.take(i as int + 1) =~= all.take(i as int).push(all[i as int]));
        i += 1;
    }
    assert(all.take(fs.len() as int) =~= all);
    r
}

fn direction(
    word: &str,
    outline_prefix: &str,
    stable: &Vec<problem::AnnotatedFormula>,
    premises: &Vec<problem::AnnotatedFormula>,
    definitions: &Vec<AnnotatedFormula>,
    lemmas: &Vec<GeneralLemma>,
    conclusions: &Vec<problem::AnnotatedFormula>,
    strategy: Decomposition,
) -> (r: Vec<problem::Problem>)
    requires
        decomposable(direction_problem(word@, views(stable@), views(premises@), views(lemmas@), views(conclusions@))),
    ensures
        views(r@) == direction_problems(word@, outline_prefix@, views(stable@), views(premises@), views(definitions@),
            views(lemmas@), views(conclusions@), strategy),
{
    let mut axioms = duplicate_all(stable);
    append_all(&mut axioms, premises);
    let defs = definitions_as_premises(definitions);
    append_all(&mut axioms, &defs);
    let mut problems = prove_lemmas(outline_prefix, axioms, lemmas);
    let mut main = duplicate_all(stable);
    append_all(&mut main, premises);
    let consequences = collect_consequences(lemmas);
    append_all(&mut main, &consequences);
    append_all(&mut main, conclusions);
    let ghost mv = views(main@);
    let p = named_problem(word).add_annotated_formulas(main);
    assert(p@.formulas =~= seq![].add(mv.map_values(|f: problem::AnnotatedFormulaModel| entered(f))));
    assert(p@ == direction_problem(word@, views(stable@), views(premises@), views(lemmas@), views(conclusions@)));
    let mut parts = p.decompose(strategy);
    assert(views(parts@) =~= decomposition(p@, strategy));
    let ghost front = views(problems@);
    let ghost back = views(parts@);
    problems.append(&mut parts);
    assert(views(problems@) =~= front + back);
    problems
}

/// A problem named by a word alone can be decomposed exactly when it holds at
/// most as many conjectures as the numbers from 0 to the largest 16-bit
/// integer.
proof fn lemma_word_decomposable(p: problem::ProblemModel, word: Seq<char>)
    requires
        p.name == word_name(word),
    ensures
        decomposable(p) == (problem::with_role(p.formulas, problem::Role::Conjecture).len() <= 32768),
{
    let n = problem::with_role(p.formulas, problem::Role::Conjecture).len();
    assert(problem::name_value(p.name) == 0);
    if n <= 32768 {
        assert forall|i: nat| i < n implies problem::incrementable(p.name, i) by {}
    } else {
        assert(!problem::incrementable(p.name, 32768nat));
    }
}

/// Whether the problem of one direction can be decomposed, by `decomposable`.
fn direction_decomposable(
    word: &str,
    stable: &Vec<problem::AnnotatedFormula>,
    premises: &Vec<problem::AnnotatedFormula>,
    lemmas: &Vec<GeneralLemma>,
    conclusions: &Vec<problem::AnnotatedFormula>,
) -> (r: bool)
    ensures
        r == decomposable(direction_problem(word@, views(stable@), views(premises@), views(lemmas@), views(conclusions@))),
{
    let mut main = duplicate_all(stable);
    append_all(&mut main, premises);
    let consequences = collect_consequences(lemmas);
    append_all(&mut main, &consequences);
    append_all(&mut main, conclusions);
    let ghost mv = views(main@);
    let p = named_problem(word).add_annotated_formulas(main);
    assert(p@.formulas =~= seq![].add(mv.map_values(|f: problem::AnnotatedFormulaModel| entered(f))));
    assert(p@ == direction_problem(word@, views(stable@), views(premises@), views(lemmas@), views(conclusions@)));
    let n = p.conjectures().len();
    proof {
        lemma_word_decomposable(p@, word@);
    }
    n <= 32768
}

impl AssembledExternalEquivalenceTask {
    /// Whether the problem numbers of the decomposition of each direction
    /// that is asked for can be formed, by `assembled_decomposable`.
    pub fn decomposable(&self) -> (r: bool)
        ensures
            r == assembled_decomposable(self@),
    {
        let forward = matches!(self.direction, Direction::Universal | Direction::Forward);
        let backward = matches!(self.direction, Direction::Universal | Direction::Backward);
        (!forward || direction_decomposable(
            "forward_problem",
            &self.stable_premises,
            &self.forward_premises,
            &self.proof_outline.forward_lemmas,
            &self.forward_conclusions,
        )) && (!backward || direction_decomposable(
            "backward_problem",
            &self.stable_premises,
            &self.backward_premises,
            &self.proof_outline.backward_lemmas,
            &self.backward_conclusions,
        ))
    }
}

impl AssembledExternalEquivalenceTask {
    /// The problems of the task: the lemmas of the proof outline proved in
    /// order, then the claim of each direction, decomposed as asked.
    ///
    /// A symbol that has the name of a propositional predicate is left as it
    /// is: the problems are not rewritten to tell the two apart, since no
    /// renaming of such symbols is defined in this library.
    pub fn decompose(self) -> (r: Vec<problem::Problem>)
        requires
            assembled_decomposable(self@),
        ensures
            views(r@) == assembled_problems(self@),
    {
        let ghost t = self@;
        let mut problems: Vec<problem::Problem> = Vec::new();
        if matches!(self.direction, Direction::Universal | Direction::Forward) {
            problems = direction(
                "forward_problem",
                "forward_outline_",
                &self.stable_premises,
                &self.forward_premises,
                &self.proof_outline.forward_definitions,
                &self.proof_outline.forward_lemmas,
                &self.forward_conclusions,
                self.decomposition,
            );
        }
        let ghost front = views(problems@);
        if matches!(self.direction, Direction::Universal | Direction::Backward) {
            let mut back = direction(
                "backward_problem",
                "backward_outline_",
                &self.stable_premises,
                &self.backward_premises,
                &self.proof_outline.backward_definitions,
                &self.proof_outline.backward_lemmas,
                &self.backward_conclusions,
                self.decomposition,
            );
            let ghost b = views(back@);
            problems.append(&mut back);
            assert(views(problems@) =~= front + b);
        }
        assert(views(problems@) =~= assembled_problems(t));
        problems
    }
}

// ================================================================ error messages

/// The predicates as `symbol/arity`, separated by a comma and a space.
pub open spec fn listed_predicates(ps: Seq<PredicateModel>) -> Seq<char>
    decreases ps.len(),
{
    if ps.len() == 0 {
        seq![]
    } else if ps.len() == 1 {
        predicate_text(ps[0])
    } else {
        listed_predicates(ps.drop_last()) + ", "@ + predicate_text(ps.last())
    }
}

/// The message of an error, ending in a line break.
pub open spec fn error_text(e: ExternalEquivalenceTaskErrorModel) -> Seq<char> {
    match e {
        ExternalEquivalenceTaskErrorModel::NonTightProgram(p) =>
            "the following program is not tight: \n"@ + program_text(p) + "\n"@,
        ExternalEquivalenceTaskErrorModel::ProgramContainsPrivateRecursion(p) =>
            "the following program contains private recursion: \n"@ + program_text(p) + "\n"@,
        ExternalEquivalenceTaskErrorModel::InputOutputPredicatesOverlap(ps) =>
            "the following predicates are declared as input and output predicates: "@ + listed_predicates(ps) + "\n"@,
        ExternalEquivalenceTaskErrorModel::InputPredicateInRuleHead(ps) =>
            "the following input predicates occur in rule heads: "@ + listed_predicates(ps) + "\n"@,
        ExternalEquivalenceTaskErrorModel::OutputPredicateInUserGuideAssumption(ps) =>
            "the following output predicates occur in user guide assumptions: "@ + listed_predicates(ps) + "\n"@,
        ExternalEquivalenceTaskErrorModel::OutputPredicateInSpecificationAssumption(ps) =>
            "the following output predicates occur in specification assumptions: "@ + listed_predicates(ps) + "\n"@,
        ExternalEquivalenceTaskErrorModel::PlaceholdersWithIdenticalNamesDifferentSorts(name) =>
            "The following placeholder is given conflicting sorts within the user guide: "@ + name + "\n"@,
        ExternalEquivalenceTaskErrorModel::ProofOutlineError(_) => "the given proof outline contains errors\n"@,
    }
}

fn push_predicates(out: &mut String, ps: &Vec<Predicate>)
    ensures
        final(out)@ == old(out)@ + listed_predicates(views(ps@)),
{
    let ghost start = out@;
    let mut i: usize = 0;
    while i < ps.len()
        invariant
            i <= ps.len(),
            out@ == start + listed_predicates(views(ps@).take(i as int)),
        decreases ps.len() - i,
    {
        if i > 0 {
            out.append(", ");
        }
        let text = format_predicate(&ps[i]);
        out.append(text.as_str());
        assert(views(ps@).take(i as int + 1).drop_last() =~= views(ps@).take(i as int));
        assert(out@ =~= start + listed_predicates(views(ps@).take(i as int + 1)));
        i += 1;
    }
    assert(views(ps@).take(ps.len() as int) =~= views(ps@));
}

impl ExternalEquivalenceTaskError {
    /// The message of the error.
    pub fn to_text(&self) -> (r: String)
        ensures
            r@ == error_text(self@),
    {
        let (mut out, ps) = match self {
            ExternalEquivalenceTaskError::NonTightProgram(p) => {
                let mut out = concat("the following program is not tight: \n", format_program(p).as_str());
                out.append("\n");
                return out;
            },
            ExternalEquivalenceTaskError::ProgramContainsPrivateRecursion(p) => {
                let mut out = concat("the following program contains private recursion: \n", format_program(p).as_str());
                out.append("\n");
                return out;
            },
            ExternalEquivalenceTaskError::InputOutputPredicatesOverlap(ps) =>
                (String::from_str("the following predicates are declared as input and output predicates: "), ps),
            ExternalEquivalenceTaskError::InputPredicateInRuleHead(ps) =>
                (String::from_str("the following input predicates occur in rule heads: "), ps),
            ExternalEquivalenceTaskError::OutputPredicateInUserGuideAssumption(ps) =>
                (String::from_str("the following output predicates occur in user guide assumptions: "), ps),
            ExternalEquivalenceTaskError::OutputPredicateInSpecificationAssumption(ps) =>
                (String::from_str("the following output predicates occur in specification assumptions: "), ps),
            ExternalEquivalenceTaskError::PlaceholdersWithIdenticalNamesDifferentSorts(name) => {
                let mut out = concat("The following placeholder is given conflicting sorts within the user guide: ", name.as_str());
                out.append("\n");
                return out;
            },
            ExternalEquivalenceTaskError::ProofOutlineError(_) => {
                return String::from_str("the given proof outline contains errors\n");
            },
        };
        push_predicates(&mut out, ps);
        out.append("\n");
        out
    }
}

} // verus!
