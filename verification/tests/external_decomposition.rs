use anthem::command_line::arguments::Decomposition;
use anthem::syntax_tree::{asp, fol};
use anthem::verifying::outline::ProofOutline;
use anthem::verifying::problem::Role;
use anthem::verifying::task::external_equivalence::{
    ExternalEquivalenceTask, ExternalEquivalenceTaskError, ExternalEquivalenceTaskWarning, TaskSpecification,
};

fn task(specification: TaskSpecification, program: &str, user_guide: &str, outline: &str) -> ExternalEquivalenceTask {
    ExternalEquivalenceTask {
        specification,
        program: program.parse().unwrap(),
        user_guide: user_guide.parse().unwrap(),
        proof_outline: outline.parse().unwrap(),
        decomposition: Decomposition::Independent,
        direction: fol::Direction::Universal,
        bypass_tightness: false,
        simplify: false,
        break_equivalences: false,
    }
}

fn specification(text: &str) -> TaskSpecification {
    TaskSpecification::Specification(text.parse().unwrap())
}

#[test]
fn external_equivalence_task_gives_a_problem_per_conclusion() {
    let t = task(
        specification("spec[s]: forall X (p(X) <-> q(X))."),
        "p(X) :- q(X).",
        "input: q/1. output: p/1.",
        "",
    );
    let result = t.decompose().unwrap();
    assert!(result.warnings.is_empty());
    let problems = result.data;
    assert_eq!(problems.len(), 2);
    let forward: Vec<(String, Role)> = problems[0].formulas.iter().map(|f| (f.name.clone(), f.role)).collect();
    assert_eq!(forward, vec![("s".to_string(), Role::Axiom), ("completed_definition_of_p_1".to_string(), Role::Conjecture)]);
    let backward: Vec<(String, Role)> = problems[1].formulas.iter().map(|f| (f.name.clone(), f.role)).collect();
    assert_eq!(backward, vec![("completed_definition_of_p_1".to_string(), Role::Axiom), ("s".to_string(), Role::Conjecture)]);
    assert_eq!(problems[0].formulas[0].formula, "forall X (p(X) <-> q(X))".parse::<fol::Formula>().unwrap());
}

#[test]
fn external_equivalence_of_two_programs_renames_shared_private_predicates() {
    let t = task(
        TaskSpecification::Program("p(X) :- r(X). r(X) :- q(X).".parse::<asp::Program>().unwrap()),
        "p(X) :- r(X). r(X) :- q(X).",
        "input: q/1. output: p/1.",
        "",
    );
    let problems = t.decompose().unwrap().data;
    let names: Vec<String> = problems.iter().flat_map(|p| p.formulas.iter().map(|f| f.name.clone())).collect();
    assert!(names.contains(&"completed_definition_of_p_1".to_string()));
    assert!(names.contains(&"completed_definition_of_r_1".to_string()));
    assert!(names.contains(&"completed_definition_of_p_1".to_string()));
    let renamed = problems
        .iter()
        .flat_map(|p| p.formulas.iter())
        .any(|f| f.name == "completed_definition_of_r_1" && f.formula.predicates().iter().any(|q| q.symbol == "r_p"));
    assert!(renamed);
    assert_eq!(problems.len(), 2);
}

#[test]
fn user_guide_assumption_about_an_output_predicate_is_refused() {
    let t = task(
        specification("spec[s]: forall X (p(X) <-> q(X))."),
        "p(X) :- q(X).",
        "input: q/1. output: p/1. assumption: forall X p(X).",
        "",
    );
    match t.decompose() {
        Err(ExternalEquivalenceTaskError::OutputPredicateInUserGuideAssumption(o)) => {
            assert_eq!(o, vec!["p/1".parse::<fol::Predicate>().unwrap()]);
        },
        _ => panic!("expected an error"),
    }
}

#[test]
fn user_guide_formula_of_another_role_gives_a_warning() {
    let t = task(
        specification("spec[s]: forall X (p(X) <-> q(X))."),
        "p(X) :- q(X).",
        "input: q/1. output: p/1. spec: forall X q(X). assumption[a]: forall X (q(X) -> X > 0).",
        "",
    );
    let result = t.decompose().unwrap();
    assert_eq!(result.warnings.len(), 1);
    assert!(matches!(&result.warnings[0], ExternalEquivalenceTaskWarning::InvalidRoleWithinUserGuide(f) if f.role == fol::Role::Spec));
    assert_eq!(result.data[0].formulas[0].name, "a");
}

#[test]
fn overlapping_input_and_output_predicates_come_first() {
    let t = task(specification("spec: p."), "p :- not p.", "input: p/0. output: p/0.", "");
    assert!(matches!(t.decompose(), Err(ExternalEquivalenceTaskError::InputOutputPredicatesOverlap(_))));
}

#[test]
fn placeholders_become_function_constants() {
    let formula: fol::Formula = "p(n)".parse().unwrap();
    let placeholders = vec![fol::FunctionConstant { name: "n".to_string(), sort: fol::Sort::Integer }];
    assert_eq!(formula.replace_placeholders(&placeholders), "p(n$i)".parse::<fol::Formula>().unwrap());
}

#[test]
fn proof_outline_holds_lemmas_of_both_directions() {
    let outline: fol::Specification = "lemma[l]: forall X (q(X) -> q(X)). lemma(forward)[m]: p.".parse().unwrap();
    let result = ProofOutline::from_specification(outline, vec![], &vec![]).unwrap();
    assert_eq!(result.data.forward_lemmas.len(), 2);
    assert_eq!(result.data.backward_lemmas.len(), 1);
    assert!(result.data.forward_definitions.is_empty());
}

#[test]
fn error_messages_list_predicates_and_programs() {
    let overlap = ExternalEquivalenceTaskError::InputOutputPredicatesOverlap(vec![
        "p/1".parse::<fol::Predicate>().unwrap(),
        "q/0".parse::<fol::Predicate>().unwrap(),
    ]);
    assert_eq!(overlap.to_text(), "the following predicates are declared as input and output predicates: p/1, q/0\n");
    let program: asp::Program = "a :- b. b :- a.".parse().unwrap();
    let text = anthem::formatting::asp::format_program(&program);
    let loose = ExternalEquivalenceTaskError::NonTightProgram(program);
    assert_eq!(loose.to_text(), format!("the following program is not tight: \n{text}\n"));
    let clash = ExternalEquivalenceTaskError::PlaceholdersWithIdenticalNamesDifferentSorts("n".to_string());
    assert_eq!(clash.to_text(), "The following placeholder is given conflicting sorts within the user guide: n\n");
}

#[test]
fn checks_report_the_warnings_of_a_loose_program() {
    let mut t = task(specification("spec: p."), "p :- q. q :- p.", "output: p/0.", "");
    assert!(matches!(t.check(), Err(ExternalEquivalenceTaskError::NonTightProgram(_))));
    t.bypass_tightness = true;
    let warnings = t.check().unwrap();
    assert_eq!(warnings.len(), 1);
    assert!(matches!(warnings[0], ExternalEquivalenceTaskWarning::NonTightProgram(_)));
}

#[test]
fn small_strong_equivalence_tasks_are_decomposable() {
    let t = anthem::verifying::task::strong_equivalence::StrongEquivalenceTask {
        left: "a :- b.".parse().unwrap(),
        right: "a :- not not b.".parse().unwrap(),
        decomposition: Decomposition::Independent,
        direction: fol::Direction::Universal,
        simplify: true,
        break_equivalences: true,
    };
    assert!(t.decomposable());
}

#[test]
fn a_side_with_a_lemma_cannot_be_decomposed() {
    let t = task(
        specification("spec[s]: forall X (p(X) <-> q(X)). lemma[l]: forall X (p(X) -> q(X))."),
        "p(X) :- q(X).",
        "input: q/1. output: p/1.",
        "",
    );
    assert!(t.checked_decompose().is_none());
    let refused = task(specification("lemma[l]: p."), "p :- not p.", "input: p/0. output: p/0.", "");
    assert!(matches!(refused.checked_decompose(), Some(Err(ExternalEquivalenceTaskError::InputOutputPredicatesOverlap(_)))));
    let fine = task(specification("spec[s]: forall X (p(X) <-> q(X))."), "p(X) :- q(X).", "input: q/1. output: p/1.", "");
    assert_eq!(fine.checked_decompose().unwrap().unwrap().data.len(), 2);
}
