use anthem::command_line::arguments::Decomposition;
use anthem::verifying::outline::ProofOutline;
use anthem::verifying::problem::Role;
use anthem::verifying::task::external_equivalence::ValidatedExternalEquivalenceTask;
use anthem::syntax_tree::{asp, fol};
use anthem::verifying::task::external_equivalence::{
    ensure_absence_of_private_recursion, ensure_input_and_output_predicates_are_disjoint,
    ensure_placeholder_name_uniqueness, ensure_program_tightness, ensure_rule_heads_do_not_contain_input_predicates,
    ensure_specification_assumptions_do_not_contain_output_predicates, rename_formula, rename_specification,
    ExternalEquivalenceTaskError, ExternalEquivalenceTaskWarning,
};

fn guide(s: &str) -> fol::UserGuide {
    s.parse().unwrap()
}

fn predicate(s: &str) -> fol::Predicate {
    s.parse().unwrap()
}

#[test]
fn tightness_is_required_unless_bypassed() {
    let tight: asp::Program = "a :- not b.".parse().unwrap();
    assert!(ensure_program_tightness(&tight, false).unwrap().warnings.is_empty());
    let loose: asp::Program = "a :- b. b :- a.".parse().unwrap();
    assert!(matches!(ensure_program_tightness(&loose, false), Err(ExternalEquivalenceTaskError::NonTightProgram(_))));
    let warned = ensure_program_tightness(&loose, true).unwrap();
    assert_eq!(warned.warnings.len(), 1);
    assert!(matches!(warned.warnings[0], ExternalEquivalenceTaskWarning::NonTightProgram(_)));
}

#[test]
fn private_recursion_is_refused() {
    let program: asp::Program = "a :- not b. b :- not a.".parse().unwrap();
    let private = vec![predicate("a/0"), predicate("b/0")];
    assert!(matches!(
        ensure_absence_of_private_recursion(&program, &private),
        Err(ExternalEquivalenceTaskError::ProgramContainsPrivateRecursion(_))
    ));
    assert!(ensure_absence_of_private_recursion(&program, &vec![predicate("a/0")]).is_ok());
}

#[test]
fn input_and_output_must_be_disjoint() {
    let ok = guide("input: p/1. output: q/0.");
    assert!(ensure_input_and_output_predicates_are_disjoint(&ok).is_ok());
    let overlapping = guide("input: p/1. input: q/0. output: q/0.");
    match ensure_input_and_output_predicates_are_disjoint(&overlapping) {
        Err(ExternalEquivalenceTaskError::InputOutputPredicatesOverlap(ps)) => assert_eq!(ps, vec![predicate("q/0")]),
        other => panic!("unexpected {other:?}"),
    }
}

#[test]
fn input_predicates_stay_out_of_heads() {
    let g = guide("input: p/1.");
    let fine: asp::Program = "q(X) :- p(X).".parse().unwrap();
    assert!(ensure_rule_heads_do_not_contain_input_predicates(&g, &fine).is_ok());
    let bad: asp::Program = "p(1). q(X) :- p(X).".parse().unwrap();
    match ensure_rule_heads_do_not_contain_input_predicates(&g, &bad) {
        Err(ExternalEquivalenceTaskError::InputPredicateInRuleHead(ps)) => assert_eq!(ps, vec![predicate("p/1")]),
        other => panic!("unexpected {other:?}"),
    }
}

#[test]
fn specification_assumptions_avoid_outputs() {
    let g = guide("output: q/0.");
    let fine: fol::Specification = "assumption: p. spec: q.".parse().unwrap();
    assert!(ensure_specification_assumptions_do_not_contain_output_predicates(&g, &fine).is_ok());
    let bad: fol::Specification = "spec: q. assumption: p or q.".parse().unwrap();
    match ensure_specification_assumptions_do_not_contain_output_predicates(&g, &bad) {
        Err(ExternalEquivalenceTaskError::OutputPredicateInSpecificationAssumption(ps)) => {
            assert_eq!(ps, vec![predicate("q/0")])
        },
        other => panic!("unexpected {other:?}"),
    }
}

#[test]
fn placeholder_names_are_unique() {
    assert!(ensure_placeholder_name_uniqueness(&guide("input: n -> integer. input: m -> symbol.")).is_ok());
    match ensure_placeholder_name_uniqueness(&guide("input: n -> integer. input: n -> symbol.")) {
        Err(ExternalEquivalenceTaskError::PlaceholdersWithIdenticalNamesDifferentSorts(name)) => assert_eq!(name, "n"),
        other => panic!("unexpected {other:?}"),
    }
}

#[test]
fn private_predicates_are_renamed() {
    let mapping = vec![(predicate("p/1"), "p".to_string())];
    let f: fol::Formula = "forall X (p(X) -> q(X) or p)".parse().unwrap();
    assert_eq!(rename_formula(f, &mapping), "forall X (p_p(X) -> q(X) or p)".parse().unwrap());
    let s: fol::Specification = "assumption: p(1). spec[s]: not p(2).".parse().unwrap();
    assert_eq!(
        rename_specification(s, &mapping),
        "assumption: p_p(1). spec[s]: not p_p(2).".parse::<fol::Specification>().unwrap()
    );
}

fn annotated(text: &str) -> Vec<fol::AnnotatedFormula> {
    let s: fol::Specification = text.parse().unwrap();
    s.formulas
}

fn names(fs: &[anthem::verifying::problem::AnnotatedFormula]) -> Vec<String> {
    fs.iter().map(|f| f.name.clone()).collect()
}

#[test]
fn assembly_sorts_formulas_by_role_and_direction() {
    let task = ValidatedExternalEquivalenceTask {
        left: annotated(
            "assumption[a1]: p. assumption(forward)[a2]: q. assumption(backward)[a3]: r. spec[s1]: forall X (s(X) <-> t(X)). spec(forward)[s2]: u.",
        ),
        right: annotated("assumption(backward)[b1]: v. assumption(forward)[b2]: w. spec[c1]: x <-> y. spec(backward)[c2]: z."),
        user_guide_assumptions: annotated("assumption[g]: g."),
        proof_outline: ProofOutline {
            forward_lemmas: vec![],
            backward_lemmas: vec![],
            forward_definitions: vec![],
            backward_definitions: vec![],
        },
        decomposition: Decomposition::Sequential,
        direction: fol::Direction::Universal,
        break_equivalences: true,
    };
    let result = task.assemble();
    let parts = result.data;
    assert_eq!(names(&parts.stable_premises), vec!["g", "a1"]);
    assert_eq!(names(&parts.forward_premises), vec!["a2", "s1", "s2"]);
    assert_eq!(names(&parts.backward_conclusions), vec!["s1_forward", "s1_backward"]);
    assert_eq!(names(&parts.backward_premises), vec!["b1", "c1", "c2"]);
    assert_eq!(names(&parts.forward_conclusions), vec!["c1_forward", "c1_backward"]);
    assert!(parts.stable_premises.iter().all(|f| f.role == Role::Axiom));
    assert!(parts.forward_conclusions.iter().all(|f| f.role == Role::Conjecture));
    assert_eq!(parts.backward_conclusions[0].formula, "forall X (s(X) -> t(X))".parse::<fol::Formula>().unwrap());
    assert_eq!(parts.forward_conclusions[1].formula, "x <- y".parse::<fol::Formula>().unwrap());
    assert_eq!(result.warnings.len(), 2);
    assert!(matches!(&result.warnings[0], ExternalEquivalenceTaskWarning::InconsistentDirectionAnnotation(f) if f.name == "a3"));
    assert!(matches!(&result.warnings[1], ExternalEquivalenceTaskWarning::InconsistentDirectionAnnotation(f) if f.name == "b2"));
}
