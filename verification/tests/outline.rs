use anthem::syntax_tree::fol::{AnnotatedFormula, Formula, Predicate};
use anthem::verifying::outline::{GeneralLemma, ProofOutlineError, ProofOutlineWarning};
use anthem::verifying::problem::Role;

fn taken() -> Vec<Predicate> {
    vec![Predicate { symbol: "t".to_string(), arity: 1 }]
}

#[test]
fn check_correct_definition() {
    for (src, target) in [
        ("forall X ( p(X) <-> 1 < 2 )", Predicate { symbol: "p".to_string(), arity: 1 }),
        (
            "forall X Y$i ( pred(X, Y$i) <-> exists N$i (X = N$i and t(X) or t(Y$i)) )",
            Predicate { symbol: "pred".to_string(), arity: 2 },
        ),
    ] {
        let formula: Formula = src.parse().unwrap();
        assert_eq!(formula.definition(&taken()).unwrap().data, target)
    }
}

#[test]
fn check_incorrect_definition() {
    for (src, target) in [
        (
            "forall X Y X ( p(X) <-> 1 < 2 )",
            ProofOutlineError::DuplicatedVariables("forall X Y X ( p(X) <-> 1 < 2 )".parse().unwrap()),
        ),
        (
            "forall X ( t(X) <-> 1 < 2 )",
            ProofOutlineError::TakenPredicate(Predicate { symbol: "t".to_string(), arity: 1 }),
        ),
        (
            "forall Z1 Z2 ( ancestor(Z1, Z2) <-> t(X) and t(Z2) )",
            ProofOutlineError::FreeRhsVariables(
                "forall Z1 Z2 ( ancestor(Z1, Z2) <-> t(X) and t(Z2) )".parse().unwrap(),
            ),
        ),
        (
            "forall Z1 Z2 ( ancestor(Z1, Z2) <-> ancestor(Z1, Z2) )",
            ProofOutlineError::UndefinedRhsPredicate {
                definition: "forall Z1 Z2 ( ancestor(Z1, Z2) <-> ancestor(Z1, Z2) )".parse().unwrap(),
                predicate: Predicate { symbol: "ancestor".to_string(), arity: 2 },
            },
        ),
    ] {
        let formula: Formula = src.parse().unwrap();
        assert_eq!(formula.definition(&taken()), Err(target))
    }
}

#[test]
fn test_correct_inductive_lemma() {
    for (src, base, step) in [
        (
            "forall I$i ( I$i >= 5 -> p(I$i) )",
            "p(5)",
            "forall I$i ( (I$i >= 5 and p(I$i)) -> p(I$i+1) )",
        ),
        (
            "forall N$i ( N$i >= 1 -> squareLEb(N$i) )",
            "squareLEb(1)",
            "forall N$i ( (N$i >= 1 and squareLEb(N$i)) -> squareLEb(N$i+1) )",
        ),
        (
            "forall I$ ( I$ >= 5 -> (p(I$) and not q(I$,5)) )",
            "p(5) and not q(5,5)",
            "forall I$ ( ( I$ >= 5 and (p(I$) and not q(I$,5)) ) -> ( p(I$+1) and not q(I$+1,5) ) )",
        ),
        (
            "forall N$i X ( N$i >= 0 -> (p(N$i,X) -> X = N$i) )",
            "forall X ( p(0,X) -> X = 0 )",
            "forall N$i X ( N$i >= 0 and (p(N$i,X) -> X = N$i) -> (p(N$i+1,X) -> X = N$i+1) )",
        ),
        (
            "forall M$i N$i ( N$i >= 0 -> N$i + M$i >= M$i )",
            "forall M$i ( 0 + M$i >= M$i )",
            "forall N$i M$i ( N$i >= 0 and N$i + M$i >= M$i -> (N$i+1 + M$i >= M$i) )",
        ),
    ] {
        let formula: Formula = src.parse().unwrap();
        let (base_result, step_result) = formula.inductive_lemma().unwrap().data;
        let (base_target, step_target): (Formula, Formula) = (base.parse().unwrap(), step.parse().unwrap());
        assert_eq!((base_result, step_result), (base_target, step_target))
    }
}

#[test]
fn check_incorrect_inductive_lemma() {
    for (src, target) in [
        (
            "forall X ( X >= 0 -> p(X) )",
            ProofOutlineError::MalformedInductiveTerm("forall X ( X >= 0 -> p(X) )".parse().unwrap()),
        ),
        (
            "forall X$i ( X$i > 0 -> p(X$i) )",
            ProofOutlineError::MalformedInductiveLemma("forall X$i ( X$i > 0 -> p(X$i) )".parse().unwrap()),
        ),
        (
            "forall X$i ( X$i >= 0 -> p(X$i, Y$i) )",
            ProofOutlineError::MalformedInductiveVariables(
                "forall X$i ( X$i >= 0 -> p(X$i, Y$i) )".parse().unwrap(),
            ),
        ),
    ] {
        let formula: Formula = src.parse().unwrap();
        assert_eq!(formula.inductive_lemma(), Err(target))
    }
}

#[test]
fn definition_warns_of_unused_quantified_variables() {
    let formula: Formula = "forall X Y ( p(X, Y) <-> t(X) )".parse().unwrap();
    let result = formula.definition(&taken()).unwrap();
    assert_eq!(result.data, Predicate { symbol: "p".to_string(), arity: 2 });
    assert_eq!(result.warnings, vec![ProofOutlineWarning::ExcessQuantifiedVariables(formula.clone())]);
}

#[test]
fn definition_rejects_terms_and_mismatched_variables() {
    let f: Formula = "forall X ( p(X, 1) <-> t(X) )".parse().unwrap();
    assert!(matches!(f.definition(&taken()), Err(ProofOutlineError::TermsInDefinition { .. })));
    let g: Formula = "forall X Y ( p(X) <-> t(X) )".parse().unwrap();
    assert_eq!(g.definition(&taken()), Err(ProofOutlineError::DefinedPredicateVariableListMismatch(g.clone())));
    let h: Formula = "exists X ( p(X) <-> t(X) )".parse().unwrap();
    assert_eq!(h.definition(&taken()), Err(ProofOutlineError::MalformedDefinition(h.clone())));
}

#[test]
fn inductive_lemma_rejects_two_guards() {
    let f: Formula = "forall N$i ( 0 <= N$i <= 5 -> p(N$i) )".parse().unwrap();
    assert_eq!(f.clone().inductive_lemma(), Err(ProofOutlineError::MalformedInductiveAntecedent(f)));
}

#[test]
fn general_lemma_of_lemma_and_inductive_lemma() {
    let lemma: AnnotatedFormula = "lemma[l]: forall X (p(X) -> q(X))".parse().unwrap();
    let g = GeneralLemma::try_from(lemma.clone()).unwrap();
    assert_eq!(g.conjectures.len(), 1);
    assert_eq!(g.conjectures[0].role, Role::Conjecture);
    assert_eq!(g.conjectures[0].name, "l");
    assert_eq!(g.conjectures[0].formula, lemma.formula);
    assert_eq!(g.consequences[0].role, Role::Axiom);
    let inductive: AnnotatedFormula = "inductive-lemma[i]: forall N$i ( N$i >= 0 -> p(N$i) )".parse().unwrap();
    let h = GeneralLemma::try_from(inductive.clone()).unwrap();
    let names: Vec<&str> = h.conjectures.iter().map(|f| f.name.as_str()).collect();
    assert_eq!(names, vec!["ibase_case", "iinductive_step"]);
    assert_eq!(h.conjectures[0].formula, "p(0)".parse().unwrap());
    assert_eq!(h.consequences[0].formula, inductive.formula);
    let assumption: AnnotatedFormula = "assumption: p".parse().unwrap();
    assert_eq!(
        GeneralLemma::try_from(assumption.clone()),
        Err(ProofOutlineError::InvalidRoleForGeneralLemma(assumption))
    );
}
