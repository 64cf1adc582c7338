use anthem::analyzing::tightness::Tightness;
use anthem::command_line::arguments::Decomposition;
use anthem::simplifying::fol::classic::simplify_formula;
use anthem::syntax_tree::{asp, fol};
use anthem::translating::tau_star::{global_variables_fit, tau_star};
use anthem::verifying::outline::GeneralLemma;
use anthem::verifying::problem::{AnnotatedFormula, Problem, ProblemNameTPTP, Role};
use anthem::verifying::task::strong_equivalence::transition;

fn formula(s: &str) -> fol::Formula {
    s.parse().unwrap()
}

#[test]
fn universal_closure_has_no_free_variables() {
    let f = formula("p(X, Y$i) and exists Z q(Z, X)");
    assert!(f.universal_closure().free_variables().is_empty());
    let g = formula("p");
    assert_eq!(g.clone().universal_closure(), g);
}

#[test]
fn unique_formula_names_differ() {
    let f = formula("p");
    let problem = Problem::with_name(ProblemNameTPTP { domain: "ABC".to_string(), number: vec![0, 0, 0] })
        .add_annotated_formulas(vec![
            AnnotatedFormula { name: "1_a".to_string(), role: Role::Axiom, formula: f.clone() },
            AnnotatedFormula { name: "a".to_string(), role: Role::Axiom, formula: f.clone() },
            AnnotatedFormula { name: "a".to_string(), role: Role::Conjecture, formula: f },
        ])
        .create_unique_formula_names();
    let names: Vec<&str> = problem.formulas.iter().map(|a| a.name.as_str()).collect();
    assert_eq!(names, vec!["formula_0_1_a", "formula_1_a", "formula_2_a"]);
}

#[test]
fn each_decomposed_problem_has_one_conjecture() {
    let theory: fol::Theory = "p. q. r.".parse().unwrap();
    let problem = Problem::with_name(ProblemNameTPTP { domain: "ABC".to_string(), number: vec![0, 0, 1] })
        .add_annotated_formulas(vec![AnnotatedFormula { name: "a".to_string(), role: Role::Axiom, formula: formula("s") }])
        .add_theory(theory, |i, formula| AnnotatedFormula { name: format!("c{i}"), role: Role::Conjecture, formula });
    for strategy in [Decomposition::Independent, Decomposition::Sequential] {
        let problems = problem.decompose(strategy);
        assert_eq!(problems.len(), 3);
        for (i, p) in problems.iter().enumerate() {
            let conjectures = p.conjectures();
            assert_eq!(conjectures.len(), 1);
            assert_eq!(conjectures[0].name, format!("c{i}"));
        }
    }
}

#[test]
fn simplification_is_idempotent_and_leaves_no_double_negation() {
    let f = formula("not not not (p and not not q) or forall X not not not not r(X)");
    let once = simplify_formula(f);
    assert_eq!(once, formula("not (p and q) or forall X r(X)"));
    assert_eq!(simplify_formula(once.clone()), once);
}

#[test]
fn transition_axioms_are_closed() {
    for arity in 0..4 {
        let p = fol::Predicate { symbol: "p".to_string(), arity };
        assert!(transition(p).free_variables().is_empty());
    }
}

#[test]
fn programs_without_positive_bodies_are_tight() {
    let p: asp::Program = "a :- not b. b :- not a. c :- not not c, 1 < 2.".parse().unwrap();
    assert!(p.is_tight());
}

#[test]
fn inductive_lemma_parts_are_closed() {
    let lemma: fol::AnnotatedFormula = "inductive-lemma[i]: forall N$i X ( N$i >= 0 -> (p(N$i,X) -> X = N$i) )".parse().unwrap();
    let general = GeneralLemma::try_from(lemma).unwrap();
    for conjecture in general.conjectures {
        assert!(conjecture.formula.free_variables().is_empty());
    }
}

#[test]
fn global_variables_fit_for_ordinary_programs() {
    let p: asp::Program = "q(X, Y) :- p(X), p(Y). p(V3).".parse().unwrap();
    assert!(global_variables_fit(&p));
    let theory = tau_star(p);
    assert_eq!(theory.formulas.len(), 2);
    let huge: asp::Program = "p(V18446744073709551615) :- q(X).".parse().unwrap();
    assert!(!global_variables_fit(&huge));
}
