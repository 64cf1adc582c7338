use anthem::syntax_tree::fol::Theory;
use anthem::problem_building;
use anthem::verifying::problem::{
    increment_problem_name, AnnotatedFormula, Interpretation, Problem, ProblemNameTPTP, Role,
};

#[test]
fn test_increment_problem_number() {
    let name = ProblemNameTPTP {
        domain: "SWV".into(),
        number: vec![0, 3, 5],
    };
    assert_eq!(
        increment_problem_name(&name, 1),
        ProblemNameTPTP {
            domain: "SWV".into(),
            number: vec![0, 3, 6],
        }
    );
    assert_eq!(
        increment_problem_name(&name, 5),
        ProblemNameTPTP {
            domain: "SWV".into(),
            number: vec![0, 4, 0],
        }
    );
    assert_eq!(
        increment_problem_name(&name, 182),
        ProblemNameTPTP {
            domain: "SWV".into(),
            number: vec![2, 1, 7],
        }
    );
}

#[test]
fn test_decomposition() {
    let problem = Problem {
        name: ProblemNameTPTP {
            domain: "SWV".into(),
            number: vec![0, 0, 0],
        },
        interpretation: Interpretation::Standard,
        formulas: vec![
            AnnotatedFormula {
                name: "axiom_0".into(),
                role: Role::Axiom,
                formula: "p(a)".parse().unwrap(),
            },
            AnnotatedFormula {
                name: "axiom_1".into(),
                role: Role::Axiom,
                formula: "forall X p(X) -> q(X)".parse().unwrap(),
            },
            AnnotatedFormula {
                name: "conjecture_0".into(),
                role: Role::Conjecture,
                formula: "p(a)".parse().unwrap(),
            },
            AnnotatedFormula {
                name: "conjecture_1".into(),
                role: Role::Conjecture,
                formula: "q(a)".parse().unwrap(),
            },
        ],
    };

    assert_eq!(
        problem.decompose_independent(),
        vec![
            Problem {
                name: ProblemNameTPTP {
                    domain: "SWV".into(),
                    number: vec![0, 0, 0],
                },
                interpretation: Interpretation::Standard,
                formulas: vec![
                    AnnotatedFormula {
                        name: "axiom_0".into(),
                        role: Role::Axiom,
                        formula: "p(a)".parse().unwrap(),
                    },
                    AnnotatedFormula {
                        name: "axiom_1".into(),
                        role: Role::Axiom,
                        formula: "forall X p(X) -> q(X)".parse().unwrap(),
                    },
                    AnnotatedFormula {
                        name: "conjecture_0".into(),
                        role: Role::Conjecture,
                        formula: "p(a)".parse().unwrap(),
                    },
                ],
            },
            Problem {
                name: ProblemNameTPTP {
                    domain: "SWV".into(),
                    number: vec![0, 0, 1],
                },
                interpretation: Interpretation::Standard,
                formulas: vec![
                    AnnotatedFormula {
                        name: "axiom_0".into(),
                        role: Role::Axiom,
                        formula: "p(a)".parse().unwrap(),
                    },
                    AnnotatedFormula {
                        name: "axiom_1".into(),
                        role: Role::Axiom,
                        formula: "forall X p(X) -> q(X)".parse().unwrap(),
                    },
                    AnnotatedFormula {
                        name: "conjecture_1".into(),
                        role: Role::Conjecture,
                        formula: "q(a)".parse().unwrap(),
                    },
                ],
            }
        ]
    );

    assert_eq!(
        problem.decompose_sequential(),
        vec![
            Problem {
                name: ProblemNameTPTP {
                    domain: "SWV".into(),
                    number: vec![0, 0, 0],
                },
                interpretation: Interpretation::Standard,
                formulas: vec![
                    AnnotatedFormula {
                        name: "axiom_0".into(),
                        role: Role::Axiom,
                        formula: "p(a)".parse().unwrap(),
                    },
                    AnnotatedFormula {
                        name: "axiom_1".into(),
                        role: Role::Axiom,
                        formula: "forall X p(X) -> q(X)".parse().unwrap(),
                    },
                    AnnotatedFormula {
                        name: "conjecture_0".into(),
                        role: Role::Conjecture,
                        formula: "p(a)".parse().unwrap(),
                    },
                ],
            },
            Problem {
                name: ProblemNameTPTP {
                    domain: "SWV".into(),
                    number: vec![0, 0, 1],
                },
                interpretation: Interpretation::Standard,
                formulas: vec![
                    AnnotatedFormula {
                        name: "axiom_0".into(),
                        role: Role::Axiom,
                        formula: "p(a)".parse().unwrap(),
                    },
                    AnnotatedFormula {
                        name: "axiom_1".into(),
                        role: Role::Axiom,
                        formula: "forall X p(X) -> q(X)".parse().unwrap(),
                    },
                    AnnotatedFormula {
                        name: "conjecture_0".into(),
                        role: Role::Axiom,
                        formula: "p(a)".parse().unwrap(),
                    },
                    AnnotatedFormula {
                        name: "conjecture_1".into(),
                        role: Role::Conjecture,
                        formula: "q(a)".parse().unwrap(),
                    },
                ],
            }
        ]
    );
}

#[test]
fn problem_names_as_text() {
    let name = ProblemNameTPTP { domain: "SWV".into(), number: vec![0, 3, 5] };
    assert_eq!(name.to_text(), "SWV035");
    assert_eq!(increment_problem_name(&name, 0), name);
}

#[test]
fn entered_names_and_unique_names() {
    let problem = Problem::with_name(ProblemNameTPTP { domain: "SWV".into(), number: vec![0, 0, 0] })
        .add_annotated_formulas(vec![
            AnnotatedFormula { name: "".into(), role: Role::Axiom, formula: "p".parse().unwrap() },
            AnnotatedFormula { name: "_x".into(), role: Role::Axiom, formula: "q".parse().unwrap() },
            AnnotatedFormula { name: "c".into(), role: Role::Conjecture, formula: "p and q".parse().unwrap() },
        ]);
    let names: Vec<String> = problem.formulas.iter().map(|f| f.name.clone()).collect();
    assert_eq!(names, vec!["unnamed_formula", "f_x", "c"]);
    let unique = problem.create_unique_formula_names();
    let names: Vec<String> = unique.formulas.iter().map(|f| f.name.clone()).collect();
    assert_eq!(names, vec!["formula_0_unnamed_formula", "formula_1_f_x", "formula_2_c"]);
    assert_eq!(unique.axioms().len(), 2);
    assert_eq!(unique.conjectures().len(), 1);
}

#[test]
fn problem_from_parts() {
    let axioms: Theory = "p. q.".parse().unwrap();
    let lemmas: Theory = "r.".parse().unwrap();
    let conjectures: Theory = "p and r.".parse().unwrap();
    let problem = problem_building::Problem::from_parts(axioms, lemmas, conjectures);
    let names: Vec<String> = problem.formulas.iter().map(|f| f.name.clone()).collect();
    assert_eq!(names, vec!["axiom_0", "axiom_1", "lemma_0", "conjecture_0"]);
    assert_eq!(problem.formulas[2].role, problem_building::Role::Lemma);
    assert_eq!(problem.symbols(), Vec::<String>::new());
    assert_eq!(problem.predicates().len(), 3);
}
