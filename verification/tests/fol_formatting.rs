use anthem::formatting::fol as fmt;
use anthem::syntax_tree::fol::{
    AnnotatedFormula, Atom, AtomicFormula, BinaryConnective, BinaryOperator, Comparison, Direction,
    Formula, GeneralTerm, Guard, IntegerTerm, Quantification, Quantifier, Relation, Role, Sort,
    Specification, SymbolicTerm, UnaryConnective, Variable,
};

fn prop(p: &str) -> Formula {
    Formula::AtomicFormula(AtomicFormula::Atom(Atom { predicate_symbol: p.into(), terms: vec![] }))
}

fn binary(connective: BinaryConnective, lhs: Formula, rhs: Formula) -> Formula {
    Formula::BinaryFormula { connective, lhs: lhs.into(), rhs: rhs.into() }
}

#[test]
fn default_format_integer_term() {
    assert_eq!(fmt::format_integer_term(&IntegerTerm::Numeral(-1)), "-1");
    assert_eq!(fmt::format_integer_term(&IntegerTerm::Numeral(0)), "0");
    assert_eq!(fmt::format_integer_term(&IntegerTerm::Numeral(42)), "42");
    assert_eq!(fmt::format_integer_term(&IntegerTerm::Variable("A".into())), "A$i");
}

#[test]
fn default_format_general_term() {
    assert_eq!(fmt::format_general_term(&GeneralTerm::Infimum), "#inf");
    assert_eq!(fmt::format_general_term(&GeneralTerm::Supremum), "#sup");
    assert_eq!(fmt::format_general_term(&GeneralTerm::IntegerTerm(IntegerTerm::Variable("N".into()))), "N$i");
    assert_eq!(fmt::format_general_term(&GeneralTerm::SymbolicTerm(SymbolicTerm::Symbol("abc".into()))), "abc");
    assert_eq!(
        fmt::format_general_term(&GeneralTerm::IntegerTerm(IntegerTerm::BinaryOperation {
            op: BinaryOperator::Multiply,
            lhs: IntegerTerm::Numeral(1).into(),
            rhs: IntegerTerm::Numeral(5).into(),
        })),
        "1 * 5"
    );
}

#[test]
fn default_format_comparison() {
    assert_eq!(
        fmt::format_comparison(&Comparison {
            term: GeneralTerm::IntegerTerm(IntegerTerm::Numeral(1)),
            guards: vec![Guard { relation: Relation::Less, term: GeneralTerm::IntegerTerm(IntegerTerm::Numeral(5)) }]
        }),
        "1 < 5"
    );
    assert_eq!(
        fmt::format_comparison(&Comparison {
            term: GeneralTerm::IntegerTerm(IntegerTerm::Variable("N".into())),
            guards: vec![
                Guard { relation: Relation::Less, term: GeneralTerm::IntegerTerm(IntegerTerm::Numeral(5)) },
                Guard {
                    relation: Relation::NotEqual,
                    term: GeneralTerm::IntegerTerm(IntegerTerm::BinaryOperation {
                        op: BinaryOperator::Multiply,
                        lhs: IntegerTerm::Numeral(7).into(),
                        rhs: IntegerTerm::Numeral(2).into(),
                    }),
                },
                Guard { relation: Relation::GreaterEqual, term: GeneralTerm::IntegerTerm(IntegerTerm::Variable("Xa".into())) },
            ]
        }),
        "N$i < 5 != 7 * 2 >= Xa$i"
    );
}

#[test]
fn default_format_quantification() {
    assert_eq!(
        fmt::format_quantification(&Quantification {
            quantifier: Quantifier::Forall,
            variables: vec![
                Variable { name: "X".into(), sort: Sort::General },
                Variable { name: "Y".into(), sort: Sort::Integer },
                Variable { name: "N".into(), sort: Sort::General },
            ]
        }),
        "forall X Y$i N"
    );
}

#[test]
fn default_format_atomic_formula() {
    assert_eq!(
        fmt::format_atomic_formula(&AtomicFormula::Atom(Atom {
            predicate_symbol: "p".into(),
            terms: vec![
                GeneralTerm::SymbolicTerm(SymbolicTerm::Symbol("a".into())),
                GeneralTerm::IntegerTerm(IntegerTerm::Variable("X".into())),
            ]
        })),
        "p(a, X$i)"
    );
    assert_eq!(
        fmt::format_atomic_formula(&AtomicFormula::Comparison(Comparison {
            term: GeneralTerm::IntegerTerm(IntegerTerm::Numeral(5)),
            guards: vec![Guard { relation: Relation::Less, term: GeneralTerm::Variable("I".into()) }]
        })),
        "5 < I"
    );
    assert_eq!(fmt::format_atomic_formula(&AtomicFormula::Falsity), "#false");
}

#[test]
fn default_format_formula() {
    let (implication, reverse) = (BinaryConnective::Implication, BinaryConnective::ReverseImplication);
    assert_eq!(fmt::format_formula(&prop("p")), "p");
    assert_eq!(
        fmt::format_formula(&Formula::UnaryFormula { connective: UnaryConnective::Negation, formula: prop("p").into() }),
        "not p"
    );
    assert_eq!(
        fmt::format_formula(&Formula::QuantifiedFormula {
            quantification: Quantification {
                quantifier: Quantifier::Forall,
                variables: vec![Variable { name: "X".into(), sort: Sort::General }]
            },
            formula: Formula::AtomicFormula(AtomicFormula::Atom(Atom {
                predicate_symbol: "p".into(),
                terms: vec![GeneralTerm::Variable("X".into())]
            }))
            .into()
        }),
        "forall X p(X)"
    );
    let (p, q, r) = (prop("p"), prop("q"), prop("r"));
    assert_eq!(fmt::format_formula(&binary(reverse, binary(reverse, p.clone(), q.clone()), r.clone())), "(p <- q) <- r");
    assert_eq!(fmt::format_formula(&binary(reverse, p.clone(), binary(reverse, q.clone(), r.clone()))), "p <- (q <- r)");
    assert_eq!(fmt::format_formula(&binary(implication, binary(implication, p.clone(), q.clone()), r.clone())), "(p -> q) -> r");
    assert_eq!(fmt::format_formula(&binary(implication, p.clone(), binary(implication, q.clone(), r.clone()))), "p -> (q -> r)");
    assert_eq!(fmt::format_formula(&binary(reverse, binary(implication, p.clone(), q.clone()), r.clone())), "(p -> q) <- r");
    assert_eq!(fmt::format_formula(&binary(implication, p.clone(), binary(reverse, q.clone(), r.clone()))), "p -> (q <- r)");
    assert_eq!(fmt::format_formula(&binary(implication, binary(reverse, p.clone(), q.clone()), r.clone())), "(p <- q) -> r");
    assert_eq!(fmt::format_formula(&binary(reverse, p, binary(implication, q, r))), "p <- (q -> r)");
}

#[test]
fn format_specification() {
    let left = fmt::format_specification(&Specification {
        formulas: vec![
            AnnotatedFormula {
                role: Role::Spec,
                direction: Direction::Forward,
                name: "about_p_0".to_string(),
                formula: Formula::UnaryFormula {
                    connective: UnaryConnective::Negation,
                    formula: Formula::AtomicFormula(AtomicFormula::Atom(Atom {
                        predicate_symbol: "p".into(),
                        terms: vec![GeneralTerm::IntegerTerm(IntegerTerm::Numeral(0))],
                    }))
                    .into(),
                },
            },
            AnnotatedFormula {
                role: Role::Assumption,
                direction: Direction::Universal,
                name: String::default(),
                formula: Formula::AtomicFormula(AtomicFormula::Atom(Atom {
                    predicate_symbol: "p".into(),
                    terms: vec![GeneralTerm::IntegerTerm(IntegerTerm::Numeral(5))],
                })),
            },
            AnnotatedFormula {
                role: Role::InductiveLemma,
                direction: Direction::Backward,
                name: "il1".to_string(),
                formula: Formula::QuantifiedFormula {
                    quantification: Quantification {
                        quantifier: Quantifier::Forall,
                        variables: vec![Variable { name: "X".into(), sort: Sort::General }],
                    },
                    formula: binary(
                        BinaryConnective::Equivalence,
                        Formula::AtomicFormula(AtomicFormula::Atom(Atom {
                            predicate_symbol: "p".into(),
                            terms: vec![GeneralTerm::Variable("X".into())],
                        })),
                        binary(
                            BinaryConnective::Disjunction,
                            Formula::AtomicFormula(AtomicFormula::Atom(Atom {
                                predicate_symbol: "q".into(),
                                terms: vec![GeneralTerm::Variable("X".into())],
                            })),
                            prop("t"),
                        ),
                    )
                    .into(),
                },
            },
        ],
    });
    let right = "spec(forward)[about_p_0]: not p(0).\nassumption: p(5).\ninductive-lemma(backward)[il1]: forall X (p(X) <-> q(X) or t).\n".to_string();
    assert_eq!(left, right);
}

#[test]
fn format_mixed_connectives() {
    let f: Formula = "p and (q or r) and not (s and t)".parse().unwrap();
    assert_eq!(fmt::format_formula(&f), "p and (q or r) and not (s and t)");
    let g: Formula = "(p and q) or r".parse().unwrap();
    assert_eq!(fmt::format_formula(&g), "p and q or r");
    let h: Formula = "p or (q or r)".parse().unwrap();
    assert_eq!(fmt::format_formula(&h), "p or (q or r)");
}

#[test]
fn format_parsed_formula_round_trip() {
    for src in [
        "forall X (p(X) or exists N$i (q(N$i) and N$i = X))",
        "forall X Y$s (p(X, Y$s) <-> q(X) -> r)",
        "#true and #false or n$g = 1 - -(2) * 3",
    ] {
        let f: Formula = src.parse().unwrap();
        let text = fmt::format_formula(&f);
        let again: Formula = text.parse().unwrap();
        assert_eq!(again, f, "{text}");
    }
}

#[test]
fn format_annotated_formula_parts() {
    let a: AnnotatedFormula = "lemma[l1]: p".parse().unwrap();
    assert_eq!(fmt::format_annotated_formula(&a), "lemma[l1]: p");
    let b: AnnotatedFormula = "definition(backward): p".parse().unwrap();
    assert_eq!(fmt::format_annotated_formula(&b), "definition(backward): p");
}
