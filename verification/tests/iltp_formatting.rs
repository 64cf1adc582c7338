use anthem::formatting::iltp as fmt;
use anthem::syntax_tree::fol::{
    Atom, AtomicFormula, BinaryConnective, Formula, GeneralTerm, Quantification, Quantifier, Sort,
    SymbolicTerm, Variable,
};

fn atom(p: &str) -> Formula {
    Formula::AtomicFormula(AtomicFormula::Atom(Atom { predicate_symbol: p.into(), terms: vec![] }))
}

#[test]
fn iltp_format_symbolic_term() {
    assert_eq!(fmt::format_symbolic_term(&SymbolicTerm::Symbol("p".into())), "p");
}

#[test]
fn iltp_format_general_term() {
    assert_eq!(fmt::format_general_term(&GeneralTerm::Variable("N1".into())), "N1");
    assert_eq!(fmt::format_general_term(&GeneralTerm::SymbolicTerm(SymbolicTerm::Symbol("p".into()))), "p");
}

#[test]
fn iltp_format_atom() {
    assert_eq!(
        fmt::format_atom(&Atom {
            predicate_symbol: "prime".into(),
            terms: vec![
                GeneralTerm::SymbolicTerm(SymbolicTerm::Symbol("a".to_string())),
                GeneralTerm::Variable("X".to_string()),
            ]
        }),
        "prime(a, X)"
    )
}

#[test]
fn iltp_format_quantification() {
    assert_eq!(
        fmt::format_quantification(&Quantification {
            quantifier: Quantifier::Forall,
            variables: vec![
                Variable { name: "X1".into(), sort: Sort::General },
                Variable { name: "N2".into(), sort: Sort::General },
            ]
        }),
        "![X1, N2]"
    );
}

#[test]
fn iltp_format_formula() {
    assert_eq!(fmt::format_formula(&atom("p")), "p");
    assert_eq!(
        fmt::format_formula(&Formula::BinaryFormula {
            connective: BinaryConnective::Implication,
            lhs: Formula::BinaryFormula {
                connective: BinaryConnective::Implication,
                lhs: atom("p").into(),
                rhs: atom("q").into()
            }
            .into(),
            rhs: atom("r").into(),
        }),
        "p => q => r"
    );
    assert_eq!(
        fmt::format_formula(&Formula::QuantifiedFormula {
            quantification: Quantification {
                quantifier: Quantifier::Forall,
                variables: vec![
                    Variable { name: "X".into(), sort: Sort::General },
                    Variable { name: "Y1".into(), sort: Sort::General },
                ]
            },
            formula: Formula::BinaryFormula {
                connective: BinaryConnective::Conjunction,
                lhs: atom("p").into(),
                rhs: atom("q").into(),
            }
            .into()
        }),
        "![X, Y1]: (p & q)"
    );
}

#[test]
fn iltp_format_negation_and_comparison() {
    let f: Formula = "not (p or q) and X < a".parse().unwrap();
    assert_eq!(fmt::format_formula(&f), "~(p | q) & p__less__(X, a)");
    let g: Formula = "p -> (q -> r)".parse().unwrap();
    assert_eq!(fmt::format_formula(&g), "p => (q => r)");
}
