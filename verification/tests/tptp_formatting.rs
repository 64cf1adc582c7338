use anthem::formatting::tptp as fmt;
use anthem::syntax_tree::fol::{
    Atom, AtomicFormula, BinaryConnective, BinaryOperator, Comparison, Formula, GeneralTerm, Guard,
    IntegerTerm, Quantification, Quantifier, Relation, Sort, SymbolicTerm, UnaryOperator, Variable,
};
use anthem::verifying::problem::{AnnotatedFormula, Problem, ProblemNameTPTP, Role};

fn numeral(n: isize) -> GeneralTerm {
    GeneralTerm::IntegerTerm(IntegerTerm::Numeral(n))
}

fn comparison(term: GeneralTerm, guards: Vec<(Relation, GeneralTerm)>) -> Comparison {
    Comparison { term, guards: guards.into_iter().map(|(relation, term)| Guard { relation, term }).collect() }
}

fn atom(p: &str, terms: Vec<GeneralTerm>) -> Formula {
    Formula::AtomicFormula(AtomicFormula::Atom(Atom { predicate_symbol: p.into(), terms }))
}

#[test]
fn tptp_format_integer_term() {
    assert_eq!(fmt::format_integer_term(&IntegerTerm::Numeral(0)), "0");
    assert_eq!(fmt::format_integer_term(&IntegerTerm::Numeral(42)), "42");
    assert_eq!(fmt::format_integer_term(&IntegerTerm::Numeral(-42)), "$uminus(42)");
    assert_eq!(fmt::format_integer_term(&IntegerTerm::Variable("A".into())), "A_i");
    assert_eq!(
        fmt::format_integer_term(&IntegerTerm::BinaryOperation {
            op: BinaryOperator::Multiply,
            lhs: IntegerTerm::Numeral(1).into(),
            rhs: IntegerTerm::Numeral(5).into(),
        }),
        "$product(1, 5)"
    );
    assert_eq!(
        fmt::format_integer_term(&IntegerTerm::BinaryOperation {
            op: BinaryOperator::Add,
            lhs: IntegerTerm::Numeral(10).into(),
            rhs: IntegerTerm::Variable("N".into()).into(),
        }),
        "$sum(10, N_i)"
    );
    assert_eq!(
        fmt::format_integer_term(&IntegerTerm::BinaryOperation {
            op: BinaryOperator::Subtract,
            lhs: IntegerTerm::Numeral(-195).into(),
            rhs: IntegerTerm::UnaryOperation { op: UnaryOperator::Negative, arg: IntegerTerm::Variable("N".into()).into() }.into(),
        }),
        "$difference($uminus(195), $uminus(N_i))"
    );
}

#[test]
fn tptp_format_symbolic_term() {
    assert_eq!(fmt::format_symbolic_term(&SymbolicTerm::Symbol("p".into())), "p");
    assert_eq!(fmt::format_symbolic_term(&SymbolicTerm::Variable("X".into())), "X_s");
}

#[test]
fn tptp_format_general_term() {
    assert_eq!(fmt::format_general_term(&GeneralTerm::Infimum), "c__infimum__");
    assert_eq!(fmt::format_general_term(&GeneralTerm::Supremum), "c__supremum__");
    assert_eq!(fmt::format_general_term(&GeneralTerm::Variable("N1".into())), "N1_g");
    assert_eq!(fmt::format_general_term(&GeneralTerm::SymbolicTerm(SymbolicTerm::Symbol("p".into()))), "f__symbolic__(p)");
    assert_eq!(fmt::format_general_term(&numeral(1)), "f__integer__(1)");
}

#[test]
fn tptp_format_atom() {
    assert_eq!(
        fmt::format_atom(&Atom {
            predicate_symbol: "prime".into(),
            terms: vec![
                GeneralTerm::IntegerTerm(IntegerTerm::BinaryOperation {
                    op: BinaryOperator::Add,
                    lhs: IntegerTerm::Variable("N1".into()).into(),
                    rhs: IntegerTerm::Numeral(3).into(),
                }),
                numeral(5),
            ]
        }),
        "prime(f__integer__($sum(N1_i, 3)), f__integer__(5))"
    )
}

#[test]
fn tptp_format_comparison() {
    assert_eq!(fmt::format_comparison(&comparison(numeral(5), vec![(Relation::Equal, numeral(3))])), "5 = 3");
    assert_eq!(fmt::format_comparison(&comparison(numeral(5), vec![(Relation::NotEqual, numeral(3))])), "5 != 3");
    assert_eq!(fmt::format_comparison(&comparison(numeral(5), vec![(Relation::LessEqual, numeral(3))])), "$lesseq(5, 3)");
    assert_eq!(
        fmt::format_comparison(&comparison(numeral(5), vec![(Relation::LessEqual, numeral(3)), (Relation::Equal, numeral(4))])),
        "$lesseq(5, 3) & 3 = 4"
    );
    assert_eq!(
        fmt::format_comparison(&comparison(
            numeral(5),
            vec![(Relation::LessEqual, numeral(3)), (Relation::Less, numeral(6)), (Relation::NotEqual, numeral(5))]
        )),
        "$lesseq(5, 3) & $less(3, 6) & 6 != 5"
    );
    assert_eq!(
        fmt::format_comparison(&comparison(
            numeral(1),
            vec![(Relation::Less, numeral(2)), (Relation::Less, GeneralTerm::Variable("X".to_string()))]
        )),
        "$less(1, 2) & p__less__(f__integer__(2), X_g)"
    );
    assert_eq!(
        fmt::format_comparison(&comparison(
            numeral(1),
            vec![(Relation::Less, GeneralTerm::IntegerTerm(IntegerTerm::Variable("N".to_string())))]
        )),
        "$less(1, N_i)"
    );
    assert_eq!(
        fmt::format_comparison(&comparison(
            GeneralTerm::SymbolicTerm(SymbolicTerm::Symbol("a".to_string())),
            vec![(Relation::Equal, GeneralTerm::SymbolicTerm(SymbolicTerm::Variable("B".to_string())))]
        )),
        "a = B_s"
    );
    assert_eq!(
        fmt::format_comparison(&comparison(
            GeneralTerm::SymbolicTerm(SymbolicTerm::Symbol("a".to_string())),
            vec![(Relation::Less, GeneralTerm::SymbolicTerm(SymbolicTerm::Variable("B".to_string())))]
        )),
        "p__less__(f__symbolic__(a), f__symbolic__(B_s))"
    );
}

#[test]
fn tptp_format_quantification() {
    assert_eq!(
        fmt::format_quantification(&Quantification {
            quantifier: Quantifier::Forall,
            variables: vec![
                Variable { name: "X1".into(), sort: Sort::Integer },
                Variable { name: "N2".into(), sort: Sort::General },
            ]
        }),
        "![X1_i: $int, N2_g: general]"
    );
    assert_eq!(
        fmt::format_quantification(&Quantification {
            quantifier: Quantifier::Exists,
            variables: vec![Variable { name: "X1".into(), sort: Sort::Symbol }]
        }),
        "?[X1_s: symbol]"
    );
}

#[test]
fn tptp_format_formula() {
    assert_eq!(fmt::format_formula(&atom("p", vec![])), "p");
    assert_eq!(
        fmt::format_formula(&Formula::BinaryFormula {
            connective: BinaryConnective::Implication,
            lhs: Formula::BinaryFormula {
                connective: BinaryConnective::Implication,
                lhs: atom("p", vec![]).into(),
                rhs: atom("q", vec![]).into()
            }
            .into(),
            rhs: atom("r", vec![]).into(),
        }),
        "(p => q) => r"
    );
    assert_eq!(
        fmt::format_formula(&Formula::QuantifiedFormula {
            quantification: Quantification {
                quantifier: Quantifier::Forall,
                variables: vec![
                    Variable { name: "X".into(), sort: Sort::Integer },
                    Variable { name: "Y1".into(), sort: Sort::General },
                ]
            },
            formula: Formula::BinaryFormula {
                connective: BinaryConnective::Conjunction,
                lhs: atom("p", vec![]).into(),
                rhs: atom("q", vec![]).into(),
            }
            .into()
        }),
        "![X_i: $int, Y1_g: general]: (p & q)"
    );
    assert_eq!(
        fmt::format_formula(&Formula::QuantifiedFormula {
            quantification: Quantification {
                quantifier: Quantifier::Forall,
                variables: vec![
                    Variable { name: "X_i".into(), sort: Sort::Symbol },
                    Variable { name: "X".into(), sort: Sort::Integer },
                    Variable { name: "Y1".into(), sort: Sort::General },
                ]
            },
            formula: Formula::BinaryFormula {
                connective: BinaryConnective::Conjunction,
                lhs: Formula::BinaryFormula {
                    connective: BinaryConnective::Conjunction,
                    lhs: atom("p", vec![GeneralTerm::IntegerTerm(IntegerTerm::Variable("X".to_string()))]).into(),
                    rhs: atom("q", vec![GeneralTerm::Variable("Y1".to_string())]).into(),
                }
                .into(),
                rhs: atom("t", vec![GeneralTerm::SymbolicTerm(SymbolicTerm::Variable("X_i".into()))]).into(),
            }
            .into()
        }),
        "![X_i_s: symbol, X_i: $int, Y1_g: general]: ((p(f__integer__(X_i)) & q(Y1_g)) & t(f__symbolic__(X_i_s)))"
    );
}

#[test]
fn tptp_format_negation() {
    let f: Formula = "not p and not (q or r)".parse().unwrap();
    assert_eq!(fmt::format_formula(&f), "(~p) & (~(q | r))");
    let g: Formula = "not not p".parse().unwrap();
    assert_eq!(fmt::format_formula(&g), "~(~p)");
}

#[test]
fn tptp_format_problem_file() {
    let formula: Formula = "forall X (p(X, b) -> q or X = a)".parse().unwrap();
    let constant: Formula = "r(n$i)".parse().unwrap();
    let problem = Problem::with_name(ProblemNameTPTP { domain: "ABC".to_string(), number: vec![0, 0, 1] })
        .add_annotated_formulas(vec![
            AnnotatedFormula { name: "first".to_string(), role: Role::Axiom, formula },
            AnnotatedFormula { name: "second".to_string(), role: Role::Conjecture, formula: constant },
        ]);
    assert_eq!(
        problem.to_text(),
        "include('standard_preamble.ax').\n\
         tff(predicate_0, type, p: (general * general) > $o).\n\
         tff(predicate_1, type, q: $o).\n\
         tff(predicate_2, type, r: (general) > $o).\n\
         tff(type_symbol_0, type, b: symbol).\n\
         tff(type_symbol_1, type, a: symbol).\n\
         tff(type_function_constant_0, type, n_i: $int).\n\
         tff(symbol_order_0, axiom, p__less__(f__symbolic__(a), f__symbolic__(b))).\n\
         tff(first, axiom, ![X_g: general]: (p(X_g, f__symbolic__(b)) => (q | X_g = f__symbolic__(a)))).\n\
         tff(second, conjecture, r(f__integer__(n_i))).\n"
    );
}
