use anthem::formatting::asp as fmt;
use anthem::syntax_tree::asp::{
    Atom, AtomicFormula, BinaryOperator, Body, Comparison, Head, Literal, PrecomputedTerm, Program,
    Relation, Rule, Sign, Term, UnaryOperator, Variable,
};

fn numeral(n: isize) -> Term {
    Term::PrecomputedTerm(PrecomputedTerm::Numeral(n))
}

fn atom(p: &str, terms: Vec<Term>) -> Atom {
    Atom { predicate_symbol: p.to_string(), terms }
}

#[test]
fn format_constant() {
    assert_eq!(fmt::format_precomputed_term(&PrecomputedTerm::Infimum), "#inf");
    assert_eq!(fmt::format_precomputed_term(&PrecomputedTerm::Numeral(-1)), "-1");
    assert_eq!(fmt::format_precomputed_term(&PrecomputedTerm::Numeral(0)), "0");
    assert_eq!(fmt::format_precomputed_term(&PrecomputedTerm::Numeral(42)), "42");
    assert_eq!(fmt::format_precomputed_term(&PrecomputedTerm::Symbol("a".into())), "a");
    assert_eq!(fmt::format_precomputed_term(&PrecomputedTerm::Supremum), "#sup");
}

#[test]
fn format_variable() {
    assert_eq!(fmt::format_term(&Term::Variable(Variable("A".into()))), "A");
}

#[test]
fn format_unary_operator() {
    assert_eq!(fmt::format_unary_operator(UnaryOperator::Negative), "-");
}

#[test]
fn format_binary_operator() {
    assert_eq!(fmt::format_binary_operator(BinaryOperator::Add), "+");
    assert_eq!(fmt::format_binary_operator(BinaryOperator::Subtract), "-");
    assert_eq!(fmt::format_binary_operator(BinaryOperator::Multiply), "*");
    assert_eq!(fmt::format_binary_operator(BinaryOperator::Divide), "/");
    assert_eq!(fmt::format_binary_operator(BinaryOperator::Modulo), "\\");
    assert_eq!(fmt::format_binary_operator(BinaryOperator::Interval), "..");
}

#[test]
fn format_term() {
    assert_eq!(fmt::format_term(&numeral(42)), "42");
    assert_eq!(fmt::format_term(&Term::Variable(Variable("A".into()))), "A");
    assert_eq!(
        fmt::format_term(&Term::BinaryOperation {
            op: BinaryOperator::Add,
            lhs: numeral(1).into(),
            rhs: Term::BinaryOperation { op: BinaryOperator::Multiply, lhs: numeral(2).into(), rhs: numeral(3).into() }.into(),
        }),
        "1 + 2 * 3"
    );
    assert_eq!(
        fmt::format_term(&Term::BinaryOperation {
            op: BinaryOperator::Multiply,
            lhs: numeral(1).into(),
            rhs: Term::BinaryOperation { op: BinaryOperator::Add, lhs: numeral(2).into(), rhs: numeral(3).into() }.into(),
        }),
        "1 * (2 + 3)"
    );
    assert_eq!(
        fmt::format_term(&Term::BinaryOperation {
            op: BinaryOperator::Add,
            lhs: numeral(1).into(),
            rhs: Term::BinaryOperation { op: BinaryOperator::Add, lhs: numeral(2).into(), rhs: numeral(3).into() }.into(),
        }),
        "1 + (2 + 3)"
    );
    assert_eq!(
        fmt::format_term(&Term::BinaryOperation {
            op: BinaryOperator::Add,
            lhs: Term::BinaryOperation { op: BinaryOperator::Add, lhs: numeral(1).into(), rhs: numeral(2).into() }.into(),
            rhs: numeral(3).into(),
        }),
        "1 + 2 + 3"
    );
}

#[test]
fn format_interval_and_negation() {
    assert_eq!(
        fmt::format_term(&Term::BinaryOperation { op: BinaryOperator::Interval, lhs: numeral(1).into(), rhs: numeral(3).into() }),
        "1..3"
    );
    assert_eq!(fmt::format_term(&Term::UnaryOperation { op: UnaryOperator::Negative, arg: numeral(5).into() }), "-(5)");
    assert_eq!(
        fmt::format_term(&Term::UnaryOperation { op: UnaryOperator::Negative, arg: Term::Variable(Variable("X".into())).into() }),
        "-X"
    );
}

#[test]
fn format_atom() {
    assert_eq!(fmt::format_atom(&atom("p", vec![])), "p");
    assert_eq!(fmt::format_atom(&atom("p", vec![numeral(1)])), "p(1)");
    assert_eq!(fmt::format_atom(&atom("p", vec![numeral(1), numeral(2)])), "p(1, 2)");
}

#[test]
fn format_sign() {
    assert_eq!(fmt::format_sign(Sign::NoSign), "");
    assert_eq!(fmt::format_sign(Sign::Negation), "not");
    assert_eq!(fmt::format_sign(Sign::DoubleNegation), "not not");
}

#[test]
fn format_literal() {
    assert_eq!(fmt::format_literal(&Literal { sign: Sign::Negation, atom: atom("p", vec![]) }), "not p");
}

#[test]
fn format_relation() {
    assert_eq!(fmt::format_relation(Relation::Equal), "=");
    assert_eq!(fmt::format_relation(Relation::NotEqual), "!=");
    assert_eq!(fmt::format_relation(Relation::Less), "<");
    assert_eq!(fmt::format_relation(Relation::LessEqual), "<=");
    assert_eq!(fmt::format_relation(Relation::Greater), ">");
    assert_eq!(fmt::format_relation(Relation::GreaterEqual), ">=");
}

#[test]
fn format_comparison() {
    assert_eq!(
        fmt::format_comparison(&Comparison { relation: Relation::Equal, lhs: Term::Variable(Variable("I".into())), rhs: numeral(1) }),
        "I = 1"
    );
}

#[test]
fn format_atomic_formula() {
    assert_eq!(
        fmt::format_atomic_formula(&AtomicFormula::Literal(Literal { sign: Sign::DoubleNegation, atom: atom("p", vec![]) })),
        "not not p"
    );
    assert_eq!(
        fmt::format_atomic_formula(&AtomicFormula::Comparison(Comparison { relation: Relation::NotEqual, lhs: numeral(1), rhs: numeral(2) })),
        "1 != 2"
    );
}

#[test]
fn format_head() {
    assert_eq!(fmt::format_head(&Head::Basic(atom("p", vec![]))), "p");
    assert_eq!(fmt::format_head(&Head::Choice(atom("p", vec![]))), "{p}");
    assert_eq!(fmt::format_head(&Head::Falsity), "");
}

#[test]
fn format_body() {
    assert_eq!(fmt::format_body(&Body { formulas: vec![] }), "");
    assert_eq!(
        fmt::format_body(&Body {
            formulas: vec![
                AtomicFormula::Literal(Literal { sign: Sign::NoSign, atom: atom("p", vec![Term::Variable(Variable("X".into()))]) }),
                AtomicFormula::Comparison(Comparison { relation: Relation::Less, lhs: Term::Variable(Variable("X".into())), rhs: numeral(10) }),
            ]
        }),
        "p(X), X < 10"
    );
}

#[test]
fn format_program() {
    let program = Program {
        rules: vec![
            Rule { head: Head::Basic(atom("a", vec![])), body: Body { formulas: vec![] } },
            Rule {
                head: Head::Basic(atom("b", vec![])),
                body: Body { formulas: vec![AtomicFormula::Literal(Literal { sign: Sign::Negation, atom: atom("a", vec![]) })] },
            },
        ],
    };
    assert_eq!(fmt::format_program(&program), "a.\nb :- not a.\n");
}

#[test]
fn format_constraint() {
    let rule: Rule = ":- p, not q.".parse().unwrap();
    assert_eq!(fmt::format_rule(&rule), " :- p, not q.");
}
