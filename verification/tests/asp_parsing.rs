use anthem::parsing::asp::{
    AtomParser, AtomicFormulaParser, BinaryOperatorParser, BodyParser, ComparisonParser,
    HeadParser, LiteralParser, PrecomputedTermParser, PredicateParser, ProgramParser,
    RelationParser, RuleParser, SignParser, TermParser, UnaryOperatorParser, VariableParser,
};
use anthem::parsing::fol;
use anthem::parsing::Parser;
use anthem::syntax_tree::fol as fol_tree;
use anthem::syntax_tree::asp::{
    Atom, AtomicFormula, BinaryOperator, Body, Comparison, Head, Literal, PrecomputedTerm,
    Predicate, Program, Relation, Rule, Sign, Term, UnaryOperator, Variable,
};
use std::fmt::Debug;
use std::marker::PhantomData;

struct Tested<P>(PhantomData<P>);

fn tested<P: Parser>() -> Tested<P> {
    Tested(PhantomData)
}

impl<P: Parser> Tested<P>
where
    P::Node: PartialEq + Debug,
{
    fn should_parse_into<'a>(&self, examples: impl IntoIterator<Item = (&'a str, P::Node)>) -> &Self {
        for (input, expected) in examples {
            match P::parse(input) {
                Ok(output) => assert!(
                    output == expected,
                    "'{input}' is read as {output:?} instead of {expected:?}"
                ),
                Err(_) => panic!("'{input}' is rejected"),
            }
        }
        self
    }

    fn should_reject<'a>(&self, examples: impl IntoIterator<Item = &'a str>) -> &Self {
        for example in examples {
            assert!(P::parse(example).is_err(), "'{example}' is accepted");
        }
        self
    }
}

#[test]
fn parse_precomputed_term() {
    tested::<PrecomputedTermParser>()
        .should_parse_into([
            ("#inf", PrecomputedTerm::Infimum),
            ("#infimum", PrecomputedTerm::Infimum),
            ("0", PrecomputedTerm::Numeral(0)),
            ("1", PrecomputedTerm::Numeral(1)),
            ("42", PrecomputedTerm::Numeral(42)),
            ("4711", PrecomputedTerm::Numeral(4711)),
            ("-1", PrecomputedTerm::Numeral(-1)),
            ("a", PrecomputedTerm::Symbol("a".into())),
            ("aa", PrecomputedTerm::Symbol("aa".into())),
            ("aA", PrecomputedTerm::Symbol("aA".into())),
            ("_a", PrecomputedTerm::Symbol("_a".into())),
            ("a_", PrecomputedTerm::Symbol("a_".into())),
            ("noto", PrecomputedTerm::Symbol("noto".into())),
            ("#sup", PrecomputedTerm::Supremum),
            ("#supremum", PrecomputedTerm::Supremum),
        ])
        .should_reject([
            "'a",
            "_'x'_'x'_",
            "A",
            "_A",
            "4 2",
            "00",
            "-0",
            "--1",
            "a a",
            "a-a",
            "'",
            "not",
            "#",
            "#infi",
            "#supi",
            "_",
        ]);
}

#[test]
fn parse_variable() {
    tested::<VariableParser>()
        .should_parse_into([
            ("A", Variable("A".into())),
            ("AA", Variable("AA".into())),
            ("Aa", Variable("Aa".into())),
        ])
        .should_reject([
            "_",
            "a",
            "1",
            "A A",
            "A-A",
            "'",
            "-A",
            "_A",
            "'A",
            "_'X'_'X'_",
        ]);
}

#[test]
fn pest_parse_unary_operator() {
    tested::<UnaryOperatorParser>().should_parse_into([("-", UnaryOperator::Negative)]);
}

#[test]
fn parse_unary_operator() {
    tested::<fol::UnaryOperatorParser>().should_parse_into([("-", fol_tree::UnaryOperator::Negative)]);
}

#[test]
fn parse_binary_operator() {
    tested::<fol::BinaryOperatorParser>().should_parse_into([
        ("+", fol_tree::BinaryOperator::Add),
        ("-", fol_tree::BinaryOperator::Subtract),
        ("*", fol_tree::BinaryOperator::Multiply),
    ]);
}

#[test]
fn pest_parse_binary_operator() {
    tested::<BinaryOperatorParser>().should_parse_into([
        ("+", BinaryOperator::Add),
        ("-", BinaryOperator::Subtract),
        ("*", BinaryOperator::Multiply),
        ("/", BinaryOperator::Divide),
        ("\\", BinaryOperator::Modulo),
        ("..", BinaryOperator::Interval),
    ]);
}

#[test]
fn parse_term() {
    tested::<TermParser>()
        .should_parse_into([
            ("#inf", Term::PrecomputedTerm(PrecomputedTerm::Infimum)),
            ("#sup", Term::PrecomputedTerm(PrecomputedTerm::Supremum)),
            ("1", Term::PrecomputedTerm(PrecomputedTerm::Numeral(1))),
            ("(1)", Term::PrecomputedTerm(PrecomputedTerm::Numeral(1))),
            ("-1", Term::PrecomputedTerm(PrecomputedTerm::Numeral(-1))),
            (
                "-(1)",
                Term::UnaryOperation {
                    op: UnaryOperator::Negative,
                    arg: Term::PrecomputedTerm(PrecomputedTerm::Numeral(1)).into(),
                },
            ),
            (
                "--1",
                Term::UnaryOperation {
                    op: UnaryOperator::Negative,
                    arg: Term::PrecomputedTerm(PrecomputedTerm::Numeral(-1)).into(),
                },
            ),
            (
                "1 + 2",
                Term::BinaryOperation {
                    op: BinaryOperator::Add,
                    lhs: Term::PrecomputedTerm(PrecomputedTerm::Numeral(1)).into(),
                    rhs: Term::PrecomputedTerm(PrecomputedTerm::Numeral(2)).into(),
                },
            ),
            (
                "1..2",
                Term::BinaryOperation {
                    op: BinaryOperator::Interval,
                    lhs: Term::PrecomputedTerm(PrecomputedTerm::Numeral(1)).into(),
                    rhs: Term::PrecomputedTerm(PrecomputedTerm::Numeral(2)).into(),
                },
            ),
            (
                "a",
                Term::PrecomputedTerm(PrecomputedTerm::Symbol("a".into())),
            ),
            (
                "(a)",
                Term::PrecomputedTerm(PrecomputedTerm::Symbol("a".into())),
            ),
            (
                "-a",
                Term::UnaryOperation {
                    op: UnaryOperator::Negative,
                    arg: Term::PrecomputedTerm(PrecomputedTerm::Symbol("a".into())).into(),
                },
            ),
            (
                "-(a)",
                Term::UnaryOperation {
                    op: UnaryOperator::Negative,
                    arg: Term::PrecomputedTerm(PrecomputedTerm::Symbol("a".into())).into(),
                },
            ),
            (
                "--a",
                Term::UnaryOperation {
                    op: UnaryOperator::Negative,
                    arg: Term::UnaryOperation {
                        op: UnaryOperator::Negative,
                        arg: Term::PrecomputedTerm(PrecomputedTerm::Symbol("a".into())).into(),
                    }
                    .into(),
                },
            ),
            (
                "1 + a",
                Term::BinaryOperation {
                    op: BinaryOperator::Add,
                    lhs: Term::PrecomputedTerm(PrecomputedTerm::Numeral(1)).into(),
                    rhs: Term::PrecomputedTerm(PrecomputedTerm::Symbol("a".into())).into(),
                },
            ),
            (
                "1..a",
                Term::BinaryOperation {
                    op: BinaryOperator::Interval,
                    lhs: Term::PrecomputedTerm(PrecomputedTerm::Numeral(1)).into(),
                    rhs: Term::PrecomputedTerm(PrecomputedTerm::Symbol("a".into())).into(),
                },
            ),
            ("A", Term::Variable(Variable("A".into()))),
            ("(A)", Term::Variable(Variable("A".into()))),
            (
                "-A",
                Term::UnaryOperation {
                    op: UnaryOperator::Negative,
                    arg: Term::Variable(Variable("A".into())).into(),
                },
            ),
            (
                "-(A)",
                Term::UnaryOperation {
                    op: UnaryOperator::Negative,
                    arg: Term::Variable(Variable("A".into())).into(),
                },
            ),
            (
                "--A",
                Term::UnaryOperation {
                    op: UnaryOperator::Negative,
                    arg: Term::UnaryOperation {
                        op: UnaryOperator::Negative,
                        arg: Term::Variable(Variable("A".into())).into(),
                    }
                    .into(),
                },
            ),
            (
                "1 + A",
                Term::BinaryOperation {
                    op: BinaryOperator::Add,
                    lhs: Term::PrecomputedTerm(PrecomputedTerm::Numeral(1)).into(),
                    rhs: Term::Variable(Variable("A".into())).into(),
                },
            ),
            (
                "1..A",
                Term::BinaryOperation {
                    op: BinaryOperator::Interval,
                    lhs: Term::PrecomputedTerm(PrecomputedTerm::Numeral(1)).into(),
                    rhs: Term::Variable(Variable("A".into())).into(),
                },
            ),
            (
                "(1 + A) * (1 - a)",
                Term::BinaryOperation {
                    op: BinaryOperator::Multiply,
                    lhs: Term::BinaryOperation {
                        op: BinaryOperator::Add,
                        lhs: Term::PrecomputedTerm(PrecomputedTerm::Numeral(1)).into(),
                        rhs: Term::Variable(Variable("A".into())).into(),
                    }
                    .into(),
                    rhs: Term::BinaryOperation {
                        op: BinaryOperator::Subtract,
                        lhs: Term::PrecomputedTerm(PrecomputedTerm::Numeral(1)).into(),
                        rhs: Term::PrecomputedTerm(PrecomputedTerm::Symbol("a".into())).into(),
                    }
                    .into(),
                },
            ),
            (
                "((1 + 2) - 3) * 4",
                Term::BinaryOperation {
                    op: BinaryOperator::Multiply,
                    lhs: Term::BinaryOperation {
                        op: BinaryOperator::Subtract,
                        lhs: Term::BinaryOperation {
                            op: BinaryOperator::Add,
                            lhs: Term::PrecomputedTerm(PrecomputedTerm::Numeral(1)).into(),
                            rhs: Term::PrecomputedTerm(PrecomputedTerm::Numeral(2)).into(),
                        }
                        .into(),
                        rhs: Term::PrecomputedTerm(PrecomputedTerm::Numeral(3)).into(),
                    }
                    .into(),
                    rhs: Term::PrecomputedTerm(PrecomputedTerm::Numeral(4)).into(),
                },
            ),
            (
                "2 * (1..3)",
                Term::BinaryOperation {
                    op: BinaryOperator::Multiply,
                    lhs: Term::PrecomputedTerm(PrecomputedTerm::Numeral(2)).into(),
                    rhs: Term::BinaryOperation {
                        op: BinaryOperator::Interval,
                        lhs: Term::PrecomputedTerm(PrecomputedTerm::Numeral(1)).into(),
                        rhs: Term::PrecomputedTerm(PrecomputedTerm::Numeral(3)).into(),
                    }
                    .into(),
                },
            ),
            (
                "1..3..2",
                Term::BinaryOperation {
                    op: BinaryOperator::Interval,
                    lhs: Term::BinaryOperation {
                        op: BinaryOperator::Interval,
                        lhs: Term::PrecomputedTerm(PrecomputedTerm::Numeral(1)).into(),
                        rhs: Term::PrecomputedTerm(PrecomputedTerm::Numeral(3)).into(),
                    }
                    .into(),
                    rhs: Term::PrecomputedTerm(PrecomputedTerm::Numeral(2)).into(),
                },
            ),
            (
                "1 + 2 * 3",
                Term::BinaryOperation {
                    op: BinaryOperator::Add,
                    lhs: Term::PrecomputedTerm(PrecomputedTerm::Numeral(1)).into(),
                    rhs: Term::BinaryOperation {
                        op: BinaryOperator::Multiply,
                        lhs: Term::PrecomputedTerm(PrecomputedTerm::Numeral(2)).into(),
                        rhs: Term::PrecomputedTerm(PrecomputedTerm::Numeral(3)).into(),
                    }
                    .into(),
                },
            ),
            (
                "1 * 2 + 3",
                Term::BinaryOperation {
                    op: BinaryOperator::Add,
                    lhs: Term::BinaryOperation {
                        op: BinaryOperator::Multiply,
                        lhs: Term::PrecomputedTerm(PrecomputedTerm::Numeral(1)).into(),
                        rhs: Term::PrecomputedTerm(PrecomputedTerm::Numeral(2)).into(),
                    }
                    .into(),
                    rhs: Term::PrecomputedTerm(PrecomputedTerm::Numeral(3)).into(),
                },
            ),
        ])
        .should_reject([
            "1-",
            "1 +",
            "+ 1",
            "1..",
            "..1",
            "(1 + a",
            "1 + a)",
            "(1 (+ a +) 1)",
        ]);
}

#[test]
fn parse_predicate() {
    tested::<PredicateParser>()
        .should_parse_into([
            (
                "p/1",
                Predicate {
                    symbol: "p".into(),
                    arity: 1,
                },
            ),
            (
                "p_/1",
                Predicate {
                    symbol: "p_".into(),
                    arity: 1,
                },
            ),
            (
                "_p/1",
                Predicate {
                    symbol: "_p".into(),
                    arity: 1,
                },
            ),
        ])
        .should_reject(["p", "1/1", "p/00", "p/01", "_/1", "p/p"]);
}

#[test]
fn parse_atom() {
    tested::<AtomParser>()
        .should_parse_into([
            (
                "p",
                Atom {
                    predicate_symbol: "p".into(),
                    terms: vec![],
                },
            ),
            (
                "p()",
                Atom {
                    predicate_symbol: "p".into(),
                    terms: vec![],
                },
            ),
            (
                "p(1)",
                Atom {
                    predicate_symbol: "p".into(),
                    terms: vec![Term::PrecomputedTerm(PrecomputedTerm::Numeral(1))],
                },
            ),
            (
                "sqrt_b(1)",
                Atom {
                    predicate_symbol: "sqrt_b".into(),
                    terms: vec![Term::PrecomputedTerm(PrecomputedTerm::Numeral(1))],
                },
            ),
            (
                "p(1, 2)",
                Atom {
                    predicate_symbol: "p".into(),
                    terms: vec![
                        Term::PrecomputedTerm(PrecomputedTerm::Numeral(1)),
                        Term::PrecomputedTerm(PrecomputedTerm::Numeral(2)),
                    ],
                },
            ),
        ])
        .should_reject(["p(1,)", "1", "P", "p("]);
}

#[test]
fn parse_sign() {
    tested::<SignParser>()
        .should_parse_into([
            ("", Sign::NoSign),
            ("not", Sign::Negation),
            ("not  not", Sign::DoubleNegation),
        ])
        .should_reject(["notnot", "noto"]);
}

#[test]
fn parse_literal() {
    tested::<LiteralParser>().should_parse_into([
        (
            "p",
            Literal {
                sign: Sign::NoSign,
                atom: Atom {
                    predicate_symbol: "p".into(),
                    terms: vec![],
                },
            },
        ),
        (
            "not p",
            Literal {
                sign: Sign::Negation,
                atom: Atom {
                    predicate_symbol: "p".into(),
                    terms: vec![],
                },
            },
        ),
        (
            "not not p",
            Literal {
                sign: Sign::DoubleNegation,
                atom: Atom {
                    predicate_symbol: "p".into(),
                    terms: vec![],
                },
            },
        ),
        (
            "notp",
            Literal {
                sign: Sign::NoSign,
                atom: Atom {
                    predicate_symbol: "notp".into(),
                    terms: vec![],
                },
            },
        ),
    ]);
}

#[test]
fn parse_relation() {
    tested::<RelationParser>()
        .should_parse_into([
            ("=", Relation::Equal),
            ("!=", Relation::NotEqual),
            ("<", Relation::Less),
            ("<=", Relation::LessEqual),
            (">", Relation::Greater),
            (">=", Relation::GreaterEqual),
        ])
        .should_reject(["! =", "< =", "> ="]);
}

#[test]
fn parse_comparison() {
    tested::<ComparisonParser>().should_parse_into([(
        "1 < N",
        Comparison {
            relation: Relation::Less,
            lhs: Term::PrecomputedTerm(PrecomputedTerm::Numeral(1)),
            rhs: Term::Variable(Variable("N".into())),
        },
    )]);
}

#[test]
fn parse_atomic_formula() {
    tested::<AtomicFormulaParser>().should_parse_into([
        (
            "1 < N",
            AtomicFormula::Comparison(Comparison {
                relation: Relation::Less,
                lhs: Term::PrecomputedTerm(PrecomputedTerm::Numeral(1)),
                rhs: Term::Variable(Variable("N".into())),
            }),
        ),
        (
            "not p",
            AtomicFormula::Literal(Literal {
                sign: Sign::Negation,
                atom: Atom {
                    predicate_symbol: "p".into(),
                    terms: vec![],
                },
            }),
        ),
    ]);
}

#[test]
fn parse_head() {
    tested::<HeadParser>().should_parse_into([
        (
            "p",
            Head::Basic(Atom {
                predicate_symbol: "p".into(),
                terms: vec![],
            }),
        ),
        (
            "{p}",
            Head::Choice(Atom {
                predicate_symbol: "p".into(),
                terms: vec![],
            }),
        ),
        ("", Head::Falsity),
    ]);
}

#[test]
fn parse_body() {
    tested::<BodyParser>().should_parse_into([
        ("", Body { formulas: vec![] }),
        (
            "p",
            Body {
                formulas: vec![AtomicFormula::Literal(Literal {
                    sign: Sign::NoSign,
                    atom: Atom {
                        predicate_symbol: "p".into(),
                        terms: vec![],
                    },
                })],
            },
        ),
        (
            "p, N < 1",
            Body {
                formulas: vec![
                    AtomicFormula::Literal(Literal {
                        sign: Sign::NoSign,
                        atom: Atom {
                            predicate_symbol: "p".into(),
                            terms: vec![],
                        },
                    }),
                    AtomicFormula::Comparison(Comparison {
                        relation: Relation::Less,
                        lhs: Term::Variable(Variable("N".into())),
                        rhs: Term::PrecomputedTerm(PrecomputedTerm::Numeral(1)),
                    }),
                ],
            },
        ),
    ]);
}

#[test]
fn parse_rule() {
    tested::<RuleParser>()
        .should_parse_into([
            (
                ":-.",
                Rule {
                    head: Head::Falsity,
                    body: Body { formulas: vec![] },
                },
            ),
            (
                "a :- b.",
                Rule {
                    head: Head::Basic(Atom {
                        predicate_symbol: "a".into(),
                        terms: vec![],
                    }),
                    body: Body {
                        formulas: vec![AtomicFormula::Literal(Literal {
                            sign: Sign::NoSign,
                            atom: Atom {
                                predicate_symbol: "b".into(),
                                terms: vec![],
                            },
                        })],
                    },
                },
            ),
            (
                "p :- a != b.",
                Rule {
                    head: Head::Basic(Atom {
                        predicate_symbol: "p".into(),
                        terms: vec![],
                    }),
                    body: Body {
                        formulas: vec![AtomicFormula::Comparison(Comparison {
                            lhs: Term::PrecomputedTerm(PrecomputedTerm::Symbol("a".into())),
                            rhs: Term::PrecomputedTerm(PrecomputedTerm::Symbol("b".into())),
                            relation: Relation::NotEqual,
                        })],
                    },
                },
            ),
            (
                "a :-.",
                Rule {
                    head: Head::Basic(Atom {
                        predicate_symbol: "a".into(),
                        terms: vec![],
                    }),
                    body: Body { formulas: vec![] },
                },
            ),
            (
                "a.",
                Rule {
                    head: Head::Basic(Atom {
                        predicate_symbol: "a".into(),
                        terms: vec![],
                    }),
                    body: Body { formulas: vec![] },
                },
            ),
        ])
        .should_reject(["", "."]);
}

#[test]
fn parse_program() {
    tested::<ProgramParser>().should_parse_into([
        ("", Program { rules: vec![] }),
        (
            "a. b :- a.",
            Program {
                rules: vec![
                    Rule {
                        head: Head::Basic(Atom {
                            predicate_symbol: "a".into(),
                            terms: vec![],
                        }),
                        body: Body { formulas: vec![] },
                    },
                    Rule {
                        head: Head::Basic(Atom {
                            predicate_symbol: "b".into(),
                            terms: vec![],
                        }),
                        body: Body {
                            formulas: vec![AtomicFormula::Literal(Literal {
                                sign: Sign::NoSign,
                                atom: Atom {
                                    predicate_symbol: "a".into(),
                                    terms: vec![],
                                },
                            })],
                        },
                    },
                ],
            },
        ),
        (
            "a.\n",
            Program {
                rules: vec![Rule {
                    head: Head::Basic(Atom {
                        predicate_symbol: "a".into(),
                        terms: vec![],
                    }),
                    body: Body { formulas: vec![] },
                }],
            },
        ),
    ]);
}
