use anthem::syntax::asp::parsing::{Parser, Rule};

fn recognize(rule: Rule, accept: Vec<&str>, reject: Vec<&str>) {
    for example in accept {
        assert!(
            Parser::recognize(rule, example),
            "assertion failed: rule {rule:?} rejects '{example}'"
        );
    }

    for example in reject {
        assert!(
            !Parser::recognize(rule, example),
            "assertion failed: rule {rule:?} accepts '{example}'"
        );
    }
}

#[test]
fn recognize_constant_infimum() {
    recognize(Rule::Infimum, vec!["#inf", "#infimum"], vec![]);
}

#[test]
fn recognize_constant_integer() {
    recognize(
        Rule::Integer,
        vec!["0", "1", "42", "4711", "-1"],
        vec!["a", "A", "4 2", "00", "-0", "--1"],
    );
}

#[test]
fn recognize_constant_symbol() {
    recognize(
        Rule::Constant,
        vec!["a", "aa", "aA", "_a", "'a", "_'x'_'x'_", "noto"],
        vec!["A", "1", "a a", "a-a", "'", "not"],
    );
}

#[test]
fn recognize_constant_supremum() {
    recognize(Rule::Supremum, vec!["#sup", "#supremum"], vec![]);
}

#[test]
fn recognize_infimum() {
    recognize(Rule::Infimum, vec!["#inf", "#infimum"], vec![])
}

#[test]
fn recognize_supremum() {
    recognize(Rule::Supremum, vec!["#sup", "#supremum"], vec![])
}

#[test]
fn recognize_numeral() {
    recognize(
        Rule::Numeral,
        vec!["0", "1", "42", "4711"],
        vec!["a", "A", "4 2", "00"],
    )
}

#[test]
fn recognize_constant() {
    recognize(
        Rule::Constant,
        vec!["a", "aa", "aA", "_a", "'a", "_'x'_'x'_", "noto"],
        vec!["A", "1", "a a", "a-a", "'", "not"],
    )
}

#[test]
fn recognize_variable() {
    recognize(
        Rule::Variable,
        vec!["A", "AA", "Aa", "_A", "'A", "_'X'_'X'_"],
        vec!["a", "1", "A A", "A-A", "'"],
    )
}

#[test]
fn recognize_term() {
    recognize(
        Rule::Term,
        vec![
            "#inf",
            "1",
            "a",
            "A",
            "-1",
            "-a",
            "-A",
            "1 + 1",
            "1 + a",
            "1 + A",
            "1..1",
            "1..a",
            "1..A",
            "--1",
            "(1)",
            "(a)",
            "(A)",
            "(1 + A) * (1 - a)",
            "((1 + 2) - 3) * 4",
            "2 * (1..3)",
            "1..3..2",
        ],
        vec![
            "1-",
            "1 +",
            "+ 1",
            "1..",
            "..1",
            "(1 + a",
            "1 + a)",
            "(1 (+ a +) 1)",
        ],
    )
}
