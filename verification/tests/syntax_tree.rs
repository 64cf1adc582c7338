use anthem::syntax_tree::fol::{Formula, GeneralTerm, Variable};

fn formula(s: &str) -> Formula {
    s.parse().unwrap()
}

#[test]
fn test_formula_conjoin() {
    for (src, target) in [
        (vec![], "#true"),
        (vec!["X = Y"], "X = Y"),
        (vec!["X = Y", "p(a)", "q(X)"], "(X = Y and p(a)) and q(X)"),
    ] {
        assert_eq!(
            Formula::conjoin(src.iter().map(|x| formula(x)).collect()),
            formula(target),
        )
    }
}

#[test]
fn test_formula_disjoin() {
    for (src, target) in [
        (vec![], "#false"),
        (vec!["X = Y"], "X = Y"),
        (vec!["X = Y", "p(a)", "q(X)"], "(X = Y or p(a)) or q(X)"),
    ] {
        assert_eq!(
            Formula::disjoin(src.iter().map(|x| formula(x)).collect()),
            formula(target),
        )
    }
}

#[test]
fn test_formula_substitute() {
    for (src, var, term, target) in [
        ("p(X)", "X", "s", "p(s)"),
        ("p(X)", "X", "5", "p(5)"),
        ("prime(-X$i + 13)", "X$i", "3*Y$i", "prime(-(3*Y$i) + 13)"),
        ("prime(X$i, X)", "X$i", "Y$i", "prime(Y$i, X)"),
        ("exists X (X = Y)", "Y", "3", "exists X (X = 3)"),
        ("forall X p(X)", "X", "1", "forall X p(X)"),
        (
            "exists X (X = Y)",
            "Y",
            "X$i + 3",
            "exists X (X = (X$i + 3))",
        ),
        (
            "forall X (q(Y) or exists Y (p(1,Y) and X > Y))",
            "Y",
            "a",
            "forall X (q(a) or exists Y (p(1,Y) and X > Y))",
        ),
        (
            "forall X (q(Y$i) or exists Z (p(1,Z) and X > Y$i > Z))",
            "Y$i",
            "4",
            "forall X (q(4) or exists Z (p(1,Z) and X > 4 > Z))",
        ),
        (
            "exists J$i (J$i = N$i and Z = Z1)",
            "Z",
            "I",
            "exists J$i (J$i = N$i and I = Z1)",
        ),
    ] {
        let v: Variable = var.parse().unwrap();
        let t: GeneralTerm = term.parse().unwrap();
        assert_eq!(formula(src).substitute(v, t), formula(target))
    }
}

#[test]
fn test_formula_free_variables() {
    for (src, target) in [
        ("forall X (X = Y)", vec!["Y"]),
        ("forall X (X = Y) and Y = Z", vec!["Y", "Z"]),
        ("forall X exists Y (X = Y)", vec![]),
    ] {
        assert_eq!(
            formula(src).free_variables(),
            target.iter().map(|x| x.parse().unwrap()).collect::<Vec<Variable>>(),
        )
    }
}
