use anthem::breaking::fol::ht::break_equivalences;
use anthem::convenience::apply::Apply;
use anthem::simplifying::fol::classic::{remove_double_negation, simplify_formula};
use anthem::syntax_tree::fol::{AnnotatedFormula, Formula, Theory};

#[test]
fn test_eliminate_double_negation() {
    assert_eq!(
        simplify_formula("not not a".parse::<Formula>().unwrap()),
        "a".parse().unwrap()
    )
}

#[test]
fn remove_double_negation_only_at_the_root() {
    let f: Formula = "p and not not q".parse().unwrap();
    assert_eq!(remove_double_negation(f.clone()), f);
    let g: Formula = "not not (p and not not q)".parse().unwrap();
    assert_eq!(remove_double_negation(g), "p and not not q".parse().unwrap());
    let h: Formula = "not not not p".parse().unwrap();
    assert_eq!(simplify_formula(h), "not p".parse().unwrap());
}

#[test]
fn ht_test_break_equivalences() {
    for (src, target) in [
        ("p <-> q", "p -> q. p <- q."),
        ("p(X) <-> q(X)", "p(X) -> q(X). p(X) <- q(X)."),
        ("forall X (p(X) <-> q(X))", "forall X (p(X) -> q(X)). forall X (p(X) <- q(X))."),
        ("forall X (forall Y (p(X, Y) <-> q(X, Y)))", "forall X (forall Y (p(X, Y) -> q(X, Y))). forall X (forall Y (p(X, Y) <- q(X, Y)))."),
    ] {
        let src: Formula = src.parse().unwrap();
        let target: Theory = target.parse().unwrap();
        assert_eq!(break_equivalences(src), target)
    }
}

#[test]
fn test_break_equivalences_some() {
    for (src, target) in [
        (
            "forall X (p(X) <-> q(X))",
            ["forall X (p(X) -> q(X))", "forall X (p(X) <- q(X))"],
        ),
        (
            "forall X ((p(X) and q) <-> t)",
            [
                "forall X ((p(X) and q) -> t)",
                "forall X ((p(X) and q) <- t)",
            ],
        ),
        ("p <-> q", ["p -> q", "p <- q"]),
        ("p <-> q or t", ["p -> q or t", "p <- q or t"]),
        ("p(X) <-> q(X)", ["p(X) -> q(X)", "p(X) <- q(X)"]),
    ] {
        let f: Formula = src.parse().unwrap();
        let result: Option<Vec<Formula>> =
            Some(vec![target[0].parse().unwrap(), target[1].parse().unwrap()]);
        assert_eq!(result, f.break_equivalences())
    }
}

#[test]
fn test_break_equivalences_none() {
    for src in [
        "forall X (p(X) -> q(X))",
        "q(a)",
        "forall X (p(X) and (q <-> t))",
    ] {
        let f: Formula = src.parse().unwrap();
        assert_eq!(None, f.break_equivalences())
    }
}

#[test]
fn mod_test_break_equivalences() {
    for (src, target) in [
        (
            "spec(forward)[p_def]: forall X (p(X) <-> q(X))",
            [
                "spec(forward)[p_def_forward]: forall X (p(X) -> q(X))",
                "spec(forward)[p_def_backward]: forall X (p(X) <- q(X))",
            ],
        ),
        (
            "assumption: p <-> q",
            [
                "assumption(universal)[_forward]: p -> q",
                "assumption(universal)[_backward]: p <- q",
            ],
        ),
        (
            "lemma[pqt]: forall X (p(X) and (q <-> t))",
            ["lemma[pqt]: forall X (p(X) and (q <-> t))", ""],
        ),
    ] {
        let f: AnnotatedFormula = src.parse().unwrap();
        let mut result: Vec<AnnotatedFormula> = Vec::new();
        for t in target {
            if !t.is_empty() {
                result.push(t.parse().unwrap());
            }
        }
        assert_eq!(
            result,
            f.clone().break_equivalences(),
            "left != right:\n {:?} \n!=\n {:?}",
            result,
            f.break_equivalences()
        )
    }
}

#[test]
fn replacement_helper_replaces_general_by_integer_variable() {
    use_replacement_helper();
}

fn use_replacement_helper() {
    let ivar: anthem::syntax_tree::fol::Variable = "I$i".parse().unwrap();
    let ovar: anthem::syntax_tree::fol::Variable = "X".parse().unwrap();
    let formula: Formula = "exists X (X = I$i and p(X))".parse().unwrap();
    let matching: anthem::syntax_tree::fol::Comparison = "X = I$i".parse().unwrap();
    let (replaced, done) = anthem::simplifying::fol::replacement_helper(&ivar, &ovar, &matching, &formula);
    assert!(done);
    assert_eq!(replaced, "exists I1$i (I1$i = I$i and p(I1$i))".parse().unwrap());
    let flipped: anthem::syntax_tree::fol::Comparison = "I$i = X".parse().unwrap();
    assert!(anthem::simplifying::fol::replacement_helper(&ivar, &ovar, &flipped, &formula).1);
    let other: anthem::syntax_tree::fol::Comparison = "X = 5".parse().unwrap();
    assert_eq!(anthem::simplifying::fol::replacement_helper(&ivar, &ovar, &other, &formula), (formula.clone(), false));
}

#[test]
fn apply_reaches_every_node_from_the_leaves_up() {
    let f: Formula = "not not (p and not not q)".parse().unwrap();
    assert_eq!(f.clone().apply(&|x| x), f);
    assert_eq!(f.apply(&remove_double_negation), "p and q".parse().unwrap());
    let g: Formula = "forall X (not not p(X) or not not not q)".parse().unwrap();
    assert_eq!(g.apply(&remove_double_negation), "forall X (p(X) or not q)".parse().unwrap());
}
