use anthem::formatting::asp::format_program;
use anthem::syntax_tree::{asp, fol};

#[test]
fn format_rule() {
    let rule: asp::Rule = "p(X) :- q(X), not r(X, 1 + 2).".parse().unwrap();
    assert_eq!(anthem::formatting::asp::format_rule(&rule), "p(X) :- q(X), not r(X, 1 + 2).");
}

#[test]
fn asp_rule_default_parsing_formatting_identity() {
    for src in ["p(X) :- q(X).", "p :- not q."] {
        let rule: asp::Rule = src.parse().unwrap();
        let target = anthem::formatting::asp::format_rule(&rule);

        assert_eq!(
            src.to_string(),
            target.to_string(),
            "assertion `left == right` failed:\n left:\n{src}\n right:\n{target}"
        );
    }
}

#[test]
fn format_program_of_facts_and_rules() {
    let program: asp::Program = "a. b :- not a.".parse().unwrap();
    assert_eq!(format_program(&program), "a.\nb :- not a.\n");
}

#[test]
fn annotated_formula_default_parsing_formatting_identity() {
    for src in [
        "assumption(backward)[p_or_q]: forall X ( p(X) or exists N$ ( q(N$) and N$ = X ) )",
        "spec[covered]: forall Y ( exists X ( covered(Y,X) ) )",
    ] {
        let rule: fol::AnnotatedFormula = src.parse().unwrap();
        let target = anthem::formatting::fol::format_annotated_formula(&rule);

        assert_eq!(
            src.to_string(),
            target.to_string(),
            "assertion `left == right` failed:\n left:\n{src}\n right:\n{target}"
        );
    }
}

#[test]
fn annotated_formula_layout_reads_back() {
    for src in [
        "lemma(forward)[l]: forall X$ Y ( p(X$,Y,-X$ + 1) -> exists Z ( q(Z) ) )",
        "definition: forall X (d(X) <-> not e(X) and X > 0)",
        "spec: not exists X ( p(X) or q(X) )",
    ] {
        let parsed: fol::AnnotatedFormula = src.parse().unwrap();
        let formatted = anthem::formatting::fol::format_annotated_formula(&parsed);
        let again: fol::AnnotatedFormula = formatted.parse().unwrap();
        assert_eq!(again, parsed);
    }
    let f: fol::AnnotatedFormula = "spec: forall X$ (p(X$) -> q(X$, a))".parse().unwrap();
    assert_eq!(anthem::formatting::fol::format_annotated_formula(&f), "spec: forall X$ (p(X$) -> q(X$,a))");
    let g: fol::AnnotatedFormula = "spec: forall X exists Y p(X, Y)".parse().unwrap();
    assert_eq!(anthem::formatting::fol::format_annotated_formula(&g), "spec: forall X ( exists Y ( p(X,Y) ) )");
    assert_eq!(anthem::formatting::fol::format_formula(&g.formula), "forall X exists Y p(X, Y)");
}
