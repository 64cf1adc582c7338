use anthem::syntax_tree::{asp, fol};
use anthem::translating::completion::completion;
use anthem::translating::gamma::gamma_formula;
use anthem::translating::ordered_completion::ordered_completion;
use anthem::translating::shorthand::shorthand;
use anthem::translating::tau_star::tau_star;

fn program(s: &str) -> asp::Program {
    s.parse().unwrap()
}

fn theory(s: &str) -> fol::Theory {
    s.parse().unwrap()
}

#[test]
fn test_tau_star() {
    for (src, target) in [
        ("a:- b. a :- c.", "b -> a. c -> a."),
        ("p(a). p(b). q(X, Y) :- p(X), p(Y).", "forall V1 (V1 = a and #true -> p(V1)). forall V1 (V1 = b and #true -> p(V1)). forall V1 V2 X Y (V1 = X and V2 = Y and (exists Z (Z = X and p(Z)) and exists Z (Z = Y and p(Z))) -> q(V1,V2))."),
        ("p.", "#true -> p."),
        ("q :- not p.", "not p -> q."),
        ("{q(X)} :- p(X).", "forall V1 X (V1 = X and exists Z (Z = X and p(Z)) and not not q(V1) -> q(V1))."),
        ("{q(V)} :- p(V).", "forall V V1 (V1 = V and exists Z (Z = V and p(Z)) and not not q(V1) -> q(V1))."),
        ("{q(V+1)} :- p(V), not q(X).", "forall V V1 X (exists I$i J$i (V1 = I$i + J$i and I$i = V and J$i = 1) and (exists Z (Z = V and p(Z)) and exists Z (Z = X and not q(Z))) and not not q(V1) -> q(V1))."),
        (":- p(X,3), not q(X,a).", "forall X (exists Z Z1 (Z = X and Z1 = 3 and p(Z,Z1)) and exists Z Z1 (Z = X and Z1 = a and not q(Z,Z1)) -> #false)."),
        (":- p.", "p -> #false."),
        ("{p} :- q.", "q and not not p -> p."),
        ("{p}.", "#true and not not p -> p."),
        ("{p(5)}.", "forall V1 (V1 = 5 and #true and not not p(V1) -> p(V1))."),
        ("p. q.", "#true -> p. #true -> q."),
        ("{ra(X,a)} :- ta(X). ra(5,a).", "forall V1 V2 X (V1 = X and V2 = a and exists Z (Z = X and ta(Z)) and not not ra(V1, V2) -> ra(V1, V2)). forall V1 V2 (V1 = 5 and V2 = a and #true -> ra(V1, V2)).")
    ] {
        let program: asp::Program = src.parse().unwrap();
        let left = tau_star(program);
        let right: fol::Theory = target.parse().unwrap();

        assert!(
            left == right,
            "assertion `left == right` failed:\n left:\n{left:?}\n right:\n{right:?}"
        );
    }
}

#[test]
fn test_completion() {
    for (src, target) in [
        ("p(X) :- q(X).", "forall V1 (p(V1) <-> exists X (V1 = X and exists Z (Z = X and q(Z))))."),
        ("p(a). p(b). q(X,Y) :- p(X), p(Y).", "forall V1 (p(V1) <-> V1 = a and #true or V1 = b and #true). forall V1 V2 (q(V1, V2) <-> exists X Y (V1 = X and V2 = Y and (exists Z (Z = X and p(Z)) and exists Z (Z = Y and p(Z)))))."),
        ("{p(X+1)} :- q(X).", "forall V1 (p(V1) <-> exists X (exists I$i J$i (V1 = I$i + J$i and I$i = X and J$i = 1) and exists Z (Z = X and q(Z)) and not not p(V1)))."),
        ("r(X) :- q(X). r(G,Y) :- G < Y. r(a).", "forall V1 (r(V1) <-> exists X (V1 = X and exists Z (Z = X and q(Z))) or V1 = a and #true). forall V1 V2 (r(V1,V2) <-> exists G Y (V1 = G and V2 = Y and exists Z Z1 (Z = G and Z1 = Y and Z < Z1) ) )."),
        ("composite(I*J) :- I>1, J>1. prime(I) :- I = 2..n, not composite(I).", "forall V1 (composite(V1) <-> exists I J (exists I1$i J1$i (V1 = I1$i * J1$i and I1$i = I and J1$i = J) and (exists Z Z1 (Z = I and Z1 = 1 and Z > Z1) and exists Z Z1 (Z = J and Z1 = 1 and Z > Z1)))). forall V1 (prime(V1) <-> exists I (V1 = I and (exists Z Z1 (Z = I and exists I$i J$i K$i (I$i = 2 and J$i = n and Z1 = K$i and I$i <= K$i <= J$i) and Z = Z1) and exists Z (Z = I and not composite(Z)))))."),
        ("p :- q, not t. p :- r. r :- t.", "p <-> (q and not t) or (r). r <-> t."),
        ("p. p(a). :- q.", "q -> #false. p <-> #true. forall V1 (p(V1) <-> V1 = a and #true)."),
    ] {
        let left = completion(tau_star(program(src))).unwrap();
        let right = theory(target);

        assert!(
            left == right,
            "assertion `left == right` failed:\n left:\n{left:?}\n right:\n{right:?}"
        );
    }
}

#[test]
fn test_ordered_completion() {
    for (src, target) in [
        ("p :- q.", "p <- q. p -> q and less_q_p."),
        ("p(X) :- q.", "forall V1 (p(V1) <- exists X (V1 = X and q)). forall V1 (p(V1) -> exists X (V1 = X and (q and less_q_p(V1))))."),
        ("p(X) :- q(X).", "forall V1 (p(V1) <- exists X (V1 = X and exists Z (Z = X and q(Z)))). forall V1 (p(V1) -> exists X (V1 = X and exists Z (Z = X and (q(Z) and less_q_p(Z, V1)))))."),
        ("p(X) :- q(X). p(X) :- not r(X).", "forall V1 (p(V1) <- exists X (V1 = X and exists Z (Z = X and q(Z))) or exists X (V1 = X and exists Z (Z = X and not r(Z)))). forall V1 (p(V1) -> exists X (V1 = X and exists Z (Z = X and (q(Z) and less_q_p(Z, V1)))) or exists X (V1 = X and exists Z (Z = X and not r(Z))))."),
        ("p(X) :- q(X-1). {p(X)} :- r(X,Y).", "forall V1 (p(V1) <- exists X (V1 = X and exists Z (exists I$i J$i (Z = I$i - J$i and I$i = X and J$i = 1) and q(Z))) or exists X Y (V1 = X and exists Z Z1 (Z = X and Z1 = Y and r(Z, Z1)) and not not p(V1))). forall V1 (p(V1) -> exists X (V1 = X and exists Z (exists I$i J$i (Z = I$i - J$i and I$i = X and J$i = 1) and (q(Z) and less_q_p(Z, V1)))) or exists X Y (V1 = X and exists Z Z1 (Z = X and Z1 = Y and (r(Z, Z1) and less_r_p(Z, Z1, V1))) and not not p(V1)))."),
        ("t(X,Y) :- e(X,Y). t(X,Z) :- e(X,Y), t(Y,Z).", "forall V1 V2 (t(V1, V2) <- exists X Y (V1 = X and V2 = Y and exists Z Z1 (Z = X and Z1 = Y and e(Z, Z1))) or exists X Z Y (V1 = X and V2 = Z and (exists Z Z1 (Z = X and Z1 = Y and e(Z, Z1)) and exists Z1 Z2 (Z1 = Y and Z2 = Z and t(Z1, Z2))))). forall V1 V2 (t(V1, V2) -> exists X Y (V1 = X and V2 = Y and exists Z Z1 (Z = X and Z1 = Y and (e(Z, Z1) and less_e_t(Z, Z1, V1, V2)))) or exists X Z Y (V1 = X and V2 = Z and (exists Z Z1 (Z = X and Z1 = Y and (e(Z, Z1) and less_e_t(Z, Z1, V1, V2))) and exists Z1 Z2 (Z1 = Y and Z2 = Z and (t(Z1, Z2) and less_t_t(Z1, Z2, V1, V2))))))."),
    ] {
        let left = ordered_completion(tau_star(program(src))).unwrap();
        let right = theory(target);

        assert!(
            left == right,
            "assertion `left == right` failed:\n left:\n{left:?}\n right:\n{right:?}"
        );
    }
}

#[test]
fn test_ordered_completion_incompletable() {
    for src in [
        "forall X (p(X, a) <- q(X)).",
        "forall X (p(X, X) <- q(X)).",
        "forall X (p(X) <- q(X,Y)).",
        "forall V1 V2 (p(V1, V2) <- t). forall V1 X (p(V1, X) <- q).",
    ] {
        let t = theory(src);
        assert!(
            ordered_completion(t.clone()).is_none(),
            "`{t:?}` should not be completable"
        );
    }
}

#[test]
fn test_simplify() {
    for (src, target) in [
        ("#true", "#true"),
        ("a", "ha"),
        ("a(a)", "ha(a)"),
        ("X > 1", "X > 1"),
        ("not a", "not ta"),
        ("not X > 1", "not X > 1"),
        ("a and not b", "ha and not tb"),
        ("a or not b", "ha or not tb"),
        ("a -> b", "(ha -> hb) and (ta -> tb)"),
        ("a <- b", "(ha <- hb) and (ta <- tb)"),
        ("a <-> b", "(ha <-> hb) and (ta <-> tb)"),
        ("forall X p(X)", "forall X hp(X)"),
        ("exists X p(X)", "exists X hp(X)"),
    ] {
        let f: fol::Formula = src.parse().unwrap();
        let g: fol::Formula = target.parse().unwrap();
        assert_eq!(gamma_formula(f), g)
    }
}

#[test]
fn test_shorthand() {
    for (src, target) in [
        ("a:- b. a :- c.", "b -> a. c -> a."),
        (
            "p(a). p(b). q(X, Y) :- p(X), p(Y).",
            "p(a). p(b). forall X Y (p(X) and p(Y) -> q(X,Y)).",
        ),
        ("p.", "p."),
        ("q :- not p.", "not p -> q."),
        (
            "{q(X)} :- p(X).",
            "forall X (p(X) and not not q(X) -> q(X)).",
        ),
        (":- p.", "p -> #false."),
        ("{p} :- q.", "q and not not p -> p."),
        ("{p}.", "#true and not not p -> p."),
        ("p. q.", "p. q."),
        (
            "{ra(X,a)} :- ta(X). ra(b,a).",
            "forall X ( ta(X) and not not ra(X,a) -> ra(X,a) ). ra(b,a).",
        ),
    ] {
        let left = shorthand(program(src));
        let right = theory(target);

        assert!(
            left == right,
            "assertion `left == right` failed:\n left:\n{left:?}\n right:\n{right:?}"
        );
    }
}

#[test]
fn test_val() {
    for (term, var, target) in [
        ("X + 1", "Z1", "exists I$i J$i (Z1$g = I$i + J$i and I$i = X and J$i = 1)"),
        ("3 - 5", "Z1", "exists I$i J$i (Z1$g = I$i - J$i and I$i = 3 and J$i = 5)"),
        ("Xanadu/Yak", "Z1", "exists I$i J$i Q$i R$i (I$i = J$i * Q$i + R$i and (I$i = Xanadu and J$i = Yak) and (J$i != 0 and R$i >= 0 and R$i < Q$i) and Z1$g = Q$i)"),
        ("X \\ 3", "Z1", "exists I$i J$i Q$i R$i (I$i = J$i * Q$i + R$i and (I$i = X and J$i = 3) and (J$i != 0 and R$i >= 0 and R$i < Q$i) and Z1$g = R$i)"),
        ("X..Y", "Z", "exists I$i J$i K$i (I$i = X and J$i = Y and Z$g = K$i and I$i <= K$i <= J$i)"),
        ("X+1..Y", "Z1", "exists I$i J$i K$i ((exists I1$i J$i (I$i = I1$i + J$i and I1$i = X and J$i = 1)) and J$i = Y and Z1 = K$i and I$i <= K$i <= J$i)"),
    ] {
        let t: asp::Term = term.parse().unwrap();
        let z: fol::Variable = var.parse().unwrap();
        let left = anthem::translating::tau_star::val(&t, &z);
        let right: fol::Formula = target.parse().unwrap();
        assert!(left == right, "assertion `left == right` failed:\n left:\n{left:?}\n right:\n{right:?}");
    }
}

#[test]
fn test_tau_b() {
    for (src, target) in [
        ("p(t)", "exists Z (Z = t and p(Z))"),
        ("not p(t)", "exists Z (Z = t and not p(Z))"),
        ("X < 1..5", "exists Z Z1 (Z = X and exists I$i J$i K$i (I$i = 1 and J$i = 5 and Z1 = K$i and I$i <= K$i <= J$i) and Z < Z1)"),
        ("not not p(t)", "exists Z (Z = t and not not p(Z))"),
        ("not not x", "not not x"),
        ("not p(X,5)", "exists Z Z1 (Z = X and Z1 = 5 and not p(Z,Z1))"),
        ("not p(X,0-5)", "exists Z Z1 (Z = X and exists I$i J$i (Z1 = I$i - J$i and I$i = 0 and J$i = 5) and not p(Z,Z1))"),
        ("p(X,-1..5)", "exists Z Z1 (Z = X and exists I$i J$i K$i (I$i = -1 and J$i = 5 and Z1 = K$i and I$i <= K$i <= J$i) and p(Z,Z1))"),
        ("p(X,-(1..5))", "exists Z Z1 (Z = X and exists I$i J$i (Z1 = I$i - J$i and I$i = 0 and exists I$i J1$i K$i (I$i = 1 and J1$i = 5  and J$i = K$i and I$i <= K$i <= J1$i)) and p(Z,Z1))"),
    ] {
        let f: asp::AtomicFormula = src.parse().unwrap();
        let left = anthem::translating::tau_star::tau_b(&f);
        let right: fol::Formula = target.parse().unwrap();
        assert!(left == right, "assertion `left == right` failed:\n left:\n{left:?}\n right:\n{right:?}");
    }
}
