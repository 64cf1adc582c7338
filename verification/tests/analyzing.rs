use anthem::analyzing::private_recursion::PrivateRecursion;
use anthem::analyzing::tightness::Tightness;
use anthem::syntax_tree::asp::{Predicate, Program};
use std::str::FromStr;

fn predicates(ps: &[&str]) -> Vec<Predicate> {
    ps.iter().map(|p| p.parse().unwrap()).collect()
}

#[test]
fn tightness_test_tightness() {
    for program in ["a.", "a :- not a.", "a :- not b. b :- not a.", "p(a) :- p.", "p(X) :- not q(X). q(X) :- p(X)."] {
        assert!(Program::from_str(program).unwrap().is_tight())
    }
    for program in ["a :- a.", "a :- b. b :- a.", "p :- q, not r. p :- r. r :- p."] {
        assert!(!Program::from_str(program).unwrap().is_tight())
    }
}

#[test]
fn tightness_test_private_recursion() {
    for program in ["a :- not b. b :- not a.", "a :- p(1). p(X) :- q(X)."] {
        assert!(Program::from_str(program).unwrap().private_recursion_free(predicates(&["a/0", "p/1"])))
    }
    for program in ["{a}.", "a :- not a.", "{p(X)} :- not not p(X). b :- a.", "a :- not b. b :- not a."] {
        assert!(!Program::from_str(program).unwrap().private_recursion_free(predicates(&["a/0", "b/0", "p/1"])))
    }
}

#[test]
fn mod_test_tightness() {
    assert!(!Program::from_str("a :- b. b :- a.").unwrap().is_tight());
    assert!(Program::from_str("a :- not b. b :- not a.").unwrap().is_tight());
}

#[test]
fn private_recursion_test_private_recursion() {
    let private_predicates = predicates(&["a/0", "b/0", "p/1"]);
    for program in ["a :- not c. c :- not a.", "a :- p(1). p(X) :- q(X)."] {
        assert!(!Program::from_str(program).unwrap().has_private_recursion(&private_predicates))
    }
    for program in ["{a}.", "a :- not a.", "a :- not not a.", "a :- not b. b :- not a.", "{p(X)} :- not not p(X). b :- a."] {
        assert!(Program::from_str(program).unwrap().has_private_recursion(&private_predicates))
    }
}

#[test]
fn tightness_of_longer_cycle_and_constraints() {
    assert!(!Program::from_str("a :- b. b :- c. c :- a.").unwrap().is_tight());
    assert!(Program::from_str("a :- b. b :- c. :- a.").unwrap().is_tight());
    assert!(Program::from_str("").unwrap().is_tight());
}
