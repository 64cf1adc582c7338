use anthem::verifying::problem::{Problem, Role};
use anthem::verifying::task::intuitionistic::IntuitionisticTask;
use anthem::verifying::task::Task;
use anthem::syntax_tree::{asp, fol};
use anthem::command_line::arguments::Decomposition;
use anthem::verifying::task::strong_equivalence::{transition, StrongEquivalenceTask};

#[test]
fn transition_of_predicates() {
    let p = fol::Predicate { symbol: "p".to_string(), arity: 2 };
    assert_eq!(transition(p), "forall X1 X2 (hp(X1, X2) -> tp(X1, X2))".parse::<fol::Formula>().unwrap());
    let q = fol::Predicate { symbol: "q".to_string(), arity: 0 };
    assert_eq!(transition(q), "hq -> tq".parse::<fol::Formula>().unwrap());
}

#[test]
fn transition_axioms_of_two_programs() {
    let left: asp::Program = "a :- b. c(X) :- a.".parse().unwrap();
    let right: asp::Program = "b :- d(1).".parse().unwrap();
    let task = StrongEquivalenceTask {
        left,
        right,
        decomposition: Decomposition::Independent,
        direction: fol::Direction::Universal,
        simplify: false,
        break_equivalences: false,
    };
    let axioms = task.transition_axioms();
    let expected: fol::Theory =
        "hb -> tb. ha -> ta. forall X1 (hc(X1) -> tc(X1)). forall X1 (hd(X1) -> td(X1)).".parse().unwrap();
    assert_eq!(axioms, expected);
}

#[test]
fn intuitionistic_task_gives_a_forward_and_a_backward_problem() {
    let left: asp::Program = "a :- b. a :- c.".parse().unwrap();
    let right: asp::Program = "a :- b.".parse().unwrap();
    let result = IntuitionisticTask { left, right }.decompose().unwrap();
    assert!(result.warnings.is_empty());
    let problems: Vec<Problem> = result.data;
    assert_eq!(problems.len(), 2);
    let forward = &problems[0];
    assert_eq!(forward.name.domain, "forward");
    assert_eq!(forward.name.number, vec![0, 0, 0]);
    let roles: Vec<Role> = forward.formulas.iter().map(|f| f.role).collect();
    assert_eq!(roles, vec![Role::Axiom, Role::Axiom, Role::Conjecture]);
    assert_eq!(forward.formulas[0].formula, "b -> a".parse::<fol::Formula>().unwrap());
    assert_eq!(forward.formulas[1].formula, "c -> a".parse::<fol::Formula>().unwrap());
    assert_eq!(forward.formulas[2].formula, "b -> a".parse::<fol::Formula>().unwrap());
    assert!(forward.formulas.iter().all(|f| f.name == "anf"));
    let backward = &problems[1];
    assert_eq!(backward.name.domain, "backward");
    let roles: Vec<Role> = backward.formulas.iter().map(|f| f.role).collect();
    assert_eq!(roles, vec![Role::Axiom, Role::Conjecture, Role::Conjecture]);
    assert_eq!(backward.formulas[1].formula, "b -> a".parse::<fol::Formula>().unwrap());
    assert_eq!(backward.formulas[2].formula, "c -> a".parse::<fol::Formula>().unwrap());
}

#[test]
fn strong_equivalence_task_gives_problems_in_both_directions() {
    let left: asp::Program = "a :- b.".parse().unwrap();
    let right: asp::Program = "a :- not not b.".parse().unwrap();
    let task = StrongEquivalenceTask {
        left,
        right,
        decomposition: Decomposition::Independent,
        direction: fol::Direction::Universal,
        simplify: true,
        break_equivalences: true,
    };
    let problems = task.decompose();
    assert!(!problems.is_empty());
    let first = &problems[0];
    assert_eq!(first.name.domain, "forward");
    assert_eq!(first.name.number, vec![0, 0, 0]);
    assert_eq!(first.formulas[0].name, "transition_axiom_0");
    assert_eq!(first.formulas[0].role, Role::Axiom);
    let conjectures: Vec<_> = first.formulas.iter().filter(|f| f.role == Role::Conjecture).collect();
    assert_eq!(conjectures.len(), 1);
    assert!(conjectures[0].name.starts_with("right_"));
    assert!(problems.iter().any(|p| p.name.domain == "backward"));
    assert!(problems.iter().all(|p| p.formulas.iter().filter(|f| f.role == Role::Conjecture).count() == 1));
}
