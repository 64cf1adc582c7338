use anthem::syntax_tree::fol::Formula;
use anthem::verifying::problem::{AnnotatedFormula, Problem, ProblemNameTPTP, Role};
use anthem::verifying::prover::{Report, VampireOutput, VampireReport};
use anthem::verifying::prover::{
    core_count, instance_count, Failure, Status, StatusExtractionError, Success, Vampire,
};

#[test]
fn status_from_prover_output() {
    let output = "% Running in auto input_syntax mode.\n% SZS status Theorem for forward_001\n% Refutation found.\n";
    assert_eq!(output.parse::<Status>(), Ok(Status::Success(Success::Theorem)));
    assert_eq!(Status::from_output("% SZS status Timeout for p\n"), Ok(Status::Failure(Failure::TimeOut)));
    assert_eq!(Status::from_output("x\n% SZS status GaveUp for \n"), Ok(Status::Failure(Failure::GaveUp)));
    assert_eq!(Status::from_output("% SZS status CounterSatisfiable for p"), Ok(Status::Success(Success::CounterSatisfiable)));
}

#[test]
fn status_missing_or_unknown() {
    assert_eq!(Status::from_output(""), Err(StatusExtractionError::Missing));
    assert_eq!(Status::from_output("% SZS status Theorem for"), Err(StatusExtractionError::Missing));
    assert_eq!(Status::from_output(" % SZS status Theorem for p"), Err(StatusExtractionError::Missing));
    assert_eq!(Status::from_output("% SZS status Theorem for p q"), Err(StatusExtractionError::Missing));
    assert_eq!(
        Status::from_output("% SZS status Unsatisfiable for p\n"),
        Err(StatusExtractionError::Unknown("Unsatisfiable".to_string()))
    );
    assert_eq!(
        Status::from_output("% SZS status Unknown for p\n% SZS status Theorem for p\n"),
        Err(StatusExtractionError::Unknown("Unknown".to_string()))
    );
}

#[test]
fn status_names_read_back() {
    for status in [
        Status::Success(Success::Theorem),
        Status::Success(Success::CounterSatisfiable),
        Status::Success(Success::ContradictoryAxioms),
        Status::Failure(Failure::TimeOut),
        Status::Failure(Failure::MemoryOut),
        Status::Failure(Failure::GaveUp),
        Status::Failure(Failure::Error),
    ] {
        let line = format!("% SZS status {} for p", status.to_text());
        assert_eq!(Status::from_output(&line), Ok(status));
    }
}

#[test]
fn instances_and_cores() {
    assert_eq!(core_count(4, 16), 4);
    assert_eq!(core_count(0, 16), 16);
    assert_eq!(instance_count(3, 2, 16), 3);
    assert_eq!(instance_count(0, 4, 16), 4);
    assert_eq!(instance_count(0, 32, 16), 1);
    let v = Vampire { time_limit: 60, time_execution: false, instances: 2, cores: 3 };
    assert_eq!(v.instances(), 2);
    assert_eq!(v.cores(), 3);
    let w = Vampire { time_limit: 60, time_execution: false, instances: 0, cores: 0 };
    assert!(w.instances() >= 1);
    assert!(w.cores() >= 1);
}

fn report_problem() -> Problem {
    let premise: Formula = "forall X (p(X) -> q(X))".parse().unwrap();
    let conjecture: Formula = "q(a)".parse().unwrap();
    let other: Formula = "p(a)".parse().unwrap();
    Problem::with_name(ProblemNameTPTP { domain: "forward".to_string(), number: vec![0, 1, 2] }).add_annotated_formulas(vec![
        AnnotatedFormula { name: "a".to_string(), role: Role::Axiom, formula: premise },
        AnnotatedFormula { name: "c".to_string(), role: Role::Conjecture, formula: conjecture },
        AnnotatedFormula { name: "b".to_string(), role: Role::Axiom, formula: other },
    ])
}

#[test]
fn report_of_a_proved_problem() {
    let report = VampireReport {
        problem: report_problem(),
        output: VampireOutput { stdout: "% SZS status Theorem for forward012\n".to_string(), stderr: String::new() },
        elapsed_time: Some(42),
    };
    assert_eq!(report.status(), Ok(Status::Success(Success::Theorem)));
    assert_eq!(
        report.to_text(),
        "--- forward012 ---\n\naxioms:\n    forall X (p(X) -> q(X))\n    p(a)\n\nconjectures:\n    q(a)\n\nstatus: Theorem(42 ms)\n"
    );
}

#[test]
fn report_without_a_status() {
    let missing = VampireReport {
        problem: report_problem(),
        output: VampireOutput { stdout: "nothing here\n".to_string(), stderr: String::new() },
        elapsed_time: None,
    };
    assert_eq!(missing.status(), Err(StatusExtractionError::Missing));
    assert!(missing.to_text().ends_with("q(a)\n\nerror: the status of verifying this problem is missing\n"));
    let unknown = VampireReport {
        problem: report_problem(),
        output: VampireOutput { stdout: "% SZS status Odd for x\n".to_string(), stderr: String::new() },
        elapsed_time: Some(7),
    };
    assert!(unknown.to_text().ends_with("error: the status of verifying this problem is not recognized: `Odd`(7 ms)\n"));
}

#[test]
fn vampire_arguments() {
    let v = Vampire { time_limit: 300, time_execution: false, instances: 1, cores: 4 };
    assert_eq!(v.arguments(), vec!["--mode", "casc", "--time_limit", "300", "--cores", "4"]);
}
