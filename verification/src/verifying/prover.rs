//! What a theorem prover reports: the SZS status in its output, and how many
//! prover instances and cores to use.

use crate::convenience::sets::views;
use crate::convenience::text::{compare_strings, decimal, integer_text, numbered, push_decimal};
use crate::formatting::fol::{format_formula, formula_text};
use crate::verifying::problem::{self, with_role, Problem, ProblemModel, ProblemNameModel};
use vstd::prelude::*;

verus! {

#[derive(Copy, Clone, Debug, PartialEq, Eq, Structural)]
pub enum Success {
    Theorem,
    CounterSatisfiable,
    ContradictoryAxioms,
}

#[derive(Copy, Clone, Debug, PartialEq, Eq, Structural)]
pub enum Failure {
    TimeOut,
    MemoryOut,
    GaveUp,
    Error,
}

/// The outcome of an attempt to prove a problem.
#[derive(Copy, Clone, Debug, PartialEq, Eq, Structural)]
pub enum Status {
    Success(Success),
    Failure(Failure),
}

/// Why no status could be read from the output of a prover.
#[derive(Debug, PartialEq, Eq)]
pub enum StatusExtractionError {
    Missing,
    Unknown(String),
}

pub enum StatusExtractionErrorModel {
    Missing,
    Unknown(Seq<char>),
}

impl View for StatusExtractionError {
    type V = StatusExtractionErrorModel;
    open spec fn view(&self) -> StatusExtractionErrorModel {
        match self {
            StatusExtractionError::Missing => StatusExtractionErrorModel::Missing,
            StatusExtractionError::Unknown(s) => StatusExtractionErrorModel::Unknown(s@),
        }
    }
}

// ================================================================ the status line

/// A word character in the sense of `[[:word:]]`: an ASCII letter or digit, or `_`.
pub open spec fn is_word_char(c: char) -> bool {
    ('0' <= c && c <= '9') || ('a' <= c && c <= 'z') || ('A' <= c && c <= 'Z') || c == '_'
}

/// The number of word characters at the start of `s`.
pub open spec fn word_length(s: Seq<char>) -> nat
    decreases s.len(),
{
    if s.len() > 0 && is_word_char(s[0]) { 1 + word_length(s.drop_first()) } else { 0 }
}

/// The number of characters before the first line feed.
pub open spec fn line_length(s: Seq<char>) -> nat
    decreases s.len(),
{
    if s.len() > 0 && s[0] != '\n' { 1 + line_length(s.drop_first()) } else { 0 }
}

/// The status of a line of the form `% SZS status STATUS for PROBLEM`, where
/// `STATUS` is one or more word characters and `PROBLEM` is made of word
/// characters.
pub open spec fn line_status(line: Seq<char>) -> Option<Seq<char>> {
    let prefix = "% SZS status "@;
    let rest = line.skip(prefix.len() as int);
    let w = word_length(rest);
    let tail = rest.skip(w as int);
    let separator = " for "@;
    let problem = tail.skip(separator.len() as int);
    if line.len() >= prefix.len() && line.take(prefix.len() as int) == prefix && w > 0
        && tail.len() >= separator.len() && tail.take(separator.len() as int) == separator
        && word_length(problem) == problem.len() {
        Some(rest.take(w as int))
    } else {
        None
    }
}

/// The status of the first status line of a text whose lines end with line feeds.
pub open spec fn szs_status(s: Seq<char>) -> Option<Seq<char>>
    decreases s.len(),
{
    let n = line_length(s);
    if line_status(s.take(n as int)) is Some {
        line_status(s.take(n as int))
    } else if n >= s.len() {
        None
    } else {
        szs_status(s.skip(n as int + 1))
    }
}

/// Runs the expression `(?m)^% SZS status (?<status>[[:word:]]+) for
/// (?<problem>[[:word:]]*)$` of the `regex` crate over the output of a prover
/// and gives the text of the group `status` of the first match. In multi-line
/// mode `^` and `$` match at the start and end of the text and next to each
/// line feed, and `[[:word:]]` is the ASCII class `[0-9A-Za-z_]`; none of the
/// parts of the expression matches a line feed. So the first match is the
/// first line of that form, and the group holds its status word.
#[verifier::external_body]
fn status_word(output: &str) -> (r: Option<String>)
    ensures
        r is Some <==> szs_status(output@) is Some,
        r matches Some(w) ==> szs_status(output@) == Some(w@),
{
    let expression = regex::Regex::new(r"(?m)^% SZS status (?<status>[[:word:]]+) for (?<problem>[[:word:]]*)$").unwrap();
    expression.captures(output).map(|c| c["status"].to_string())
}

/// The status that a status word names.
pub open spec fn status_named(w: Seq<char>) -> Option<Status> {
    if w == "Theorem"@ {
        Some(Status::Success(Success::Theorem))
    } else if w == "CounterSatisfiable"@ {
        Some(Status::Success(Success::CounterSatisfiable))
    } else if w == "ContradictoryAxioms"@ {
        Some(Status::Success(Success::ContradictoryAxioms))
    } else if w == "Timeout"@ {
        Some(Status::Failure(Failure::TimeOut))
    } else if w == "MemoryOut"@ {
        Some(Status::Failure(Failure::MemoryOut))
    } else if w == "GaveUp"@ {
        Some(Status::Failure(Failure::GaveUp))
    } else if w == "Error"@ {
        Some(Status::Failure(Failure::Error))
    } else {
        None
    }
}

fn is(w: &String, name: &str) -> (r: bool)
    ensures
        r == (w@ == name@),
{
    compare_strings(w, &String::from_str(name)) == 0
}

/// The status that a status word names; an error for a word that names none.
pub fn status_of_word(w: String) -> (r: Result<Status, StatusExtractionError>)
    ensures
        match status_named(w@) {
            Some(s) => r == Ok::<Status, StatusExtractionError>(s),
            None => r matches Err(e) && e@ == StatusExtractionErrorModel::Unknown(w@),
        },
{
    if is(&w, "Theorem") {
        Ok(Status::Success(Success::Theorem))
    } else if is(&w, "CounterSatisfiable") {
        Ok(Status::Success(Success::CounterSatisfiable))
    } else if is(&w, "ContradictoryAxioms") {
        Ok(Status::Success(Success::ContradictoryAxioms))
    } else if is(&w, "Timeout") {
        Ok(Status::Failure(Failure::TimeOut))
    } else if is(&w, "MemoryOut") {
        Ok(Status::Failure(Failure::MemoryOut))
    } else if is(&w, "GaveUp") {
        Ok(Status::Failure(Failure::GaveUp))
    } else if is(&w, "Error") {
        Ok(Status::Failure(Failure::Error))
    } else {
        Err(StatusExtractionError::Unknown(w))
    }
}

impl Status {
    /// The status reported in the output of a prover.
    pub fn from_output(output: &str) -> (r: Result<Status, StatusExtractionError>)
        ensures
            match szs_status(output@) {
                None => r matches Err(e) && e@ == StatusExtractionErrorModel::Missing,
                Some(w) => match status_named(w) {
                    Some(s) => r == Ok::<Status, StatusExtractionError>(s),
                    None => r matches Err(e) && e@ == StatusExtractionErrorModel::Unknown(w),
                },
            },
    {
        match status_word(output) {
            Some(w) => status_of_word(w),
            None => Err(StatusExtractionError::Missing),
        }
    }

    /// The name of the status.
    pub fn to_text(&self) -> (r: String)
        ensures
            r@ == status_text(*self),
    {
        match self {
            Status::Success(Success::Theorem) => String::from_str("Theorem"),
            Status::Success(Success::CounterSatisfiable) => String::from_str("CounterSatisfiable"),
            Status::Success(Success::ContradictoryAxioms) => String::from_str("ContradictoryAxioms"),
            Status::Failure(Failure::TimeOut) => String::from_str("Timeout"),
            Status::Failure(Failure::MemoryOut) => String::from_str("MemoryOut"),
            Status::Failure(Failure::GaveUp) => String::from_str("GaveUp"),
            Status::Failure(Failure::Error) => String::from_str("Error"),
        }
    }
}

/// The name of a status.
pub open spec fn status_text(s: Status) -> Seq<char> {
    match s {
        Status::Success(Success::Theorem) => "Theorem"@,
        Status::Success(Success::CounterSatisfiable) => "CounterSatisfiable"@,
        Status::Success(Success::ContradictoryAxioms) => "ContradictoryAxioms"@,
        Status::Failure(Failure::TimeOut) => "Timeout"@,
        Status::Failure(Failure::MemoryOut) => "MemoryOut"@,
        Status::Failure(Failure::GaveUp) => "GaveUp"@,
        Status::Failure(Failure::Error) => "Error"@,
    }
}

/// Reading the name of a status gives the status back.
pub proof fn lemma_status_text_read_back(s: Status)
    ensures
        status_named(status_text(s)) == Some(s),
{
    reveal_strlit("Theorem");
    reveal_strlit("CounterSatisfiable");
    reveal_strlit("ContradictoryAxioms");
    reveal_strlit("Timeout");
    reveal_strlit("MemoryOut");
    reveal_strlit("GaveUp");
    reveal_strlit("Error");
    assert("Theorem"@.len() == 7);
    assert("CounterSatisfiable"@.len() == 18);
    assert("ContradictoryAxioms"@.len() == 19);
    assert("Timeout"@.len() == 7);
    assert("MemoryOut"@.len() == 9);
    assert("GaveUp"@.len() == 6);
    assert("Error"@.len() == 5);
    assert("Timeout"@[1] == 'i');
    assert("Theorem"@[1] == 'h');
    assert("Timeout"@ != "Theorem"@);
}

impl std::str::FromStr for Status {
    type Err = StatusExtractionError;

    fn from_str(s: &str) -> Result<Status, StatusExtractionError> {
        Status::from_output(s)
    }
}

// ================================================================ instances and cores

/// `num_cpus::get`: the number of logical CPUs that this process may use. Its
/// documentation promises at least one; the number depends on the machine.
#[verifier::external_body]
fn available_cpus() -> (r: usize)
    ensures
        r >= 1,
{
    num_cpus::get()
}

/// The cores each prover may use: the requested number, or all available
/// ones if none was requested.
pub fn core_count(requested: usize, available: usize) -> (r: usize)
    ensures
        r == if requested == 0 { available } else { requested },
{
    if requested == 0 { available } else { requested }
}

/// The prover instances to run: the requested number, or as many as the
/// available cores allow with `cores` each, at least one, if none was requested.
pub fn instance_count(requested: usize, cores: usize, available: usize) -> (r: usize)
    requires
        cores >= 1,
    ensures
        r == if requested == 0 { if available / cores >= 1 { available / cores } else { 1 } } else { requested },
{
    if requested == 0 {
        let n = available / cores;
        if n >= 1 { n } else { 1 }
    } else {
        requested
    }
}

/// The settings of the prover Vampire.
#[derive(Copy, Clone, Debug)]
pub struct Vampire {
    pub time_limit: usize,
    pub time_execution: bool,
    pub instances: usize,
    pub cores: usize,
}

impl Vampire {
    /// The cores each instance may use; all available ones where none were requested.
    pub fn cores(&self) -> (r: usize)
        ensures
            r >= 1,
            self.cores != 0 ==> r == self.cores,
    {
        core_count(self.cores, available_cpus())
    }

    /// The instances to run; where none were requested, as many as the
    /// available cores allow, at least one.
    pub fn instances(&self) -> (r: usize)
        ensures
            r >= 1,
            self.instances != 0 ==> r == self.instances,
    {
        if self.instances == 0 {
            let cores = self.cores();
            instance_count(self.instances, cores, available_cpus())
        } else {
            self.instances
        }
    }
}

impl Vampire {
    /// The command line arguments of a run of Vampire: the CASC mode, the time
    /// limit and the cores.
    pub fn arguments(&self) -> (r: Vec<String>)
        ensures
            r@.len() == 6,
            r@[0]@ == "--mode"@,
            r@[1]@ == "casc"@,
            r@[2]@ == "--time_limit"@,
            r@[3]@ == decimal(self.time_limit as nat),
            r@[4]@ == "--cores"@,
            self.cores != 0 ==> r@[5]@ == decimal(self.cores as nat),
    {
        let mut r: Vec<String> = Vec::new();
        r.push(String::from_str("--mode"));
        r.push(String::from_str("casc"));
        r.push(String::from_str("--time_limit"));
        r.push(numbered("", self.time_limit));
        r.push(String::from_str("--cores"));
        r.push(numbered("", self.cores()));
        proof {
            reveal_strlit("");
        }
        r
    }
}

// ================================================================ reports

/// What Vampire wrote to its standard output and standard error.
#[derive(Clone, Debug, PartialEq, Eq)]
pub struct VampireOutput {
    pub stdout: String,
    pub stderr: String,
}

/// A problem, what Vampire made of it, and, where it was timed, the
/// milliseconds that it took.
#[derive(Debug)]
pub struct VampireReport {
    pub problem: Problem,
    pub output: VampireOutput,
    pub elapsed_time: Option<u128>,
}

/// The report of a prover on a problem.
pub trait Report {
    /// The status that the prover reported.
    fn status(&self) -> Result<Status, StatusExtractionError>;
}

/// The outcome of reading the status from the output of a prover.
pub open spec fn read_status(output: Seq<char>) -> Result<Status, StatusExtractionErrorModel> {
    match szs_status(output) {
        None => Err(StatusExtractionErrorModel::Missing),
        Some(w) => match status_named(w) {
            Some(s) => Ok(s),
            None => Err(StatusExtractionErrorModel::Unknown(w)),
        },
    }
}

impl Report for VampireReport {
    /// The status in the standard output of Vampire.
    fn status(&self) -> (r: Result<Status, StatusExtractionError>)
        ensures
            match read_status(self.output.stdout@) {
                Ok(s) => r == Ok::<Status, StatusExtractionError>(s),
                Err(e) => r matches Err(f) && f@ == e,
            },
    {
        Status::from_output(self.output.stdout.as_str())
    }
}

/// The message of an error in reading a status.
pub open spec fn extraction_error_text(e: StatusExtractionErrorModel) -> Seq<char> {
    match e {
        StatusExtractionErrorModel::Missing => "the status of verifying this problem is missing"@,
        StatusExtractionErrorModel::Unknown(w) => "the status of verifying this problem is not recognized: `"@ + w + "`"@,
    }
}

/// The formulas, one on each line, indented by four spaces.
pub open spec fn indented_lines(fs: Seq<problem::AnnotatedFormulaModel>) -> Seq<char>
    decreases fs.len(),
{
    if fs.len() == 0 {
        seq![]
    } else {
        indented_lines(fs.drop_last()) + "    "@ + formula_text(fs.last().formula) + "\n"@
    }
}

/// The text of a problem name: the domain followed by the three digits.
pub open spec fn problem_name_text(n: ProblemNameModel) -> Seq<char> {
    n.domain + integer_text(n.number[0] as int) + integer_text(n.number[1] as int) + integer_text(n.number[2] as int)
}

/// The text of a report: the name of the problem, its axioms, its
/// conjectures, the status or why it could not be read, and the time taken.
pub open spec fn report_text(p: ProblemModel, stdout: Seq<char>, elapsed_time: Option<u128>) -> Seq<char> {
    "--- "@ + problem_name_text(p.name) + " ---\n"@ + "\n"@
        + "axioms:\n"@ + indented_lines(with_role(p.formulas, problem::Role::Axiom)) + "\n"@
        + "conjectures:\n"@ + indented_lines(with_role(p.formulas, problem::Role::Conjecture)) + "\n"@
        + match read_status(stdout) {
            Ok(s) => "status: "@ + status_text(s),
            Err(e) => "error: "@ + extraction_error_text(e),
        }
        + match elapsed_time {
            Some(ms) => "("@ + decimal(ms as nat) + " ms)\n"@,
            None => "\n"@,
        }
}

fn push_indented_lines(out: &mut String, fs: &Vec<problem::AnnotatedFormula>)
    ensures
        final(out)@ == old(out)@ + indented_lines(views(fs@)),
{
    let ghost start = out@;
    let ghost all = views(fs@);
    let mut i: usize = 0;
    while i < fs.len()
        invariant
            i <= fs.len(),
            all == views(fs@),
            out@ == start + indented_lines(all.take(i as int)),
        decreases fs.len() - i,
    {
        out.append("    ");
        let text = format_formula(&fs[i].formula);
        out.append(text.as_str());
        out.append("\n");
        proof {
            reveal_strlit("    ");
            reveal_strlit("\n");
            assert(all.take(i as int + 1).drop_last() =~= all.take(i as int));
        }
        i += 1;
    }
    assert(all.take(fs.len() as int) =~= all);
}

impl VampireReport {
    /// The report as text, the way it is shown to the user.
    pub fn to_text(&self) -> (r: String)
        requires
            self.problem.name.number.len() >= 3,
        ensures
            r@ == report_text(self.problem@, self.output.stdout@, self.elapsed_time),
    {
        let mut out = String::from_str("--- ");
        out.append(self.problem.name.to_text().as_str());
        out.append(" ---\n");
        out.append("\n");
        out.append("axioms:\n");
        push_indented_lines(&mut out, &self.problem.axioms());
        out.append("\n");
        out.append("conjectures:\n");
        push_indented_lines(&mut out, &self.problem.conjectures());
        out.append("\n");
        match self.status() {
            Ok(status) => {
                out.append("status: ");
                out.append(status.to_text().as_str());
            },
            Err(StatusExtractionError::Missing) => {
                out.append("error: ");
                out.append("the status of verifying this problem is missing");
            },
            Err(StatusExtractionError::Unknown(w)) => {
                out.append("error: ");
                out.append("the status of verifying this problem is not recognized: `");
                out.append(w.as_str());
                out.append("`");
            },
        }
        match self.elapsed_time {
            Some(ms) => {
                out.append("(");
                push_decimal(&mut out, ms);
                out.append(" ms)\n");
            },
            None => {
                out.append("\n");
            },
        }
        out
    }
}

} // verus!
