//! Turning the outcome of a rule's script into a [`RuleResult`], and the
//! decisions of the watchdog that bounds a script's running time.
//!
//! The script runtime itself runs outside this crate; it hands back either
//! the violations and console lines of a run, or an [`ExecutionError`].
use crate::generated::is_generated;
use crate::generated::is_generated_file;
use crate::language::Language;
use crate::model::{
    AnalysisOptions, RuleCategory, RuleResult, RuleSeverity, Violation, ERROR_RULE_EXECUTION,
    ERROR_RULE_TIMEOUT,
};
use crate::suppression::{filters, LinesToIgnore, Suppressions};
use crate::text::string_views;
use vstd::prelude::*;
use vstd::string::{StringExecFns, StringSliceAdditionalSpecFns};

verus! {

/// The time a script may run before it is halted, in milliseconds.
pub const JAVASCRIPT_EXECUTION_TIMEOUT_MS: u64 = 5000;

/// Why a script did not complete.
#[derive(Debug, Clone, PartialEq, Eq)]
pub enum ExecutionError {
    /// The script threw.
    Execution { reason: String },
    /// The script ran out of time; the payload is how long it ran, in
    /// milliseconds.
    ExecutionTimeout(u128),
    /// The script could not be compiled.
    Interpreter { reason: String },
    /// The script returned a value of an unexpected shape.
    UnexpectedReturnValue { reason: String },
}

/// What a script that completed handed back.
#[derive(Debug, Clone)]
pub struct ExecutionResult {
    /// The violations, in the order the rule reported them.
    pub violations: Vec<Violation>,
    /// What the rule wrote to its console, one entry per call.
    pub console_lines: Vec<String>,
    pub execution_time_ms: u128,
    pub query_time_ms: u128,
}

/// Whether the suppressions `s` leave a violation of `rule`.
pub open spec fn kept_by(s: Suppressions, rule: Seq<char>) -> spec_fn(Violation) -> bool {
    |v: Violation| !filters(s, rule, v.start.line)
}

/// The violations of `vs` that the suppressions `s` leave for `rule`, in
/// order.
pub open spec fn unfiltered(vs: Seq<Violation>, rule: Seq<char>, s: Suppressions) -> Seq<Violation> {
    vs.filter(kept_by(s, rule))
}

/// Lines joined by `\n`.
pub open spec fn joined(lines: Seq<Seq<char>>) -> Seq<char>
    decreases lines.len(),
{
    if lines.len() == 0 {
        seq![]
    } else if lines.len() == 1 {
        lines[0]
    } else {
        joined(lines.drop_last()) + "\n"@ + lines.last()
    }
}

/// The error kind of a failed run: a timeout, or any other failure.
pub open spec fn error_kind_of(err: ExecutionError) -> Seq<char> {
    match err {
        ExecutionError::ExecutionTimeout(_) => ERROR_RULE_TIMEOUT@,
        _ => ERROR_RULE_EXECUTION@,
    }
}

/// The reason reported for a failed run: none for a timeout, else the
/// engine's.
pub open spec fn reason_of(err: ExecutionError) -> Option<Seq<char>> {
    match err {
        ExecutionError::ExecutionTimeout(_) => None,
        ExecutionError::Execution { reason } => Some(reason@),
        ExecutionError::Interpreter { reason } => Some(reason@),
        ExecutionError::UnexpectedReturnValue { reason } => Some(reason@),
    }
}

/// The violations that a run of `rule` yields after suppression: none for a
/// failed run.
pub open spec fn reported_violations(
    outcome: Result<ExecutionResult, ExecutionError>,
    rule: Seq<char>,
    s: Suppressions,
) -> Seq<Violation> {
    match outcome {
        Ok(e) => unfiltered(e.violations@, rule, s),
        Err(_) => seq![],
    }
}

/// The error kinds of a run: none for a completed run, one for a failed one.
pub open spec fn reported_errors(outcome: Result<ExecutionResult, ExecutionError>) -> Seq<
    Seq<char>,
> {
    match outcome {
        Ok(_) => seq![],
        Err(err) => seq![error_kind_of(err)],
    }
}

/// The console output kept of a run: the lines joined, where the run
/// completed, wrote something, and output is asked for.
pub open spec fn reported_output(
    outcome: Result<ExecutionResult, ExecutionError>,
    options: AnalysisOptions,
) -> Option<Seq<char>> {
    match outcome {
        Ok(e) => if e.console_lines@.len() > 0 && options.log_output {
            Some(joined(string_views(e.console_lines@)))
        } else {
            None
        },
        Err(_) => None,
    }
}

/// The error kind and reason of a failed run.
pub fn error_kind(err: &ExecutionError) -> (r: (String, Option<String>))
    ensures
        r.0@ == error_kind_of(*err),
        r.1 matches Some(s) ==> reason_of(*err) == Some(s@),
        r.1 is None ==> reason_of(*err) is None,
{
    match err {
        ExecutionError::ExecutionTimeout(_) => (ERROR_RULE_TIMEOUT.to_owned(), None),
        ExecutionError::Execution { reason } => (ERROR_RULE_EXECUTION.to_owned(), Some(
            reason.clone(),
        )),
        ExecutionError::Interpreter { reason } => (ERROR_RULE_EXECUTION.to_owned(), Some(
            reason.clone(),
        )),
        ExecutionError::UnexpectedReturnValue { reason } => (ERROR_RULE_EXECUTION.to_owned(), Some(
            reason.clone(),
        )),
    }
}

/// `lines` joined by `\n`.
pub fn join_lines(lines: &Vec<String>) -> (r: String)
    ensures
        r@ == joined(string_views(lines@)),
{
    let mut out = String::new();
    let mut i: usize = 0;
    while i < lines.len()
        invariant
            i <= lines@.len(),
            out@ == joined(string_views(lines@).subrange(0, i as int)),
        decreases lines.len() - i,
    {
        let ghost ls = string_views(lines@);
        assert(ls.subrange(0, i + 1).drop_last() =~= ls.subrange(0, i as int));
        assert(ls.subrange(0, i + 1).last() == lines@[i as int]@);
        if i == 0 {
            assert(ls.subrange(0, 1)[0] == lines@[0]@);
            out = lines[0].clone();
        } else {
            out.append("\n");
            out.append(lines[i].as_str());
        }
        i = i + 1;
    }
    assert(string_views(lines@).subrange(0, lines@.len() as int) =~= string_views(lines@));
    out
}

/// The violations of `violations` that `lines_to_ignore` leaves for the rule
/// `rule_name`, in order.
pub fn retain_unfiltered(
    violations: Vec<Violation>,
    rule_name: &str,
    lines_to_ignore: &LinesToIgnore,
) -> (r: Vec<Violation>)
    ensures
        r@ == unfiltered(violations@, rule_name@, lines_to_ignore@),
{
    let ghost all = violations@;
    let n = violations.len();
    let mut rest = violations;
    let mut kept: Vec<Violation> = Vec::new();
    let mut i: usize = 0;
    proof {
        reveal(Seq::filter);
    }
    assert(all.subrange(0, 0).filter(kept_by(lines_to_ignore@, rule_name@)) =~= kept@);
    while rest.len() > 0
        invariant
            i <= all.len(),
            all.len() == n,
            rest@ == all.subrange(i as int, all.len() as int),
            kept@ == unfiltered(all.subrange(0, i as int), rule_name@, lines_to_ignore@),
        decreases rest.len(),
    {
        assert(all.subrange(0, i + 1).drop_last() =~= all.subrange(0, i as int));
        proof {
            reveal(Seq::filter);
        }
        let v = rest.remove(0);
        assert(v == all[i as int]);
        assert(rest@ =~= all.subrange(i + 1, all.len() as int));
        if !lines_to_ignore.should_filter_rule(rule_name, v.start.line) {
            kept.push(v);
        }
        i = i + 1;
    }
    assert(all.subrange(0, all.len() as int) =~= all);
    kept
}

/// Whether `r` records a run of the rule `rule_name` on `filename` that
/// ended with `outcome`: the violations that the suppressions `s` leave (none
/// for a failed run), the error kind and reason of a failed run, the console
/// output where `options` asks for it, and the timings.
pub open spec fn records_run(
    r: RuleResult,
    rule_name: Seq<char>,
    filename: Seq<char>,
    outcome: Result<ExecutionResult, ExecutionError>,
    s: Suppressions,
    options: AnalysisOptions,
    parsing_time_ms: u128,
) -> bool {
    &&& r.rule_name@ == rule_name
    &&& r.filename@ == filename
    &&& r.violations@ == reported_violations(outcome, rule_name, s)
    &&& string_views(r.errors@) == reported_errors(outcome)
    &&& (r.execution_error matches Some(m) ==> outcome matches Err(e) && reason_of(e) == Some(m@))
    &&& (r.execution_error is None ==> (outcome is Ok || reason_of(outcome->Err_0) is None))
    &&& (r.output matches Some(m) ==> reported_output(outcome, options) == Some(m@))
    &&& (r.output is None ==> reported_output(outcome, options) is None)
    &&& r.parsing_time_ms == parsing_time_ms
    &&& r.execution_time_ms == match outcome {
        Ok(e) => e.execution_time_ms,
        Err(_) => 0,
    }
    &&& r.query_node_time_ms == match outcome {
        Ok(e) => e.query_time_ms,
        Err(_) => 0,
    }
}

/// The record of running the rule `rule_name` on `filename`.
///
/// A completed run keeps the violations that `lines_to_ignore` leaves, no
/// error, and its console lines joined by `\n` where `options` asks for them
/// and there are some. A failed run has no violation and one error kind:
/// `rule-timeout` with no reason for a timeout, else `rule-execution-error`
/// with the engine's reason.
pub fn rule_result(
    rule_name: &String,
    filename: &String,
    outcome: Result<ExecutionResult, ExecutionError>,
    lines_to_ignore: &LinesToIgnore,
    options: &AnalysisOptions,
    parsing_time_ms: u128,
) -> (r: RuleResult)
    ensures
        records_run(r, rule_name@, filename@, outcome, lines_to_ignore@, *options, parsing_time_ms),
{
    match outcome {
        Ok(execution) => {
            let ExecutionResult { violations, console_lines, execution_time_ms, query_time_ms } =
                execution;
            let output = if console_lines.len() > 0 && options.log_output {
                Some(join_lines(&console_lines))
            } else {
                None
            };
            let violations = retain_unfiltered(violations, rule_name.as_str(), lines_to_ignore);
            let errors: Vec<String> = Vec::new();
            assert(string_views(errors@) =~= seq![]);
            RuleResult {
                rule_name: rule_name.clone(),
                filename: filename.clone(),
                violations,
                errors,
                execution_error: None,
                output,
                execution_time_ms,
                parsing_time_ms,
                query_node_time_ms: query_time_ms,
            }
        },
        Err(err) => {
            let (kind, execution_error) = error_kind(&err);
            let errors = vec![kind];
            assert(string_views(errors@) =~= seq![error_kind_of(err)]);
            RuleResult {
                rule_name: rule_name.clone(),
                filename: filename.clone(),
                violations: Vec::new(),
                errors,
                execution_error,
                output: None,
                execution_time_ms: 0,
                parsing_time_ms,
                query_node_time_ms: 0,
            }
        },
    }
}

/// Whether a file is skipped before any rule runs: generated files are, when
/// `options` asks for it.
pub fn should_skip_file(code: &str, language: &Language, options: &AnalysisOptions) -> (r: bool)
    ensures
        r == (options.ignore_generated_files && is_generated(code.spec_bytes(), *language)),
{
    options.ignore_generated_files && is_generated_file(code, language)
}

/// What the watchdog of a running script does when it wakes.
#[derive(Debug, Clone, Copy, PartialEq, Eq, Structural)]
pub enum WatchdogAction {
    /// The time is up: halt the script.
    Terminate,
    /// The script finished in time: stop watching.
    Finish,
    /// Nothing happened yet: sleep again for this many milliseconds.
    Wait(u64),
}

/// The watchdog's decision on waking `elapsed_ms` after the script started,
/// with `done` telling whether the script has finished. Past the budget it
/// halts the script; a finished script ends the watch; otherwise (a
/// spurious wake-up) it sleeps for what is left of the budget, measured from
/// the start.
pub fn watchdog_step(elapsed_ms: u64, timeout_ms: u64, done: bool) -> (r: WatchdogAction)
    ensures
        elapsed_ms > timeout_ms ==> r == WatchdogAction::Terminate,
        elapsed_ms <= timeout_ms && done ==> r == WatchdogAction::Finish,
        elapsed_ms <= timeout_ms && !done ==> r == WatchdogAction::Wait(
            (timeout_ms - elapsed_ms) as u64,
        ),
{
    if elapsed_ms > timeout_ms {
        WatchdogAction::Terminate
    } else if done {
        WatchdogAction::Finish
    } else {
        WatchdogAction::Wait(timeout_ms - elapsed_ms)
    }
}

/// A rule whose run completes without reporting anything yields no
/// violation and no error.
pub proof fn lemma_silent_run_reports_nothing(
    outcome: Result<ExecutionResult, ExecutionError>,
    rule: Seq<char>,
    s: Suppressions,
)
    requires
        outcome matches Ok(e) && e.violations@.len() == 0,
    ensures
        reported_violations(outcome, rule, s).len() == 0,
        reported_errors(outcome).len() == 0,
{
    reveal(Seq::filter);
}

/// A rule that runs out of time yields no violation and exactly the error
/// kind `rule-timeout`, with no reason.
pub proof fn lemma_timeout_reports_timeout(
    outcome: Result<ExecutionResult, ExecutionError>,
    rule: Seq<char>,
    s: Suppressions,
)
    requires
        outcome matches Err(ExecutionError::ExecutionTimeout(_)),
    ensures
        reported_violations(outcome, rule, s).len() == 0,
        reported_errors(outcome) == seq![ERROR_RULE_TIMEOUT@],
        reason_of(outcome->Err_0) is None,
{
}

/// The part of a rule's script before the rule's own code: it clears the
/// error accumulator and the console buffer.
pub const SCRIPT_PREFIX: &'static str = "
_cleanExecute(() => {
__ENV_STELLA__ = true;
// Variables prefixed with \"GLOBAL_\" are set by the host before the script runs.

// The rule's JavaScript code
//////////////////////////////
";

/// The part of a rule's script after the rule's own code: it merges the file
/// context into each match node's context (the file context wins on a
/// shared key), calls the rule's `visit` on each node, and returns what the
/// rule reported.
pub const SCRIPT_SUFFIX: &'static str = "
//////////////////////////////

for (const n of GLOBAL_nodes) {
    if (Object.keys(GLOBAL_fileContext).length > 0) {
        n.context = {...n.context, ...GLOBAL_fileContext};
    }
    visit(n, GLOBAL_filename, n.context.code);
}

return stellaAllErrors;
});
";

/// The script that runs a rule: the rule's code between [`SCRIPT_PREFIX`]
/// and [`SCRIPT_SUFFIX`].
pub fn rule_script(rule_code: &str) -> (r: String)
    ensures
        r@ == SCRIPT_PREFIX@ + rule_code@ + SCRIPT_SUFFIX@,
{
    let mut script = SCRIPT_PREFIX.to_owned();
    script.append(rule_code);
    script.append(SCRIPT_SUFFIX);
    script
}

/// `v` with the severity and category of the rule that reported it.
pub open spec fn of_rule(v: Violation, severity: RuleSeverity, category: RuleCategory) -> Violation {
    Violation { severity, category, ..v }
}

/// Gives each violation that a rule reported the rule's severity and
/// category; everything else stays, in order.
pub fn with_rule_kind(violations: Vec<Violation>, severity: RuleSeverity, category: RuleCategory) -> (r:
    Vec<Violation>)
    ensures
        r@.len() == violations@.len(),
        forall|i: int| 0 <= i < r@.len() ==> r@[i] == of_rule(violations@[i], severity, category),
{
    let ghost all = violations@;
    let n = violations.len();
    let mut rest = violations;
    let mut out: Vec<Violation> = Vec::new();
    let mut i: usize = 0;
    while rest.len() > 0
        invariant
            i <= all.len(),
            all.len() == n,
            rest@ == all.subrange(i as int, all.len() as int),
            out@.len() == i,
            forall|j: int| 0 <= j < i ==> out@[j] == of_rule(all[j], severity, category),
        decreases rest.len(),
    {
        let mut v = rest.remove(0);
        assert(v == all[i as int]);
        assert(rest@ =~= all.subrange(i + 1, all.len() as int));
        v.severity = severity;
        v.category = category;
        out.push(v);
        i = i + 1;
    }
    out
}

/// Silencing the whole file leaves no violation.
pub proof fn lemma_silenced_file_keeps_nothing(vs: Seq<Violation>, rule: Seq<char>, s: Suppressions)
    requires
        s.ignore_all,
    ensures
        unfiltered(vs, rule, s).len() == 0,
    decreases vs.len(),
{
    reveal(Seq::filter);
    if vs.len() > 0 {
        lemma_silenced_file_keeps_nothing(vs.drop_last(), rule, s);
    }
}

} // verus!
