//! Running a set of rules on one file.
//!
//! The script engine (a JavaScript runtime with a query engine) lives
//! outside this crate; the caller hands it in as a function that runs one
//! rule with its arguments and returns the outcome. Everything around it is
//! decided here: the generated-file gate, the suppressions, the arguments
//! of each rule, and the record of each run.
use crate::arguments::{configured_arguments, pair_views, ConfigFile, ConfigFileArgumentProvider};
use crate::execution::{
    lemma_silenced_file_keeps_nothing, of_rule, reason_of, reported_errors, reported_output,
    unfiltered, rule_result, should_skip_file, with_rule_kind,
    ExecutionError, ExecutionResult,
};
use crate::generated::is_generated;
use crate::language::Language;
use crate::model::{AnalysisOptions, RuleInternal, RuleResult, Violation};
use crate::suppression::{
    disabling_patterns, get_lines_to_ignore, lemma_no_dd_sa_first_line_silences_file,
    suppressions_of, Suppressions,
};
use crate::text::{lines_of, string_views};
use vstd::prelude::*;
use vstd::string::StringSliceAdditionalSpecFns;

verus! {

/// `vs` with the severity and category of `rule` on each violation.
pub open spec fn stamped(vs: Seq<Violation>, rule: RuleInternal) -> Seq<Violation> {
    vs.map_values(|v: Violation| of_rule(v, rule.severity, rule.category))
}

/// Whether `r` records the run of `rule` on `filename` whose engine
/// outcome is `o`: the violations of `o`, given the rule's severity and
/// category, that the suppressions `s` leave (none for a failed run); the
/// error kind and reason of a failed run; the console output where
/// `options` asks for it; and the timings.
pub open spec fn records_engine_run(
    r: RuleResult,
    rule: RuleInternal,
    filename: Seq<char>,
    o: Result<ExecutionResult, ExecutionError>,
    s: Suppressions,
    options: AnalysisOptions,
    parsing_time_ms: u128,
) -> bool {
    &&& r.rule_name@ == rule.name@
    &&& r.filename@ == filename
    &&& r.violations@ == match o {
        Ok(e) => unfiltered(stamped(e.violations@, rule), rule.name@, s),
        Err(_) => seq![],
    }
    &&& string_views(r.errors@) == reported_errors(o)
    &&& (r.execution_error matches Some(m) ==> o matches Err(e) && reason_of(e) == Some(m@))
    &&& (r.execution_error is None ==> (o is Ok || reason_of(o->Err_0) is None))
    &&& (r.output matches Some(m) ==> reported_output(o, options) == Some(m@))
    &&& (r.output is None ==> reported_output(o, options) is None)
    &&& r.parsing_time_ms == parsing_time_ms
    &&& r.execution_time_ms == match o {
        Ok(e) => e.execution_time_ms,
        Err(_) => 0,
    }
    &&& r.query_node_time_ms == match o {
        Ok(e) => e.query_time_ms,
        Err(_) => 0,
    }
}

/// Whether `r` records a run of `rule` on `filename` by the engine
/// `execute`: `execute` returned some outcome `o` for `rule` and for
/// arguments equal to those that `config` sets for the rule and the file,
/// and `r` records that outcome under the suppressions `s`.
pub open spec fn runs_rule<F>(
    execute: F,
    r: RuleResult,
    rule: RuleInternal,
    filename: Seq<char>,
    config: ConfigFile,
    s: Suppressions,
    options: AnalysisOptions,
    parsing_time_ms: u128,
) -> bool where
    F: Fn(&RuleInternal, &Vec<(String, String)>) -> Result<ExecutionResult, ExecutionError>,
 {
    exists|a: Vec<(String, String)>, o: Result<ExecutionResult, ExecutionError>|
        #[trigger] execute.ensures((&rule, &a), o) && pair_views(a@) == configured_arguments(
            config,
            filename,
            rule.name@,
        ) && records_engine_run(r, rule, filename, o, s, options, parsing_time_ms)
}

/// Runs each rule of `rules`, in order, on the file `filename` whose text
/// is `code`; `execute` runs one rule's script with the rule's arguments for
/// this file, and `parsing_time_ms` is the time the caller took to parse the
/// file.
///
/// A generated file is skipped when `analysis_option` asks for it, and
/// gives no record. Otherwise each rule gives one record, in order: the
/// record of the outcome that the engine handed back, with each violation
/// given the rule's severity and category and the file's suppressions
/// applied. A file silenced as a whole gives records without violations.
pub fn analyze_with<F>(
    language: &Language,
    rules: &Vec<RuleInternal>,
    filename: &String,
    code: &str,
    argument_provider: &ConfigFileArgumentProvider,
    analysis_option: &AnalysisOptions,
    parsing_time_ms: u128,
    execute: &F,
) -> (r: Vec<RuleResult>) where
    F: Fn(&RuleInternal, &Vec<(String, String)>) -> Result<ExecutionResult, ExecutionError>,

    requires
        lines_of(code@).len() < u32::MAX,
        forall|rule: &RuleInternal, args: &Vec<(String, String)>| #[trigger]
            execute.requires((rule, args)),
    ensures
        analysis_option.ignore_generated_files && is_generated(code.spec_bytes(), *language) ==> r@.len()
            == 0,
        !(analysis_option.ignore_generated_files && is_generated(code.spec_bytes(), *language)) ==> {
            &&& r@.len() == rules@.len()
            &&& forall|i: int|
                0 <= i < r@.len() ==> runs_rule(
                    *execute,
                    #[trigger] r@[i],
                    rules@[i],
                    filename@,
                    *argument_provider.config,
                    suppressions_of(code@, *language),
                    *analysis_option,
                    parsing_time_ms,
                )
            &&& suppressions_of(code@, *language).ignore_all ==> forall|i: int|
                0 <= i < r@.len() ==> (#[trigger] r@[i]).violations@.len() == 0
        },
{
    if should_skip_file(code, language, analysis_option) {
        return Vec::new();
    }
    let lines_to_ignore = get_lines_to_ignore(code, language);
    let ghost s = suppressions_of(code@, *language);
    let mut out: Vec<RuleResult> = Vec::new();
    let mut i: usize = 0;
    while i < rules.len()
        invariant
            i <= rules@.len(),
            out@.len() == i,
            lines_to_ignore@ == s,
            s == suppressions_of(code@, *language),
            forall|rule: &RuleInternal, args: &Vec<(String, String)>| #[trigger]
                execute.requires((rule, args)),
            forall|j: int|
                0 <= j < i ==> runs_rule(
                    *execute,
                    #[trigger] out@[j],
                    rules@[j],
                    filename@,
                    *argument_provider.config,
                    s,
                    *analysis_option,
                    parsing_time_ms,
                ),
            s.ignore_all ==> forall|j: int| 0 <= j < i ==> (#[trigger] out@[j]).violations@.len() == 0,
        decreases rules.len() - i,
    {
        let rule = &rules[i];
        let arguments = argument_provider.get_arguments(filename.as_str(), rule.name.as_str());
        let returned = execute(rule, &arguments);
        let ghost raw = returned;
        let outcome = match returned {
            Ok(e) => {
                let ExecutionResult { violations, console_lines, execution_time_ms, query_time_ms } =
                    e;
                let violations = with_rule_kind(violations, rule.severity, rule.category);
                Ok(ExecutionResult { violations, console_lines, execution_time_ms, query_time_ms })
            },
            Err(err) => Err(err),
        };
        let ghost o = outcome;
        proof {
            if let Ok(e) = raw {
                assert(o->Ok_0.violations@ =~= stamped(e.violations@, rules@[i as int]));
            }
        }
        let res = rule_result(
            &rule.name,
            filename,
            outcome,
            &lines_to_ignore,
            analysis_option,
            parsing_time_ms,
        );
        proof {
            if s.ignore_all {
                if let Ok(e) = o {
                    lemma_silenced_file_keeps_nothing(e.violations@, rule.name@, s);
                }
            }
        }
        assert(execute.ensures((&rules@[i as int], &arguments), raw) && pair_views(arguments@)
            == configured_arguments(*argument_provider.config, filename@, rules@[i as int].name@)
            && records_engine_run(
            res,
            rules@[i as int],
            filename@,
            raw,
            s,
            *analysis_option,
            parsing_time_ms,
        ));
        assert(runs_rule(
            *execute,
            res,
            rules@[i as int],
            filename@,
            *argument_provider.config,
            s,
            *analysis_option,
            parsing_time_ms,
        ));
        out.push(res);
        i = i + 1;
    }
    out
}

/// A file whose first line is `#no-dd-sa`, in a language with that marker,
/// gives records without violations: whatever the engine reported, every
/// record of a run on it (as `analyze_with` gives them) is empty of
/// violations.
pub proof fn lemma_no_dd_sa_file_reports_nothing(
    code: Seq<char>,
    language: Language,
    results: Seq<RuleResult>,
    rules: Seq<RuleInternal>,
    outcomes: Seq<Result<ExecutionResult, ExecutionError>>,
    filename: Seq<char>,
    options: AnalysisOptions,
    parsing_time_ms: u128,
)
    requires
        lines_of(code).len() > 0,
        lines_of(code)[0] == "#no-dd-sa"@,
        disabling_patterns(language).contains("#no-dd-sa"@),
        results.len() <= rules.len(),
        results.len() <= outcomes.len(),
        forall|i: int|
            0 <= i < results.len() ==> records_engine_run(
                #[trigger] results[i],
                rules[i],
                filename,
                outcomes[i],
                suppressions_of(code, language),
                options,
                parsing_time_ms,
            ),
    ensures
        forall|i: int| 0 <= i < results.len() ==> (#[trigger] results[i]).violations@.len() == 0,
{
    let s = suppressions_of(code, language);
    lemma_no_dd_sa_first_line_silences_file(code, language, seq![], 0);
    assert forall|i: int| 0 <= i < results.len() implies (#[trigger] results[i]).violations@.len()
        == 0 by {
        if let Ok(e) = outcomes[i] {
            lemma_silenced_file_keeps_nothing(stamped(e.violations@, rules[i]), rules[i].name@, s);
        }
    }
}

} // verus!
