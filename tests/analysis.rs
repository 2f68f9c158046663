use static_analysis::analysis::analyze_with;
use static_analysis::arguments::{
    get_argument_provider, ArgumentValues, ConfigFile, RuleConfig, RulesetConfig,
};
use static_analysis::execution::{ExecutionError, ExecutionResult};
use static_analysis::language::Language;
use static_analysis::model::{
    AnalysisOptions, Position, RuleCategory, RuleInternal, RuleSeverity, Violation,
};

fn rule(name: &str) -> RuleInternal {
    RuleInternal {
        name: name.to_string(),
        short_description: Some("short desc".to_string()),
        description: Some("description".to_string()),
        category: RuleCategory::Security,
        severity: RuleSeverity::Error,
        language: Language::Python,
        code: "function visit(node, filename, code) {}".to_string(),
    }
}

fn violation(line: u32, message: &str) -> Violation {
    Violation {
        start: Position { line, col: 5 },
        end: Position { line, col: 8 },
        message: message.to_string(),
        severity: RuleSeverity::Notice,
        category: RuleCategory::CodeStyle,
        fixes: vec![],
    }
}

// A stand-in engine: each rule reports one violation on line 2 named after it.
fn engine(rule: &RuleInternal, _args: &Vec<(String, String)>) -> Result<ExecutionResult, ExecutionError> {
    if rule.name == "ruleset/slow" {
        return Err(ExecutionError::ExecutionTimeout(5001));
    }
    Ok(ExecutionResult {
        violations: vec![violation(2, &rule.name)],
        console_lines: vec![],
        execution_time_ms: 1,
        query_time_ms: 1,
    })
}

fn run(code: &str, options: AnalysisOptions, names: &[&str]) -> Vec<static_analysis::model::RuleResult> {
    let cfg = ConfigFile::default();
    let provider = get_argument_provider(&cfg);
    let rules: Vec<RuleInternal> = names.iter().map(|n| rule(n)).collect();
    analyze_with(&Language::Python, &rules, &"myfile.py".to_string(), code, &provider, &options, 4, &engine)
}

#[test]
fn one_record_per_rule_in_order_with_the_rules_kind() {
    let results = run("\ndef foo(arg1):\n    pass\n", AnalysisOptions::default(), &["ruleset/a", "ruleset/slow", "ruleset/b"]);
    assert_eq!(results.len(), 3);
    assert_eq!(results[0].rule_name, "ruleset/a");
    assert_eq!(results[0].violations[0].message, "ruleset/a");
    assert_eq!(results[0].violations[0].severity, RuleSeverity::Error);
    assert_eq!(results[0].violations[0].category, RuleCategory::Security);
    assert_eq!(results[1].errors, vec!["rule-timeout".to_string()]);
    assert!(results[1].violations.is_empty());
    assert_eq!(results[2].rule_name, "ruleset/b");
    assert_eq!(results[2].parsing_time_ms, 4);
}

#[test]
fn file_wide_marker_empties_every_record() {
    let results = run("#no-dd-sa\ndef foo(arg1):\n    pass\n", AnalysisOptions::default(), &["ruleset/a", "ruleset/b"]);
    assert_eq!(results.len(), 2);
    assert!(results.iter().all(|r| r.violations.is_empty() && r.errors.is_empty()));
}

#[test]
fn generated_files_give_no_record_when_skipped() {
    let code = "# Code generated by tool\ndef foo(arg1):\n    pass\n";
    let skip = AnalysisOptions { ignore_generated_files: true, ..Default::default() };
    assert!(run(code, skip, &["ruleset/a"]).is_empty());
    assert_eq!(run(code, AnalysisOptions::default(), &["ruleset/a"]).len(), 1);
}

#[test]
fn the_engine_receives_each_rule_with_its_configured_arguments() {
    let argument = ArgumentValues {
        default_value: None,
        by_subtree: vec![("myfile.py".to_string(), "101".to_string())],
    };
    let cfg = ConfigFile {
        rulesets: vec![(
            "ruleset".to_string(),
            RulesetConfig {
                paths: Default::default(),
                rules: vec![(
                    "rule1".to_string(),
                    RuleConfig { paths: Default::default(), arguments: vec![("my-argument".to_string(), argument)] },
                )],
            },
        )],
        ..ConfigFile::default()
    };
    let provider = get_argument_provider(&cfg);
    let rules = vec![rule("ruleset/rule1"), rule("ruleset/rule2")];
    let engine = |rule: &RuleInternal, args: &Vec<(String, String)>| -> Result<ExecutionResult, ExecutionError> {
        let violations = args
            .iter()
            .map(|(k, v)| violation(2, &format!("{} {} = {}", rule.name, k, v)))
            .collect();
        Ok(ExecutionResult { violations, console_lines: vec![], execution_time_ms: 0, query_time_ms: 0 })
    };
    let results = analyze_with(
        &Language::Python,
        &rules,
        &"myfile.py".to_string(),
        "\ndef foo(arg1):\n    pass\n",
        &provider,
        &AnalysisOptions::default(),
        0,
        &engine,
    );
    assert_eq!(results.len(), 2);
    assert_eq!(results[0].violations.len(), 1);
    assert_eq!(results[0].violations[0].message, "ruleset/rule1 my-argument = 101");
    assert!(results[1].violations.is_empty());
}
