use static_analysis::suppression::directive_rule_ids;
use static_analysis::language::Language;
use static_analysis::suppression::{get_lines_to_ignore, FileIgnoreBehavior};

fn assert_lines_to_ignore(code: String, language: Language, rule: &'static str) {
    let lines_to_ignore = get_lines_to_ignore(code.as_str(), &language);
    assert_eq!(1, lines_to_ignore.lines_to_ignore_per_rule.len());
    assert_eq!(
        rule,
        lines_to_ignore
            .lines_to_ignore_per_rule
            .get(&3)
            .unwrap()
            .get(0)
            .unwrap()
    );
}

#[test]
fn test_get_lines_to_ignore_with_tabs_and_no_space_from_comment_symbol() {
    // no-dd-sa on line 2 so we ignore line 3 for rule
    let rule = "ruleset/rule1";
    // java
    let code = format!("\n\t//no-dd-sa:{rule}");
    assert_lines_to_ignore(code, Language::Java, rule);
    // js
    let code = format!("\n\t//no-dd-sa:{rule}");
    assert_lines_to_ignore(code, Language::JavaScript, rule);
    // python
    let code = format!("\n\t#no-dd-sa:{rule}");
    assert_lines_to_ignore(code, Language::Python, rule);
}

#[test]
fn test_get_lines_to_ignore_python() {
    // no-dd-sa ruleset1/rule1 on line 3 so we ignore line 4 for ruleset1/rule1
    // no-dd-sa on line 7 so we ignore all rules on line 8
    let code = "\
foo

# no-dd-sa ruleset1/rule1

bar

# no-dd-sa
";

    let lines_to_ignore = get_lines_to_ignore(code, &Language::Python);

    // test lines to ignore for all rules
    assert_eq!(1, lines_to_ignore.lines_to_ignore.len());
    assert!(!lines_to_ignore.lines_to_ignore.contains(&1));
    assert!(lines_to_ignore.lines_to_ignore.contains(&8));

    // test lines to ignore for some rules
    assert_eq!(1, lines_to_ignore.lines_to_ignore_per_rule.len());
    assert!(lines_to_ignore.lines_to_ignore_per_rule.contains_key(&4));
    assert_eq!(
        1,
        lines_to_ignore
            .lines_to_ignore_per_rule
            .get(&4)
            .unwrap()
            .len()
    );
    assert_eq!(
        "ruleset1/rule1",
        lines_to_ignore
            .lines_to_ignore_per_rule
            .get(&4)
            .unwrap()
            .get(0)
            .unwrap()
    );
}

#[test]
fn test_get_lines_to_ignore_python_ignore_all_file() {
    let code = "\
#no-dd-sa
def foo():
  pass";

    let lines_to_ignore = get_lines_to_ignore(code, &Language::Python);
    assert!(lines_to_ignore.lines_to_ignore.is_empty());
    assert!(lines_to_ignore.lines_to_ignore_per_rule.is_empty());
    assert!(matches!(
        lines_to_ignore.ignore_file,
        FileIgnoreBehavior::AllRules
    ));
}

#[test]
fn test_get_lines_to_ignore_python_ignore_all_file_specific_rules() {
    let code1 = "\
#no-dd-sa foo/bar
def foo():
  pass";

    let lines_to_ignore1 = get_lines_to_ignore(code1, &Language::Python);
    assert!(lines_to_ignore1.lines_to_ignore_per_rule.is_empty());
    assert_eq!(
        lines_to_ignore1.ignore_file,
        FileIgnoreBehavior::SomeRules(vec!["foo/bar".to_string()])
    );
    assert!(lines_to_ignore1.lines_to_ignore.is_empty());

    let code2 = "\
#no-dd-sa foo/bar ruleset/rule
def foo():
  pass";

    let lines_to_ignore2 = get_lines_to_ignore(code2, &Language::Python);

    assert!(lines_to_ignore2.lines_to_ignore_per_rule.is_empty());

    assert_eq!(
        lines_to_ignore2.ignore_file,
        FileIgnoreBehavior::SomeRules(vec!["foo/bar".to_string(), "ruleset/rule".to_string()])
    );
    assert!(lines_to_ignore2.lines_to_ignore.is_empty());
}

#[test]
fn test_get_lines_to_ignore_javascript() {
    // no-dd-sa ruleset1/rule1 on line 3 so we ignore line 4 for ruleset1/rule1
    // no-dd-sa on line 7 so we ignore all rules on line 8
    let code = r#"
 /*
 * no-dd-sa */
line4("bar");
/* no-dd-sa */
line6("bar");
// no-dd-sa ruleset/rule1,ruleset/rule2
line8("bar");
// no-dd-sa ruleset/rule1, ruleset/rule3
line10("bar");
/* no-dd-sa ruleset/rule1, ruleset/rule4 */
line12("bar");
/*no-dd-sa ruleset/rule1, ruleset/rule5*/
line14("bar");
// no-dd-sa:ruleset/rule1
line16("bar");
// no-dd-sa
line18("foo")
//no-dd-sa
line20("foo")
        "#;

    let lines_to_ignore = get_lines_to_ignore(code, &Language::JavaScript);

    // test lines to ignore for all rules
    assert_eq!(3, lines_to_ignore.lines_to_ignore.len());
    assert!(!lines_to_ignore.lines_to_ignore.contains(&1));
    assert!(lines_to_ignore.lines_to_ignore.contains(&18));
    assert!(lines_to_ignore.lines_to_ignore.contains(&20));
    assert_eq!(5, lines_to_ignore.lines_to_ignore_per_rule.len());
    let get = |line: u32, i: usize| {
        lines_to_ignore
            .lines_to_ignore_per_rule
            .get(&line)
            .unwrap()
            .get(i)
            .unwrap()
            .clone()
    };
    assert_eq!("ruleset/rule1", get(8, 0));
    assert_eq!("ruleset/rule2", get(8, 1));
    assert_eq!("ruleset/rule1", get(10, 0));
    assert_eq!("ruleset/rule3", get(10, 1));
    assert_eq!("ruleset/rule1", get(12, 0));
    assert_eq!("ruleset/rule4", get(12, 1));
    assert_eq!("ruleset/rule1", get(14, 0));
    assert_eq!("ruleset/rule5", get(14, 1));
}

#[test]
fn line_scoped_suppression_scenario() {
    let code = "foo\n\n# no-dd-sa ruleset1/rule1\n\nbar\n\n# no-dd-sa\n";
    let l = get_lines_to_ignore(code, &Language::Python);
    assert_eq!(l.lines_to_ignore, vec![8]);
    assert_eq!(l.lines_to_ignore_per_rule.len(), 1);
    assert_eq!(
        l.lines_to_ignore_per_rule.get(&4).unwrap(),
        &vec!["ruleset1/rule1".to_string()]
    );
    assert_eq!(l.ignore_file, FileIgnoreBehavior::SomeRules(vec![]));
    assert!(l.should_filter_rule("ruleset1/rule1", 4));
    assert!(!l.should_filter_rule("ruleset1/rule2", 4));
    assert!(l.should_filter_rule("any/rule", 8));
    assert!(!l.should_filter_rule("ruleset1/rule1", 5));
}

#[test]
fn file_wide_suppression_filters_every_rule() {
    let l = get_lines_to_ignore("#no-dd-sa\ndef foo(arg1):\n    pass\n", &Language::Python);
    assert_eq!(l.ignore_file, FileIgnoreBehavior::AllRules);
    assert!(l.should_filter_rule("myrule", 1));
    assert!(l.should_filter_rule("ruleset/rule", 2));
    assert!(l.should_filter_rule("x/y", 1000));
}

#[test]
fn marker_on_second_line_silences_only_third_line() {
    // a marker below an empty first line is not file-wide
    let l = get_lines_to_ignore("\n# no-dd-sa\ndef foo(arg1):\n    pass\n", &Language::Python);
    assert_eq!(l.ignore_file, FileIgnoreBehavior::SomeRules(vec![]));
    assert_eq!(l.lines_to_ignore, vec![3]);
    assert!(l.should_filter_rule("myrule", 3));
    assert!(!l.should_filter_rule("myrule", 4));
}

#[test]
fn file_wide_rule_list_filters_named_rules_only() {
    let l = get_lines_to_ignore("#no-dd-sa foo/bar\nx = 1\n", &Language::Python);
    assert!(l.should_filter_rule("foo/bar", 2));
    assert!(!l.should_filter_rule("foo/baz", 2));
}

#[test]
fn javascript_multi_marker_line() {
    let code = "a\nb\nc\nd\ne\nf\n// no-dd-sa ruleset/rule1,ruleset/rule2\nline8();\n";
    let l = get_lines_to_ignore(code, &Language::JavaScript);
    assert_eq!(
        l.lines_to_ignore_per_rule.get(&8).unwrap(),
        &vec!["ruleset/rule1".to_string(), "ruleset/rule2".to_string()]
    );
    assert!(l.should_filter_rule("ruleset/rule2", 8));
    assert!(!l.should_filter_rule("ruleset/rule3", 8));
}

#[test]
fn datadog_disable_marker_and_crlf_lines() {
    let code = "x\r\n# datadog-disable\r\ny\r\n";
    let l = get_lines_to_ignore(code, &Language::Python);
    assert_eq!(l.lines_to_ignore, vec![3]);
}

#[test]
fn php_line_holding_two_markers_counts_twice() {
    let code = "<?php\n// no-dd-sa # no-dd-sa\n$x = 1;\n";
    let l = get_lines_to_ignore(code, &Language::PHP);
    assert_eq!(l.lines_to_ignore, vec![3, 3]);
}

#[test]
fn json_has_no_markers() {
    let l = get_lines_to_ignore("// no-dd-sa\n{}\n", &Language::Json);
    assert!(l.lines_to_ignore.is_empty());
    assert!(l.lines_to_ignore_per_rule.is_empty());
    assert_eq!(l.ignore_file, FileIgnoreBehavior::SomeRules(vec![]));
}

#[test]
fn empty_source_has_no_suppression() {
    let l = get_lines_to_ignore("", &Language::Go);
    assert!(l.lines_to_ignore.is_empty());
    assert!(!l.should_filter_rule("a/b", 1));
}

#[test]
fn parsing_twice_gives_the_same_suppressions() {
    let code = "#no-dd-sa a/b\nx\n# no-dd-sa c/d\ny\n# no-dd-sa\n";
    let a = get_lines_to_ignore(code, &Language::Python);
    let b = get_lines_to_ignore(code, &Language::Python);
    assert_eq!(a.lines_to_ignore, b.lines_to_ignore);
    assert_eq!(a.lines_to_ignore_per_rule, b.lines_to_ignore_per_rule);
    assert_eq!(a.ignore_file, b.ignore_file);
}

#[test]
fn rule_ids_of_directive_lines() {
    let ids = |s: &str| directive_rule_ids(&s.chars().collect());
    assert_eq!(ids("// no-dd-sa ruleset/rule1, ruleset/rule3"), vec!["ruleset/rule1", "ruleset/rule3"]);
    assert_eq!(ids("/*no-dd-sa ruleset/rule1, ruleset/rule5*/"), vec!["ruleset/rule1", "ruleset/rule5"]);
    assert_eq!(ids("# datadog-disable:a/b"), vec!["a/b"]);
    assert!(ids("// no-dd-sa words without slash").is_empty());
}
