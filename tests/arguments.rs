use static_analysis::arguments::resolve_argument;
use static_analysis::arguments::{
    filter_arguments, get_argument_provider, split_rule_name, ArgumentValues, ConfigFile,
    PathConfig, RuleConfig, RulesetConfig,
};

fn no_paths() -> PathConfig {
    PathConfig { only: None, ignore: vec![] }
}

fn values(default_value: Option<&str>, by_subtree: &[(&str, &str)]) -> ArgumentValues {
    ArgumentValues {
        default_value: default_value.map(|s| s.to_string()),
        by_subtree: by_subtree.iter().map(|(k, v)| (k.to_string(), v.to_string())).collect(),
    }
}

fn config(rules: Vec<(String, RuleConfig)>) -> ConfigFile {
    ConfigFile {
        rulesets: vec![("ruleset".to_string(), RulesetConfig { paths: no_paths(), rules })],
        paths: no_paths(),
        ignore_gitignore: None,
        max_file_size_kb: None,
    }
}

#[test]
fn argument_resolution_scenario() {
    let rule1 = RuleConfig {
        paths: no_paths(),
        arguments: vec![
            ("my-argument".to_string(), values(None, &[("myfile.py", "101")])),
            ("another-arg".to_string(), values(None, &[("myfile.py", "101")])),
        ],
    };
    let cfg = config(vec![("rule1".to_string(), rule1)]);
    let provider = get_argument_provider(&cfg);
    let args = provider.get_arguments("myfile.py", "ruleset/rule1");
    assert_eq!(
        args,
        vec![
            ("my-argument".to_string(), "101".to_string()),
            ("another-arg".to_string(), "101".to_string())
        ]
    );
    assert!(provider.get_arguments("myfile.py", "ruleset/rule2").is_empty());
    assert!(provider.get_arguments("myfile.py", "other/rule1").is_empty());
    assert!(provider.get_arguments("other.py", "ruleset/rule1").is_empty());
}

#[test]
fn deepest_ancestor_wins_and_default_applies_elsewhere() {
    let av = values(Some("d"), &[("src", "1"), ("src/a", "2"), ("src/a/b.py", "3")]);
    let args = vec![("x".to_string(), av)];
    assert_eq!(filter_arguments(&args, "src/a/b.py"), vec![("x".to_string(), "3".to_string())]);
    assert_eq!(filter_arguments(&args, "src/a/c.py"), vec![("x".to_string(), "2".to_string())]);
    assert_eq!(filter_arguments(&args, "src/z.py"), vec![("x".to_string(), "1".to_string())]);
    assert_eq!(filter_arguments(&args, "lib/z.py"), vec![("x".to_string(), "d".to_string())]);
    // a string prefix that is no path prefix does not count
    assert_eq!(filter_arguments(&args, "src2/z.py"), vec![("x".to_string(), "d".to_string())]);
}

#[test]
fn empty_path_and_root_are_ancestors() {
    let args = vec![("x".to_string(), values(None, &[("", "rel")]))];
    assert_eq!(filter_arguments(&args, "a/b.py"), vec![("x".to_string(), "rel".to_string())]);
    assert!(filter_arguments(&args, "/a/b.py").is_empty());
    let args = vec![("x".to_string(), values(None, &[("/", "abs")]))];
    assert_eq!(filter_arguments(&args, "/a/b.py"), vec![("x".to_string(), "abs".to_string())]);
    assert!(filter_arguments(&args, "a/b.py").is_empty());
}

#[test]
fn arguments_resolved_for_a_directory_reach_files_under_it() {
    let args = vec![
        ("a".to_string(), values(None, &[("src", "1")])),
        ("b".to_string(), values(None, &[("src/x", "2")])),
        ("c".to_string(), values(Some("0"), &[])),
    ];
    let at_dir = filter_arguments(&args, "src");
    let at_file = filter_arguments(&args, "src/x/y.py");
    for (name, _) in &at_dir {
        assert!(at_file.iter().any(|(n, _)| n == name));
    }
    assert_eq!(at_dir.len(), 2);
    assert_eq!(at_file.len(), 3);
}

#[test]
fn unresolved_arguments_are_left_out() {
    let args = vec![
        ("a".to_string(), values(None, &[])),
        ("b".to_string(), values(Some("v"), &[])),
    ];
    assert_eq!(filter_arguments(&args, "f.py"), vec![("b".to_string(), "v".to_string())]);
}

#[test]
fn split_rule_name_cases() {
    assert_eq!(split_rule_name("ruleset/rule"), ("ruleset", "rule"));
    assert_eq!(split_rule_name("rule"), ("", "rule"));
    assert_eq!(split_rule_name("a/b/c"), ("a", "b/c"));
    assert_eq!(split_rule_name("/x"), ("", "x"));
}

#[test]
fn resolve_single_argument() {
    let av = values(Some("10"), &[("a/b", "20")]);
    assert_eq!(resolve_argument(&av, "a/b/c.py"), Some("20".to_string()));
    assert_eq!(resolve_argument(&av, "a/bc.py"), Some("10".to_string()));
    assert_eq!(resolve_argument(&values(None, &[]), "x.py"), None);
}

#[test]
fn ancestors_follow_path_parent() {
    let only = |key: &str| vec![("x".to_string(), values(None, &[(key, "1")]))];
    let hit = |key: &str, file: &str| !filter_arguments(&only(key), file).is_empty();
    // runs of `/` separate no part
    assert!(!hit("a/", "a//b"));
    assert!(hit("a", "a//b"));
    assert!(hit("", "a//b"));
    assert!(hit("a//b", "a//b"));
    // a trailing `/` separates no part
    assert!(!hit("a/b", "a/b/"));
    assert!(hit("a", "a/b/"));
    // an inner `.` is no part
    assert!(!hit("a/.", "a/./b"));
    assert!(hit("a", "a/./b"));
    // a leading `.` is one
    assert!(hit(".", "./a"));
    assert!(hit("", "./a"));
    // the root of an absolute path
    assert!(hit("/", "/a"));
    assert!(!hit("", "/a"));
    assert!(hit("/", "/"));
    // the ancestors agree with std's walk
    for file in ["a/b/c.py", "a//b", "a/b/", "a/./b", "./a", "/a/b", "/a/", "a/..", "x"] {
        let mut expected = vec![];
        let mut p = Some(std::path::Path::new(file));
        while let Some(q) = p {
            expected.push(q.display().to_string());
            p = q.parent();
        }
        for k in 0..=file.len() {
            let prefix = &file[..k];
            assert_eq!(hit(prefix, file), expected.contains(&prefix.to_string()), "{file} {prefix}");
        }
    }
}
