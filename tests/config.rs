use serde_yaml::Value;
use static_analysis::arguments::{
    get_argument_provider, ArgumentValues, ConfigFile, PathConfig, RuleConfig, RulesetConfig,
};
use static_analysis::config::{config_from_yaml, ConfigError, YamlValue};

fn yaml_value(v: Value) -> YamlValue {
    match v {
        Value::Null => YamlValue::Null,
        Value::Bool(b) => YamlValue::Bool(b),
        Value::Number(n) => YamlValue::Number { text: n.to_string(), unsigned: n.as_u64() },
        Value::String(s) => YamlValue::String(s),
        Value::Sequence(items) => YamlValue::Sequence(items.into_iter().map(yaml_value).collect()),
        Value::Mapping(m) => {
            YamlValue::Mapping(m.into_iter().map(|(k, v)| (yaml_value(k), yaml_value(v))).collect())
        }
        Value::Tagged(t) => {
            let t = *t;
            YamlValue::Tagged { tag: t.tag.to_string(), value: Box::new(yaml_value(t.value)) }
        }
    }
}

fn parse_config_file(data: &str) -> Result<ConfigFile, ConfigError> {
    match serde_yaml::from_str::<Value>(data) {
        Ok(v) => config_from_yaml(&yaml_value(v)),
        Err(e) => Err(ConfigError { reason: e.to_string() }),
    }
}

// `rulesets` parsed as a list of ruleset names
#[test]
fn test_parse_rulesets_as_list_of_strings() {
    let data = r#"
rulesets:
  - python-security
  - go-best-practices
    "#;
    let expected = ConfigFile {
        rulesets: vec![
            ("python-security".to_string(), RulesetConfig::default()),
            ("go-best-practices".to_string(), RulesetConfig::default()),
        ],
        ..ConfigFile::default()
    };

    let res = parse_config_file(data);
    assert_eq!(expected, res.unwrap());
}

// `rulesets` parsed as a map from rule name to config.
#[test]
fn test_parse_rulesets_as_map() {
    let data = r#"
rulesets:
  python-security:
  go-best-practices:
    only:
      - "one/two"
      - "foo/**/*.go"
    ignore:
      - "tres/cuatro"
      - "bar/**/*.go"
  java-security:
    rules:
      random-iv:
    "#;
    let expected = ConfigFile {
        rulesets: vec![
            ("python-security".to_string(), RulesetConfig::default()),
            (
                "go-best-practices".to_string(),
                RulesetConfig {
                    paths: PathConfig {
                        only: Some(vec!["one/two".to_string(), "foo/**/*.go".to_string()]),
                        ignore: vec!["tres/cuatro".to_string(), "bar/**/*.go".to_string()],
                    },
                    rules: vec![],
                },
            ),
            (
                "java-security".to_string(),
                RulesetConfig {
                    paths: PathConfig::default(),
                    rules: vec![("random-iv".to_string(), RuleConfig::default())],
                },
            ),
        ],
        ..ConfigFile::default()
    };

    let res = parse_config_file(data);
    assert_eq!(expected, res.unwrap());
}

// Parse improperly formatted YAML where the rulesets are lists of maps
// or mixed lists of strings and maps.
#[test]
fn test_parse_rulesets_as_list_of_strings_and_maps() {
    let data = r#"
rulesets:
  - c-best-practices
  - rust-best-practices:
  - go-best-practices:
    only:
      - "foo"
  - python-best-practices:
      ignore:
        - "bar"
    "#;

    let expected = ConfigFile {
        rulesets: vec![
            ("c-best-practices".to_string(), RulesetConfig::default()),
            ("rust-best-practices".to_string(), RulesetConfig::default()),
            (
                "go-best-practices".to_string(),
                RulesetConfig {
                    paths: PathConfig {
                        only: Some(vec!["foo".to_string()]),
                        ignore: vec![],
                    },
                    ..Default::default()
                },
            ),
            (
                "python-best-practices".to_string(),
                RulesetConfig {
                    paths: PathConfig {
                        only: None,
                        ignore: vec!["bar".to_string()],
                    },
                    ..Default::default()
                },
            ),
        ],
        ..ConfigFile::default()
    };

    let res = parse_config_file(data);
    assert_eq!(expected, res.unwrap());
}

// Cannot have repeated ruleset configurations.
#[test]
fn test_cannot_parse_rulesets_with_repeated_names() {
    let data = r#"
rulesets:
  - go-best-practices
  - go-security
  - go-best-practices
    "#;

    let res = parse_config_file(data);
    assert!(res.is_err());
    let data = r#"
rulesets:
  go-best-practices:
  go-security:
  go-best-practices:
    "#;

    let res = parse_config_file(data);
    assert!(res.is_err());
}

// Rule definitions can be parsed.
#[test]
fn test_parse_rules() {
    let data = r#"
rulesets:
  python-security:
    rules:
      no-eval:
        only:
          - "py/**"
        ignore:
          - "py/insecure/**"
    "#;
    let expected = ConfigFile {
        rulesets: vec![(
            "python-security".to_string(),
            RulesetConfig {
                paths: PathConfig::default(),
                rules: vec![(
                    "no-eval".to_string(),
                    RuleConfig {
                        paths: PathConfig {
                            only: Some(vec!["py/**".to_string()]),
                            ignore: vec!["py/insecure/**".to_string()],
                        },
                        arguments: Default::default(),
                    },
                )],
            },
        )],
        ..ConfigFile::default()
    };

    let res = parse_config_file(data);
    assert_eq!(expected, res.unwrap());
}

// Rules cannot be specified as lists of strings or maps.
#[test]
fn test_cannot_parse_rules_as_list() {
    let data = r#"
rulesets:
  python-security:
    rules:
      - no-eval
    "#;

    let res = parse_config_file(data);
    assert!(res.is_err());

    let data = r#"
rulesets:
  python-security:
    rules:
      - no-eval:
          only:
            - "py/**"
          ignore:
            - "py/insecure/**"
    "#;

    let res = parse_config_file(data);
    assert!(res.is_err());
}

// Rules cannot be repeated.
#[test]
fn test_cannot_parse_repeated_rules() {
    let data = r#"
rulesets:
  python-security:
    rules:
      no-eval:
        only:
          - "foo"
      no-eval:
        ignore:
          - "bar"
    "#;

    let res = parse_config_file(data);
    assert!(res.is_err());
}

// test with everything
#[test]
fn test_parse_all_other_options() {
    let data = r#"
rulesets:
  - python-security
only:
  - "py/**/foo/*.py"
ignore:
  - "py/testing/*.py"
ignore-paths:
  - "**/test/**"
  - path1
ignore-gitignore: false
max-file-size-kb: 512
    "#;

    let expected = ConfigFile {
        rulesets: vec![("python-security".to_string(), RulesetConfig::default())],
        paths: PathConfig {
            only: Some(vec!["py/**/foo/*.py".to_string()]),
            ignore: vec![
                "py/testing/*.py".to_string(),
                "**/test/**".to_string(),
                "path1".to_string(),
            ],
        },
        ignore_gitignore: Some(false),
        max_file_size_kb: Some(512),
    };

    let res = parse_config_file(data);
    assert_eq!(expected, res.unwrap());
}

// No ruleset available in the data means that we have no configuration file
// whatsoever and we should return Err
#[test]
fn test_parse_no_rulesets() {
    let data = r#"
    "#;
    let res = parse_config_file(data);
    assert!(res.is_err());
}

#[test]
fn arguments_from_a_configuration_reach_the_provider() {
    let data = r#"
rulesets:
  python-best-practices:
    rules:
      max-params:
        arguments:
          max-params:
            /: 3
            src/legacy: 8
          style: strict
    "#;
    let cfg = parse_config_file(data).unwrap();
    let (_, rs) = &cfg.rulesets[0];
    let (_, rule) = &rs.rules[0];
    assert_eq!(
        rule.arguments,
        vec![
            (
                "max-params".to_string(),
                ArgumentValues {
                    default_value: Some("3".to_string()),
                    by_subtree: vec![("src/legacy".to_string(), "8".to_string())],
                },
            ),
            (
                "style".to_string(),
                ArgumentValues { default_value: Some("strict".to_string()), by_subtree: vec![] },
            ),
        ]
    );
    let provider = get_argument_provider(&cfg);
    assert_eq!(
        provider.get_arguments("src/legacy/old.py", "python-best-practices/max-params"),
        vec![("max-params".to_string(), "8".to_string()), ("style".to_string(), "strict".to_string())]
    );
    assert_eq!(
        provider.get_arguments("src/new.py", "python-best-practices/max-params"),
        vec![("max-params".to_string(), "3".to_string()), ("style".to_string(), "strict".to_string())]
    );
}

#[test]
fn invalid_option_values_are_rejected() {
    assert!(parse_config_file("rulesets:\n  - a\nignore-gitignore: maybe\n").is_err());
    assert!(parse_config_file("rulesets:\n  - a\nmax-file-size-kb: -1\n").is_err());
    assert!(parse_config_file("rulesets:\n  - a\nonly: foo\n").is_err());
    assert!(parse_config_file("- a\n- b\n").is_err());
    assert!(parse_config_file("only:\n  - a\n").is_err());
}

fn text(s: &str) -> YamlValue {
    YamlValue::String(s.to_string())
}

fn rule_with_arguments(arguments: YamlValue) -> YamlValue {
    YamlValue::Mapping(vec![(
        text("rulesets"),
        YamlValue::Mapping(vec![(
            text("python-security"),
            YamlValue::Mapping(vec![(
                text("rules"),
                YamlValue::Mapping(vec![(
                    text("no-eval"),
                    YamlValue::Mapping(vec![(text("arguments"), arguments)]),
                )]),
            )]),
        )]),
    )])
}

#[test]
fn repeated_argument_names_and_paths_are_rejected() {
    let one = |v: &str| YamlValue::Number { text: v.to_string(), unsigned: v.parse().ok() };
    // the same argument twice
    let twice = YamlValue::Mapping(vec![(text("max"), one("3")), (text("max"), one("4"))]);
    assert!(config_from_yaml(&rule_with_arguments(twice)).is_err());
    // the same path twice, once as a string and once as a number
    let paths = YamlValue::Mapping(vec![(
        text("max"),
        YamlValue::Mapping(vec![(text("1"), one("3")), (one("1"), one("4"))]),
    )]);
    assert!(config_from_yaml(&rule_with_arguments(paths)).is_err());
    // two defaults
    let defaults = YamlValue::Mapping(vec![(
        text("max"),
        YamlValue::Mapping(vec![(text("/"), one("3")), (text("/"), one("4"))]),
    )]);
    assert!(config_from_yaml(&rule_with_arguments(defaults)).is_err());
    // distinct names and paths are fine
    let fine = YamlValue::Mapping(vec![(
        text("max"),
        YamlValue::Mapping(vec![(text("/"), one("3")), (text("src"), one("4"))]),
    )]);
    assert!(config_from_yaml(&rule_with_arguments(fine)).is_ok());
}
