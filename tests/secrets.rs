use static_analysis::secrets::{
    RawAnyOf, RawCheck, RawContains, RawEquals, Regex, SecretRule, StringOrInt, StringsOrInts,
    TemplateVar,
};

#[test]
fn digest_joins_id_and_pattern() {
    let rule = SecretRule {
        id: "aws-key".to_string(),
        name: "AWS key".to_string(),
        description: "d".to_string(),
        pattern: "AKIA[0-9A-Z]{16}".to_string(),
    };
    assert_eq!(rule.generate_diff_aware_digest(), "aws-key:AKIA[0-9A-Z]{16}");
}

#[test]
fn input_variable_of_each_check() {
    let var = |n: &str| TemplateVar { name: n.to_string() };
    let eq = RawCheck::Equals(RawEquals { input: var("status"), value: StringOrInt::Int(200) });
    let any = RawCheck::AnyOf(RawAnyOf {
        input: var("code"),
        values: StringsOrInts(vec![StringOrInt::Int(401), StringOrInt::String("x".to_string())]),
    });
    let contains = RawCheck::Contains(RawContains { input: var("body"), substring: "ok".to_string() });
    assert_eq!(eq.input_variable(), "status");
    assert_eq!(any.input_variable(), "code");
    assert_eq!(contains.input_variable(), "body");
}

#[test]
fn regex_compiles_and_checks() {
    let regex = Regex::try_new("(?i)abc (?-i)abc").unwrap();
    assert!(regex.check(b"ABC abc"));
    assert!(!regex.check(b"ABC ABC"));
    assert!(Regex::try_new("(unclosed").is_err());
}

#[test]
fn regex_from_compiled_pattern() {
    let regex = Regex::new(pcre2::bytes::Regex::new("^a+$").unwrap());
    assert!(regex.check(b"aaa"));
    assert!(!regex.check(b"aab"));
}
