use static_analysis::generated::{is_generated_file, is_minified_file, PROTOBUF_HEADER, THRIFT_HEADER};
use static_analysis::language::Language;

#[test]
fn test_is_generated_file_java() {
    assert!(!is_generated_file(&"class Foobar", &Language::Java));
    assert!(is_generated_file(
        &"// generated by the protocol buffer compiler\n class Foobar{}",
        &Language::Java
    ));
    assert!(is_generated_file(
        &format!("// {}\n class Foobar{{}}", PROTOBUF_HEADER),
        &Language::Java
    ));
    assert!(is_generated_file(
        &format!("// {}\n class Foobar{{}}", THRIFT_HEADER),
        &Language::Java
    ));
}

#[test]
fn test_is_generated_file_go() {
    assert!(!is_generated_file(&"fn func(){}", &Language::Go));
    assert!(is_generated_file(
        &"// Code generated by MockGen\nfn func(){}",
        &Language::Go
    ));
    assert!(is_generated_file(
        &format!("// {}\nfn func(){{}}", PROTOBUF_HEADER),
        &Language::Go
    ));
    assert!(is_generated_file(
        &format!("// {}\nfn func(){{}}", THRIFT_HEADER),
        &Language::Go
    ));
}

#[test]
fn test_is_generated_file_python() {
    assert!(!is_generated_file(
        &"def foo():\n  pass\n",
        &Language::Python
    ));
    assert!(is_generated_file(
        &"# Code generated by some tool\ndef foo():\n  pass\n",
        &Language::Go
    ));
    assert!(is_generated_file(
        &format!("# {}\ndef foo():\n  pass\n", THRIFT_HEADER),
        &Language::Go
    ));
    assert!(is_generated_file(
        &format!("# {}\ndef foo():\n  pass\n", PROTOBUF_HEADER),
        &Language::Go
    ));
}

#[test]
fn test_is_generated_file_ruby() {
    assert!(is_generated_file(
        &format!("# {}\ndef foo():\n  pass\n", THRIFT_HEADER),
        &Language::Ruby
    ));
    assert!(is_generated_file(
        &format!("# {}\ndef foo():\n  pass\n", PROTOBUF_HEADER),
        &Language::Ruby
    ));
}

#[test]
fn test_is_generated_file_javascript() {
    assert!(!is_generated_file(
        &"function smtg(){}",
        &Language::JavaScript
    ));
    assert!(is_generated_file(
        &"// GENERATED CODE -- DO NOT EDIT!\nfunction smtg(){}",
        &Language::JavaScript
    ));
    assert!(is_generated_file(
        &"// Generated by PEG.js\nfunction smtg(){}",
        &Language::JavaScript
    ));
    assert!(is_generated_file(
        &format!("// {}\nfunction smtg(){{}}", THRIFT_HEADER),
        &Language::JavaScript
    ));
}

#[test]
fn test_is_generated_file_typescript() {
    assert!(!is_generated_file(
        &"function smtg(){}",
        &Language::TypeScript
    ));
    assert!(is_generated_file(
        &"// GENERATED CODE -- DO NOT EDIT!\nfunction smtg(){}",
        &Language::TypeScript
    ));
    assert!(is_generated_file(
        &"// Generated by PEG.js\nfunction smtg(){}",
        &Language::TypeScript
    ));
    assert!(is_generated_file(
        &format!("// {}\nfunction smtg(){{}}", THRIFT_HEADER),
        &Language::TypeScript
    ));
}

#[test]
fn test_is_minified_file_javascript() {
    assert!(is_minified_file(
        &"var x = 2;".repeat(100),
        &Language::JavaScript
    ));
}

#[test]
fn unlisted_language_is_never_generated() {
    assert!(!is_generated_file(
        &format!("// {}\nfn main(){{}}", PROTOBUF_HEADER),
        &Language::Rust
    ));
}

#[test]
fn marker_past_the_header_is_not_seen() {
    let code = format!("{}\n// Code generated by tool\n", "x".repeat(400));
    assert!(!is_generated_file(&code, &Language::Go));
    let code = format!("{}// Code generated by tool\n", "x".repeat(390));
    assert!(!is_generated_file(&code, &Language::Go));
}

#[test]
fn header_cut_inside_a_character_is_still_the_first_400_bytes() {
    // 399 ASCII bytes, then a two-byte character across byte 400
    let a = format!("{}éCode generated by", "x".repeat(399));
    let b = format!("{}é", "x".repeat(399));
    assert!(!is_generated_file(&a, &Language::Go));
    assert_eq!(is_generated_file(&a, &Language::Go), is_generated_file(&b, &Language::Go));
    let c = format!("{}éCode generated by", "x".repeat(100));
    assert!(is_generated_file(&c, &Language::Go));
}

#[test]
fn minified_edge_cases() {
    assert!(!is_minified_file("", &Language::JavaScript));
    assert!(!is_minified_file(&"var x = 2;".repeat(100), &Language::TypeScript));
    // 111 bytes per line on average is minified, 110 is not
    assert!(is_minified_file(&format!("{}\n{}", "a".repeat(111), "b".repeat(111)), &Language::JavaScript));
    assert!(!is_minified_file(&format!("{}\n{}\n", "a".repeat(110), "b".repeat(110)), &Language::JavaScript));
    // line breaks and carriage returns are not counted; 110.5 on average is minified
    assert!(is_minified_file(&format!("{}\r\n{}\r\n", "a".repeat(110), "b".repeat(111)), &Language::JavaScript));
    assert!(!is_minified_file(&format!("{}\r\n{}\r\n", "a".repeat(110), "b".repeat(110)), &Language::JavaScript));
}
