use rs_script::analyzer::{
    collect_description, dependency_names, find_block, find_directive, import_root_of,
    is_builtin_name, parse_directive, parse_metadata, strip_shebang, ScriptStructure,
};
use rs_script::errors::BuildRunError;
use rs_script::patterns::{capture_group, count_matches};
use rs_script::text::{
    decimal, find, insert_sorted, lowered, order_texts, split_lines, trimmed, TextOrder,
};

fn chars(s: &str) -> Vec<char> {
    s.chars().collect()
}

fn text(v: &[char]) -> String {
    v.iter().collect()
}

fn lines(s: &str) -> Vec<String> {
    split_lines(&chars(s)).iter().map(|l| text(l)).collect()
}

fn strings(v: &[&str]) -> Vec<String> {
    v.iter().map(|s| s.to_string()).collect()
}

const PROGRAM: &str = r#"#!/usr/bin/env rs_script
/*[toml]
[dependencies]
serde = "1.0.203"
*/

/// Prints a greeting.
//: Twice.
//# Purpose: Demo a greeting.
//# Categories: basic
use serde_derive;
use std::io::Write;
use ::regex::Regex;

fn main() {
    println!("Hello");
}
"#;

#[test]
fn a_program_is_analysed() {
    let parsed = parse_metadata(PROGRAM, None).unwrap();
    assert_eq!(parsed.purpose, Some("Demo a greeting.".to_string()));
    assert_eq!(parsed.description, Some(" Prints a greeting.\n Twice.\n".to_string()));
    assert_eq!(parsed.embedded_manifest, Some("\n[dependencies]\nserde = \"1.0.203\"\n".to_string()));
    assert_eq!(parsed.inferred_dependencies, vec!["regex", "serde_derive"]);
    assert!(parsed.is_program);
    assert!(!parsed.extra_manifest_blocks);
}

#[test]
fn a_bare_expression_is_a_snippet() {
    let parsed = parse_metadata("2 + 3", None).unwrap();
    assert!(!parsed.is_program);
    assert_eq!(parsed.purpose, None);
    assert_eq!(parsed.description, Some(String::new()));
    assert_eq!(parsed.embedded_manifest, None);
    assert!(parsed.inferred_dependencies.is_empty());
}

#[test]
fn an_entry_point_makes_a_program() {
    assert!(parse_metadata("fn main() {}", None).unwrap().is_program);
    assert!(parse_metadata("  async fn main ( ) {\n}\n", None).unwrap().is_program);
    assert!(!parse_metadata("fn other() {}\n// fn main() {}", None).unwrap().is_program);
    assert!(!parse_metadata("let main = 1;", None).unwrap().is_program);
}

#[test]
fn the_structural_parse_is_preferred() {
    let structure = ScriptStructure {
        imports: strings(&["syn", "std", "quote", "syn", "crate"]),
        extern_crates: strings(&["alloc", "itertools"]),
        entry_points: 0,
    };
    let parsed = parse_metadata("use ignored_because_parsed;\nfn main() {}\n", Some(&structure)).unwrap();
    assert_eq!(parsed.inferred_dependencies, vec!["itertools", "quote", "syn"]);
    assert!(!parsed.is_program);

    let structure = ScriptStructure { imports: vec![], extern_crates: vec![], entry_points: 2 };
    let parsed = parse_metadata("1 + 1", Some(&structure)).unwrap();
    assert!(parsed.is_program);
    assert!(parsed.inferred_dependencies.is_empty());
}

#[test]
fn both_paths_agree_on_a_simple_script() {
    let source = "use itertools::Itertools;\nuse std::fmt;\nfn main() {}\n";
    let structure = ScriptStructure {
        imports: strings(&["itertools", "std"]),
        extern_crates: vec![],
        entry_points: 1,
    };
    let textual = parse_metadata(source, None).unwrap();
    let structural = parse_metadata(source, Some(&structure)).unwrap();
    assert_eq!(textual.inferred_dependencies, structural.inferred_dependencies);
    assert_eq!(textual.is_program, structural.is_program);
    assert_eq!(textual.inferred_dependencies, vec!["itertools"]);
}

#[test]
fn a_malformed_manifest_block_stops_the_analysis() {
    let source = "/*[toml]\n[dependencies\nserde = \n*/\nfn main() {}\n";
    match parse_metadata(source, None) {
        Err(BuildRunError::MalformedManifest(message)) => assert!(!message.is_empty()),
        _ => panic!("the block was accepted"),
    }
    // Valid TOML that is no manifest is refused as well.
    let source = "/*[toml]\n[package]\nname = 5\n*/\n";
    assert!(matches!(parse_metadata(source, None), Err(BuildRunError::MalformedManifest(_))));
}

#[test]
fn only_the_first_manifest_block_counts() {
    let source = "/*[toml]\n[dependencies]\na = \"1\"\n*/\n/*[toml]\n[dependencies\n*/\n";
    let parsed = parse_metadata(source, None).unwrap();
    assert_eq!(parsed.embedded_manifest, Some("\n[dependencies]\na = \"1\"\n".to_string()));
    assert!(parsed.extra_manifest_blocks);
}

#[test]
fn a_block_needs_both_fences() {
    let parsed = parse_metadata("/*[toml]\n[dependencies]\n", None).unwrap();
    assert_eq!(parsed.embedded_manifest, None);
    let parsed = parse_metadata("/* [toml]\n*/ /*[toml]*/", None).unwrap();
    assert_eq!(parsed.embedded_manifest, Some(String::new()));
    assert_eq!(find_block(&chars("ab/*[toml]xy*/cd"), 0), Some((10, 12)));
    assert_eq!(find_block(&chars("ab/*[toml]xy*/cd"), 3), None);
    assert_eq!(find_block(&chars("*/ /*[toml]"), 0), None);
}

#[test]
fn the_shebang_line_is_blanked() {
    assert_eq!(text(&strip_shebang(&chars("#!/bin/sh\nfn main() {}\n"))), "\nfn main() {}\n");
    assert_eq!(text(&strip_shebang(&chars("#!/bin/sh"))), "");
    assert_eq!(text(&strip_shebang(&chars("fn main() {}\n#!x\n"))), "fn main() {}\n#!x\n");
    assert_eq!(text(&strip_shebang(&chars("#"))), "#");
    assert_eq!(text(&strip_shebang(&chars(""))), "");
    // Later lines keep their numbers.
    let before = lines("#!/bin/sh\none\ntwo\n");
    let after = lines(&text(&strip_shebang(&chars("#!/bin/sh\none\ntwo\n"))));
    assert_eq!(before.len(), after.len());
    assert_eq!(before[1..], after[1..]);
    assert_eq!(after[0], "");
}

#[test]
fn directives_are_read() {
    let parse = |l: &str| parse_directive(&chars(l)).map(|(k, v)| (text(&k), text(&v)));
    assert_eq!(parse("//# Purpose: Demo: it"), Some(("purpose".to_string(), "Demo: it".to_string())));
    assert_eq!(parse("//#  CATEGORIES :a,b  "), Some(("categories".to_string(), "a,b".to_string())));
    assert_eq!(parse("//#:"), Some((String::new(), String::new())));
    assert_eq!(parse("//# no colon"), None);
    assert_eq!(parse(" //# Purpose: indented"), None);
    assert_eq!(parse("// # Purpose: x"), None);

    let all = split_lines(&chars("//# Purpose: first\nx\n//# purpose: second\n//# Other: y\n"));
    assert_eq!(find_directive(&all, &chars("purpose")).map(|v| text(&v)), Some("second".to_string()));
    assert_eq!(find_directive(&all, &chars("other")).map(|v| text(&v)), Some("y".to_string()));
    assert_eq!(find_directive(&all, &chars("Purpose")), None);
    assert_eq!(find_directive(&all, &chars("missing")), None);
}

#[test]
fn description_lines_are_collected() {
    let all = split_lines(&chars("/// One\ncode();\n//: Two\n// not\n////four\n  /// indented\n"));
    assert_eq!(text(&collect_description(&all)), " One\n Two\n/four\n");
}

#[test]
fn import_roots_are_found() {
    assert_eq!(import_root_of("serde::{Deserialize, Serialize}"), "serde");
    assert_eq!(import_root_of("::syn::visit::*"), "syn");
    assert_eq!(import_root_of("serde_derive"), "serde_derive");
    assert_eq!(import_root_of("  tokio as rt"), "tokio");
    assert_eq!(import_root_of("{a, b}"), "");
    assert_eq!(import_root_of(""), "");
}

#[test]
fn builtin_names_are_no_dependencies() {
    for name in ["std", "core", "alloc", "collections", "fmt", "crate", "self", "super"] {
        assert!(is_builtin_name(name), "{name}");
    }
    for name in ["stdx", "st", "Std", "serde", ""] {
        assert!(!is_builtin_name(name), "{name}");
    }
    assert_eq!(
        dependency_names(&strings(&["tokio", "std", "", "serde", "tokio", "Zed", "self", "a_b", "a"])),
        vec!["Zed", "a", "a_b", "serde", "tokio"]
    );
    assert!(dependency_names(&vec![]).is_empty());
}

#[test]
fn imports_are_read_off_the_text() {
    let source = "use a::b;\n  use c;\nextern crate d;\n// use e::f;\nlet x = \"use g::h;\";\n    extern  crate  i as j;\nuse   k::{l, m};\n";
    assert_eq!(capture_group(rs_script::analyzer::USE_PATTERN, source, 1), vec!["a::b", "c", "k::"]);
    assert_eq!(
        capture_group(rs_script::analyzer::EXTERN_CRATE_PATTERN, source, 1),
        vec!["d", "i as j"]
    );
    let parsed = parse_metadata(source, None).unwrap();
    assert_eq!(parsed.inferred_dependencies, vec!["a", "c", "d", "i", "k"]);
}

#[test]
fn a_pattern_that_does_not_compile_matches_nothing() {
    assert!(capture_group("(", "((((", 0).is_empty());
    assert_eq!(count_matches("(", "(((("), 0);
    assert_eq!(count_matches("a", "banana"), 3);
    assert_eq!(capture_group("(a)(x)?", "banana", 2), Vec::<String>::new());
    assert_eq!(capture_group("(a)(n)?", "banana", 2), vec!["n", "n"]);
    assert_eq!(capture_group("a", "banana", 1), Vec::<String>::new());
}

#[test]
fn text_is_split_into_lines() {
    assert_eq!(lines(""), Vec::<String>::new());
    assert_eq!(lines("a"), vec!["a"]);
    assert_eq!(lines("a\n"), vec!["a"]);
    assert_eq!(lines("a\r\nb\r"), vec!["a", "b\r"]);
    assert_eq!(lines("a\r\nb\r\n"), vec!["a", "b"]);
    assert_eq!(lines("a\r"), "a\r".lines().collect::<Vec<&str>>());
    assert_eq!(lines("\n\na\n\n"), vec!["", "", "a", ""]);
    assert_eq!(lines("a\rb\n"), vec!["a\rb"]);
}

#[test]
fn text_is_searched_and_trimmed() {
    assert_eq!(find(&chars("abcabc"), &chars("bc"), 0), Some(1));
    assert_eq!(find(&chars("abcabc"), &chars("bc"), 2), Some(4));
    assert_eq!(find(&chars("abcabc"), &chars("bc"), 5), None);
    assert_eq!(find(&chars("abc"), &chars(""), 3), Some(3));
    assert_eq!(find(&chars("abc"), &chars(""), 4), None);
    assert_eq!(find(&chars("ab"), &chars("abc"), 0), None);
    assert_eq!(text(&trimmed(&chars(" \t a b \r\n"), 0, 9)), "a b");
    assert_eq!(text(&trimmed(&chars("    "), 1, 3)), "");
    let blanks = "\u{b}\u{c}\u{85}\u{a0}\u{1680}\u{2000}\u{200a}\u{2028}\u{2029}\u{202f}\u{205f}\u{3000}";
    let framed = format!("{blanks}a\u{200b}b{blanks}");
    assert_eq!(text(&trimmed(&chars(&framed), 0, framed.chars().count())), framed.trim());
    assert_eq!(framed.trim(), "a\u{200b}b");
    for c in (0u32..0x3100).filter_map(char::from_u32) {
        assert_eq!(rs_script::text::is_space_char(c), c.is_whitespace(), "{c:?}");
    }
    assert_eq!(text(&trimmed(&chars("xaby"), 1, 3)), "ab");
    assert_eq!(text(&lowered(&chars("AbC-Zz09É"))), "abc-zz09É");
}

#[test]
fn texts_are_put_in_dictionary_order() {
    let order = |a: &str, b: &str| order_texts(&chars(a), &chars(b));
    assert_eq!(order("a", "b"), TextOrder::Before);
    assert_eq!(order("b", "a"), TextOrder::After);
    assert_eq!(order("ab", "ab"), TextOrder::Same);
    assert_eq!(order("ab", "abc"), TextOrder::Before);
    assert_eq!(order("abc", "ab"), TextOrder::After);
    assert_eq!(order("", ""), TextOrder::Same);
    assert_eq!(order("", "a"), TextOrder::Before);
    assert_eq!(order("Z", "a"), TextOrder::Before);

    let mut names: Vec<String> = Vec::new();
    for name in ["m", "a", "z", "m", "b", "a"] {
        insert_sorted(&mut names, name.to_string());
    }
    assert_eq!(names, vec!["a", "b", "m", "z"]);
}

#[test]
fn numbers_are_written_in_decimal() {
    assert_eq!(text(&decimal(0)), "0");
    assert_eq!(text(&decimal(9)), "9");
    assert_eq!(text(&decimal(10)), "10");
    assert_eq!(text(&decimal(1234567890)), "1234567890");
    assert_eq!(text(&decimal(u64::MAX)), "18446744073709551615");
}
