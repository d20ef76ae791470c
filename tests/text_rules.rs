use karl_tui::skill::parse_skill_front_matter;
use karl_tui::config::{hook_kind, order_by_name};
use karl_tui::text::{
    contains_text, decimal_text, is_blank_text, is_float_text, join_texts, matches_query,
    parse_unsigned, trim,
};

#[test]
fn trim_removes_unicode_white_space_at_both_ends() {
    assert_eq!(trim("  a b \t\n"), "a b");
    assert_eq!(trim("\u{3000}x\u{00A0}"), "x");
    assert_eq!(trim("   "), "");
    assert!(is_blank_text(" \t "));
    assert!(!is_blank_text(" a "));
}

#[test]
fn substring_and_case_insensitive_query() {
    assert!(contains_text("pre-task-hook", "task"));
    assert!(contains_text("abc", ""));
    assert!(!contains_text("ab", "abc"));
    assert!(matches_query("FastModel", "fast"));
    assert!(matches_query("fast", "FAS"));
    assert!(!matches_query("fast", "slow"));
}

#[test]
fn unsigned_parsing_matches_std() {
    assert_eq!(parse_unsigned("42", u64::MAX), Some(42));
    assert_eq!(parse_unsigned("+7", u64::MAX), Some(7));
    assert_eq!(parse_unsigned("18446744073709551615", u64::MAX), Some(u64::MAX));
    assert_eq!(parse_unsigned("18446744073709551616", u64::MAX), None);
    assert_eq!(parse_unsigned("4294967296", u32::MAX as u64), None);
    assert_eq!(parse_unsigned("-1", u64::MAX), None);
    assert_eq!(parse_unsigned("", u64::MAX), None);
    assert_eq!(parse_unsigned("+", u64::MAX), None);
    assert_eq!(parse_unsigned("1a", u64::MAX), None);
}

#[test]
fn float_text_matches_std_parse() {
    for s in ["0.7", "1", "-2.5", "+.5", "5.", "1e3", "2.5E-2", "inf", "-Infinity", "NaN"] {
        assert!(is_float_text(s), "{}", s);
        assert!(s.parse::<f64>().is_ok());
    }
    for s in ["", ".", "abc", "1.2.3", "e5", "1e", "1e+", "--1", "in"] {
        assert!(!is_float_text(s), "{}", s);
        assert!(s.parse::<f64>().is_err());
    }
}

#[test]
fn decimal_text_and_join() {
    assert_eq!(decimal_text(0), "0");
    assert_eq!(decimal_text(30000), "30000");
    assert_eq!(decimal_text(u64::MAX), u64::MAX.to_string());
    let parts = vec!["a".to_string(), "b".to_string(), "c".to_string()];
    assert_eq!(join_texts(&parts, ", "), "a, b, c");
    assert_eq!(join_texts(&vec![], ", "), "");
}

#[test]
fn hook_kinds_by_first_match() {
    assert_eq!(hook_kind("my-pre-task"), "pre-task");
    assert_eq!(hook_kind("post-task-log"), "post-task");
    assert_eq!(hook_kind("pre-tool"), "pre-tool");
    assert_eq!(hook_kind("x-post-tool"), "post-tool");
    assert_eq!(hook_kind("on-error-alert"), "on-error");
    assert_eq!(hook_kind("pre-task-post-tool"), "pre-task");
    assert_eq!(hook_kind("other"), "unknown");
}

#[test]
fn ordering_by_name() {
    let v = vec![("b".to_string(), 1), ("a".to_string(), 2), ("c".to_string(), 3)];
    let r = order_by_name(v);
    let names: Vec<&str> = r.iter().map(|p| p.0.as_str()).collect();
    assert_eq!(names, vec!["a", "b", "c"]);
    assert_eq!(r[0].1, 2);
}

#[test]
fn skill_front_matter_fields() {
    let text = "---\nname: \"my-skill\"\ndescription:  Does things \r\nlicense: MIT\n---\n# Body\nname: ignored\n";
    let (name, description, license) = parse_skill_front_matter(text, "dir");
    assert_eq!(name, "my-skill");
    assert_eq!(description, "Does things");
    assert_eq!(license.as_deref(), Some("MIT"));
}

#[test]
fn skill_front_matter_fallbacks() {
    assert_eq!(parse_skill_front_matter("# no block", "tools"), ("tools".to_string(), String::new(), None));
    assert_eq!(parse_skill_front_matter("---\nname: x\n", "d").0, "d");
    let (n, d, l) = parse_skill_front_matter("---\ndescription: only\n---", "d");
    assert_eq!((n.as_str(), d.as_str(), l), ("d", "only", None));
    assert_eq!(parse_skill_front_matter("---\nname: a\nname: b\n---", "d").0, "b");
}
