use zeroai::text::{
    decimal_i32, decimal_i64, decimal_u64, find, join, lines, split_whitespace, starts_with, trim,
    trim_end_matches, trim_matches_char, trim_start_matches,
};

#[test]
fn trims_like_str_trim() {
    for s in ["", "  a b  ", "\t\nx\r\n", "\u{2003}y\u{205F}", "none"] {
        assert_eq!(trim(s), s.trim());
    }
}

#[test]
fn pattern_trims_match_std() {
    assert_eq!(trim_start_matches("[yolo][yolo] x", "[yolo]"), "[yolo][yolo] x".trim_start_matches("[yolo]"));
    assert_eq!(trim_start_matches("x", ""), "x");
    assert_eq!(trim_end_matches("http://h:1///", "/"), "http://h:1");
    assert_eq!(trim_matches_char("\"\"Ubuntu 22.04\"", '"'), "Ubuntu 22.04");
}

#[test]
fn split_and_join() {
    assert_eq!(split_whitespace("  a  bb\tc\n"), vec!["a", "bb", "c"]);
    assert!(split_whitespace("   ").is_empty());
    assert_eq!(join(&vec!["a".to_string(), "b".to_string()], "\n"), "a\nb");
    assert_eq!(join(&vec![], "\n"), "");
}

#[test]
fn lines_match_std_lines() {
    for s in ["", "a", "a\n", "a\r\nb\n\nc", "\n", "x\r"] {
        let expected: Vec<String> = s.lines().map(|l| l.to_string()).collect();
        assert_eq!(lines(s), expected);
    }
}

#[test]
fn decimals() {
    assert_eq!(decimal_u64(0), "0");
    assert_eq!(decimal_u64(11434), "11434");
    assert_eq!(decimal_u64(u64::MAX), u64::MAX.to_string());
    assert_eq!(decimal_i32(-1), "-1");
    assert_eq!(decimal_i32(i32::MIN), i32::MIN.to_string());
    assert_eq!(decimal_i64(i64::MIN), i64::MIN.to_string());
}

#[test]
fn find_and_prefix() {
    assert_eq!(find("GET /cb?code=abc HTTP", "code="), Some(8));
    assert_eq!(find("nothing", "code="), None);
    assert!(starts_with("PRETTY_NAME=x", "PRETTY_NAME="));
    assert!(!starts_with("NAME=x", "PRETTY_NAME="));
}
