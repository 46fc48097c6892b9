use scx_loader::text::{
    decimal_string, join, lines, replace, split_whitespace, str_eq, str_lt, strip_prefix,
    strip_suffix, trim, trim_start,
};

#[test]
fn lines_match_str_lines() {
    for s in ["", "a", "a\n", "a\nb", "a\r\nb\r\n", "\n\n", "x\r", "a\r\r\nb", " one \n two"] {
        let expected: Vec<String> = s.lines().map(str::to_owned).collect();
        assert_eq!(lines(s), expected, "input {s:?}");
    }
}

#[test]
fn words_match_split_whitespace() {
    for s in ["", "  ", "-m auto", "  -s 700\t-S \u{a0}x ", "a"] {
        let expected: Vec<String> = s.split_whitespace().map(str::to_owned).collect();
        assert_eq!(split_whitespace(s), expected, "input {s:?}");
    }
}

#[test]
fn trim_matches_str_trim() {
    for s in ["", "  x ", "\t\r\n", "\u{3000}y\u{2028}", "a b"] {
        assert_eq!(trim(s), s.trim());
        assert_eq!(trim_start(s), s.trim_start());
    }
}

#[test]
fn replace_matches_str_replace() {
    for (s, p, r) in [("$prefix/lib", "$prefix", "/usr"), ("aaa", "aa", "b"), ("xyz", "q", "r"), ("", "a", "b")] {
        assert_eq!(replace(s, p, r), s.replace(p, r));
    }
}

#[test]
fn join_and_numbers() {
    let parts = vec!["-m".to_string(), "auto".to_string()];
    assert_eq!(join(&parts, " "), "-m auto");
    assert_eq!(join(&Vec::new(), " "), "");
    assert_eq!(decimal_string(0), "0");
    assert_eq!(decimal_string(1207), "1207");
    assert_eq!(decimal_string(usize::MAX), usize::MAX.to_string());
}

#[test]
fn prefix_suffix_order() {
    assert_eq!(strip_prefix("scx_lavd", "scx_"), Some("lavd".to_string()));
    assert_eq!(strip_prefix("lavd", "scx_"), None);
    assert_eq!(strip_suffix("\"x\"", "\""), Some("\"x".to_string()));
    assert!(str_eq("é", "é"));
    assert!(!str_eq("a", "ab"));
    assert!(str_lt("scx_a", "scx_b"));
    assert!(str_lt("scx", "scx_"));
    assert!(!str_lt("b", "a"));
    assert!(!str_lt("a", "a"));
}
