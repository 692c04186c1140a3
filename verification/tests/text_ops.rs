use mc_cli::text::{
    i32_to_decimal, join_strings, parse_u64, replace_str, split_char, split_str, starts_with,
    strip_prefix, trim, trim_end_matches, u64_to_decimal, ends_with, str_eq,
};

#[test]
fn split_matches_std() {
    let cases = [("a:b:c", ":"), ("::", ":"), ("", ":"), ("abc", ""), ("", ""), ("a--b--", "--"), ("aaa", "aa")];
    for (s, p) in cases {
        let expected: Vec<String> = s.split(p).map(|x| x.to_string()).collect();
        assert_eq!(split_str(s, p), expected, "split {:?} by {:?}", s, p);
    }
    assert_eq!(split_char("1.2.3", '.'), vec!["1", "2", "3"]);
}

#[test]
fn replace_matches_std() {
    let cases = [
        ("net.fabricmc", ".", "/"),
        ("ab", "", "x"),
        ("", "", "x"),
        ("aaaa", "aa", "b"),
        ("${a}${a}", "${a}", "z"),
        ("héllo wörld", "ö", "oe"),
        ("nothing", "zz", "q"),
    ];
    for (s, from, to) in cases {
        assert_eq!(replace_str(s, from, to), s.replace(from, to), "replace {:?}", (s, from, to));
    }
}

#[test]
fn join_matches_std() {
    let parts = vec!["a".to_string(), "".to_string(), "c".to_string()];
    assert_eq!(join_strings(&parts, ", "), parts.join(", "));
    assert_eq!(join_strings(&Vec::new(), ":"), "");
}

#[test]
fn trimming_matches_std() {
    for s in ["  x y \t", "\u{3000}a\u{85}", "", "   ", "plain"] {
        assert_eq!(trim(s), s.trim());
    }
    assert_eq!(trim_end_matches("http://x.org///", "/"), "http://x.org");
    assert_eq!(trim_end_matches("1.0-SNAPSHOT", "-SNAPSHOT"), "1.0");
    assert_eq!(trim_end_matches("a-SNAPSHOT-SNAPSHOT", "-SNAPSHOT"), "a");
}

#[test]
fn prefixes_and_equality() {
    assert!(starts_with("fabric-1.20", "fabric-"));
    assert!(!starts_with("fab", "fabric-"));
    assert!(ends_with("1.0-SNAPSHOT", "-SNAPSHOT"));
    assert_eq!(strip_prefix("mods/a.jar", "mods/"), Some("a.jar".to_string()));
    assert_eq!(strip_prefix("a.jar", "mods/"), None);
    assert!(str_eq("é", "é"));
    assert!(!str_eq("a", "ab"));
}

#[test]
fn numbers_parse_and_print_like_std() {
    for s in ["0", "42", "+7", "+", "", "-1", "18446744073709551615", "18446744073709551616", "1a", "007"] {
        assert_eq!(parse_u64(s), s.parse::<u64>().ok(), "parse {:?}", s);
    }
    for n in [0u64, 9, 10, 1234567890, u64::MAX] {
        assert_eq!(u64_to_decimal(n), n.to_string());
    }
    for n in [0i32, -1, 17, i32::MIN, i32::MAX] {
        assert_eq!(i32_to_decimal(n), n.to_string());
    }
}

#[test]
fn trim_end_matches_with_empty_pattern_keeps_the_string() {
    assert_eq!(trim_end_matches("abc//", ""), "abc//".trim_end_matches(""));
    assert_eq!(trim_end_matches("abc//", ""), "abc//");
    assert_eq!(trim_end_matches("", ""), "");
}
