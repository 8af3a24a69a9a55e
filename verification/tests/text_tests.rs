use github_release_collector::text::{
    contains_str, i64_to_decimal, join_path_exec, parse_decimal, starts_with, str_equal, trim,
    trim_end_matches_char, u64_to_decimal,
};

#[test]
fn decimal_numerals_match_format() {
    assert_eq!(u64_to_decimal(0), "0");
    assert_eq!(u64_to_decimal(7), "7");
    assert_eq!(u64_to_decimal(12345), "12345");
    assert_eq!(u64_to_decimal(u64::MAX), u64::MAX.to_string());
    assert_eq!(i64_to_decimal(-42), "-42");
    assert_eq!(i64_to_decimal(0), "0");
    assert_eq!(i64_to_decimal(i64::MIN), i64::MIN.to_string());
    assert_eq!(i64_to_decimal(i64::MAX), i64::MAX.to_string());
}

#[test]
fn parsing_follows_str_parse() {
    assert_eq!(parse_decimal("42", u64::MAX), Some(42));
    assert_eq!(parse_decimal("+42", u64::MAX), Some(42));
    assert_eq!(parse_decimal("007", u64::MAX), Some(7));
    assert_eq!(parse_decimal("", u64::MAX), None);
    assert_eq!(parse_decimal("+", u64::MAX), None);
    assert_eq!(parse_decimal("-1", u64::MAX), None);
    assert_eq!(parse_decimal("12a", u64::MAX), None);
    assert_eq!(parse_decimal(" 1", u64::MAX), None);
    assert_eq!(parse_decimal("18446744073709551615", u64::MAX), Some(u64::MAX));
    assert_eq!(parse_decimal("18446744073709551616", u64::MAX), None);
    assert_eq!(parse_decimal("4294967296", u32::MAX as u64), None);
    assert_eq!(parse_decimal("4294967295", u32::MAX as u64), Some(4294967295));
    for s in ["0", "+7", "99", "abc", "", "+", "-3", "1e3", "00"] {
        assert_eq!(parse_decimal(s, u64::MAX), s.parse::<u64>().ok());
    }
}

#[test]
fn numerals_read_back() {
    for n in [0u64, 1, 9, 10, 99, 100, 4096, u64::MAX] {
        assert_eq!(parse_decimal(&u64_to_decimal(n), u64::MAX), Some(n));
    }
}

#[test]
fn string_helpers() {
    assert!(str_equal("abc", "abc"));
    assert!(!str_equal("abc", "abd"));
    assert!(!str_equal("abc", "ab"));
    assert!(starts_with("https://github.com/x", "https://"));
    assert!(!starts_with("http", "https"));
    assert!(contains_str("a github.com b", "github.com"));
    assert!(!contains_str("github.co", "github.com"));
    assert!(contains_str("x", ""));
    assert_eq!(trim_end_matches_char("a/b///", '/'), "a/b");
    assert_eq!(trim_end_matches_char("///", '/'), "");
    assert_eq!(trim("  12\n"), "12");
    assert_eq!(trim("\u{3000}x y\t"), "x y");
    assert_eq!(trim("   "), "");
    for s in [" a ", "\t\nb", "c\u{85}", "\u{a0}d\u{2028}", "e"] {
        assert_eq!(trim(s), s.trim());
    }
}

#[test]
fn paths_join_like_path_join() {
    assert_eq!(join_path_exec("/data/grc", "releases.db", '/'), "/data/grc/releases.db");
    assert_eq!(join_path_exec("/data/grc/", "releases.db", '/'), "/data/grc/releases.db");
    assert_eq!(join_path_exec("", "daemon.pid", '/'), "daemon.pid");
    assert_eq!(join_path_exec("C:\\grc", "daemon.pid", '\\'), "C:\\grc\\daemon.pid");
    assert_eq!(join_path_exec("C:\\grc\\", "daemon.pid", '\\'), "C:\\grc\\daemon.pid");
    assert_eq!(join_path_exec("C:/grc/", "daemon.pid", '\\'), "C:/grc/daemon.pid");
    let joined = std::path::Path::new("/x/y").join("config.toml");
    assert_eq!(join_path_exec("/x/y", "config.toml", std::path::MAIN_SEPARATOR), joined.to_string_lossy());
}
