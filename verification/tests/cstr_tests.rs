use ashuffle::cstr::{parse_long, parse_ulong, str_contains_ignore_case, str_eq_ignore_case, to_ascii_lower};

#[test]
fn lower_folds_only_ascii_upper() {
    assert_eq!(to_ascii_lower(b'A'), b'a');
    assert_eq!(to_ascii_lower(b'Z'), b'z');
    assert_eq!(to_ascii_lower(b'a'), b'a');
    assert_eq!(to_ascii_lower(b'@'), b'@');
    assert_eq!(to_ascii_lower(b'['), b'[');
    assert_eq!(to_ascii_lower(0xC4), 0xC4);
}

#[test]
fn eq_ignore_case_cases() {
    assert!(str_eq_ignore_case(b"--HELP", b"--help"));
    assert!(str_eq_ignore_case(b"", b""));
    assert!(!str_eq_ignore_case(b"-h", b"-hh"));
    assert!(!str_eq_ignore_case(b"-e", b"-n"));
}

#[test]
fn contains_ignore_case_cases() {
    assert!(str_contains_ignore_case(b"De La Soul", b"de"));
    assert!(str_contains_ignore_case(b"De La Soul", b"LA SOUL"));
    assert!(str_contains_ignore_case(b"abc", b""));
    assert!(str_contains_ignore_case(b"", b""));
    assert!(!str_contains_ignore_case(b"", b"a"));
    assert!(!str_contains_ignore_case(b"Modest Mouse", b"mice"));
    assert!(str_contains_ignore_case(b"aaab", b"AAB"));
}

#[test]
fn parse_ulong_plain() {
    assert_eq!(parse_ulong(b"42"), Some(42));
    assert_eq!(parse_ulong(b"0"), Some(0));
    assert_eq!(parse_ulong(b""), Some(0));
    assert_eq!(parse_ulong(b"abc"), Some(0));
}

#[test]
fn parse_ulong_skips_space_and_stops_at_non_digit() {
    assert_eq!(parse_ulong(b"  \t17x9"), Some(17));
    assert_eq!(parse_ulong(b"+5"), Some(5));
    assert_eq!(parse_ulong(b"12 34"), Some(12));
}

#[test]
fn parse_ulong_negates_modulo() {
    assert_eq!(parse_ulong(b"-1"), Some(u64::MAX));
    assert_eq!(parse_ulong(b"-0"), Some(0));
    assert_eq!(parse_ulong(b"-18446744073709551615"), Some(1));
}

#[test]
fn parse_ulong_range_error() {
    assert_eq!(parse_ulong(b"18446744073709551615"), Some(u64::MAX));
    assert_eq!(parse_ulong(b"18446744073709551616"), None);
    assert_eq!(parse_ulong(b"-99999999999999999999999"), None);
}

#[test]
fn parse_long_cases() {
    assert_eq!(parse_long(b"6600"), 6600);
    assert_eq!(parse_long(b" -42x"), -42);
    assert_eq!(parse_long(b"port"), 0);
    assert_eq!(parse_long(b"9223372036854775807"), i64::MAX);
    assert_eq!(parse_long(b"9223372036854775808"), i64::MAX);
    assert_eq!(parse_long(b"-9223372036854775808"), i64::MIN);
    assert_eq!(parse_long(b"-99999999999999999999999"), i64::MIN);
}
