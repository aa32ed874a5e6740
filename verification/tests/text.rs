use trackmyfi::bridge::i64_decimal;
use trackmyfi::dates::{
    bytes_le_exec, i64_signed_zero_padded, opt_bytes_gt_exec, parse_int_exec, str_get_bytes,
};
use trackmyfi::text::{
    append_chars, chars_eq, contains_chars, eq_ignore_ascii_case_chars, from_chars, is_whitespace,
    join_chars, lex_le_chars, lit, push_char, starts_with_chars, str_eq, str_le, to_ascii_lower,
    to_chars, to_lowercase, trim_chars, u64_decimal, u64_zero_padded,
};

fn s(v: Vec<char>) -> String {
    v.into_iter().collect()
}

#[test]
fn trimming_matches_str_trim() {
    for input in ["  a b  ", "\t\n x\u{3000}", "", "   ", "abc"] {
        assert_eq!(s(trim_chars(&to_chars(input))), input.trim());
    }
    assert!(is_whitespace('\u{a0}'));
    assert!(!is_whitespace('x'));
}

#[test]
fn searching_matches_str_methods() {
    let hay = to_chars("Direct Deposit PAYROLL");
    assert!(contains_chars(&hay, &to_chars("PAYROLL")));
    assert!(!contains_chars(&hay, &to_chars("payroll")));
    assert!(contains_chars(&hay, &[]));
    assert!(starts_with_chars(&hay, &to_chars("Direct")));
    assert!(!starts_with_chars(&hay, &to_chars("Deposit")));
    assert!(chars_eq(&to_chars("ab"), &to_chars("ab")));
    assert!(!chars_eq(&to_chars("ab"), &to_chars("abc")));
    assert!(str_eq("x", "x") && !str_eq("x", "y"));
}

#[test]
fn case_folding() {
    assert_eq!(to_ascii_lower('Q'), 'q');
    assert_eq!(to_ascii_lower('É'), 'É');
    assert!(eq_ignore_ascii_case_chars(&to_chars("SimpleFIN"), &to_chars("simplefin")));
    assert!(!eq_ignore_ascii_case_chars(&to_chars("É"), &to_chars("é")));
    // Full Unicode lower-casing, unlike the ASCII fold.
    assert_eq!(to_lowercase("ÉCOLE Café"), "école café");
    assert_eq!(to_lowercase("İ"), "i\u{307}");
}

#[test]
fn building_strings() {
    let mut v = lit("ab");
    append_chars(&mut v, &to_chars("cd"));
    assert_eq!(s(v.clone()), "abcd");
    assert_eq!(from_chars(&v), "abcd");
    let mut t = String::from("x");
    push_char(&mut t, 'é');
    assert_eq!(t, "xé");
    let items = vec![to_chars("a"), to_chars("b"), to_chars("c")];
    assert_eq!(s(join_chars(&items, &to_chars(", "))), "a, b, c");
    assert_eq!(s(join_chars(&vec![], &to_chars(", "))), "");
}

#[test]
fn number_formatting_matches_std() {
    for n in [0u64, 7, 10, 2025, u64::MAX] {
        assert_eq!(s(u64_decimal(n)), format!("{n}"));
        assert_eq!(s(u64_zero_padded(n, 4)), format!("{n:04}"));
    }
    for n in [0i64, -5, 42, -2025, i64::MAX, i64::MIN] {
        assert_eq!(s(i64_decimal(n)), format!("{n}"));
    }
    for n in [0i64, -5, 42, -2025, 123456] {
        assert_eq!(s(i64_signed_zero_padded(n, 4)), format!("{n:04}"));
    }
}

#[test]
fn string_order_matches_std() {
    let pairs = [("2024-01-31", "2024-02-01"), ("b", "ab"), ("", "a"), ("same", "same"), ("é", "z")];
    for (a, b) in pairs {
        assert_eq!(str_le(a, b), a <= b);
        assert_eq!(lex_le_chars(&to_chars(a), &to_chars(b)), a <= b);
        assert_eq!(bytes_le_exec(a.as_bytes(), b.as_bytes()), a <= b);
    }
    let some = |x: &str| Some(x.as_bytes().to_vec());
    assert!(opt_bytes_gt_exec(&some("b"), &some("a")));
    assert!(opt_bytes_gt_exec(&some(""), &None));
    assert!(!opt_bytes_gt_exec(&None, &None));
    assert!(!opt_bytes_gt_exec(&some("a"), &some("a")));
}

#[test]
fn slicing_and_integer_parsing_match_std() {
    let d = "2024-06-15";
    assert_eq!(str_get_bytes(d, 5, 7), d.get(5..7).map(|x| x.as_bytes().to_vec()));
    assert_eq!(str_get_bytes(d, 8, 11), None);
    assert_eq!(str_get_bytes("é", 0, 1), None);
    for t in ["2024", "+12", "-3", "", "1a", "0099"] {
        assert_eq!(parse_int_exec(t.as_bytes(), false, 0, 9999), t.parse::<u16>().ok().filter(|v| *v <= 9999).map(i64::from));
        assert_eq!(parse_int_exec(t.as_bytes(), true, -9999, 9999), t.parse::<i16>().ok().filter(|v| (-9999..=9999).contains(v)).map(i64::from));
    }
}
