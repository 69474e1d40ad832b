use har_analyzer::text::{chars_of, decimal_text, hexadecimal_text, join_text};

#[test]
fn decimal_of_zero_is_one_digit() {
    assert_eq!(decimal_text(0), "0");
}

#[test]
fn decimal_of_small_numbers() {
    assert_eq!(decimal_text(7), "7");
    assert_eq!(decimal_text(10), "10");
    assert_eq!(decimal_text(255), "255");
    assert_eq!(decimal_text(1234567890), "1234567890");
}

#[test]
fn decimal_of_the_largest_number() {
    assert_eq!(decimal_text(u128::MAX), "340282366920938463463374607431768211455");
}

#[test]
fn decimal_agrees_with_the_standard_formatter() {
    let mut n: u128 = 1;
    for _ in 0..60 {
        assert_eq!(decimal_text(n), n.to_string());
        assert_eq!(decimal_text(n - 1), (n - 1).to_string());
        n = n.wrapping_mul(7).wrapping_add(3);
    }
}

#[test]
fn hexadecimal_is_lower_case_without_leading_zeros() {
    assert_eq!(hexadecimal_text(0), "0");
    assert_eq!(hexadecimal_text(9), "9");
    assert_eq!(hexadecimal_text(10), "a");
    assert_eq!(hexadecimal_text(15), "f");
    assert_eq!(hexadecimal_text(16), "10");
    assert_eq!(hexadecimal_text(0xdb8), "db8");
    assert_eq!(hexadecimal_text(0xffff), "ffff");
    assert_eq!(hexadecimal_text(0xdead_beef), "deadbeef");
}

#[test]
fn hexadecimal_agrees_with_the_standard_formatter() {
    let mut n: u128 = 1;
    for _ in 0..60 {
        assert_eq!(hexadecimal_text(n), format!("{:x}", n));
        n = n.wrapping_mul(11).wrapping_add(5);
    }
}

#[test]
fn join_of_nothing_is_empty() {
    let parts: Vec<String> = vec![];
    assert_eq!(join_text(&parts, ", "), "");
}

#[test]
fn join_of_one_part_has_no_separator() {
    let parts = vec!["alone".to_string()];
    assert_eq!(join_text(&parts, ", "), "alone");
}

#[test]
fn join_puts_the_separator_between_neighbours() {
    let parts = vec!["a".to_string(), "b".to_string(), "c".to_string()];
    assert_eq!(join_text(&parts, " / "), "a / b / c");
    assert_eq!(join_text(&parts, ""), "abc");
    assert_eq!(join_text(&parts, "\n"), "a\nb\nc");
}

#[test]
fn join_keeps_empty_parts() {
    let parts = vec!["".to_string(), "x".to_string(), "".to_string()];
    assert_eq!(join_text(&parts, "-"), "-x-");
}

#[test]
fn chars_of_counts_characters_not_bytes() {
    assert_eq!(chars_of(""), Vec::<char>::new());
    assert_eq!(chars_of("héllo"), vec!['h', 'é', 'l', 'l', 'o']);
    assert_eq!(chars_of("日本"), vec!['日', '本']);
}
