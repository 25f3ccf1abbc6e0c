use figgie_auto::text::{
    after_char, after_digits, chars_of, find, join_with_commas, parse_digits, parse_unsigned,
    push_decimal, push_padded, push_signed, same_text,
};

#[test]
fn numbers_in_decimal() {
    for n in [0, 7, 10, 99, 100, 18446744073709551615u64] {
        let mut text = String::from("n=");
        push_decimal(&mut text, n);
        assert_eq!(text, format!("n={}", n));
        assert_eq!(parse_unsigned(&text[2..], u64::MAX), Some(n));
    }
    for n in [0, -1, 12, -90, i64::MIN, i64::MAX] {
        let mut text = String::new();
        push_signed(&mut text, n);
        assert_eq!(text, format!("{}", n));
    }
    for n in [0, 42, 1234, 12345, 123456] {
        let mut text = String::from("_");
        push_padded(&mut text, n, 5);
        assert_eq!(text, format!("_{:05}", n));
    }
}

#[test]
fn numbers_are_read_up_to_a_limit() {
    assert_eq!(parse_unsigned("255", 255), Some(255));
    assert_eq!(parse_unsigned("256", 255), None);
    assert_eq!(parse_unsigned("+0255", 255), Some(255));
    assert_eq!(parse_unsigned("++1", 255), None);
    assert_eq!(parse_unsigned("99999999999999999999999", u64::MAX), None);
    let chars = chars_of("ab12c");
    assert_eq!(parse_digits(&chars, 2, 4, 99), Some(12));
    assert_eq!(parse_digits(&chars, 2, 2, 99), None);
    assert_eq!(parse_digits(&chars, 1, 4, 99), None);
}

#[test]
fn searches_find_the_first_place() {
    let text = chars_of("añb añb");
    assert_eq!(find(&text, &chars_of("ñb"), 0), Some(1));
    assert_eq!(find(&text, &chars_of("ñb"), 2), Some(5));
    assert_eq!(find(&text, &chars_of("ba"), 0), None);
    assert_eq!(find(&text, &chars_of(""), 7), Some(7));
    assert_eq!(after_char(&chars_of("   x"), ' ', 1), 3);
    assert_eq!(after_digits(&chars_of("x12"), 1), 3);
    assert_eq!(after_digits(&chars_of("x12"), 0), 0);
}

#[test]
fn texts_are_compared_and_joined() {
    assert!(same_text("añb", "añb"));
    assert!(!same_text("a", "ab"));
    assert!(!same_text("a", "b"));
    let items = vec!["a".to_string(), "".to_string(), "b".to_string()];
    assert_eq!(join_with_commas(&items), "a,,b");
    assert_eq!(join_with_commas(&vec![]), "");
}
