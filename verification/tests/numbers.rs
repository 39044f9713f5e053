use prosodia::numbers::{parse_i64, NumberToWords};

#[test]
fn test_number_to_words() {
    assert_eq!(NumberToWords::cardinal(0), "zero");
    assert_eq!(NumberToWords::cardinal(42), "forty-two");
    assert_eq!(NumberToWords::cardinal(123), "one hundred twenty-three");
    assert_eq!(NumberToWords::cardinal(2026), "two thousand twenty-six");

    assert_eq!(NumberToWords::year(1999), "nineteen ninety-nine");
    assert_eq!(NumberToWords::year(2005), "two thousand five");
    assert_eq!(NumberToWords::year(2026), "twenty twenty-six");

    assert_eq!(NumberToWords::ordinal(1), "first");
    assert_eq!(NumberToWords::ordinal(22), "twenty-second");
    assert_eq!(NumberToWords::ordinal(100), "one hundredth");
}

#[test]
fn cardinal_large_and_negative_values() {
    assert_eq!(NumberToWords::cardinal(-7), "minus seven");
    assert_eq!(NumberToWords::cardinal(1_000_000), "one million");
    assert_eq!(NumberToWords::cardinal(3_000_017), "three million seventeen");
    assert_eq!(
        NumberToWords::cardinal(i64::MIN),
        "minus nine quintillion two hundred twenty-three quadrillion three hundred seventy-two trillion thirty-six billion eight hundred fifty-four million seven hundred seventy-five thousand eight hundred eight"
    );
}

#[test]
fn ordinal_tens_scales_and_table_spelling() {
    assert_eq!(NumberToWords::ordinal(40), "fortieth");
    assert_eq!(NumberToWords::ordinal(1000), "one thousandth");
    assert_eq!(NumberToWords::ordinal(1001), "one thousand first");
    assert_eq!(NumberToWords::ordinal(16), "sixteen");
    assert_eq!(NumberToWords::ordinal(-3), "minus third");
}

#[test]
fn years_with_hundreds_and_oh() {
    assert_eq!(NumberToWords::year(1900), "nineteen hundred");
    assert_eq!(NumberToWords::year(1905), "nineteen oh-five");
    assert_eq!(NumberToWords::year(2000), "two thousand");
    assert_eq!(NumberToWords::year(999), "nine hundred ninety-nine");
    assert_eq!(NumberToWords::year(12345), "twelve thousand three hundred forty-five");
}

#[test]
fn magnitude_functions_on_u64() {
    assert_eq!(NumberToWords::cardinal_magnitude(u64::MAX), "eighteen quintillion four hundred forty-six quadrillion seven hundred forty-four trillion seventy-three billion seven hundred nine million five hundred fifty-one thousand six hundred fifteen");
    assert_eq!(NumberToWords::ordinal_magnitude(90), "ninetieth");
    assert_eq!(NumberToWords::year_magnitude(1066), "ten sixty-six");
}

#[test]
fn string_entry_points_parse_like_i64() {
    assert_eq!(NumberToWords::cardinal_str("+15"), Some("fifteen".to_string()));
    assert_eq!(NumberToWords::ordinal_str("3"), Some("third".to_string()));
    assert_eq!(NumberToWords::year_str("1984"), Some("nineteen eighty-four".to_string()));
    assert_eq!(NumberToWords::cardinal_str("12a"), None);
    assert_eq!(NumberToWords::cardinal_str(""), None);
    assert_eq!(NumberToWords::cardinal_str("-"), None);
    assert_eq!(NumberToWords::cardinal_str("9223372036854775808"), None);
}

#[test]
fn parse_i64_agrees_with_std() {
    for s in ["0", "-0", "+0", "007", "-9223372036854775808", "9223372036854775807", "9223372036854775808", "-9223372036854775809", "", "+", "-", " 1", "1 ", "1_0", "٣", "+-1"] {
        assert_eq!(parse_i64(s), s.parse::<i64>().ok(), "input {s:?}");
    }
}

#[test]
fn ordinals_make_the_last_word_ordinal() {
    assert_eq!(NumberToWords::ordinal_magnitude(22), "twenty-second");
    assert_eq!(NumberToWords::ordinal_magnitude(1000), "one thousandth");
    assert_eq!(NumberToWords::ordinal_magnitude(40), "fortieth");
    assert_eq!(NumberToWords::ordinal_magnitude(1_000_012), "one million twelfth");
    assert_eq!(NumberToWords::cardinal_magnitude(1_000_012), "one million twelve");
    assert_eq!(NumberToWords::ordinal_magnitude(300), "three hundredth");
}

#[test]
fn spelled_numbers_hold_no_digit() {
    for v in [0u64, 7, 19, 20, 99, 101, 16_016, 999_999, u64::MAX] {
        let c = NumberToWords::cardinal_magnitude(v);
        let o = NumberToWords::ordinal_magnitude(v);
        assert!(c.chars().all(|ch| ch.is_ascii_lowercase() || ch == ' ' || ch == '-'));
        assert!(o.chars().all(|ch| ch.is_ascii_lowercase() || ch == ' ' || ch == '-'));
    }
}
