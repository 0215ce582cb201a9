use args::token::number::parse_integer;

#[test]
fn reads_plain_decimal_integers() {
    assert_eq!(parse_integer("0"), Some(0));
    assert_eq!(parse_integer("7"), Some(7));
    assert_eq!(parse_integer("42"), Some(42));
    assert_eq!(parse_integer("1234567890"), Some(1234567890));
}

#[test]
fn reads_a_leading_minus_sign() {
    assert_eq!(parse_integer("-42"), Some(-42));
    assert_eq!(parse_integer("-1"), Some(-1));
    assert_eq!(parse_integer("-0"), Some(0));
}

#[test]
fn reads_a_leading_plus_sign() {
    assert_eq!(parse_integer("+42"), Some(42));
    assert_eq!(parse_integer("+0"), Some(0));
}

#[test]
fn reads_leading_zeros() {
    assert_eq!(parse_integer("007"), Some(7));
    assert_eq!(parse_integer("-00012"), Some(-12));
    assert_eq!(parse_integer("0000000000000000000000000000000000000001"), Some(1));
    assert_eq!(parse_integer("00000000000000000000009223372036854775807"), Some(i64::MAX));
}

#[test]
fn reads_the_ends_of_the_64_bit_range() {
    assert_eq!(parse_integer("9223372036854775807"), Some(i64::MAX));
    assert_eq!(parse_integer("+9223372036854775807"), Some(i64::MAX));
    assert_eq!(parse_integer("-9223372036854775808"), Some(i64::MIN));
    assert_eq!(parse_integer("-9223372036854775807"), Some(i64::MIN + 1));
}

#[test]
fn rejects_numbers_outside_the_64_bit_range() {
    assert_eq!(parse_integer("9223372036854775808"), None);
    assert_eq!(parse_integer("+9223372036854775808"), None);
    assert_eq!(parse_integer("-9223372036854775809"), None);
    assert_eq!(parse_integer("18446744073709551616"), None);
    assert_eq!(parse_integer("99999999999999999999"), None);
    assert_eq!(parse_integer("-99999999999999999999999999"), None);
    assert_eq!(parse_integer("92233720368547758070"), None);
}

#[test]
fn rejects_text_without_digits() {
    assert_eq!(parse_integer(""), None);
    assert_eq!(parse_integer("-"), None);
    assert_eq!(parse_integer("+"), None);
    assert_eq!(parse_integer("abc"), None);
    assert_eq!(parse_integer(" "), None);
}

#[test]
fn rejects_anything_but_sign_and_digits() {
    for text in [
        "1.5", "0x10", "1e3", "12a", "a12", " 1", "1 ", "1_000", "--1", "+-1", "-+1", "1-", "1+",
        "- 1", "١٢٣", "４２", "1\n", "\t1", "0b1", "1,000", "²",
    ] {
        assert_eq!(parse_integer(text), None, "{text:?}");
    }
}

#[test]
fn agrees_with_the_standard_parser() {
    let texts = [
        "", "0", "-0", "+0", "1", "-1", "+1", "10", "-10", "0010", "-", "+", "++1", "--1", "1-1",
        "9223372036854775806", "9223372036854775807", "9223372036854775808",
        "-9223372036854775807", "-9223372036854775808", "-9223372036854775809",
        "12345678901234567890", "000", "-000", "3.14", "1e10", "0x1f", "one", " 5", "5 ", "٣",
        "5\u{0}", "+00000000000000000000000000042", "-00000000000000000000000000042", "é1",
        "1é", "922337203685477580", "-922337203685477581", "99999999999999999990",
    ];
    for text in texts {
        assert_eq!(parse_integer(text), text.parse::<i64>().ok(), "{text:?}");
    }
}

#[test]
fn agrees_with_the_standard_parser_on_every_integer_written_out() {
    let mut value: i64 = i64::MIN;
    let step: i64 = 0x0123_4567_89ab_cdef;
    for _ in 0..1000 {
        assert_eq!(parse_integer(&value.to_string()), Some(value));
        assert_eq!(parse_integer(&format!("{value:+}")), Some(value));
        value = value.wrapping_add(step);
    }
    for value in -1000i64..=1000 {
        assert_eq!(parse_integer(&value.to_string()), Some(value));
    }
}
