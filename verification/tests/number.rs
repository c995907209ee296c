use light_devices::attribute::parse_attribute;
use light_devices::number::digit;
use light_devices::number::i64_text;
use light_devices::number::parse_i64;

#[test]
fn digit_gives_the_value_of_each_digit() {
    assert_eq!(digit('0'), Some(0));
    assert_eq!(digit('7'), Some(7));
    assert_eq!(digit('9'), Some(9));
    assert_eq!(digit('/'), None);
    assert_eq!(digit(':'), None);
    assert_eq!(digit('a'), None);
    assert_eq!(digit('٣'), None);
}

#[test]
fn parse_i64_reads_plain_and_signed_integers() {
    assert_eq!(parse_i64("0"), Some(0));
    assert_eq!(parse_i64("128"), Some(128));
    assert_eq!(parse_i64("+128"), Some(128));
    assert_eq!(parse_i64("-128"), Some(-128));
    assert_eq!(parse_i64("-0"), Some(0));
    assert_eq!(parse_i64("000255"), Some(255));
}

#[test]
fn parse_i64_reaches_both_ends_of_the_range() {
    assert_eq!(parse_i64("9223372036854775807"), Some(i64::MAX));
    assert_eq!(parse_i64("-9223372036854775808"), Some(i64::MIN));
    assert_eq!(parse_i64("-9223372036854775807"), Some(i64::MIN + 1));
    assert_eq!(parse_i64("00000000000000000000009223372036854775807"), Some(i64::MAX));
}

#[test]
fn parse_i64_refuses_what_does_not_fit() {
    assert_eq!(parse_i64("9223372036854775808"), None);
    assert_eq!(parse_i64("+9223372036854775808"), None);
    assert_eq!(parse_i64("-9223372036854775809"), None);
    assert_eq!(parse_i64("18446744073709551616"), None);
    assert_eq!(parse_i64("99999999999999999999999999999999"), None);
    assert_eq!(parse_i64("-99999999999999999999999999999999"), None);
}

#[test]
fn parse_i64_refuses_what_is_no_integer() {
    let texts = [
        "", "+", "-", "abc", "12.5", "N/A", "1 2", " 1", "1 ", "1\n", "--1", "+-1", "1-", "0x10",
        "1_000", "٣", "1e3",
    ];
    for text in texts {
        assert_eq!(parse_i64(text), None, "{:?}", text);
    }
}

#[test]
fn parse_i64_agrees_with_the_standard_library() {
    let texts = [
        "", "0", "-", "+", "+0", "-0", "7", "-7", "+7", "007", "-007", "12a", "a12", "1.0",
        "9223372036854775806", "9223372036854775807", "9223372036854775808",
        "-9223372036854775807", "-9223372036854775808", "-9223372036854775809",
        "92233720368547758070", "-92233720368547758080", "+9223372036854775807",
        " 5", "5 ", "５", "++5", "5+",
    ];
    for text in texts {
        assert_eq!(parse_i64(text), text.parse::<i64>().ok(), "{:?}", text);
    }
}

#[test]
fn parse_attribute_ignores_white_space_around_the_number() {
    assert_eq!(parse_attribute("128\n"), Some(128));
    assert_eq!(parse_attribute("128"), Some(128));
    assert_eq!(parse_attribute("  128"), Some(128));
    assert_eq!(parse_attribute("\t-3 \r\n"), Some(-3));
    assert_eq!(parse_attribute("\u{A0}+15\u{3000}"), Some(15));
}

#[test]
fn parse_attribute_refuses_what_is_no_integer() {
    for text in ["", "\n", "   ", "abc", "12.5", "N/A", "1 2\n", "- 1", "3\n4"] {
        assert_eq!(parse_attribute(text), None, "{:?}", text);
    }
}

#[test]
fn parse_attribute_agrees_with_the_standard_library() {
    let texts = [
        "3\n", "15\n", " 0 ", "255", "-1\n", "\n\n7\n\n", "7 7", "", " ", "max", "1\u{85}",
        "\u{2000}9223372036854775807\u{200A}", "9223372036854775808\n", "\u{200B}1",
    ];
    for text in texts {
        assert_eq!(parse_attribute(text), text.trim().parse::<i64>().ok(), "{:?}", text);
    }
}

#[test]
fn i64_text_writes_integers_in_base_ten() {
    assert_eq!(i64_text(0), "0");
    assert_eq!(i64_text(7), "7");
    assert_eq!(i64_text(10), "10");
    assert_eq!(i64_text(255), "255");
    assert_eq!(i64_text(-1), "-1");
    assert_eq!(i64_text(-1000), "-1000");
    assert_eq!(i64_text(i64::MAX), "9223372036854775807");
    assert_eq!(i64_text(i64::MIN), "-9223372036854775808");
}

#[test]
fn i64_text_agrees_with_the_standard_library() {
    let mut value: i64 = 1;
    let mut step: i64 = 1;
    while value < i64::MAX / 7 {
        for v in [value, -value, value - 1, 1 - value, value + 1] {
            assert_eq!(i64_text(v), v.to_string());
        }
        value = value * 7 + step;
        step += 3;
    }
    for v in [i64::MIN, i64::MIN + 1, i64::MAX, i64::MAX - 1, 0, 9, 10, 99, 100, 101] {
        assert_eq!(i64_text(v), v.to_string());
    }
}

#[test]
fn what_i64_text_writes_is_read_back() {
    for v in [0, 1, -1, 9, 10, -10, 12345, -98765, i64::MAX, i64::MIN] {
        assert_eq!(parse_i64(&i64_text(v)), Some(v));
        assert_eq!(parse_attribute(&i64_text(v)), Some(v));
    }
}
