use expense_tracker::amount::{format_amount, parse_amount, Amount};

fn amount(hundredths: i64) -> Amount {
    Amount { hundredths }
}

#[test]
fn parses_whole_and_fractional_amounts() {
    assert_eq!(parse_amount("2000"), Some(amount(200000)));
    assert_eq!(parse_amount("-800"), Some(amount(-80000)));
    assert_eq!(parse_amount("12.5"), Some(amount(1250)));
    assert_eq!(parse_amount("-0.05"), Some(amount(-5)));
    assert_eq!(parse_amount("+7.25"), Some(amount(725)));
    assert_eq!(parse_amount("0"), Some(amount(0)));
    assert_eq!(parse_amount("-0"), Some(amount(0)));
    assert_eq!(parse_amount("007"), Some(amount(700)));
}

#[test]
fn parses_a_point_at_either_end() {
    assert_eq!(parse_amount("5."), Some(amount(500)));
    assert_eq!(parse_amount(".5"), Some(amount(50)));
    assert_eq!(parse_amount("-.5"), Some(amount(-50)));
}

#[test]
fn rounds_to_the_nearest_hundredth() {
    assert_eq!(parse_amount("1.234"), Some(amount(123)));
    assert_eq!(parse_amount("1.235"), Some(amount(124)));
    assert_eq!(parse_amount("-1.235"), Some(amount(-124)));
    assert_eq!(parse_amount("0.999"), Some(amount(100)));
    assert_eq!(parse_amount("0.0049999"), Some(amount(0)));
    assert_eq!(parse_amount("2.5000000000000000000000001"), Some(amount(250)));
}

#[test]
fn refuses_what_is_not_plain_decimal_notation() {
    assert_eq!(parse_amount(""), None);
    assert_eq!(parse_amount("-"), None);
    assert_eq!(parse_amount("+"), None);
    assert_eq!(parse_amount("."), None);
    assert_eq!(parse_amount("abc"), None);
    assert_eq!(parse_amount("1.2.3"), None);
    assert_eq!(parse_amount("1,5"), None);
    assert_eq!(parse_amount(" 5"), None);
    assert_eq!(parse_amount("5 "), None);
    assert_eq!(parse_amount("--5"), None);
    assert_eq!(parse_amount("5-"), None);
    assert_eq!(parse_amount("٣"), None);
    assert_eq!(parse_amount("0x10"), None);
    assert_eq!(parse_amount("1_000"), None);
}

#[test]
fn refuses_numbers_that_are_not_finite() {
    for text in ["inf", "-inf", "+inf", "infinity", "NaN", "nan", "-nan", "Infinity"] {
        assert_eq!(parse_amount(text), None, "{:?}", text);
    }
}

#[test]
fn parses_exponents() {
    assert_eq!(parse_amount("1e3"), Some(amount(100000)));
    assert_eq!(parse_amount("1E3"), Some(amount(100000)));
    assert_eq!(parse_amount("1.25e1"), Some(amount(1250)));
    assert_eq!(parse_amount("-1.25e+1"), Some(amount(-1250)));
    assert_eq!(parse_amount("125e-1"), Some(amount(1250)));
    assert_eq!(parse_amount("125e-2"), Some(amount(125)));
    assert_eq!(parse_amount("125e-3"), Some(amount(13)));
    assert_eq!(parse_amount("124e-3"), Some(amount(12)));
    assert_eq!(parse_amount("5e-3"), Some(amount(1)));
    assert_eq!(parse_amount("4e-3"), Some(amount(0)));
    assert_eq!(parse_amount("5e-4"), Some(amount(0)));
    assert_eq!(parse_amount("9e-4"), Some(amount(0)));
    assert_eq!(parse_amount("-5e-3"), Some(amount(-1)));
    assert_eq!(parse_amount(".5e1"), Some(amount(500)));
    assert_eq!(parse_amount("5.e1"), Some(amount(5000)));
    assert_eq!(parse_amount("1e0"), Some(amount(100)));
    assert_eq!(parse_amount("1e-0"), Some(amount(100)));
    assert_eq!(parse_amount("1e007"), Some(amount(1000000000)));
    assert_eq!(parse_amount("0e99999999999999999999999999999999"), Some(amount(0)));
    assert_eq!(parse_amount("0.000e99999999999999999999999999999999"), Some(amount(0)));
    assert_eq!(parse_amount("7e-99999999999999999999999999999999"), Some(amount(0)));
    assert_eq!(parse_amount("1e99999999999999999999999999999999"), None);
    assert_eq!(parse_amount("0.0000000000000000000001e22"), Some(amount(100)));
    assert_eq!(parse_amount("10000000000000000000000e-22"), Some(amount(100)));
    assert_eq!(parse_amount("9.223372036854775807e16"), Some(amount(i64::MAX)));
    assert_eq!(parse_amount("9.223372036854775808e16"), None);
    assert_eq!(parse_amount("-9.223372036854775808e16"), Some(amount(i64::MIN)));
    assert_eq!(parse_amount("1e17"), None);
    assert_eq!(parse_amount("1e16"), Some(amount(1_000_000_000_000_000_000)));
}

#[test]
fn refuses_exponents_that_are_none() {
    for text in ["1e", "1e+", "1e-", "e5", ".e5", "1e5.0", "1e5e5", "1e 5", "1ee5", "-e1", "1e+-5", "e"] {
        assert_eq!(parse_amount(text), None, "{:?}", text);
    }
}

#[test]
fn takes_the_notation_of_floating_point_numbers() {
    let samples = [
        "0", "1", "-1", "+1", "1.", ".1", ".", "", "-", "+", "1.5", "1..5", "1e5", "1E5", "1e+5",
        "1e-5", "1e", "e1", "1e1.5", "1.5e3", "-.5e-1", "+.e1", "12a", "a12", " 1", "1 ", "1,5",
        "--1", "+-1", "1e--1", "0e0", "00.00e00", "1_0", "0x1", "1f", "1.e1", ".1e1", "1e+", "١",
    ];
    for text in samples {
        let expected = text.parse::<f64>().is_ok();
        assert_eq!(parse_amount(text).is_some(), expected, "{:?}", text);
    }
}

#[test]
fn agrees_with_floating_point_on_plain_sums() {
    let samples = ["2000", "-800", "-150", "12.5", "0.25", "1e2", "2.5e-1", "-7.75", "100.5"];
    for text in samples {
        let float: f64 = text.parse().unwrap();
        let read = parse_amount(text).unwrap();
        assert_eq!(read.hundredths as f64, float * 100.0, "{:?}", text);
    }
}

#[test]
fn holds_amounts_up_to_the_range_of_the_hundredths() {
    assert_eq!(parse_amount("92233720368547758.07"), Some(amount(i64::MAX)));
    assert_eq!(parse_amount("92233720368547758.08"), None);
    assert_eq!(parse_amount("-92233720368547758.08"), Some(amount(i64::MIN)));
    assert_eq!(parse_amount("-92233720368547758.09"), None);
    assert_eq!(parse_amount("92233720368547759"), None);
    assert_eq!(parse_amount("92233720368547758.074"), Some(amount(i64::MAX)));
    assert_eq!(parse_amount("92233720368547758.075"), None);
    assert_eq!(parse_amount("99999999999999999999999999999999999999999999"), None);
    assert_eq!(parse_amount("00000000000000000000000000000000000000000001"), Some(amount(100)));
}

#[test]
fn formats_amounts_without_needless_digits() {
    assert_eq!(format_amount(amount(200000)), "2000");
    assert_eq!(format_amount(amount(-95000)), "-950");
    assert_eq!(format_amount(amount(105000)), "1050");
    assert_eq!(format_amount(amount(1250)), "12.5");
    assert_eq!(format_amount(amount(1205)), "12.05");
    assert_eq!(format_amount(amount(-5)), "-0.05");
    assert_eq!(format_amount(amount(-50)), "-0.5");
    assert_eq!(format_amount(amount(0)), "0");
    assert_eq!(format_amount(amount(99)), "0.99");
}

#[test]
fn formats_the_ends_of_the_range() {
    assert_eq!(format_amount(amount(i64::MAX)), "92233720368547758.07");
    assert_eq!(format_amount(amount(i64::MIN)), "-92233720368547758.08");
}

#[test]
fn reads_back_what_it_wrote() {
    let samples: [i64; 12] =
        [0, 1, -1, 9, 10, 99, 100, -100, 101, 123456, i64::MAX, i64::MIN];
    for hundredths in samples {
        let written = format_amount(amount(hundredths));
        assert_eq!(parse_amount(&written), Some(amount(hundredths)), "{}", written);
    }
}
