use rust_todo::number::{decimal_string, parse_number};

#[test]
fn decimal_string_writes_each_digit() {
    assert_eq!(decimal_string(0), "0");
    assert_eq!(decimal_string(7), "7");
    assert_eq!(decimal_string(9), "9");
    assert_eq!(decimal_string(10), "10");
    assert_eq!(decimal_string(11), "11");
    assert_eq!(decimal_string(100), "100");
    assert_eq!(decimal_string(1234567890), "1234567890");
    assert_eq!(decimal_string(usize::MAX), usize::MAX.to_string());
}

#[test]
fn decimal_string_agrees_with_the_standard_library() {
    let mut n: usize = 0;
    while n < 2000 {
        assert_eq!(decimal_string(n), n.to_string());
        n += 1;
    }
}

#[test]
fn parse_number_reads_digits() {
    assert_eq!(parse_number("0"), Some(0));
    assert_eq!(parse_number("1"), Some(1));
    assert_eq!(parse_number("42"), Some(42));
    assert_eq!(parse_number("007"), Some(7));
    assert_eq!(parse_number("+5"), Some(5));
    assert_eq!(parse_number(&usize::MAX.to_string()), Some(usize::MAX));
}

#[test]
fn parse_number_refuses_what_is_no_number() {
    assert_eq!(parse_number(""), None);
    assert_eq!(parse_number("+"), None);
    assert_eq!(parse_number("-1"), None);
    assert_eq!(parse_number("-0"), None);
    assert_eq!(parse_number("++1"), None);
    assert_eq!(parse_number("1+"), None);
    assert_eq!(parse_number("abc"), None);
    assert_eq!(parse_number("12a"), None);
    assert_eq!(parse_number(" 1"), None);
    assert_eq!(parse_number("1 "), None);
    assert_eq!(parse_number("1_000"), None);
    assert_eq!(parse_number("1.5"), None);
    assert_eq!(parse_number("٣"), None);
}

#[test]
fn parse_number_refuses_what_does_not_fit() {
    let mut too_large = usize::MAX.to_string();
    too_large.push('0');
    assert_eq!(parse_number(&too_large), None);
    assert_eq!(parse_number("340282366920938463463374607431768211456"), None);
    let next = (usize::MAX as u128 + 1).to_string();
    assert_eq!(parse_number(&next), None);
}

#[test]
fn parse_number_agrees_with_the_standard_library() {
    let samples = [
        "",
        "0",
        "00",
        "+0",
        "-0",
        "+",
        "-",
        "12",
        "+12",
        "-12",
        "1e3",
        "0x10",
        "１２",
        "9999999999",
        "18446744073709551615",
        "18446744073709551616",
        "4294967295",
        "4294967296",
        "+ 1",
        "1\n",
    ];
    for sample in samples {
        assert_eq!(parse_number(sample), sample.parse::<usize>().ok(), "{:?}", sample);
    }
}

#[test]
fn a_written_number_is_read_back() {
    let numbers: [usize; 7] = [0, 1, 9, 10, 99, 1000, usize::MAX];
    for number in numbers {
        assert_eq!(parse_number(&decimal_string(number)), Some(number));
    }
}
