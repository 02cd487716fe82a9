use lox::number::{format_tokenized_number, Number};

#[test]
fn tokenized_numbers_show_a_fraction() {
    assert_eq!(format_tokenized_number("42"), "42.0");
    assert_eq!(format_tokenized_number("1234.1234"), "1234.1234");
    assert_eq!(format_tokenized_number("48.0000"), "48.0");
    assert_eq!(format_tokenized_number("abc"), "0.0");
}

#[test]
fn literals_denote_exact_fractions() {
    let n = Number::from_literal("26.40").unwrap();
    assert_eq!(n.numerator(), 2640);
    assert_eq!(n.denominator(), 100);
    assert!(Number::from_literal("1.2.3").is_none());
    assert!(Number::from_literal(".5").is_none());
    assert!(Number::from_literal("99999999999999999999").is_none());
}

#[test]
fn arithmetic_is_exact() {
    let a = Number::from_literal("0.1").unwrap();
    let b = Number::from_literal("0.2").unwrap();
    let c = Number::from_literal("0.3").unwrap();
    assert!(a.add(&b).unwrap().same_value(&c));
    let x = Number::from_literal("13.2").unwrap();
    let two = Number::from_int(2);
    assert_eq!(x.multiply(&two).unwrap().to_text(), "26.4");
    assert_eq!(Number::from_int(1).divide(&Number::from_int(3)).unwrap().to_text(), "0.3333333333333333");
    assert_eq!(Number::from_int(-1).divide(&Number::from_int(2)).unwrap().to_text(), "-0.5");
    assert_eq!(Number::from_int(7).to_text(), "7.0");
    assert_eq!(Number::from_int(3).subtract(&Number::from_int(5)).unwrap().to_text(), "-2.0");
}

#[test]
fn division_by_a_negative_keeps_the_denominator_positive() {
    let q = Number::from_int(3).divide(&Number::from_int(-4)).unwrap();
    assert_eq!(q.numerator(), -3);
    assert_eq!(q.denominator(), 4);
    assert!(q.less(&Number::from_int(0)));
}

#[test]
fn overflow_gives_none() {
    let big = Number::from_int(i64::MAX);
    assert!(big.add(&Number::from_int(1)).is_none());
    assert!(big.multiply(&big).is_none());
    assert!(Number::from_int(i64::MIN).negate().is_none());
    assert!(Number::ratio(1, 0).is_none());
    assert!(Number::ratio(1, -2).is_none());
}
