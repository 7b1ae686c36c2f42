use slide_linker::number::{check_decimal_text, push_nat, push_nat_pad3, Decimal};

#[test]
fn accepts_decimal_numbers() {
    for s in ["0", "7", "10", "12.5", "0.1", "-3", "-0", "-0.25", "33.333333333333336", "100"] {
        assert!(check_decimal_text(s), "{}", s);
        let d = Decimal::parse(s).unwrap();
        assert_eq!(d.as_str(), s);
    }
}

#[test]
fn refuses_what_is_no_decimal_number() {
    for s in [
        "", "-", ".", ".5", "5.", "1.2.3", "1..2", "--1", "1-", "+1", "1e5", "NaN", "inf", " 1", "1 ",
        "1,5", "１", "1<", "\"",
    ] {
        assert!(!check_decimal_text(s), "{}", s);
        assert!(Decimal::parse(s).is_none(), "{}", s);
    }
}

#[test]
fn accepts_what_a_float_prints() {
    for x in [0.0f64, 1.0, 12.5, 99.99, 100.0, 0.000001, 1e21, -4.5, 33.0 / 3.0, 1.0 / 3.0] {
        let text = format!("{}", x);
        let d = Decimal::parse(&text).unwrap();
        assert_eq!(d.as_str(), text);
    }
}

#[test]
fn whole_numbers_become_decimals() {
    assert_eq!(Decimal::from_nat(0).as_str(), "0");
    assert_eq!(Decimal::from_nat(42).as_str(), "42");
    assert_eq!(Decimal::from_nat(u64::MAX).as_str(), "18446744073709551615");
}

#[test]
fn clone_keeps_the_text() {
    let d = Decimal::parse("12.5").unwrap();
    assert_eq!(d.clone().as_str(), "12.5");
}

#[test]
fn writes_natural_numbers_in_decimal() {
    for n in [0u64, 1, 9, 10, 11, 99, 100, 255, 1000, 65535, u64::MAX] {
        let mut out = String::from("n=");
        push_nat(&mut out, n);
        assert_eq!(out, format!("n={}", n));
    }
}

#[test]
fn pads_to_three_places() {
    for n in [0u64, 1, 9, 10, 99, 100, 999, 1000, 12345] {
        let mut out = String::new();
        push_nat_pad3(&mut out, n);
        assert_eq!(out, format!("{:03}", n));
    }
}
