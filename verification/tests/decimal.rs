use redtake::decimal::{format_units, Decimal};

#[test]
fn whole_quantities_are_written_without_a_point() {
    assert_eq!(Decimal { units: 0 }.to_text(), "0");
    assert_eq!(Decimal { units: 2_000_000 }.to_text(), "2");
    assert_eq!(Decimal::whole(50).to_text(), "50");
    assert_eq!(Decimal::whole(50), Decimal { units: 50_000_000 });
}

#[test]
fn fractions_are_written_without_trailing_zeros() {
    assert_eq!(Decimal { units: 5_500_000 }.to_text(), "5.5");
    assert_eq!(Decimal { units: 1_166_600_000 }.to_text(), "1166.6");
    assert_eq!(Decimal { units: 100_000 }.to_text(), "0.1");
    assert_eq!(Decimal { units: 990_000 }.to_text(), "0.99");
    assert_eq!(Decimal { units: 1 }.to_text(), "0.000001");
    assert_eq!(Decimal { units: 12_345_678 }.to_text(), "12.345678");
    assert_eq!(Decimal { units: 10_000_010 }.to_text(), "10.00001");
}

#[test]
fn the_largest_quantity_is_written_in_full() {
    assert_eq!(Decimal { units: u64::MAX }.to_text(), "18446744073709.551615");
    assert_eq!(format_units(u128::MAX), "340282366920938463463374607431768.211455");
}

#[test]
fn parse_reads_digits_with_an_optional_fraction() {
    assert_eq!(Decimal::parse("0"), Some(Decimal { units: 0 }));
    assert_eq!(Decimal::parse("2"), Some(Decimal { units: 2_000_000 }));
    assert_eq!(Decimal::parse("5.5"), Some(Decimal { units: 5_500_000 }));
    assert_eq!(Decimal::parse("12.345000"), Some(Decimal { units: 12_345_000 }));
    assert_eq!(Decimal::parse("0.000001"), Some(Decimal { units: 1 }));
    assert_eq!(Decimal::parse("007.50"), Some(Decimal { units: 7_500_000 }));
}

#[test]
fn parse_refuses_what_is_no_quantity() {
    assert_eq!(Decimal::parse(""), None);
    assert_eq!(Decimal::parse("abc"), None);
    assert_eq!(Decimal::parse("-1"), None);
    assert_eq!(Decimal::parse("+1"), None);
    assert_eq!(Decimal::parse("1."), None);
    assert_eq!(Decimal::parse(".5"), None);
    assert_eq!(Decimal::parse("1.5 "), None);
    assert_eq!(Decimal::parse(" 1.5"), None);
    assert_eq!(Decimal::parse("1.2.3"), None);
    assert_eq!(Decimal::parse("1e3"), None);
    assert_eq!(Decimal::parse("NaN"), None);
    assert_eq!(Decimal::parse("inf"), None);
    assert_eq!(Decimal::parse("1.2345678"), None);
}

#[test]
fn parse_refuses_what_does_not_fit() {
    assert_eq!(Decimal::parse("18446744073709.551615"), Some(Decimal { units: u64::MAX }));
    assert_eq!(Decimal::parse("18446744073709.551616"), None);
    assert_eq!(Decimal::parse("18446744073710"), None);
    assert_eq!(Decimal::parse("99999999999999999999999999999999999999999999"), None);
}

#[test]
fn text_reads_back_as_the_quantity() {
    for units in [0u64, 1, 9, 10, 999_999, 1_000_000, 1_000_001, 123_456_789, u64::MAX] {
        let d = Decimal { units };
        assert_eq!(Decimal::parse(&d.to_text()), Some(d));
    }
}
