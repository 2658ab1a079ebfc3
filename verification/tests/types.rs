use dual_venue_mm::types::{normalize_decimal, InstrumentSpec, NormalizationError, Position, Side};

fn spec() -> InstrumentSpec {
    InstrumentSpec::new("TSLA", 4, 2)
}

#[test]
fn normalize_integer_price() {
    assert_eq!(spec().normalize_price("180").unwrap(), 1_800_000);
}

#[test]
fn normalize_decimal_price() {
    assert_eq!(spec().normalize_price("180.45").unwrap(), 1_804_500);
}

#[test]
fn normalize_full_precision_price() {
    assert_eq!(spec().normalize_price("180.4567").unwrap(), 1_804_567);
}

#[test]
fn normalize_negative_price() {
    assert_eq!(spec().normalize_price("-10.5").unwrap(), -105_000);
}

#[test]
fn normalize_pads_short_fractional() {
    // "180.4" with scale=4 is 1804000, not 18040
    assert_eq!(spec().normalize_price("180.4").unwrap(), 1_804_000);
}

#[test]
fn normalize_excessive_precision_errors() {
    // scale=4, but value has 5 decimal places
    assert!(spec().normalize_price("180.45678").is_err());
}

#[test]
fn opposite_side() {
    assert_eq!(Side::Buy.opposite(), Side::Sell);
    assert_eq!(Side::Sell.opposite(), Side::Buy);
}

#[test]
fn instrument_spec_keeps_its_parameters() {
    let spec = InstrumentSpec::new("xyz:TSLA", 2, 3);
    assert_eq!(spec.symbol, "xyz:TSLA");
    assert_eq!(spec.price_scale, 2);
    assert_eq!(spec.quantity_scale, 3);
}

#[test]
fn quantity_uses_its_own_scale() {
    assert_eq!(spec().normalize_quantity("1.5").unwrap(), 150);
    assert!(matches!(
        spec().normalize_quantity("1.505"),
        Err(NormalizationError::ExcessivePrecision { max_scale: 2, got_scale: 3, .. })
    ));
}

#[test]
fn minus_sign_counts_below_one() {
    assert_eq!(spec().normalize_price("-0.5").unwrap(), -5_000);
}

#[test]
fn surrounding_white_space_is_ignored() {
    assert_eq!(spec().normalize_price(" \t180.45\n").unwrap(), 1_804_500);
    assert_eq!(spec().normalize_price("\u{3000}180.45\u{2003}\u{a0}\u{85}").unwrap(), 1_804_500);
    // a zero-width space is not whitespace
    assert!(spec().normalize_price("\u{200b}180.45").is_err());
}

#[test]
fn white_space_is_that_of_the_standard_library() {
    let mut code: u32 = 0;
    while code <= 0x10ffff {
        if let Some(c) = char::from_u32(code) {
            let mut text = String::from(c);
            text.push('7');
            let ignored = normalize_decimal(&text, 0).is_ok();
            assert_eq!(ignored, c.is_whitespace() || c == '-' || c == '+' || c.is_ascii_digit());
        }
        code += 1;
    }
}

#[test]
fn numerals_may_carry_a_sign() {
    assert_eq!(normalize_decimal("+5", 2).unwrap(), 500);
    assert_eq!(normalize_decimal("--5", 2).unwrap(), 500);
    assert_eq!(normalize_decimal("1.-5", 2).unwrap(), 95);
    assert_eq!(normalize_decimal("1.+5", 2).unwrap(), 105);
}

#[test]
fn invalid_numbers_are_reported_without_sign_and_space() {
    for raw in ["", "-", ".5", "abc", "1.2.3", "1,5", "+", "1e3", "\u{0663}"] {
        match normalize_decimal(raw, 4) {
            Err(NormalizationError::InvalidNumber(text)) => {
                assert_eq!(text, raw.strip_prefix('-').unwrap_or(raw));
            }
            other => panic!("{raw}: {other:?}"),
        }
    }
    match normalize_decimal(" -x ", 4) {
        Err(NormalizationError::InvalidNumber(text)) => assert_eq!(text, "x"),
        other => panic!("{other:?}"),
    }
}

#[test]
fn trailing_point_has_no_decimal_places() {
    assert_eq!(normalize_decimal("180.", 4).unwrap(), 1_800_000);
    assert_eq!(normalize_decimal("180.", 0).unwrap(), 180);
}

#[test]
fn decimal_places_are_counted_in_bytes() {
    // three bytes, one character
    match normalize_decimal("1.\u{20ac}", 2) {
        Err(NormalizationError::ExcessivePrecision { value, max_scale, got_scale }) => {
            assert_eq!(value, "1.\u{20ac}");
            assert_eq!(max_scale, 2);
            assert_eq!(got_scale, 3);
        }
        other => panic!("{other:?}"),
    }
    assert!(matches!(normalize_decimal("1.\u{20ac}", 3), Err(NormalizationError::InvalidNumber(_))));
}

#[test]
fn limits_of_the_range() {
    assert_eq!(normalize_decimal("9223372036854775807", 0).unwrap(), i64::MAX);
    assert_eq!(normalize_decimal("-9223372036854775807", 0).unwrap(), -i64::MAX);
    assert!(matches!(
        normalize_decimal("9223372036854775808", 0),
        Err(NormalizationError::InvalidNumber(_))
    ));
    assert_eq!(normalize_decimal("9.223372036854775807", 18).unwrap(), i64::MAX);
}

#[test]
fn values_out_of_range_are_recognised() {
    let spec = InstrumentSpec::new("TSLA", 4, 19);
    assert!(spec.price_fits("922337203685477.5807"));
    assert!(!spec.price_fits("922337203685477.5808"));
    assert!(!spec.price_fits("922337203685478"));
    // errors need no arithmetic
    assert!(spec.price_fits("x"));
    assert!(spec.price_fits("922337203685478.12345"));
    assert!(!spec.quantity_fits("1"));
    assert!(spec.quantity_fits("x"));
}

#[test]
fn one_more_place_is_ten_times_the_units() {
    assert_eq!(normalize_decimal("-3.25", 2).unwrap(), -325);
    assert_eq!(normalize_decimal("-3.25", 3).unwrap(), -3_250);
}

#[test]
fn normalization_errors_are_described() {
    let error = spec().normalize_price("180.45678").unwrap_err();
    assert_eq!(error.message(), "Value '180.45678' has 5 decimal places, max allowed is 4");
    let error = spec().normalize_price("-abc").unwrap_err();
    assert_eq!(error.message(), "Invalid number: abc");
}

#[test]
fn default_position_is_flat() {
    let position = Position::default();
    assert_eq!(position.quantity, 0);
    assert_eq!(position.instrument, "");
}
