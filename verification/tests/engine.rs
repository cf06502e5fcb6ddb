use convers::calc::{eval, meval};
use convers::currency::Currency;
use convers::errors::ConvertError;
use convers::rat::Rat;
use convers::units::{Measurement, Unit};

#[test]
fn category_mismatch_is_rejected() {
    // Arithmetic across categories fails, never coerces.
    let a = Measurement::new(Rat::from_int(1), Unit::Meter);
    let b = Measurement::new(Rat::from_int(1), Unit::Kilogram);
    assert_eq!(a.add(b), Err(ConvertError::CategoryMismatch));
    assert_eq!(a.sub(b), Err(ConvertError::CategoryMismatch));
    assert_eq!(a.mul(b), Err(ConvertError::CategoryMismatch));
    assert_eq!(a.div(b), Err(ConvertError::CategoryMismatch));
}

#[test]
fn round_trip_restores_the_value() {
    // Converting away and back is the exact identity.
    let m = Measurement::new(Rat::from_int(250), Unit::Meter);
    let away = m.to_other(Unit::Kilometer).unwrap();
    assert_eq!(away.value, Rat::new(1, 4).unwrap());
    assert_eq!(away.to_other(Unit::Meter).unwrap(), m);
    let f = Measurement::new(Rat::from_int(100), Unit::Fahrenheit);
    assert_eq!(f.to_other(Unit::Kelvin).unwrap().to_other(Unit::Fahrenheit).unwrap(), f);
}

#[test]
fn converting_into_the_base_unit_matches_to_base() {
    let one_km = *Measurement::from_str(&String::from("1km")).unwrap();
    assert_eq!(one_km.to_other(Unit::Meter).unwrap(), one_km.to_base().unwrap());
    let one_kb = *Measurement::from_str(&String::from("1KB")).unwrap();
    assert_eq!(one_kb.to_other(Unit::Byte).unwrap().value, Rat::from_int(1024));
}

#[test]
fn temperature_conversion_is_affine() {
    let boiling = Measurement::new(Rat::from_int(212), Unit::Fahrenheit);
    let celsius = boiling.to_base().unwrap();
    assert_eq!(celsius.unit, Unit::Celsius);
    assert_eq!(celsius.value, Rat::from_int(100));
    let kelvin = boiling.to_other(Unit::Kelvin).unwrap();
    assert_eq!(kelvin.txt(), "373.15 Kelvin");
}

#[test]
fn parse_defaults_a_malformed_value_to_zero() {
    // The catalog reads `m` as zero meters: the value run is empty.
    let m = *Measurement::from_str(&String::from("m")).unwrap();
    assert_eq!(m, Measurement::new(Rat::from_int(0), Unit::Meter));
    let dotted = *Measurement::from_str(&String::from("1.2.3m")).unwrap();
    assert_eq!(dotted.value, Rat::from_int(0));
}

#[test]
fn parse_reports_unit_errors() {
    assert_eq!(
        Measurement::from_str(&String::from("123")),
        Err(ConvertError::EmptyUnit)
    );
    assert_eq!(
        Measurement::from_str(&String::from("12xyz")),
        Err(ConvertError::UnknownUnit)
    );
    assert!(Measurement::is_this(&String::from("250m")));
    assert!(!Measurement::is_this(&String::from("250")));
}

#[test]
fn parse_reports_overflow() {
    let huge = format!("{}m", "9".repeat(60));
    assert_eq!(
        Measurement::from_str(&huge),
        Err(ConvertError::Overflow)
    );
}

#[test]
fn conversion_needs_exactly_one_marker() {
    // `1usd:uah` splits into `1usd` and `uah`; zero or two and more
    // markers are a format error.
    assert_eq!(
        Measurement::convert(&String::from("250m")),
        Err(ConvertError::QueryFormat)
    );
    assert_eq!(
        Measurement::convert(&String::from("1m:cm:km")),
        Err(ConvertError::QueryFormat)
    );
}

#[test]
fn the_to_marker_needs_word_boundaries() {
    // `stone` embeds `to` but is not split there: the query has one
    // marker, and fails only because `stone` is no catalog token.
    assert_eq!(
        Measurement::convert(&String::from("1stone to kg")),
        Err(ConvertError::UnknownUnit)
    );
}

#[test]
fn currency_literal_splits_value_and_code() {
    let c = Currency::from_str(&String::from("1usd")).unwrap();
    assert_eq!(c.currency, "usd");
    assert_eq!(c.amount, Rat::from_int(1));
    let free = Currency::from_str(&String::from("uah")).unwrap();
    assert_eq!(free.amount, Rat::from_int(0));
    assert_eq!(
        Currency::from_str(&String::from("12.5")),
        Err(ConvertError::EmptyUnit)
    );
}

#[test]
fn evaluation_is_left_to_right() {
    assert_eq!(eval(&String::from("2+3*4")).unwrap(), Rat::from_int(20));
    assert_eq!(eval(&String::from("10-2-3")).unwrap(), Rat::from_int(5));
    assert_eq!(eval(&String::from("1/3")).unwrap(), Rat::new(1, 3).unwrap());
}

#[test]
fn evaluation_reports_bad_terms_and_zero_divisors() {
    assert_eq!(eval(&String::from("abc")), Err(ConvertError::BadNumber));
    assert_eq!(eval(&String::from("2+x")), Err(ConvertError::BadNumber));
    assert_eq!(eval(&String::from("5/0")), Err(ConvertError::DivisionByZero));
    assert_eq!(
        meval(&String::from("1m+1kg")),
        Err(ConvertError::CategoryMismatch)
    );
}

#[test]
fn measured_evaluation_keeps_the_left_unit() {
    let r = meval(&String::from("1km+250m")).unwrap();
    assert_eq!(r.unit, Unit::Kilometer);
    assert_eq!(r.value, Rat::new(5, 4).unwrap());
    assert_eq!(r.txt(), "1.25 Kilometer");
}

#[test]
fn values_render_as_plain_decimals() {
    assert_eq!(Rat::from_int(30030).txt(), "30030");
    assert_eq!(Rat::new(1, 4).unwrap().txt(), "0.25");
    assert_eq!(Rat::new(-1, 2).unwrap().txt(), "-0.5");
    assert_eq!(Rat::new(5, -10).unwrap().txt(), "-0.5");
    assert_eq!(Rat::new(1, 8).unwrap().txt(), "0.125");
    // A non-terminating expansion is truncated after 64 digits.
    assert_eq!(Rat::new(1, 3).unwrap().txt(), format!("0.{}", "3".repeat(64)));
}

#[test]
fn arithmetic_is_exact_and_canonical() {
    let half = Rat::new(2, 4).unwrap();
    assert_eq!(half, Rat::new(1, 2).unwrap());
    let third = Rat::new(1, 3).unwrap();
    let sum = half.add(third).unwrap();
    assert_eq!(sum, Rat::new(5, 6).unwrap());
    assert_eq!(half.sub(third).unwrap(), Rat::new(1, 6).unwrap());
    assert_eq!(half.mul(third).unwrap(), Rat::new(1, 6).unwrap());
    assert_eq!(half.div(third).unwrap(), Rat::new(3, 2).unwrap());
    assert_eq!(
        half.div(Rat::from_int(0)),
        Err(ConvertError::DivisionByZero)
    );
    assert_eq!(Rat::new(1, 0), Err(ConvertError::DivisionByZero));
}

#[test]
fn cross_category_to_other_applies_the_transforms_blindly() {
    // `to_other` itself does not check categories; arithmetic does.
    let m = Measurement::new(Rat::from_int(250), Unit::Meter);
    let odd = m.to_other(Unit::Kilogram).unwrap();
    assert_eq!(odd.value, Rat::from_int(250));
    assert_eq!(odd.unit, Unit::Kilogram);
}
