//! The unit catalog and the measurement engine: typed quantities,
//! conversion through each category's base unit, and category-checked
//! arithmetic.
//!
//! Every unit converts into its category's base unit by a rational
//! affine transform `v * (sn / sd) + (on / od)`; for all units except
//! the temperatures the offset is zero, making the transform linear.

use crate::decimal::{dec_parse, fmt_frac, parse_dec, split_value_run, vrun_from};
use crate::errors::ConvertError;
use crate::rat::{abs_i, checked_frac, Rat};
use crate::segment::{seg_split, seg_split_s};
use crate::text::{chars_eq_str, str_chars, strip_spaces, strip_spaces_s};
use vstd::prelude::*;
use vstd::string::*;

verus! {

/// Every unit the catalog knows.
#[derive(Debug, PartialEq, Eq, Copy, Clone, Structural)]
pub enum Unit {
    Meter,
    Centimeter,
    Millimeter,
    Kilometer,
    Decimeter,
    Hectometer,
    Decameter,
    Kilogram,
    Gram,
    Milligram,
    Microgram,
    Ton,
    Pound,
    Ounce,
    Ampere,
    Milliampere,
    Volt,
    Millivolt,
    Watt,
    Kilowatt,
    Joule,
    Kilojoule,
    Second,
    Minute,
    Hour,
    Byte,
    Kilobyte,
    Megabyte,
    Gigabyte,
    Terabyte,
    Petabyte,
    Pixel,
    Rem,
    Em,
    Celsius,
    Fahrenheit,
    Kelvin,
    Pascal,
    Bar,
    Atmosphere,
    MeterPerSecond,
    KilometerPerHour,
    MilePerHour,
    Liter,
    Milliliter,
    CubicMeter,
    SquareMeter,
    SquareKilometer,
    Hectare,
    Acre,
}

/// The dimension a unit measures; conversion and arithmetic are
/// meaningful only within one category.
#[derive(Debug, PartialEq, Eq, Copy, Clone, Structural)]
pub enum Category {
    Length,
    Mass,
    Current,
    Voltage,
    Power,
    Energy,
    Time,
    Storage,
    Display,
    Temperature,
    Pressure,
    Speed,
    Volume,
    Area,
}

/// A unit's transform into its category's base unit:
/// `base = v * (sn / sd) + (on / od)`.
pub struct Transform {
    pub sn: i64,
    pub sd: i64,
    pub on: i64,
    pub od: i64,
}

/// The catalog's transform for each unit.
pub open spec fn transform(u: Unit) -> Transform {
    match u {
        Unit::Meter => Transform { sn: 1, sd: 1, on: 0, od: 1 },
        Unit::Centimeter => Transform { sn: 1, sd: 100, on: 0, od: 1 },
        Unit::Millimeter => Transform { sn: 1, sd: 1000, on: 0, od: 1 },
        Unit::Kilometer => Transform { sn: 1000, sd: 1, on: 0, od: 1 },
        Unit::Decimeter => Transform { sn: 1, sd: 10, on: 0, od: 1 },
        Unit::Hectometer => Transform { sn: 100, sd: 1, on: 0, od: 1 },
        Unit::Decameter => Transform { sn: 10, sd: 1, on: 0, od: 1 },
        Unit::Kilogram => Transform { sn: 1, sd: 1, on: 0, od: 1 },
        Unit::Gram => Transform { sn: 1, sd: 1000, on: 0, od: 1 },
        Unit::Milligram => Transform { sn: 1, sd: 1000000, on: 0, od: 1 },
        Unit::Microgram => Transform { sn: 1, sd: 1000000000, on: 0, od: 1 },
        Unit::Ton => Transform { sn: 1000, sd: 1, on: 0, od: 1 },
        Unit::Pound => Transform { sn: 453592, sd: 1000000, on: 0, od: 1 },
        Unit::Ounce => Transform { sn: 283495, sd: 10000000, on: 0, od: 1 },
        Unit::Ampere => Transform { sn: 1, sd: 1, on: 0, od: 1 },
        Unit::Milliampere => Transform { sn: 1, sd: 1000, on: 0, od: 1 },
        Unit::Volt => Transform { sn: 1, sd: 1, on: 0, od: 1 },
        Unit::Millivolt => Transform { sn: 1, sd: 1000, on: 0, od: 1 },
        Unit::Watt => Transform { sn: 1, sd: 1, on: 0, od: 1 },
        Unit::Kilowatt => Transform { sn: 1000, sd: 1, on: 0, od: 1 },
        Unit::Joule => Transform { sn: 1, sd: 1, on: 0, od: 1 },
        Unit::Kilojoule => Transform { sn: 1000, sd: 1, on: 0, od: 1 },
        Unit::Second => Transform { sn: 1, sd: 1, on: 0, od: 1 },
        Unit::Minute => Transform { sn: 60, sd: 1, on: 0, od: 1 },
        Unit::Hour => Transform { sn: 3600, sd: 1, on: 0, od: 1 },
        Unit::Byte => Transform { sn: 1, sd: 1, on: 0, od: 1 },
        Unit::Kilobyte => Transform { sn: 1024, sd: 1, on: 0, od: 1 },
        Unit::Megabyte => Transform { sn: 1048576, sd: 1, on: 0, od: 1 },
        Unit::Gigabyte => Transform { sn: 1073741824, sd: 1, on: 0, od: 1 },
        Unit::Terabyte => Transform { sn: 1099511627776, sd: 1, on: 0, od: 1 },
        Unit::Petabyte => Transform { sn: 1125899906842624, sd: 1, on: 0, od: 1 },
        Unit::Pixel => Transform { sn: 1, sd: 1, on: 0, od: 1 },
        Unit::Rem => Transform { sn: 16, sd: 1, on: 0, od: 1 },
        Unit::Em => Transform { sn: 16, sd: 1, on: 0, od: 1 },
        Unit::Celsius => Transform { sn: 1, sd: 1, on: 0, od: 1 },
        Unit::Fahrenheit => Transform { sn: 5, sd: 9, on: -160i64, od: 9 },
        Unit::Kelvin => Transform { sn: 1, sd: 1, on: -27315i64, od: 100 },
        Unit::Pascal => Transform { sn: 1, sd: 1, on: 0, od: 1 },
        Unit::Bar => Transform { sn: 100000, sd: 1, on: 0, od: 1 },
        Unit::Atmosphere => Transform { sn: 101325, sd: 1, on: 0, od: 1 },
        Unit::MeterPerSecond => Transform { sn: 1, sd: 1, on: 0, od: 1 },
        Unit::KilometerPerHour => Transform { sn: 10, sd: 36, on: 0, od: 1 },
        Unit::MilePerHour => Transform { sn: 44704, sd: 100000, on: 0, od: 1 },
        Unit::Liter => Transform { sn: 1, sd: 1000, on: 0, od: 1 },
        Unit::Milliliter => Transform { sn: 1, sd: 1000000, on: 0, od: 1 },
        Unit::CubicMeter => Transform { sn: 1, sd: 1, on: 0, od: 1 },
        Unit::SquareMeter => Transform { sn: 1, sd: 1, on: 0, od: 1 },
        Unit::SquareKilometer => Transform { sn: 1000000, sd: 1, on: 0, od: 1 },
        Unit::Hectare => Transform { sn: 10000, sd: 1, on: 0, od: 1 },
        Unit::Acre => Transform { sn: 404686, sd: 100, on: 0, od: 1 },
    }
}

/// The category each unit belongs to.
pub open spec fn category(u: Unit) -> Category {
    match u {
        Unit::Meter
        | Unit::Centimeter
        | Unit::Millimeter
        | Unit::Kilometer
        | Unit::Decimeter
        | Unit::Hectometer
        | Unit::Decameter => Category::Length,
        Unit::Kilogram
        | Unit::Gram
        | Unit::Milligram
        | Unit::Microgram
        | Unit::Ton
        | Unit::Pound
        | Unit::Ounce => Category::Mass,
        Unit::Ampere | Unit::Milliampere => Category::Current,
        Unit::Volt | Unit::Millivolt => Category::Voltage,
        Unit::Watt | Unit::Kilowatt => Category::Power,
        Unit::Joule | Unit::Kilojoule => Category::Energy,
        Unit::Second | Unit::Minute | Unit::Hour => Category::Time,
        Unit::Byte
        | Unit::Kilobyte
        | Unit::Megabyte
        | Unit::Gigabyte
        | Unit::Terabyte
        | Unit::Petabyte => Category::Storage,
        Unit::Pixel | Unit::Rem | Unit::Em => Category::Display,
        Unit::Celsius | Unit::Fahrenheit | Unit::Kelvin => Category::Temperature,
        Unit::Pascal | Unit::Bar | Unit::Atmosphere => Category::Pressure,
        Unit::MeterPerSecond | Unit::KilometerPerHour | Unit::MilePerHour => Category::Speed,
        Unit::Liter | Unit::Milliliter | Unit::CubicMeter => Category::Volume,
        Unit::SquareMeter | Unit::SquareKilometer | Unit::Hectare | Unit::Acre => Category::Area,
    }
}

/// The base unit of each category: the unit other members convert
/// through.
pub open spec fn base_unit(c: Category) -> Unit {
    match c {
        Category::Length => Unit::Meter,
        Category::Mass => Unit::Kilogram,
        Category::Current => Unit::Ampere,
        Category::Voltage => Unit::Volt,
        Category::Power => Unit::Watt,
        Category::Energy => Unit::Joule,
        Category::Time => Unit::Second,
        Category::Storage => Unit::Byte,
        Category::Display => Unit::Pixel,
        Category::Temperature => Unit::Celsius,
        Category::Pressure => Unit::Pascal,
        Category::Speed => Unit::MeterPerSecond,
        Category::Volume => Unit::CubicMeter,
        Category::Area => Unit::SquareMeter,
    }
}

/// The catalog's transform table, executable.
pub fn transform_of(u: Unit) -> (t: Transform)
    ensures
        t == transform(u),
{
    match u {
        Unit::Meter => Transform { sn: 1, sd: 1, on: 0, od: 1 },
        Unit::Centimeter => Transform { sn: 1, sd: 100, on: 0, od: 1 },
        Unit::Millimeter => Transform { sn: 1, sd: 1000, on: 0, od: 1 },
        Unit::Kilometer => Transform { sn: 1000, sd: 1, on: 0, od: 1 },
        Unit::Decimeter => Transform { sn: 1, sd: 10, on: 0, od: 1 },
        Unit::Hectometer => Transform { sn: 100, sd: 1, on: 0, od: 1 },
        Unit::Decameter => Transform { sn: 10, sd: 1, on: 0, od: 1 },
        Unit::Kilogram => Transform { sn: 1, sd: 1, on: 0, od: 1 },
        Unit::Gram => Transform { sn: 1, sd: 1000, on: 0, od: 1 },
        Unit::Milligram => Transform { sn: 1, sd: 1000000, on: 0, od: 1 },
        Unit::Microgram => Transform { sn: 1, sd: 1000000000, on: 0, od: 1 },
        Unit::Ton => Transform { sn: 1000, sd: 1, on: 0, od: 1 },
        Unit::Pound => Transform { sn: 453592, sd: 1000000, on: 0, od: 1 },
        Unit::Ounce => Transform { sn: 283495, sd: 10000000, on: 0, od: 1 },
        Unit::Ampere => Transform { sn: 1, sd: 1, on: 0, od: 1 },
        Unit::Milliampere => Transform { sn: 1, sd: 1000, on: 0, od: 1 },
        Unit::Volt => Transform { sn: 1, sd: 1, on: 0, od: 1 },
        Unit::Millivolt => Transform { sn: 1, sd: 1000, on: 0, od: 1 },
        Unit::Watt => Transform { sn: 1, sd: 1, on: 0, od: 1 },
        Unit::Kilowatt => Transform { sn: 1000, sd: 1, on: 0, od: 1 },
        Unit::Joule => Transform { sn: 1, sd: 1, on: 0, od: 1 },
        Unit::Kilojoule => Transform { sn: 1000, sd: 1, on: 0, od: 1 },
        Unit::Second => Transform { sn: 1, sd: 1, on: 0, od: 1 },
        Unit::Minute => Transform { sn: 60, sd: 1, on: 0, od: 1 },
        Unit::Hour => Transform { sn: 3600, sd: 1, on: 0, od: 1 },
        Unit::Byte => Transform { sn: 1, sd: 1, on: 0, od: 1 },
        Unit::Kilobyte => Transform { sn: 1024, sd: 1, on: 0, od: 1 },
        Unit::Megabyte => Transform { sn: 1048576, sd: 1, on: 0, od: 1 },
        Unit::Gigabyte => Transform { sn: 1073741824, sd: 1, on: 0, od: 1 },
        Unit::Terabyte => Transform { sn: 1099511627776, sd: 1, on: 0, od: 1 },
        Unit::Petabyte => Transform { sn: 1125899906842624, sd: 1, on: 0, od: 1 },
        Unit::Pixel => Transform { sn: 1, sd: 1, on: 0, od: 1 },
        Unit::Rem => Transform { sn: 16, sd: 1, on: 0, od: 1 },
        Unit::Em => Transform { sn: 16, sd: 1, on: 0, od: 1 },
        Unit::Celsius => Transform { sn: 1, sd: 1, on: 0, od: 1 },
        Unit::Fahrenheit => Transform { sn: 5, sd: 9, on: -160, od: 9 },
        Unit::Kelvin => Transform { sn: 1, sd: 1, on: -27315, od: 100 },
        Unit::Pascal => Transform { sn: 1, sd: 1, on: 0, od: 1 },
        Unit::Bar => Transform { sn: 100000, sd: 1, on: 0, od: 1 },
        Unit::Atmosphere => Transform { sn: 101325, sd: 1, on: 0, od: 1 },
        Unit::MeterPerSecond => Transform { sn: 1, sd: 1, on: 0, od: 1 },
        Unit::KilometerPerHour => Transform { sn: 10, sd: 36, on: 0, od: 1 },
        Unit::MilePerHour => Transform { sn: 44704, sd: 100000, on: 0, od: 1 },
        Unit::Liter => Transform { sn: 1, sd: 1000, on: 0, od: 1 },
        Unit::Milliliter => Transform { sn: 1, sd: 1000000, on: 0, od: 1 },
        Unit::CubicMeter => Transform { sn: 1, sd: 1, on: 0, od: 1 },
        Unit::SquareMeter => Transform { sn: 1, sd: 1, on: 0, od: 1 },
        Unit::SquareKilometer => Transform { sn: 1000000, sd: 1, on: 0, od: 1 },
        Unit::Hectare => Transform { sn: 10000, sd: 1, on: 0, od: 1 },
        Unit::Acre => Transform { sn: 404686, sd: 100, on: 0, od: 1 },
    }
}

/// The category table, executable.
pub fn category_of(u: Unit) -> (c: Category)
    ensures
        c == category(u),
{
    match u {
        Unit::Meter
        | Unit::Centimeter
        | Unit::Millimeter
        | Unit::Kilometer
        | Unit::Decimeter
        | Unit::Hectometer
        | Unit::Decameter => Category::Length,
        Unit::Kilogram
        | Unit::Gram
        | Unit::Milligram
        | Unit::Microgram
        | Unit::Ton
        | Unit::Pound
        | Unit::Ounce => Category::Mass,
        Unit::Ampere | Unit::Milliampere => Category::Current,
        Unit::Volt | Unit::Millivolt => Category::Voltage,
        Unit::Watt | Unit::Kilowatt => Category::Power,
        Unit::Joule | Unit::Kilojoule => Category::Energy,
        Unit::Second | Unit::Minute | Unit::Hour => Category::Time,
        Unit::Byte
        | Unit::Kilobyte
        | Unit::Megabyte
        | Unit::Gigabyte
        | Unit::Terabyte
        | Unit::Petabyte => Category::Storage,
        Unit::Pixel | Unit::Rem | Unit::Em => Category::Display,
        Unit::Celsius | Unit::Fahrenheit | Unit::Kelvin => Category::Temperature,
        Unit::Pascal | Unit::Bar | Unit::Atmosphere => Category::Pressure,
        Unit::MeterPerSecond | Unit::KilometerPerHour | Unit::MilePerHour => Category::Speed,
        Unit::Liter | Unit::Milliliter | Unit::CubicMeter => Category::Volume,
        Unit::SquareMeter | Unit::SquareKilometer | Unit::Hectare | Unit::Acre => Category::Area,
    }
}

/// The base-unit table, executable.
pub fn base_unit_of(c: Category) -> (u: Unit)
    ensures
        u == base_unit(c),
{
    match c {
        Category::Length => Unit::Meter,
        Category::Mass => Unit::Kilogram,
        Category::Current => Unit::Ampere,
        Category::Voltage => Unit::Volt,
        Category::Power => Unit::Watt,
        Category::Energy => Unit::Joule,
        Category::Time => Unit::Second,
        Category::Storage => Unit::Byte,
        Category::Display => Unit::Pixel,
        Category::Temperature => Unit::Celsius,
        Category::Pressure => Unit::Pascal,
        Category::Speed => Unit::MeterPerSecond,
        Category::Volume => Unit::CubicMeter,
        Category::Area => Unit::SquareMeter,
    }
}

/// Every transform has a positive scale, a small positive offset
/// denominator, and a bounded nonpositive offset.
pub proof fn lemma_transform_bounds(u: Unit)
    ensures
        1 <= transform(u).sn <= 1125899906842624,
        1 <= transform(u).sd <= 1000000000,
        -27315 <= transform(u).on <= 0,
        1 <= transform(u).od <= 100,
{
}

/// The base unit of every category carries the identity transform, so
/// a base-unit measurement is already in base form.
pub proof fn lemma_base_identity(c: Category)
    ensures
        transform(base_unit(c)) == (Transform { sn: 1, sd: 1, on: 0, od: 1 }),
        category(base_unit(c)) == c,
{
}

/// The unit a token of the catalog names: an exact, case-sensitive
/// match, with no fuzzy or prefix matching; an unknown token is
/// `None`.
pub open spec fn unit_of_token(s: Seq<char>) -> Option<Unit> {
    if s == "m"@ {
        Some(Unit::Meter)
    } else if s == "cm"@ {
        Some(Unit::Centimeter)
    } else if s == "mm"@ {
        Some(Unit::Millimeter)
    } else if s == "km"@ {
        Some(Unit::Kilometer)
    } else if s == "dcm"@ {
        Some(Unit::Decimeter)
    } else if s == "hm"@ {
        Some(Unit::Hectometer)
    } else if s == "dm"@ {
        Some(Unit::Decameter)
    } else if s == "kg"@ {
        Some(Unit::Kilogram)
    } else if s == "g"@ {
        Some(Unit::Gram)
    } else if s == "mg"@ {
        Some(Unit::Milligram)
    } else if s == "µg"@ {
        Some(Unit::Microgram)
    } else if s == "t"@ {
        Some(Unit::Ton)
    } else if s == "lb"@ {
        Some(Unit::Pound)
    } else if s == "oz"@ {
        Some(Unit::Ounce)
    } else if s == "A"@ {
        Some(Unit::Ampere)
    } else if s == "mA"@ {
        Some(Unit::Milliampere)
    } else if s == "V"@ {
        Some(Unit::Volt)
    } else if s == "mV"@ {
        Some(Unit::Millivolt)
    } else if s == "W"@ {
        Some(Unit::Watt)
    } else if s == "kW"@ {
        Some(Unit::Kilowatt)
    } else if s == "J"@ {
        Some(Unit::Joule)
    } else if s == "kJ"@ {
        Some(Unit::Kilojoule)
    } else if s == "s"@ {
        Some(Unit::Second)
    } else if s == "min"@ {
        Some(Unit::Minute)
    } else if s == "h"@ {
        Some(Unit::Hour)
    } else if s == "B"@ {
        Some(Unit::Byte)
    } else if s == "KB"@ {
        Some(Unit::Kilobyte)
    } else if s == "MB"@ {
        Some(Unit::Megabyte)
    } else if s == "GB"@ {
        Some(Unit::Gigabyte)
    } else if s == "TB"@ {
        Some(Unit::Terabyte)
    } else if s == "PB"@ {
        Some(Unit::Petabyte)
    } else if s == "px"@ {
        Some(Unit::Pixel)
    } else if s == "rem"@ {
        Some(Unit::Rem)
    } else if s == "em"@ {
        Some(Unit::Em)
    } else {
        None
    }
}

/// Catalog lookup, executable.
pub fn token_unit(v: &Vec<char>) -> (r: Option<Unit>)
    ensures
        r == unit_of_token(v@),
{
    if chars_eq_str(v, "m") {
        Some(Unit::Meter)
    } else if chars_eq_str(v, "cm") {
        Some(Unit::Centimeter)
    } else if chars_eq_str(v, "mm") {
        Some(Unit::Millimeter)
    } else if chars_eq_str(v, "km") {
        Some(Unit::Kilometer)
    } else if chars_eq_str(v, "dcm") {
        Some(Unit::Decimeter)
    } else if chars_eq_str(v, "hm") {
        Some(Unit::Hectometer)
    } else if chars_eq_str(v, "dm") {
        Some(Unit::Decameter)
    } else if chars_eq_str(v, "kg") {
        Some(Unit::Kilogram)
    } else if chars_eq_str(v, "g") {
        Some(Unit::Gram)
    } else if chars_eq_str(v, "mg") {
        Some(Unit::Milligram)
    } else if chars_eq_str(v, "µg") {
        Some(Unit::Microgram)
    } else if chars_eq_str(v, "t") {
        Some(Unit::Ton)
    } else if chars_eq_str(v, "lb") {
        Some(Unit::Pound)
    } else if chars_eq_str(v, "oz") {
        Some(Unit::Ounce)
    } else if chars_eq_str(v, "A") {
        Some(Unit::Ampere)
    } else if chars_eq_str(v, "mA") {
        Some(Unit::Milliampere)
    } else if chars_eq_str(v, "V") {
        Some(Unit::Volt)
    } else if chars_eq_str(v, "mV") {
        Some(Unit::Millivolt)
    } else if chars_eq_str(v, "W") {
        Some(Unit::Watt)
    } else if chars_eq_str(v, "kW") {
        Some(Unit::Kilowatt)
    } else if chars_eq_str(v, "J") {
        Some(Unit::Joule)
    } else if chars_eq_str(v, "kJ") {
        Some(Unit::Kilojoule)
    } else if chars_eq_str(v, "s") {
        Some(Unit::Second)
    } else if chars_eq_str(v, "min") {
        Some(Unit::Minute)
    } else if chars_eq_str(v, "h") {
        Some(Unit::Hour)
    } else if chars_eq_str(v, "B") {
        Some(Unit::Byte)
    } else if chars_eq_str(v, "KB") {
        Some(Unit::Kilobyte)
    } else if chars_eq_str(v, "MB") {
        Some(Unit::Megabyte)
    } else if chars_eq_str(v, "GB") {
        Some(Unit::Gigabyte)
    } else if chars_eq_str(v, "TB") {
        Some(Unit::Terabyte)
    } else if chars_eq_str(v, "PB") {
        Some(Unit::Petabyte)
    } else if chars_eq_str(v, "px") {
        Some(Unit::Pixel)
    } else if chars_eq_str(v, "rem") {
        Some(Unit::Rem)
    } else if chars_eq_str(v, "em") {
        Some(Unit::Em)
    } else {
        None
    }
}

/// Catalog lookup from a token string: exact and case-sensitive.
pub fn lookup(token: &str) -> (r: Option<Unit>)
    ensures
        r == unit_of_token(token@),
{
    let chars = str_chars(token);
    token_unit(&chars)
}

/// Each unit's display label.
pub open spec fn unit_name_s(u: Unit) -> Seq<char> {
    match u {
        Unit::Meter => "Meter"@,
        Unit::Centimeter => "Centimeter"@,
        Unit::Millimeter => "Millimeter"@,
        Unit::Kilometer => "Kilometer"@,
        Unit::Decimeter => "Decimeter"@,
        Unit::Hectometer => "Hectometer"@,
        Unit::Decameter => "Decameter"@,
        Unit::Kilogram => "Kilogram"@,
        Unit::Gram => "Gram"@,
        Unit::Milligram => "Milligram"@,
        Unit::Microgram => "Microgram"@,
        Unit::Ton => "Ton"@,
        Unit::Pound => "Pound"@,
        Unit::Ounce => "Ounce"@,
        Unit::Ampere => "Ampere"@,
        Unit::Milliampere => "Milliampere"@,
        Unit::Volt => "Volt"@,
        Unit::Millivolt => "Millivolt"@,
        Unit::Watt => "Watt"@,
        Unit::Kilowatt => "Kilowatt"@,
        Unit::Joule => "Joule"@,
        Unit::Kilojoule => "Kilojoule"@,
        Unit::Second => "Second"@,
        Unit::Minute => "Minute"@,
        Unit::Hour => "Hour"@,
        Unit::Byte => "Byte"@,
        Unit::Kilobyte => "Kilobyte"@,
        Unit::Megabyte => "Megabyte"@,
        Unit::Gigabyte => "Gigabyte"@,
        Unit::Terabyte => "Terabyte"@,
        Unit::Petabyte => "Petabyte"@,
        Unit::Pixel => "Pixel"@,
        Unit::Rem => "Rem"@,
        Unit::Em => "Em"@,
        Unit::Celsius => "Celsius"@,
        Unit::Fahrenheit => "Fahrenheit"@,
        Unit::Kelvin => "Kelvin"@,
        Unit::Pascal => "Pascal"@,
        Unit::Bar => "Bar"@,
        Unit::Atmosphere => "Atmosphere"@,
        Unit::MeterPerSecond => "MeterPerSecond"@,
        Unit::KilometerPerHour => "KilometerPerHour"@,
        Unit::MilePerHour => "MilePerHour"@,
        Unit::Liter => "Liter"@,
        Unit::Milliliter => "Milliliter"@,
        Unit::CubicMeter => "CubicMeter"@,
        Unit::SquareMeter => "SquareMeter"@,
        Unit::SquareKilometer => "SquareKilometer"@,
        Unit::Hectare => "Hectare"@,
        Unit::Acre => "Acre"@,
    }
}

/// Each unit's display label, executable.
pub fn unit_name(u: Unit) -> (r: &'static str)
    ensures
        r@ == unit_name_s(u),
{
    match u {
        Unit::Meter => "Meter",
        Unit::Centimeter => "Centimeter",
        Unit::Millimeter => "Millimeter",
        Unit::Kilometer => "Kilometer",
        Unit::Decimeter => "Decimeter",
        Unit::Hectometer => "Hectometer",
        Unit::Decameter => "Decameter",
        Unit::Kilogram => "Kilogram",
        Unit::Gram => "Gram",
        Unit::Milligram => "Milligram",
        Unit::Microgram => "Microgram",
        Unit::Ton => "Ton",
        Unit::Pound => "Pound",
        Unit::Ounce => "Ounce",
        Unit::Ampere => "Ampere",
        Unit::Milliampere => "Milliampere",
        Unit::Volt => "Volt",
        Unit::Millivolt => "Millivolt",
        Unit::Watt => "Watt",
        Unit::Kilowatt => "Kilowatt",
        Unit::Joule => "Joule",
        Unit::Kilojoule => "Kilojoule",
        Unit::Second => "Second",
        Unit::Minute => "Minute",
        Unit::Hour => "Hour",
        Unit::Byte => "Byte",
        Unit::Kilobyte => "Kilobyte",
        Unit::Megabyte => "Megabyte",
        Unit::Gigabyte => "Gigabyte",
        Unit::Terabyte => "Terabyte",
        Unit::Petabyte => "Petabyte",
        Unit::Pixel => "Pixel",
        Unit::Rem => "Rem",
        Unit::Em => "Em",
        Unit::Celsius => "Celsius",
        Unit::Fahrenheit => "Fahrenheit",
        Unit::Kelvin => "Kelvin",
        Unit::Pascal => "Pascal",
        Unit::Bar => "Bar",
        Unit::Atmosphere => "Atmosphere",
        Unit::MeterPerSecond => "MeterPerSecond",
        Unit::KilometerPerHour => "KilometerPerHour",
        Unit::MilePerHour => "MilePerHour",
        Unit::Liter => "Liter",
        Unit::Milliliter => "Milliliter",
        Unit::CubicMeter => "CubicMeter",
        Unit::SquareMeter => "SquareMeter",
        Unit::SquareKilometer => "SquareKilometer",
        Unit::Hectare => "Hectare",
        Unit::Acre => "Acre",
    }
}

/// A typed quantity: an exact rational value and its unit. Immutable;
/// every operation builds a new value.
#[derive(Debug, PartialEq, Eq, Copy, Clone, Structural)]
pub struct Measurement {
    pub value: Rat,
    pub unit: Unit,
}

/// The unreduced fraction of a value converted into its category's
/// base unit: `v * (sn / sd) + (on / od)` written over one
/// denominator.
pub open spec fn to_base_frac(v: (int, int), u: Unit) -> (int, int) {
    let t = transform(u);
    (v.0 * t.sn * t.od + t.on * v.1 * t.sd, v.1 * t.sd * t.od)
}

/// The reduced, range-checked base-unit value; `None` on overflow.
pub open spec fn to_base_val(v: (int, int), u: Unit) -> Option<(int, int)> {
    let p = to_base_frac(v, u);
    checked_frac(p.0, p.1)
}

/// The unreduced fraction of a base-unit value converted out into
/// unit `u`: the inverse affine transform `(b - on/od) * (sd / sn)`.
pub open spec fn from_base_frac(b: (int, int), u: Unit) -> (int, int) {
    let t = transform(u);
    ((b.0 * t.od - t.on * b.1) * t.sd, b.1 * t.od * t.sn)
}

/// The reduced, range-checked conversion of `v` (in unit `u`) into
/// `target`, through the base unit; `None` on overflow.
pub open spec fn to_other_val(v: (int, int), u: Unit, target: Unit) -> Option<(int, int)> {
    match to_base_val(v, u) {
        None => None,
        Some(b) => {
            let q = from_base_frac(b, target);
            checked_frac(q.0, q.1)
        },
    }
}

/// A product of two magnitude-bounded integers is bounded by the
/// product of the bounds.
proof fn lemma_abs_mul(x: int, y: int, bx: int, by: int)
    requires
        abs_i(x) <= bx,
        abs_i(y) <= by,
    ensures
        abs_i(x * y) <= bx * by,
{
    assert(abs_i(x * y) <= bx * by) by (nonlinear_arith)
        requires
            abs_i(x) <= bx,
            abs_i(y) <= by,
    ;
}

/// The arithmetic operations on measurements.
#[derive(Clone, Copy)]
pub enum MOp {
    Add,
    Sub,
    Mul,
    Div,
}

/// The unreduced fraction an operation combines two values into,
/// after the right operand has been converted to the left one's unit.
pub open spec fn op_frac(op: MOp, a: (int, int), b: (int, int)) -> (int, int) {
    match op {
        MOp::Add => (a.0 * b.1 + b.0 * a.1, a.1 * b.1),
        MOp::Sub => (a.0 * b.1 - b.0 * a.1, a.1 * b.1),
        MOp::Mul => (a.0 * b.0, a.1 * b.1),
        MOp::Div => (a.0 * b.1, a.1 * b.0),
    }
}

/// What a category-checked arithmetic operation yields: the converted
/// right operand is combined with the left one, in the left operand's
/// unit; operands of different categories are a `CategoryMismatch`,
/// never a coercion.
pub open spec fn measure_op(op: MOp, av: (int, int), au: Unit, bv: (int, int), bu: Unit) -> Result<
    (int, int),
    ConvertError,
> {
    if category(au) != category(bu) {
        Err(ConvertError::CategoryMismatch)
    } else {
        match to_other_val(bv, bu, au) {
            None => Err(ConvertError::Overflow),
            Some(c) => {
                if op == MOp::Div && c.0 == 0 {
                    Err(ConvertError::DivisionByZero)
                } else {
                    let p = op_frac(op, av, c);
                    match checked_frac(p.0, p.1) {
                        Some(w) => Ok(w),
                        None => Err(ConvertError::Overflow),
                    }
                }
            },
        }
    }
}

impl Measurement {
    /// Well-formed measurements carry a well-formed rational.
    pub open spec fn wf(self) -> bool {
        self.value.wf()
    }

    /// The value as a fraction of mathematical integers.
    pub open spec fn model(self) -> (int, int) {
        self.value.model()
    }

    pub fn new(value: Rat, unit: Unit) -> (m: Measurement)
        ensures
            m == (Measurement { value, unit }),
    {
        Measurement { value, unit }
    }

    /// Converts into the category's base unit, by the unit's linear or
    /// affine transform; exact, with overflow reported.
    pub fn to_base(&self) -> (r: Result<Measurement, ConvertError>)
        requires
            self.wf(),
        ensures
            match to_base_val(self.model(), self.unit) {
                Some(p) => r matches Ok(m) && m.value.model() == p && m.wf() && m.unit == base_unit(
                    category(self.unit),
                ),
                None => r == Err::<Measurement, ConvertError>(ConvertError::Overflow),
            },
    {
        let t = transform_of(self.unit);
        let vn = self.value.num;
        let vd = self.value.den;
        proof {
            lemma_transform_bounds(self.unit);
            lemma_abs_mul(vn as int, t.sn as int, 0x8000_0000_0000_0000int, 1125899906842624);
            lemma_abs_mul(
                vn as int * t.sn as int,
                t.od as int,
                0x8000_0000_0000_0000int * 1125899906842624,
                100,
            );
            lemma_abs_mul(t.on as int, vd as int, 27315, 0x7fff_ffff_ffff_ffffint);
            lemma_abs_mul(
                t.on as int * vd as int,
                t.sd as int,
                27315int * 0x7fff_ffff_ffff_ffff,
                1000000000,
            );
            lemma_abs_mul(vd as int, t.sd as int, 0x7fff_ffff_ffff_ffffint, 1000000000);
            lemma_abs_mul(
                vd as int * t.sd as int,
                t.od as int,
                0x7fff_ffff_ffff_ffffint * 1000000000,
                100,
            );
            assert(vd as int * t.sd as int * t.od as int >= 1) by (nonlinear_arith)
                requires
                    vd as int >= 1,
                    t.sd as int >= 1,
                    t.od as int >= 1,
            ;
        }
        let n = (vn as i128) * (t.sn as i128) * (t.od as i128) + (t.on as i128) * (vd as i128) * (
        t.sd as i128);
        let d = (vd as i128) * (t.sd as i128) * (t.od as i128);
        match Rat::make(n, d) {
            Ok(v) => Ok(
                Measurement { value: v, unit: base_unit_of(category_of(self.unit)) },
            ),
            Err(e) => Err(e),
        }
    }

    /// Converts into `target_unit`: into the base unit, then out by
    /// the target's inverse transform. The transforms are applied
    /// whatever the target's category; arithmetic, not this method,
    /// enforces category safety.
    pub fn to_other(&self, target_unit: Unit) -> (r: Result<Measurement, ConvertError>)
        requires
            self.wf(),
        ensures
            match to_other_val(self.model(), self.unit, target_unit) {
                Some(p) => r matches Ok(m) && m.value.model() == p && m.wf() && m.unit
                    == target_unit,
                None => r == Err::<Measurement, ConvertError>(ConvertError::Overflow),
            },
    {
        let b = match self.to_base() {
            Ok(b) => b,
            Err(e) => {
                return Err(e);
            },
        };
        let t = transform_of(target_unit);
        let bn = b.value.num;
        let bd = b.value.den;
        proof {
            lemma_transform_bounds(target_unit);
            lemma_abs_mul(bn as int, t.od as int, 0x8000_0000_0000_0000int, 100);
            lemma_abs_mul(t.on as int, bd as int, 27315, 0x7fff_ffff_ffff_ffff);
            lemma_abs_mul(
                bn as int * t.od as int - t.on as int * bd as int,
                t.sd as int,
                0x8000_0000_0000_0000 * 100 + 27315int * 0x7fff_ffff_ffff_ffff,
                1000000000,
            );
            lemma_abs_mul(bd as int, t.od as int, 0x7fff_ffff_ffff_ffffint, 100);
            lemma_abs_mul(
                bd as int * t.od as int,
                t.sn as int,
                0x7fff_ffff_ffff_ffffint * 100,
                1125899906842624,
            );
            assert(bd as int * t.od as int * t.sn as int >= 1) by (nonlinear_arith)
                requires
                    bd as int >= 1,
                    t.od as int >= 1,
                    t.sn as int >= 1,
            ;
        }
        let n = ((bn as i128) * (t.od as i128) - (t.on as i128) * (bd as i128)) * (t.sd as i128);
        let d = (bd as i128) * (t.od as i128) * (t.sn as i128);
        match Rat::make(n, d) {
            Ok(v) => Ok(Measurement { value: v, unit: target_unit }),
            Err(e) => Err(e),
        }
    }

    /// One arithmetic operation, with the category check and the
    /// conversion of the right operand into the left one's unit.
    fn apply_op(self, op: MOp, other: Measurement) -> (r: Result<Measurement, ConvertError>)
        requires
            self.wf(),
            other.wf(),
        ensures
            match measure_op(op, self.model(), self.unit, other.model(), other.unit) {
                Ok(p) => r matches Ok(m) && m.value.model() == p && m.unit == self.unit && m.wf(),
                Err(e) => r == Err::<Measurement, ConvertError>(e),
            },
            (category(self.unit) != category(other.unit)) <==> (r == Err::<
                Measurement,
                ConvertError,
            >(ConvertError::CategoryMismatch)),
    {
        let ca = category_of(self.unit);
        let cb = category_of(other.unit);
        if ca != cb {
            return Err(ConvertError::CategoryMismatch);
        }
        let conv = match other.to_other(self.unit) {
            Ok(c) => c,
            Err(e) => {
                return Err(e);
            },
        };
        let res = match op {
            MOp::Add => self.value.add(conv.value),
            MOp::Sub => self.value.sub(conv.value),
            MOp::Mul => self.value.mul(conv.value),
            MOp::Div => self.value.div(conv.value),
        };
        match res {
            Ok(v) => Ok(Measurement { value: v, unit: self.unit }),
            Err(e) => Err(e),
        }
    }

    /// Sum: the right operand converted into this unit, then added;
    /// operands of different categories fail with `CategoryMismatch`.
    pub fn add(self, other: Measurement) -> (r: Result<Measurement, ConvertError>)
        requires
            self.wf(),
            other.wf(),
        ensures
            match measure_op(MOp::Add, self.model(), self.unit, other.model(), other.unit) {
                Ok(p) => r matches Ok(m) && m.value.model() == p && m.unit == self.unit && m.wf(),
                Err(e) => r == Err::<Measurement, ConvertError>(e),
            },
            (category(self.unit) != category(other.unit)) <==> (r == Err::<
                Measurement,
                ConvertError,
            >(ConvertError::CategoryMismatch)),
    {
        self.apply_op(MOp::Add, other)
    }

    /// Difference; see [`Measurement::add`].
    pub fn sub(self, other: Measurement) -> (r: Result<Measurement, ConvertError>)
        requires
            self.wf(),
            other.wf(),
        ensures
            match measure_op(MOp::Sub, self.model(), self.unit, other.model(), other.unit) {
                Ok(p) => r matches Ok(m) && m.value.model() == p && m.unit == self.unit && m.wf(),
                Err(e) => r == Err::<Measurement, ConvertError>(e),
            },
            (category(self.unit) != category(other.unit)) <==> (r == Err::<
                Measurement,
                ConvertError,
            >(ConvertError::CategoryMismatch)),
    {
        self.apply_op(MOp::Sub, other)
    }

    /// Product of the two values after conversion, keeping this unit;
    /// see [`Measurement::add`].
    pub fn mul(self, other: Measurement) -> (r: Result<Measurement, ConvertError>)
        requires
            self.wf(),
            other.wf(),
        ensures
            match measure_op(MOp::Mul, self.model(), self.unit, other.model(), other.unit) {
                Ok(p) => r matches Ok(m) && m.value.model() == p && m.unit == self.unit && m.wf(),
                Err(e) => r == Err::<Measurement, ConvertError>(e),
            },
            (category(self.unit) != category(other.unit)) <==> (r == Err::<
                Measurement,
                ConvertError,
            >(ConvertError::CategoryMismatch)),
    {
        self.apply_op(MOp::Mul, other)
    }

    /// Quotient of the two values after conversion, keeping this unit;
    /// a converted right operand of value zero is `DivisionByZero`,
    /// since exact rationals have no infinities.
    pub fn div(self, other: Measurement) -> (r: Result<Measurement, ConvertError>)
        requires
            self.wf(),
            other.wf(),
        ensures
            match measure_op(MOp::Div, self.model(), self.unit, other.model(), other.unit) {
                Ok(p) => r matches Ok(m) && m.value.model() == p && m.unit == self.unit && m.wf(),
                Err(e) => r == Err::<Measurement, ConvertError>(e),
            },
            (category(self.unit) != category(other.unit)) <==> (r == Err::<
                Measurement,
                ConvertError,
            >(ConvertError::CategoryMismatch)),
    {
        self.apply_op(MOp::Div, other)
    }
}

/// What parsing a measurement literal yields: the maximal leading run
/// of digits and points is the value, the remainder is the unit
/// token. An empty remainder is `EmptyUnit` and an unmatched token is
/// `UnknownUnit`; a malformed value run silently defaults to zero
/// (matching the catalog's lenient reading of the value), while one
/// too large to represent is an `Overflow`.
pub open spec fn from_str_spec(s: Seq<char>) -> Result<((int, int), Unit), ConvertError> {
    let k = vrun_from(s, 0);
    let run = s.take(k);
    let rest = s.skip(k);
    if rest.len() == 0 {
        Err(ConvertError::EmptyUnit)
    } else {
        match unit_of_token(rest) {
            None => Err(ConvertError::UnknownUnit),
            Some(u) => match dec_parse(run) {
                Ok(p) => Ok((p, u)),
                Err(e) => if e == ConvertError::BadNumber {
                    Ok(((0int, 1int), u))
                } else {
                    Err(e)
                },
            },
        }
    }
}

/// What a conversion-shaped query yields: exactly two marker-split
/// parts (else `QueryFormat`), each side parsed as a measurement with
/// its whitespace removed, and the left converted into the right
/// side's unit.
pub open spec fn convert_spec(s: Seq<char>) -> Result<((int, int), Unit), ConvertError> {
    let parts = seg_split_s(s);
    if parts.len() != 2 {
        Err(ConvertError::QueryFormat)
    } else {
        match from_str_spec(strip_spaces_s(parts[0])) {
            Err(e) => Err(e),
            Ok(f) => match from_str_spec(strip_spaces_s(parts[1])) {
                Err(e) => Err(e),
                Ok(t) => match to_other_val(f.0, f.1, t.1) {
                    Some(p) => Ok((p, t.1)),
                    None => Err(ConvertError::Overflow),
                },
            },
        }
    }
}

/// The display form of a measurement: the decimal value, one space,
/// and the unit's label.
pub open spec fn measurement_txt(n: int, d: int, u: Unit) -> Seq<char> {
    fmt_frac(n, d) + seq![' '] + unit_name_s(u)
}

impl Measurement {
    /// Parses a measurement from its character sequence, as
    /// [`from_str_spec`] describes.
    pub(crate) fn from_chars(v: &Vec<char>) -> (r: Result<Measurement, ConvertError>)
        ensures
            match from_str_spec(v@) {
                Ok(pu) => r matches Ok(m) && m.value.model() == pu.0 && m.unit == pu.1 && m.wf(),
                Err(e) => r == Err::<Measurement, ConvertError>(e),
            },
    {
        let (run, rest) = split_value_run(v);
        if rest.len() == 0 {
            return Err(ConvertError::EmptyUnit);
        }
        match token_unit(&rest) {
            None => Err(ConvertError::UnknownUnit),
            Some(u) => match parse_dec(&run) {
                Ok(val) => Ok(Measurement { value: val, unit: u }),
                Err(e) => match e {
                    ConvertError::BadNumber => Ok(
                        Measurement { value: Rat::from_int(0), unit: u },
                    ),
                    _ => Err(e),
                },
            },
        }
    }

    /// Parses a measurement literal such as `250m`, as
    /// [`from_str_spec`] describes.
    pub fn from_str(query: &String) -> (r: Result<Box<Measurement>, ConvertError>)
        ensures
            match from_str_spec(query@) {
                Ok(pu) => r matches Ok(m) && m.value.model() == pu.0 && m.unit == pu.1 && m.wf(),
                Err(e) => r == Err::<Box<Measurement>, ConvertError>(e),
            },
    {
        let chars = str_chars(query.as_str());
        match Measurement::from_chars(&chars) {
            Ok(m) => Ok(Box::new(m)),
            Err(e) => Err(e),
        }
    }

    /// Whether the string parses as a measurement literal.
    pub fn is_this(query: &String) -> (r: bool)
        ensures
            r == (from_str_spec(query@) matches Ok(_)),
    {
        let chars = str_chars(query.as_str());
        match Measurement::from_chars(&chars) {
            Ok(_) => true,
            Err(_) => false,
        }
    }

    /// Resolves a conversion-shaped query such as `250m to km` or
    /// `250m:km`, as [`convert_spec`] describes.
    pub fn convert(query: &String) -> (r: Result<Measurement, ConvertError>)
        ensures
            match convert_spec(query@) {
                Ok(pu) => r matches Ok(m) && m.value.model() == pu.0 && m.unit == pu.1 && m.wf(),
                Err(e) => r == Err::<Measurement, ConvertError>(e),
            },
    {
        let chars = str_chars(query.as_str());
        let parts = seg_split(&chars);
        if parts.len() != 2 {
            return Err(ConvertError::QueryFormat);
        }
        let fp = strip_spaces(&parts[0]);
        let tp = strip_spaces(&parts[1]);
        let from = match Measurement::from_chars(&fp) {
            Ok(m) => m,
            Err(e) => {
                return Err(e);
            },
        };
        let to = match Measurement::from_chars(&tp) {
            Ok(m) => m,
            Err(e) => {
                return Err(e);
            },
        };
        from.to_other(to.unit)
    }

    /// Renders the measurement as `"<value> <UnitName>"`.
    pub fn txt(&self) -> (r: String)
        requires
            self.wf(),
        ensures
            r@ == measurement_txt(self.value.num as int, self.value.den as int, self.unit),
    {
        let mut s = self.value.txt();
        s.append(" ");
        proof {
            reveal_strlit(" ");
            assert(" "@ =~= seq![' ']);
        }
        s.append(unit_name(self.unit));
        s
    }
}

} // verus!
