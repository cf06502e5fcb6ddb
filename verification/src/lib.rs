//! `convers` resolves a free-form textual query into one of several
//! interpretations: a unit conversion, a scalar or unit-aware arithmetic
//! evaluation, a currency conversion, or a natural-language translation.
//!
//! The crate holds the verified core: the unit catalog and measurement
//! engine, the left-to-right expression evaluator, the query segmenter,
//! and the resolution pipeline's decision logic. Network collaborators
//! (currency rates, translation) are driven by a thin unverified shell
//! that feeds their plain results back into the verified pipeline steps.
//!
//! Measurement values are exact rational numbers rather than binary
//! floating point: every unit in the catalog converts by a rational
//! linear (or, for temperatures, affine) transform, so conversions and
//! arithmetic are computed exactly and overflow is reported instead of
//! silently losing precision.

pub mod calc;
pub mod convert;
pub mod currency;
pub mod decimal;
pub mod errors;
pub mod laws;
pub mod rat;
pub mod segment;
pub mod text;
pub mod translate;
pub mod units;
