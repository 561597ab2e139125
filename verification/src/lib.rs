//! A saturating, human-friendly byte-unit value type.
//!
//! [`ByteUnit`] wraps a `u64` count of bytes. Every operation on it --
//! constructors, arithmetic, conversions -- saturates: overflow clamps to
//! [`ByteUnit::max_value()`], underflow clamps to zero, division by zero
//! yields the maximum, and remainder by zero yields zero. No operation
//! panics.
//!
//! [`ToByteUnit`] adds human-friendly constructors to the integer types:
//! `512.kilobytes()`, `4.gibibytes()`, and so on.
//!
//! [`ByteUnit::from_str`] parses strings such as `"1GiB"`, `"256 kB"` or
//! `"0.5MB"`; [`ByteUnit::format`] renders a value with the largest unit
//! that keeps the whole part non-zero, such as `"323kB"` or `"2.50MiB"`.

pub mod arithmetic;
pub mod byte_unit;
pub mod fmt;
pub mod parse;
pub mod round_trip;

pub use byte_unit::ByteUnit;
pub use byte_unit::ToByteUnit;
pub use parse::Error;
pub use parse::NumeralError;

