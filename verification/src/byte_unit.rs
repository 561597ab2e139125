//! The byte-quantity value type: the unit multipliers, the saturating
//! constructors, the projections to `u64` and `u128`, and the clamping
//! conversions from every integer width.

use vstd::prelude::*;

verus! {

/// A count of bytes with saturating constructors and arithmetic.
///
/// The wrapped `u64` is the number of bytes. All operations saturate:
/// overflow clamps to [`ByteUnit::max_value()`] and underflow clamps to
/// zero, so none of them can panic or wrap around.
#[derive(Debug, Default, Copy, Clone, PartialEq, Eq, Structural, Hash, PartialOrd, Ord)]
pub struct ByteUnit {
    /// The number of bytes.
    pub bytes: u64,
}

/// `a + b`, clamped to `u64::MAX`.
pub open spec fn sat_add64(a: u64, b: u64) -> u64 {
    if a + b > u64::MAX {
        u64::MAX
    } else {
        (a + b) as u64
    }
}

/// `a - b`, clamped to zero.
pub open spec fn sat_sub64(a: u64, b: u64) -> u64 {
    if a < b {
        0
    } else {
        (a - b) as u64
    }
}

/// `a * b`, clamped to `u64::MAX`.
pub open spec fn sat_mul64(a: u64, b: u64) -> u64 {
    if a * b > u64::MAX {
        u64::MAX
    } else {
        (a * b) as u64
    }
}

impl ByteUnit {
    /// Number of bytes in 1 byte.
    pub const B: u64 = 1;

    /// Number of bytes in 1 kilobyte.
    #[allow(non_upper_case_globals)]
    pub const kB: u64 = 1_000;

    /// Number of bytes in 1 kibibyte.
    pub const KiB: u64 = 1_024;

    /// Number of bytes in 1 megabyte.
    pub const MB: u64 = 1_000_000;

    /// Number of bytes in 1 mebibyte.
    pub const MiB: u64 = 1_048_576;

    /// Number of bytes in 1 gigabyte.
    pub const GB: u64 = 1_000_000_000;

    /// Number of bytes in 1 gibibyte.
    pub const GiB: u64 = 1_073_741_824;

    /// Number of bytes in 1 terabyte.
    pub const TB: u64 = 1_000_000_000_000;

    /// Number of bytes in 1 tebibyte.
    pub const TiB: u64 = 1_099_511_627_776;

    /// Number of bytes in 1 petabyte.
    pub const PB: u64 = 1_000_000_000_000_000;

    /// Number of bytes in 1 pebibyte.
    pub const PiB: u64 = 1_125_899_906_842_624;

    /// Number of bytes in 1 exabyte.
    pub const EB: u64 = 1_000_000_000_000_000_000;

    /// Number of bytes in 1 exbibyte.
    pub const EiB: u64 = 1_152_921_504_606_846_976;

    /// Constructs a `ByteUnit` of `count` units of `unit` bytes each,
    /// saturating to the maximum on overflow.
    pub fn from_units(count: u64, unit: u64) -> (r: ByteUnit)
        ensures
            r.bytes == sat_mul64(count, unit),
    {
        match count.checked_mul(unit) {
            Some(v) => ByteUnit { bytes: v },
            None => ByteUnit { bytes: u64::MAX },
        }
    }

    /// Constructs a `ByteUnit` representing `n` bytes.
    #[allow(non_snake_case)]
    pub fn Byte(n: u64) -> (r: ByteUnit)
        ensures
            r.bytes == n,
    {
        ByteUnit { bytes: n }
    }

    /// Constructs a `ByteUnit` representing `n` kilobytes, saturating.
    #[allow(non_snake_case)]
    pub fn Kilobyte(n: u64) -> (r: ByteUnit)
        ensures
            r.bytes == sat_mul64(n, ByteUnit::kB),
    {
        ByteUnit::from_units(n, ByteUnit::kB)
    }

    /// Constructs a `ByteUnit` representing `n` kibibytes, saturating.
    #[allow(non_snake_case)]
    pub fn Kibibyte(n: u64) -> (r: ByteUnit)
        ensures
            r.bytes == sat_mul64(n, ByteUnit::KiB),
    {
        ByteUnit::from_units(n, ByteUnit::KiB)
    }

    /// Constructs a `ByteUnit` representing `n` megabytes, saturating.
    #[allow(non_snake_case)]
    pub fn Megabyte(n: u64) -> (r: ByteUnit)
        ensures
            r.bytes == sat_mul64(n, ByteUnit::MB),
    {
        ByteUnit::from_units(n, ByteUnit::MB)
    }

    /// Constructs a `ByteUnit` representing `n` mebibytes, saturating.
    #[allow(non_snake_case)]
    pub fn Mebibyte(n: u64) -> (r: ByteUnit)
        ensures
            r.bytes == sat_mul64(n, ByteUnit::MiB),
    {
        ByteUnit::from_units(n, ByteUnit::MiB)
    }

    /// Constructs a `ByteUnit` representing `n` gigabytes, saturating.
    #[allow(non_snake_case)]
    pub fn Gigabyte(n: u64) -> (r: ByteUnit)
        ensures
            r.bytes == sat_mul64(n, ByteUnit::GB),
    {
        ByteUnit::from_units(n, ByteUnit::GB)
    }

    /// Constructs a `ByteUnit` representing `n` gibibytes, saturating.
    #[allow(non_snake_case)]
    pub fn Gibibyte(n: u64) -> (r: ByteUnit)
        ensures
            r.bytes == sat_mul64(n, ByteUnit::GiB),
    {
        ByteUnit::from_units(n, ByteUnit::GiB)
    }

    /// Constructs a `ByteUnit` representing `n` terabytes, saturating.
    #[allow(non_snake_case)]
    pub fn Terabyte(n: u64) -> (r: ByteUnit)
        ensures
            r.bytes == sat_mul64(n, ByteUnit::TB),
    {
        ByteUnit::from_units(n, ByteUnit::TB)
    }

    /// Constructs a `ByteUnit` representing `n` tebibytes, saturating.
    #[allow(non_snake_case)]
    pub fn Tebibyte(n: u64) -> (r: ByteUnit)
        ensures
            r.bytes == sat_mul64(n, ByteUnit::TiB),
    {
        ByteUnit::from_units(n, ByteUnit::TiB)
    }

    /// Constructs a `ByteUnit` representing `n` petabytes, saturating.
    #[allow(non_snake_case)]
    pub fn Petabyte(n: u64) -> (r: ByteUnit)
        ensures
            r.bytes == sat_mul64(n, ByteUnit::PB),
    {
        ByteUnit::from_units(n, ByteUnit::PB)
    }

    /// Constructs a `ByteUnit` representing `n` pebibytes, saturating.
    #[allow(non_snake_case)]
    pub fn Pebibyte(n: u64) -> (r: ByteUnit)
        ensures
            r.bytes == sat_mul64(n, ByteUnit::PiB),
    {
        ByteUnit::from_units(n, ByteUnit::PiB)
    }

    /// Constructs a `ByteUnit` representing `n` exabytes, saturating.
    #[allow(non_snake_case)]
    pub fn Exabyte(n: u64) -> (r: ByteUnit)
        ensures
            r.bytes == sat_mul64(n, ByteUnit::EB),
    {
        ByteUnit::from_units(n, ByteUnit::EB)
    }

    /// Constructs a `ByteUnit` representing `n` exbibytes, saturating.
    #[allow(non_snake_case)]
    pub fn Exbibyte(n: u64) -> (r: ByteUnit)
        ensures
            r.bytes == sat_mul64(n, ByteUnit::EiB),
    {
        ByteUnit::from_units(n, ByteUnit::EiB)
    }

    /// The maximum number of bytes representable: every saturating
    /// operation clamps to this value on overflow.
    pub fn max_value() -> (r: ByteUnit)
        ensures
            r.bytes == u64::MAX,
    {
        ByteUnit { bytes: u64::MAX }
    }

    /// The number of bytes represented by `self`, as a `u64`.
    pub fn as_u64(self) -> (r: u64)
        ensures
            r == self.bytes,
    {
        self.bytes
    }

    /// The number of bytes represented by `self`, widened to a `u128`.
    pub fn as_u128(self) -> (r: u128)
        ensures
            r == self.bytes,
    {
        self.bytes as u128
    }
}

/// `v` clamped into the `u64` range: negatives to zero, values above
/// `u64::MAX` to `u64::MAX`.
pub open spec fn clamp_to_u64(v: int) -> u64 {
    if v < 0 {
        0
    } else if v > u64::MAX {
        u64::MAX
    } else {
        v as u64
    }
}

impl From<u8> for ByteUnit {
    fn from(v: u8) -> ByteUnit {
        ByteUnit { bytes: v as u64 }
    }
}

impl vstd::std_specs::convert::FromSpecImpl<u8> for ByteUnit {
    open spec fn obeys_from_spec() -> bool {
        true
    }

    open spec fn from_spec(v: u8) -> ByteUnit {
        ByteUnit { bytes: clamp_to_u64(v as int) }
    }
}

impl From<u16> for ByteUnit {
    fn from(v: u16) -> ByteUnit {
        ByteUnit { bytes: v as u64 }
    }
}

impl vstd::std_specs::convert::FromSpecImpl<u16> for ByteUnit {
    open spec fn obeys_from_spec() -> bool {
        true
    }

    open spec fn from_spec(v: u16) -> ByteUnit {
        ByteUnit { bytes: clamp_to_u64(v as int) }
    }
}

impl From<u32> for ByteUnit {
    fn from(v: u32) -> ByteUnit {
        ByteUnit { bytes: v as u64 }
    }
}

impl vstd::std_specs::convert::FromSpecImpl<u32> for ByteUnit {
    open spec fn obeys_from_spec() -> bool {
        true
    }

    open spec fn from_spec(v: u32) -> ByteUnit {
        ByteUnit { bytes: clamp_to_u64(v as int) }
    }
}

impl From<u64> for ByteUnit {
    fn from(v: u64) -> ByteUnit {
        ByteUnit { bytes: v }
    }
}

impl vstd::std_specs::convert::FromSpecImpl<u64> for ByteUnit {
    open spec fn obeys_from_spec() -> bool {
        true
    }

    open spec fn from_spec(v: u64) -> ByteUnit {
        ByteUnit { bytes: clamp_to_u64(v as int) }
    }
}

impl From<u128> for ByteUnit {
    fn from(v: u128) -> ByteUnit {
        if v > u64::MAX as u128 {
            ByteUnit { bytes: u64::MAX }
        } else {
            ByteUnit { bytes: v as u64 }
        }
    }
}

impl vstd::std_specs::convert::FromSpecImpl<u128> for ByteUnit {
    open spec fn obeys_from_spec() -> bool {
        true
    }

    open spec fn from_spec(v: u128) -> ByteUnit {
        ByteUnit { bytes: clamp_to_u64(v as int) }
    }
}

impl From<usize> for ByteUnit {
    fn from(v: usize) -> ByteUnit {
        ByteUnit { bytes: v as u64 }
    }
}

impl vstd::std_specs::convert::FromSpecImpl<usize> for ByteUnit {
    open spec fn obeys_from_spec() -> bool {
        true
    }

    open spec fn from_spec(v: usize) -> ByteUnit {
        ByteUnit { bytes: clamp_to_u64(v as int) }
    }
}

impl From<i8> for ByteUnit {
    fn from(v: i8) -> ByteUnit {
        if v < 0 {
            ByteUnit { bytes: 0 }
        } else {
            ByteUnit { bytes: v as u64 }
        }
    }
}

impl vstd::std_specs::convert::FromSpecImpl<i8> for ByteUnit {
    open spec fn obeys_from_spec() -> bool {
        true
    }

    open spec fn from_spec(v: i8) -> ByteUnit {
        ByteUnit { bytes: clamp_to_u64(v as int) }
    }
}

impl From<i16> for ByteUnit {
    fn from(v: i16) -> ByteUnit {
        if v < 0 {
            ByteUnit { bytes: 0 }
        } else {
            ByteUnit { bytes: v as u64 }
        }
    }
}

impl vstd::std_specs::convert::FromSpecImpl<i16> for ByteUnit {
    open spec fn obeys_from_spec() -> bool {
        true
    }

    open spec fn from_spec(v: i16) -> ByteUnit {
        ByteUnit { bytes: clamp_to_u64(v as int) }
    }
}

impl From<i32> for ByteUnit {
    fn from(v: i32) -> ByteUnit {
        if v < 0 {
            ByteUnit { bytes: 0 }
        } else {
            ByteUnit { bytes: v as u64 }
        }
    }
}

impl vstd::std_specs::convert::FromSpecImpl<i32> for ByteUnit {
    open spec fn obeys_from_spec() -> bool {
        true
    }

    open spec fn from_spec(v: i32) -> ByteUnit {
        ByteUnit { bytes: clamp_to_u64(v as int) }
    }
}

impl From<i64> for ByteUnit {
    fn from(v: i64) -> ByteUnit {
        if v < 0 {
            ByteUnit { bytes: 0 }
        } else {
            ByteUnit { bytes: v as u64 }
        }
    }
}

impl vstd::std_specs::convert::FromSpecImpl<i64> for ByteUnit {
    open spec fn obeys_from_spec() -> bool {
        true
    }

    open spec fn from_spec(v: i64) -> ByteUnit {
        ByteUnit { bytes: clamp_to_u64(v as int) }
    }
}

impl From<i128> for ByteUnit {
    fn from(v: i128) -> ByteUnit {
        if v < 0 {
            ByteUnit { bytes: 0 }
        } else if v > u64::MAX as i128 {
            ByteUnit { bytes: u64::MAX }
        } else {
            ByteUnit { bytes: v as u64 }
        }
    }
}

impl vstd::std_specs::convert::FromSpecImpl<i128> for ByteUnit {
    open spec fn obeys_from_spec() -> bool {
        true
    }

    open spec fn from_spec(v: i128) -> ByteUnit {
        ByteUnit { bytes: clamp_to_u64(v as int) }
    }
}

impl From<isize> for ByteUnit {
    fn from(v: isize) -> ByteUnit {
        if v < 0 {
            ByteUnit { bytes: 0 }
        } else {
            ByteUnit { bytes: v as u64 }
        }
    }
}

impl vstd::std_specs::convert::FromSpecImpl<isize> for ByteUnit {
    open spec fn obeys_from_spec() -> bool {
        true
    }

    open spec fn from_spec(v: isize) -> ByteUnit {
        ByteUnit { bytes: clamp_to_u64(v as int) }
    }
}



impl From<ByteUnit> for u64 {
    fn from(v: ByteUnit) -> u64 {
        v.bytes
    }
}

impl vstd::std_specs::convert::FromSpecImpl<ByteUnit> for u64 {
    open spec fn obeys_from_spec() -> bool {
        true
    }

    open spec fn from_spec(v: ByteUnit) -> u64 {
        v.bytes
    }
}

impl From<ByteUnit> for u128 {
    fn from(v: ByteUnit) -> u128 {
        v.bytes as u128
    }
}

impl vstd::std_specs::convert::FromSpecImpl<ByteUnit> for u128 {
    open spec fn obeys_from_spec() -> bool {
        true
    }

    open spec fn from_spec(v: ByteUnit) -> u128 {
        v.bytes as u128
    }
}

/// Extension trait adding human-friendly [`ByteUnit`] constructors to the
/// integer types: `512.kilobytes()`, `4.gibibytes()`, and so on.
///
/// As with every other `ByteUnit` operation, conversions saturate: negative
/// values clamp to zero, values past the maximum clamp to the maximum.
pub trait ToByteUnit: Sized {
    /// The byte count `self` stands for, clamped into the `u64` range.
    spec fn to_bytes_spec(self) -> u64;

    /// Converts `self` to a `ByteUnit` representing `self` bytes.
    fn bytes(self) -> (r: ByteUnit)
        ensures
            r.bytes == self.to_bytes_spec(),
    ;

    /// Converts `self` to a `ByteUnit` representing `self` kilobytes.
    fn kilobytes(self) -> (r: ByteUnit)
        ensures
            r.bytes == sat_mul64(self.to_bytes_spec(), ByteUnit::kB),
    {
        ByteUnit::Kilobyte(self.bytes().as_u64())
    }

    /// Converts `self` to a `ByteUnit` representing `self` kibibytes.
    fn kibibytes(self) -> (r: ByteUnit)
        ensures
            r.bytes == sat_mul64(self.to_bytes_spec(), ByteUnit::KiB),
    {
        ByteUnit::Kibibyte(self.bytes().as_u64())
    }

    /// Converts `self` to a `ByteUnit` representing `self` megabytes.
    fn megabytes(self) -> (r: ByteUnit)
        ensures
            r.bytes == sat_mul64(self.to_bytes_spec(), ByteUnit::MB),
    {
        ByteUnit::Megabyte(self.bytes().as_u64())
    }

    /// Converts `self` to a `ByteUnit` representing `self` mebibytes.
    fn mebibytes(self) -> (r: ByteUnit)
        ensures
            r.bytes == sat_mul64(self.to_bytes_spec(), ByteUnit::MiB),
    {
        ByteUnit::Mebibyte(self.bytes().as_u64())
    }

    /// Converts `self` to a `ByteUnit` representing `self` gigabytes.
    fn gigabytes(self) -> (r: ByteUnit)
        ensures
            r.bytes == sat_mul64(self.to_bytes_spec(), ByteUnit::GB),
    {
        ByteUnit::Gigabyte(self.bytes().as_u64())
    }

    /// Converts `self` to a `ByteUnit` representing `self` gibibytes.
    fn gibibytes(self) -> (r: ByteUnit)
        ensures
            r.bytes == sat_mul64(self.to_bytes_spec(), ByteUnit::GiB),
    {
        ByteUnit::Gibibyte(self.bytes().as_u64())
    }

    /// Converts `self` to a `ByteUnit` representing `self` terabytes.
    fn terabytes(self) -> (r: ByteUnit)
        ensures
            r.bytes == sat_mul64(self.to_bytes_spec(), ByteUnit::TB),
    {
        ByteUnit::Terabyte(self.bytes().as_u64())
    }

    /// Converts `self` to a `ByteUnit` representing `self` tebibytes.
    fn tibibytes(self) -> (r: ByteUnit)
        ensures
            r.bytes == sat_mul64(self.to_bytes_spec(), ByteUnit::TiB),
    {
        ByteUnit::Tebibyte(self.bytes().as_u64())
    }

    /// Converts `self` to a `ByteUnit` representing `self` petabytes.
    fn petabytes(self) -> (r: ByteUnit)
        ensures
            r.bytes == sat_mul64(self.to_bytes_spec(), ByteUnit::PB),
    {
        ByteUnit::Petabyte(self.bytes().as_u64())
    }

    /// Converts `self` to a `ByteUnit` representing `self` pebibytes.
    fn pebibytes(self) -> (r: ByteUnit)
        ensures
            r.bytes == sat_mul64(self.to_bytes_spec(), ByteUnit::PiB),
    {
        ByteUnit::Pebibyte(self.bytes().as_u64())
    }

    /// Converts `self` to a `ByteUnit` representing `self` exabytes.
    fn exabytes(self) -> (r: ByteUnit)
        ensures
            r.bytes == sat_mul64(self.to_bytes_spec(), ByteUnit::EB),
    {
        ByteUnit::Exabyte(self.bytes().as_u64())
    }

    /// Converts `self` to a `ByteUnit` representing `self` exbibytes.
    fn exbibytes(self) -> (r: ByteUnit)
        ensures
            r.bytes == sat_mul64(self.to_bytes_spec(), ByteUnit::EiB),
    {
        ByteUnit::Exbibyte(self.bytes().as_u64())
    }
}

impl ToByteUnit for u8 {
    open spec fn to_bytes_spec(self) -> u64 {
        clamp_to_u64(self as int)
    }

    fn bytes(self) -> ByteUnit {
        ByteUnit { bytes: self as u64 }
    }
}

impl ToByteUnit for u16 {
    open spec fn to_bytes_spec(self) -> u64 {
        clamp_to_u64(self as int)
    }

    fn bytes(self) -> ByteUnit {
        ByteUnit { bytes: self as u64 }
    }
}

impl ToByteUnit for u32 {
    open spec fn to_bytes_spec(self) -> u64 {
        clamp_to_u64(self as int)
    }

    fn bytes(self) -> ByteUnit {
        ByteUnit { bytes: self as u64 }
    }
}

impl ToByteUnit for u64 {
    open spec fn to_bytes_spec(self) -> u64 {
        clamp_to_u64(self as int)
    }

    fn bytes(self) -> ByteUnit {
        ByteUnit { bytes: self }
    }
}

impl ToByteUnit for usize {
    open spec fn to_bytes_spec(self) -> u64 {
        clamp_to_u64(self as int)
    }

    fn bytes(self) -> ByteUnit {
        ByteUnit { bytes: self as u64 }
    }
}

impl ToByteUnit for u128 {
    open spec fn to_bytes_spec(self) -> u64 {
        clamp_to_u64(self as int)
    }

    fn bytes(self) -> ByteUnit {
        if self > u64::MAX as u128 {
            ByteUnit { bytes: u64::MAX }
        } else {
            ByteUnit { bytes: self as u64 }
        }
    }
}

impl ToByteUnit for i8 {
    open spec fn to_bytes_spec(self) -> u64 {
        clamp_to_u64(self as int)
    }

    fn bytes(self) -> ByteUnit {
        if self < 0 {
            ByteUnit { bytes: 0 }
        } else {
            ByteUnit { bytes: self as u64 }
        }
    }
}

impl ToByteUnit for i16 {
    open spec fn to_bytes_spec(self) -> u64 {
        clamp_to_u64(self as int)
    }

    fn bytes(self) -> ByteUnit {
        if self < 0 {
            ByteUnit { bytes: 0 }
        } else {
            ByteUnit { bytes: self as u64 }
        }
    }
}

impl ToByteUnit for i32 {
    open spec fn to_bytes_spec(self) -> u64 {
        clamp_to_u64(self as int)
    }

    fn bytes(self) -> ByteUnit {
        if self < 0 {
            ByteUnit { bytes: 0 }
        } else {
            ByteUnit { bytes: self as u64 }
        }
    }
}

impl ToByteUnit for i64 {
    open spec fn to_bytes_spec(self) -> u64 {
        clamp_to_u64(self as int)
    }

    fn bytes(self) -> ByteUnit {
        if self < 0 {
            ByteUnit { bytes: 0 }
        } else {
            ByteUnit { bytes: self as u64 }
        }
    }
}

impl ToByteUnit for isize {
    open spec fn to_bytes_spec(self) -> u64 {
        clamp_to_u64(self as int)
    }

    fn bytes(self) -> ByteUnit {
        if self < 0 {
            ByteUnit { bytes: 0 }
        } else {
            ByteUnit { bytes: self as u64 }
        }
    }
}

impl ToByteUnit for i128 {
    open spec fn to_bytes_spec(self) -> u64 {
        clamp_to_u64(self as int)
    }

    fn bytes(self) -> ByteUnit {
        if self < 0 {
            ByteUnit { bytes: 0 }
        } else if self > u64::MAX as i128 {
            ByteUnit { bytes: u64::MAX }
        } else {
            ByteUnit { bytes: self as u64 }
        }
    }
}

} // verus!
