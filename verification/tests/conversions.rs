use ubyte::{ByteUnit, ToByteUnit};

#[test]
fn constructors_saturate() {
    assert_eq!(ByteUnit::Kilobyte(1), ByteUnit::Byte(1000));
    assert_eq!(ByteUnit::Kibibyte(1), ByteUnit::Byte(1024));
    assert_eq!(ByteUnit::Megabyte(500), ByteUnit::from_units(500, ByteUnit::MB));
    assert_eq!(ByteUnit::Mebibyte(512), ByteUnit::from_units(512, ByteUnit::MiB));

    // Saturation at the top of the range, including the largest count.
    assert_eq!(ByteUnit::Exbibyte(1024), ByteUnit::max_value());
    assert_eq!(ByteUnit::Exabyte(1024), ByteUnit::max_value());
    assert_eq!(ByteUnit::Kilobyte(u64::MAX), ByteUnit::max_value());
    assert_eq!(ByteUnit::from_units(u64::MAX, u64::MAX), ByteUnit::max_value());
    assert_eq!(ByteUnit::from_units(u64::MAX, 1), ByteUnit::max_value());
    assert_eq!(ByteUnit::from_units(u64::MAX, 0), ByteUnit::Byte(0));

    // An exact product right at the boundary stays exact.
    assert_eq!(
        ByteUnit::Exbibyte(15).as_u64(),
        15 * 1_152_921_504_606_846_976
    );
}

#[test]
fn unit_constants_match_constructors() {
    assert_eq!(ByteUnit::Byte(ByteUnit::B), ByteUnit::Byte(1));
    assert_eq!(ByteUnit::Byte(ByteUnit::kB), ByteUnit::Kilobyte(1));
    assert_eq!(ByteUnit::Byte(ByteUnit::KiB), ByteUnit::Kibibyte(1));
    assert_eq!(ByteUnit::Byte(ByteUnit::MB), ByteUnit::Megabyte(1));
    assert_eq!(ByteUnit::Byte(ByteUnit::MiB), ByteUnit::Mebibyte(1));
    assert_eq!(ByteUnit::Byte(ByteUnit::GB), ByteUnit::Gigabyte(1));
    assert_eq!(ByteUnit::Byte(ByteUnit::GiB), ByteUnit::Gibibyte(1));
    assert_eq!(ByteUnit::Byte(ByteUnit::TB), ByteUnit::Terabyte(1));
    assert_eq!(ByteUnit::Byte(ByteUnit::TiB), ByteUnit::Tebibyte(1));
    assert_eq!(ByteUnit::Byte(ByteUnit::PB), ByteUnit::Petabyte(1));
    assert_eq!(ByteUnit::Byte(ByteUnit::PiB), ByteUnit::Pebibyte(1));
    assert_eq!(ByteUnit::Byte(ByteUnit::EB), ByteUnit::Exabyte(1));
    assert_eq!(ByteUnit::Byte(ByteUnit::EiB), ByteUnit::Exbibyte(1));
}

#[test]
fn to_byte_unit_methods() {
    assert_eq!(512.kilobytes(), 512000.bytes());
    assert_eq!(512.kibibytes(), 524288.bytes());
    assert_eq!(1000.bytes(), 1.kilobytes());
    assert_eq!(1000.bytes().add(ByteUnit::from(24)), 1.kibibytes());
    assert_eq!(2048.mebibytes(), 2.gibibytes());
    assert!(2.megabytes().add(500.kilobytes()) > 2.mebibytes());
    assert!(2.pebibytes() > 2.petabytes());
    assert_eq!((1u64 << 10).exbibytes(), (1u64 << 20).exbibytes());
    assert_eq!(7.tibibytes(), ByteUnit::Tebibyte(7));
    assert_eq!(5.exabytes(), ByteUnit::Exabyte(5));
}

#[test]
fn conversions_from_integers_clamp() {
    // Unsigned sources copy directly.
    assert_eq!(ByteUnit::from(7u8), ByteUnit::Byte(7));
    assert_eq!(ByteUnit::from(7u16), ByteUnit::Byte(7));
    assert_eq!(ByteUnit::from(7u32), ByteUnit::Byte(7));
    assert_eq!(ByteUnit::from(7u64), ByteUnit::Byte(7));
    assert_eq!(ByteUnit::from(7usize), ByteUnit::Byte(7));
    // A too-wide unsigned source clamps to the maximum.
    assert_eq!(ByteUnit::from(u128::MAX), ByteUnit::max_value());
    assert_eq!(ByteUnit::from(u64::MAX as u128), ByteUnit::max_value());
    assert_eq!(ByteUnit::from(7u128), ByteUnit::Byte(7));

    // Signed sources clamp negatives to zero.
    assert_eq!(ByteUnit::from(-1i8), ByteUnit::Byte(0));
    assert_eq!(ByteUnit::from(-1i16), ByteUnit::Byte(0));
    assert_eq!(ByteUnit::from(-1i32), ByteUnit::Byte(0));
    assert_eq!(ByteUnit::from(-1i64), ByteUnit::Byte(0));
    assert_eq!(ByteUnit::from(-1isize), ByteUnit::Byte(0));
    assert_eq!(ByteUnit::from(i128::MIN), ByteUnit::Byte(0));
    assert_eq!(ByteUnit::from(7i8), ByteUnit::Byte(7));
    assert_eq!(ByteUnit::from(7i64), ByteUnit::Byte(7));
    // A positive i128 within the u64 range copies exactly; past it, the
    // value clamps to the maximum.
    assert_eq!(
        ByteUnit::from((u64::MAX as i128) - 1),
        ByteUnit::Byte(u64::MAX - 1)
    );
    assert_eq!(ByteUnit::from(i128::MAX), ByteUnit::max_value());
}

#[test]
fn projections_are_lossless() {
    assert_eq!(ByteUnit::Gigabyte(4).as_u64(), 4 * ByteUnit::GB);
    assert_eq!(ByteUnit::Megabyte(42).as_u64(), 42 * 1_000_000);
    assert_eq!(ByteUnit::Exbibyte(7).as_u64(), 7 * (1u64 << 60));
    assert_eq!(ByteUnit::max_value().as_u64(), u64::MAX);
    assert_eq!(ByteUnit::max_value().as_u128(), u64::MAX as u128);
    assert_eq!(ByteUnit::Byte(0).as_u128(), 0);
}
