use ubyte::{ByteUnit, ToByteUnit};

#[test]
fn test_saturation() {
    assert_eq!(ByteUnit::Byte(1).mul(ByteUnit::from(-1)), ByteUnit::from(0));
    assert_eq!(ByteUnit::Byte(1).mul(ByteUnit::from(-3)), ByteUnit::from(0));
    assert_eq!(ByteUnit::Byte(1).div(ByteUnit::from(-3)), ByteUnit::max_value());
    assert_eq!(ByteUnit::Byte(1).sub(ByteUnit::from(100)), ByteUnit::from(0));
    assert_eq!(ByteUnit::from(100).mul(ByteUnit::Byte(1)).rem(ByteUnit::from(-10)), ByteUnit::from(0));

    // These are surprising, but correct: the negative operand clamps to
    // zero before the addition.
    assert_eq!(ByteUnit::Byte(1).add(ByteUnit::from(-100i32)), ByteUnit::from(1));
    assert_eq!(ByteUnit::from(-100).add(ByteUnit::Byte(1)), ByteUnit::from(1));
}

#[test]
fn test_core_types_operations() {
    assert_eq!(ByteUnit::from(1000).sub(300.bytes()), ByteUnit::from(700));
    assert_eq!(ByteUnit::from(1024).shr(2.bytes()), ByteUnit::from(256));
    assert_eq!(ByteUnit::from(2).shl(2.bytes()), ByteUnit::from(8));
    assert_eq!(ByteUnit::from(2048).div(4.bytes()), ByteUnit::from(512));
    assert!(ByteUnit::from(500 + 700) < 2.mebibytes());
    assert!(ByteUnit::from(500 + 700) > 2.bytes());
}

#[test]
fn test_add_assign_op() {
    let mut b = 0.bytes();
    b.add_assign(ByteUnit::from(10));
    assert_eq!(b, ByteUnit::from(10));

    let mut b = 10.bytes();
    b.mul_assign(100.kibibytes());
    assert_eq!(b, 1024.kilobytes());
}

#[test]
fn div_and_rem_by_zero_are_total() {
    let q = 1024.exbibytes();
    assert_eq!(q.div(ByteUnit::Byte(0)), ByteUnit::max_value());
    assert_eq!(q.rem(ByteUnit::Byte(0)), ByteUnit::Byte(0));
    assert_eq!(ByteUnit::Byte(0).div(ByteUnit::Byte(0)), ByteUnit::max_value());
    assert_eq!(ByteUnit::Byte(0).rem(ByteUnit::Byte(0)), ByteUnit::Byte(0));
}

#[test]
fn zero_and_max_boundaries() {
    let q = 123.mebibytes();
    assert_eq!(ByteUnit::Byte(0).add(q), q);
    assert_eq!(q.add(ByteUnit::Byte(0)), q);
    assert_eq!(q.sub(ByteUnit::Byte(0)), q);
    assert_eq!(ByteUnit::Byte(0).sub(q), ByteUnit::Byte(0));
    assert_eq!(q.sub(q), ByteUnit::Byte(0));
    assert_eq!(q.add(ByteUnit::max_value()), ByteUnit::max_value());
    assert_eq!(q.sub(ByteUnit::max_value()), ByteUnit::Byte(0));
    assert_eq!(ByteUnit::max_value().add(ByteUnit::max_value()), ByteUnit::max_value());
}

#[test]
fn shifts_saturate_and_empty() {
    let exbibyte = ByteUnit::Exbibyte(1);
    assert_eq!(exbibyte.shl(ByteUnit::from(4)), ByteUnit::max_value());
    assert_eq!(exbibyte.shl(ByteUnit::from(10)), ByteUnit::max_value());
    assert_eq!(exbibyte.shl(ByteUnit::from(3)), ByteUnit::Exbibyte(8));
    // One exbibyte has three leading zero bits, so a shift by four is the
    // first to saturate.
    assert_eq!(1_152_921_504_606_846_976u64.leading_zeros(), 3);

    assert_eq!(ByteUnit::max_value().shr(ByteUnit::from(64)), ByteUnit::Byte(0));
    assert_eq!(ByteUnit::max_value().shr(ByteUnit::from(100)), ByteUnit::Byte(0));
    assert_eq!(ByteUnit::Byte(1).shr(ByteUnit::from(1)), ByteUnit::Byte(0));
    assert_eq!(ByteUnit::Kibibyte(1).shr(ByteUnit::from(10)), ByteUnit::Byte(1));

    // Shifting zero never saturates within its 64 leading zero bits, and
    // saturates past them.
    assert_eq!(ByteUnit::Byte(0).shl(ByteUnit::from(64)), ByteUnit::Byte(0));
    assert_eq!(ByteUnit::Byte(0).shl(ByteUnit::from(65)), ByteUnit::max_value());
}

#[test]
fn assign_ops_match_binary_ops() {
    let mut b = 100.kilobytes();
    b.sub_assign(ByteUnit::from(1));
    assert_eq!(b, ByteUnit::from(99_999));

    let mut b = 100.kilobytes();
    b.div_assign(ByteUnit::from(0));
    assert_eq!(b, ByteUnit::max_value());

    let mut b = 100.kilobytes();
    b.rem_assign(ByteUnit::from(7));
    assert_eq!(b, ByteUnit::from(100_000 % 7));

    let mut b = 2.bytes();
    b.shl_assign(ByteUnit::from(3));
    assert_eq!(b, ByteUnit::from(16));

    let mut b = 16.bytes();
    b.shr_assign(ByteUnit::from(3));
    assert_eq!(b, ByteUnit::from(2));
}
