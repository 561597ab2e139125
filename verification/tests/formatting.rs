use ubyte::{ByteUnit, ToByteUnit};

#[test]
fn format_fixtures() {
    assert_eq!(323.kilobytes().format(), "323kB");
    assert_eq!(7.gibibytes().add(920.mebibytes()).format_with(0, Some(0)), "8GiB");
    assert_eq!(
        999.kilobytes().add(990.bytes()).format_with(4, Some(2)),
        "0976.55KiB"
    );
}

#[test]
fn format_default_precision() {
    assert_eq!(3.megabytes().format(), "3MB");
    assert_eq!(3.mebibytes().format(), "3MiB");
    assert_eq!(3.mebibytes().add(140.kilobytes()).format(), "3.13MiB");
    assert_eq!(3.mebibytes().add(2.mebibytes()).format(), "5MiB");
    assert_eq!(
        7.gigabytes().add(58.mebibytes()).add(3.kilobytes()).format(),
        "7.06GB"
    );
    assert_eq!(7.gibibytes().add(920.mebibytes()).format(), "7.90GiB");
    assert_eq!(7231.kilobytes().format(), "6.90MiB");
    assert_eq!(42.bytes().format(), "42B");
    assert_eq!(0.bytes().format(), "0B");
}

#[test]
fn format_explicit_precision() {
    let q = 7.gibibytes().add(920.mebibytes());
    assert_eq!(q.format_with(0, Some(0)), "8GiB");
    assert_eq!(q.format_with(0, Some(1)), "7.9GiB");
    assert_eq!(q.format_with(0, Some(2)), "7.90GiB");
    assert_eq!(q.format_with(0, Some(3)), "7.898GiB");
    assert_eq!(q.format_with(0, Some(4)), "7.8984GiB");
    assert_eq!(7231.kilobytes().format_with(0, Some(4)), "6.8960MiB");
    assert_eq!(7231.kilobytes().format_with(0, Some(0)), "7MiB");
    assert_eq!(999.kilobytes().add(990.bytes()).format_with(0, Some(2)), "976.55KiB");
    assert_eq!(999.kilobytes().add(990.bytes()).format_with(0, Some(0)), "1MB");
}

#[test]
fn format_width_pads_with_zeros() {
    let q = 999.kilobytes().add(990.bytes());
    assert_eq!(q.format_with(2, Some(0)), "01MB");
    assert_eq!(q.format_with(4, Some(0)), "0001MB");
    assert_eq!(q.format_with(0, None), "976.55KiB");
    assert_eq!(q.format_with(4, None), "0976.55KiB");
}

#[test]
fn format_petabyte_rung() {
    // The ladder has a petabyte rung: five petabytes are "5PB", not
    // thousands of terabytes.
    assert_eq!(5.petabytes().format(), "5PB");
    assert_eq!(2.pebibytes().add(512.tibibytes()).format(), "2.50PiB");
    // The tie-break at the petabyte rung works like the others: a
    // remainder covering the gap between the pebibyte and the petabyte
    // prefers the binary unit.
    let (_, _, suffix, unit) = 3.pebibytes().repr();
    assert_eq!(suffix, "PiB");
    assert_eq!(unit, ByteUnit::Pebibyte(1));
    let (_, _, suffix, unit) = 3.petabytes().repr();
    assert_eq!(suffix, "PB");
    assert_eq!(unit, ByteUnit::Petabyte(1));
}

#[test]
fn format_at_the_ceiling_terminates() {
    // The maximum value is fifteen exbibytes and a hair: rounding it up
    // to sixteen cannot be represented, so the whole part renders as it
    // stands instead of cascading upward.
    assert_eq!(ByteUnit::max_value().format_with(0, Some(0)), "15EiB");
    // With fractional digits, the remainder is so close to one unit that
    // the scaled fraction rounds to a full hundred.
    assert_eq!(ByteUnit::max_value().format(), "15.100EiB");
}

#[test]
fn fraction_rounds_half_to_even() {
    // 1152 bytes are one kibibyte plus an eighth: 1.25 tenths round down
    // to the even neighbour.
    assert_eq!(ByteUnit::Byte(1152).format_with(0, Some(1)), "1.1KiB");
    // 1792 bytes are one kibibyte and three quarters: 7.5 tenths round up
    // to the even neighbour.
    assert_eq!(ByteUnit::Byte(1792).format_with(0, Some(1)), "1.8KiB");
}

#[test]
fn repr_components() {
    let value = 2.mebibytes().add(512.kibibytes());
    assert_eq!(value.format(), "2.50MiB");

    let (whole, rem, suffix, unit) = value.repr();
    assert_eq!(whole, 2);
    // The remainder comes back in bytes: half a mebibyte.
    assert_eq!(rem, 524288);
    assert_eq!(suffix, "MiB");
    assert_eq!(unit, ByteUnit::Mebibyte(1));
    assert_eq!(
        ByteUnit::Byte(whole).mul(unit).add(ByteUnit::Byte(rem)),
        value
    );
}

#[test]
fn repr_picks_minimal_units() {
    // 1024 bytes are exactly one kibibyte; 1023 bytes read better in
    // kilobytes.
    let (whole, rem, suffix, _) = 1024.bytes().repr();
    assert_eq!((whole, rem, suffix), (1, 0, "KiB"));
    let (whole, rem, suffix, _) = 1023.bytes().repr();
    assert_eq!((whole, rem, suffix), (1, 23, "kB"));
    // Below one kilobyte everything is plain bytes.
    let (whole, rem, suffix, _) = 999.bytes().repr();
    assert_eq!((whole, rem, suffix), (999, 0, "B"));
}

#[test]
fn repr_reconstructs_for_all_sampled_values() {
    let samples = [
        0u64,
        1,
        999,
        1000,
        1023,
        1024,
        999_990,
        1_000_000,
        1_048_576,
        7_060_820_408,
        u64::MAX / 2,
        u64::MAX - 1,
        u64::MAX,
    ];
    for n in samples {
        let q = ByteUnit::Byte(n);
        let (whole, rem, _, unit) = q.repr();
        // whole * unit + rem gives back the value exactly, and the
        // remainder stays below one unit.
        assert!(rem < unit.as_u64());
        assert_eq!(
            whole as u128 * unit.as_u128() + rem as u128,
            q.as_u128()
        );
    }
}
