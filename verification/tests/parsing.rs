use ubyte::{ByteUnit, Error, NumeralError, ToByteUnit};

fn assert_reject(s: &str) {
    let result = s.parse::<ByteUnit>();
    assert!(result.is_err(), "{:?} parsed as {:?}", s, result);
}

fn assert_parses(s: &str, expected: ByteUnit) {
    let result = s.parse::<ByteUnit>();
    assert!(result.is_ok(), "{:?} failed to parse: {:?}", s, result);
    let actual = result.unwrap();
    assert_eq!(actual, expected, "expected {:?}, got {:?}", expected, actual);
}

#[test]
fn reject() {
    assert_reject("");
    assert_reject("a");
    assert_reject("amb");
    assert_reject("1.2");
    assert_reject(".");
    assert_reject(".23KiB");
    assert_reject("1.2.3mb");
    assert_reject("1.23bcc");
    assert_reject("?mb");
    assert_reject("1.2mb.");
    assert_reject(".2mb");
    assert_reject("99k");
    assert_reject("99bk");
    assert_reject("1 k b");
    assert_reject("1.2mkb");
    assert_reject("1kb2");
    assert_reject("1MB ");
    assert_reject(" 1MB");
    assert_reject("287423890740938348498349344");
    assert_reject("1.kb");
    assert_reject("1.");
    assert_reject("1. ");
    assert_reject("2. kb");
}

#[test]
fn accept() {
    assert_parses("1", 1.bytes());
    assert_parses("123", 123.bytes());
    assert_parses("99", 99.bytes());
    assert_parses("2394394", 2394394.bytes());
    assert_parses("2874238907409384", 2874238907409384u64.bytes());

    assert_parses("1 b", 1.bytes());
    assert_parses("1 B", 1.bytes());
    assert_parses("1B", 1.bytes());
    assert_parses("1b", 1.bytes());
    assert_parses("1 mb", 1.megabytes());
    assert_parses("1 mib", 1.mebibytes());
    assert_parses("1mib", 1.mebibytes());
    assert_parses("1 kb", 1.kilobytes());
    assert_parses("1 kB", 1.kilobytes());
    assert_parses("1 kib", 1.kibibytes());
    assert_parses("1kib", 1.kibibytes());
    assert_parses("1KiB", 1.kibibytes());
    assert_parses("1GB", 1.gigabytes());

    assert_parses("349 b", 349.bytes());
    assert_parses("13489 mb", 13489.megabytes());
    assert_parses("349b", 349.bytes());
    assert_parses("13489mb", 13489.megabytes());

    assert_parses("0.5KiB", 512.bytes());
    assert_parses("0.5KB", 500.bytes());

    assert_parses("323kB", 323.kilobytes());
    assert_parses("3MB", 3.megabytes());
    assert_parses("3MiB", 3.mebibytes());
    assert_parses("8GiB", 8.gibibytes());

    assert_parses("5MiB", 3.mebibytes().add(2.mebibytes()));
    assert_parses("7.06GB", 7.gigabytes().add(60.megabytes()));
    assert_parses("7.25GB", 7.gigabytes().add(250.megabytes()));

    assert_parses("01MB", 1.megabytes());
    assert_parses("0001MiB", 1.mebibytes());

    assert_parses("9.00000000000000000000MB", 9.megabytes());
    assert_parses("9.000000000000000000000000000000MB", 9.megabytes());
}

#[test]
fn round_trip_spot_checks() {
    assert_parses("1GiB", 1.gibibytes());
    assert_parses("256 kB", 256.kilobytes());
    assert_parses("0.5MB", 500.kilobytes());
    assert_parses("0.500 mib", 512.kibibytes());
    assert_parses("20.5MB", 20.megabytes().add(500.kilobytes()));

    assert_parses("10 KiB", 10.kibibytes());
    assert_parses("10 kb", 10.kilobytes());
    assert_parses("512Kb", 512.kilobytes());
    assert_parses("99kb", 99.kilobytes());
    assert_parses("1 MiB", 1.mebibytes());
    assert_parses("1.5 MiB", 1.mebibytes().add(512.kibibytes()));
    assert_parses("0.2MB", 200.kilobytes());
    assert_parses("7.25 gb", 7.gigabytes().add(250.megabytes()));

    // The fractional part is an exact rational: a tenth of a megabyte is
    // exactly a hundred kilobytes.
    assert_parses("0.3MB", 300.kilobytes());
    assert_parses("0.1MB", 100.kilobytes());

    // Every suffix in each case.
    assert_parses("1tb", 1.terabytes());
    assert_parses("1TiB", 1.tibibytes());
    assert_parses("1pb", 1.petabytes());
    assert_parses("1PiB", 1.pebibytes());
    assert_parses("1EB", 1.exabytes());
    assert_parses("1eib", 1.exbibytes());
}

#[test]
fn formatted_values_reparse() {
    let values = [
        323.kilobytes(),
        3.mebibytes(),
        8.gibibytes(),
        1.gibibytes(),
        256.kilobytes(),
        500.kilobytes(),
        512.kibibytes(),
        42.bytes(),
        7.terabytes(),
        5.petabytes(),
        3.pebibytes().add(100.tibibytes()),
        2.mebibytes().add(512.kibibytes()),
    ];
    for q in values {
        let rendered = q.format();
        let reparsed = rendered.parse::<ByteUnit>();
        assert!(reparsed.is_ok(), "{:?} did not reparse", rendered);
        // The default rendering keeps two fractional digits, so the round
        // trip is exact only up to a hundredth of the display unit.
        let back = reparsed.unwrap();
        let unit = q.repr().3;
        let tolerance = unit.div(ByteUnit::from(100)).add(ByteUnit::Byte(1));
        let difference = if back < q { q.sub(back) } else { back.sub(q) };
        assert!(
            difference <= tolerance,
            "{:?} reparsed as {:?}, off by {:?}",
            rendered,
            back,
            difference
        );
    }
}

#[test]
fn error_variants() {
    assert_eq!("".parse::<ByteUnit>(), Err(Error::Empty));
    assert_eq!("?mb".parse::<ByteUnit>(), Err(Error::Unexpected(0, '?')));
    assert_eq!("12x3".parse::<ByteUnit>(), Err(Error::Unexpected(2, 'x')));
    assert_eq!(".23KiB".parse::<ByteUnit>(), Err(Error::Unexpected(0, '.')));
    // The leading space opens the suffix region, so the digit after it is
    // the first character out of place.
    assert_eq!(" 1MB".parse::<ByteUnit>(), Err(Error::Unexpected(1, '1')));
    assert_eq!("1.2".parse::<ByteUnit>(), Err(Error::FractionalByte));
    assert_eq!("1.5 b".parse::<ByteUnit>(), Err(Error::FractionalByte));
    assert_eq!("99k".parse::<ByteUnit>(), Err(Error::BadSuffix));
    assert_eq!("1 k b".parse::<ByteUnit>(), Err(Error::BadSuffix));
    assert_eq!("1MB ".parse::<ByteUnit>(), Err(Error::BadSuffix));
    assert_eq!(
        "287423890740938348498349344".parse::<ByteUnit>(),
        Err(Error::BadWhole(NumeralError::Overflow))
    );
    assert_eq!(
        "1.kb".parse::<ByteUnit>(),
        Err(Error::BadFractional(NumeralError::Empty))
    );
    assert_eq!(
        "1.4294967296kb".parse::<ByteUnit>(),
        Err(Error::BadFractional(NumeralError::Overflow))
    );
}

#[test]
fn error_messages() {
    assert_eq!(Error::Empty.message(), "the input was empty");
    assert_eq!(
        Error::Unexpected(12, 'x').message(),
        "unexpected character 'x' at index 12"
    );
    assert_eq!(
        Error::Unexpected(0, '?').message(),
        "unexpected character '?' at index 0"
    );
    assert_eq!(
        Error::FractionalByte.message(),
        "the byte unit cannot have a fractional component"
    );
    assert_eq!(Error::BadSuffix.message(), "unknown or malformed byte unit suffix");
    assert_eq!(
        Error::BadWhole(NumeralError::Overflow).message(),
        "the whole part failed to parse: the numeral is too large"
    );
    assert_eq!(
        Error::BadFractional(NumeralError::Empty).message(),
        "the fractional part failed to parse: the numeral is empty"
    );
}
