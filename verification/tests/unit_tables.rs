use lacon_rust_parser::{AngleUnit, DataSizeUnit, FrequencyUnit, LengthUnit, TimeUnit};

#[test]
fn length_suffixes() {
    let table = [
        ("\u{b5}m", LengthUnit::Micrometer),
        ("um", LengthUnit::Micrometer),
        ("nm", LengthUnit::Nanometer),
        ("mm", LengthUnit::Millimeter),
        ("cm", LengthUnit::Centimeter),
        ("m", LengthUnit::Meter),
        ("km", LengthUnit::Kilometer),
        ("Mm", LengthUnit::Megameter),
        ("mi", LengthUnit::Mile),
        ("em", LengthUnit::Em),
        ("rem", LengthUnit::Rem),
        ("pt", LengthUnit::Point),
        ("in", LengthUnit::Inch),
        ("px", LengthUnit::Pixel),
    ];
    for (suffix, unit) in table {
        assert_eq!(LengthUnit::from_suffix(suffix), Some(unit), "{suffix}");
    }
    assert_eq!(LengthUnit::suffixes().len(), table.len());
    for other in ["", "M", "PX", "Px", "px ", " px", "deg", "mmm", "e", "re"] {
        assert_eq!(LengthUnit::from_suffix(other), None, "{other}");
    }
}

#[test]
fn angle_suffixes() {
    assert_eq!(AngleUnit::from_suffix("deg"), Some(AngleUnit::Degree));
    assert_eq!(AngleUnit::from_suffix("rad"), Some(AngleUnit::Radian));
    assert_eq!(AngleUnit::from_suffix("Deg"), None);
    assert_eq!(AngleUnit::from_suffix("grad"), None);
    assert_eq!(AngleUnit::from_suffix(""), None);
}

#[test]
fn time_suffixes() {
    let table = [
        ("ns", TimeUnit::Nanosecond),
        ("\u{3bc}s", TimeUnit::Microsecond),
        ("us", TimeUnit::Microsecond),
        ("ms", TimeUnit::Millisecond),
        ("sec", TimeUnit::Second),
        ("s", TimeUnit::Second),
        ("min", TimeUnit::Minute),
        ("hour", TimeUnit::Hour),
        ("h", TimeUnit::Hour),
        ("day", TimeUnit::Day),
        ("d", TimeUnit::Day),
        ("week", TimeUnit::Week),
        ("w", TimeUnit::Week),
        ("month", TimeUnit::Month),
        ("year", TimeUnit::Year),
        ("y", TimeUnit::Year),
    ];
    for (suffix, unit) in table {
        assert_eq!(TimeUnit::from_suffix(suffix), Some(unit), "{suffix}");
    }
    assert_eq!(TimeUnit::suffixes().len(), table.len());
    for other in ["", "S", "mins", "m", "mo", "\u{b5}s"] {
        assert_eq!(TimeUnit::from_suffix(other), None, "{other}");
    }
}

#[test]
fn data_size_suffixes_have_case_variants() {
    for (suffixes, unit) in [
        (["KB", "Kb", "kb"], DataSizeUnit::Kilobyte),
        (["MB", "Mb", "mb"], DataSizeUnit::Megabyte),
        (["GB", "Gb", "gb"], DataSizeUnit::Gigabyte),
        (["TB", "Tb", "tb"], DataSizeUnit::Terabyte),
    ] {
        for suffix in suffixes {
            assert_eq!(DataSizeUnit::from_suffix(suffix), Some(unit), "{suffix}");
        }
    }
    for other in ["", "kB", "B", "PB", "KiB"] {
        assert_eq!(DataSizeUnit::from_suffix(other), None, "{other}");
    }
}

#[test]
fn frequency_suffixes() {
    for (suffixes, unit) in [
        (["Hz", "hz"], FrequencyUnit::Hertz),
        (["kHz", "khz"], FrequencyUnit::Kilohertz),
        (["MHz", "mhz"], FrequencyUnit::Megahertz),
        (["GHz", "ghz"], FrequencyUnit::Gigahertz),
        (["THz", "thz"], FrequencyUnit::Terahertz),
    ] {
        for suffix in suffixes {
            assert_eq!(FrequencyUnit::from_suffix(suffix), Some(unit), "{suffix}");
        }
    }
    for other in ["", "HZ", "KHz", "Mhz", "z"] {
        assert_eq!(FrequencyUnit::from_suffix(other), None, "{other}");
    }
}

#[test]
fn tables_list_longer_suffixes_first() {
    fn lengths<U>(table: Vec<(Vec<char>, U)>) -> Vec<usize> {
        table.into_iter().map(|entry| entry.0.len()).collect()
    }
    for sizes in [
        lengths(LengthUnit::suffixes()),
        lengths(AngleUnit::suffixes()),
        lengths(TimeUnit::suffixes()),
        lengths(DataSizeUnit::suffixes()),
        lengths(FrequencyUnit::suffixes()),
    ] {
        assert!(sizes.windows(2).all(|pair| pair[0] >= pair[1]), "{sizes:?}");
    }
}
