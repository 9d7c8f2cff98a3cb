use lacon_rust_parser::{AngleUnit, LengthUnit, Numeral, Scale};

fn apply(scale: Scale, value: f64) -> f64 {
    value * scale.multiply.parse::<f64>().unwrap() / scale.divide.parse::<f64>().unwrap()
}

const LENGTHS: [LengthUnit; 13] = [
    LengthUnit::Micrometer,
    LengthUnit::Nanometer,
    LengthUnit::Millimeter,
    LengthUnit::Centimeter,
    LengthUnit::Meter,
    LengthUnit::Kilometer,
    LengthUnit::Megameter,
    LengthUnit::Mile,
    LengthUnit::Em,
    LengthUnit::Rem,
    LengthUnit::Point,
    LengthUnit::Inch,
    LengthUnit::Pixel,
];

const SAMPLES: [f64; 9] = [0.0, -0.0, 1.0, -1.0, 12.5, 1e-9, 0.1, 72.0, 1e300];

fn pixels(unit: LengthUnit, value: f64) -> f64 {
    match unit {
        LengthUnit::Pixel => value,
        LengthUnit::Inch => value * 96.0,
        LengthUnit::Point => value * 96.0 / 72.0,
        LengthUnit::Centimeter => value * 96.0 / 2.54,
        LengthUnit::Millimeter => value * 96.0 / 25.4,
        _ => value,
    }
}

fn meters(unit: LengthUnit, value: f64) -> f64 {
    match unit {
        LengthUnit::Meter => value,
        LengthUnit::Kilometer => value * 1000.0,
        LengthUnit::Centimeter => value / 100.0,
        LengthUnit::Millimeter => value / 1000.0,
        LengthUnit::Nanometer => value / 1_000_000_000.0,
        LengthUnit::Mile => value * 1609.344,
        LengthUnit::Inch => value * 0.0254,
        _ => value,
    }
}

#[test]
fn pixel_scales_give_the_exact_doubles() {
    for unit in LENGTHS {
        for value in SAMPLES {
            let scaled = apply(unit.to_pixels(), value);
            assert_eq!(scaled.to_bits(), pixels(unit, value).to_bits(), "{unit:?} {value}");
        }
    }
    assert_eq!(apply(LengthUnit::Inch.to_pixels(), 2.0), 192.0);
    assert_eq!(apply(LengthUnit::Point.to_pixels(), 72.0), 96.0);
    assert_eq!(apply(LengthUnit::Em.to_pixels(), 3.5), 3.5);
}

#[test]
fn meter_scales_give_the_exact_doubles() {
    for unit in LENGTHS {
        for value in SAMPLES {
            let scaled = apply(unit.to_meters(), value);
            assert_eq!(scaled.to_bits(), meters(unit, value).to_bits(), "{unit:?} {value}");
        }
    }
    assert_eq!(apply(LengthUnit::Kilometer.to_meters(), 2.5), 2500.0);
    assert_eq!(apply(LengthUnit::Centimeter.to_meters(), 250.0), 2.5);
    assert_eq!(apply(LengthUnit::Pixel.to_meters(), 7.0), 7.0);
}

#[test]
fn angle_scales_give_the_exact_doubles() {
    for value in SAMPLES {
        assert_eq!(
            apply(AngleUnit::Degree.to_radians(), value).to_bits(),
            (value * std::f64::consts::PI / 180.0).to_bits()
        );
        assert_eq!(
            apply(AngleUnit::Radian.to_degrees(), value).to_bits(),
            (value * 180.0 / std::f64::consts::PI).to_bits()
        );
        assert_eq!(apply(AngleUnit::Radian.to_radians(), value).to_bits(), value.to_bits());
        assert_eq!(apply(AngleUnit::Degree.to_degrees(), value).to_bits(), value.to_bits());
    }
    assert_eq!(apply(AngleUnit::Degree.to_radians(), 180.0), std::f64::consts::PI);
    assert_eq!(apply(AngleUnit::Radian.to_degrees(), std::f64::consts::PI), 180.0);
}

#[test]
fn scales_are_written_as_decimal_numbers_and_never_divide_by_zero() {
    let mut scales: Vec<Scale> = Vec::new();
    for unit in LENGTHS {
        scales.push(unit.to_pixels());
        scales.push(unit.to_meters());
    }
    for unit in [AngleUnit::Degree, AngleUnit::Radian] {
        scales.push(unit.to_radians());
        scales.push(unit.to_degrees());
    }
    for scale in scales {
        assert!(Numeral::parse(scale.multiply).unwrap().is_decimal());
        assert!(Numeral::parse(scale.divide).unwrap().is_decimal());
        assert!(scale.divide.parse::<f64>().unwrap() > 0.0);
    }
}
