use lacon_rust_parser::{
    parse_angle, parse_data_size, parse_fraction, parse_frequency, parse_length,
    parse_percentage, parse_string_literal, parse_time, parse_typed_value, parse_value,
};
use lacon_rust_parser::{AngleUnit, DataSizeUnit, FrequencyUnit, LengthUnit, TimeUnit};
use lacon_rust_parser::{LaCoNValue, Numeral};

fn numeral(text: &str) -> Numeral {
    Numeral::parse(text).unwrap()
}

#[test]
fn suffixed_number_is_a_length() {
    assert_eq!(
        parse_typed_value("12.5px"),
        Some(LaCoNValue::Length(numeral("12.5"), LengthUnit::Pixel))
    );
    match parse_typed_value("12.5px") {
        Some(LaCoNValue::Length(n, LengthUnit::Pixel)) => {
            assert_eq!(n.as_str().parse::<f64>().unwrap(), 12.5)
        }
        other => panic!("unexpected {:?}", other),
    }
}

#[test]
fn bare_number_with_fraction_is_a_float() {
    assert_eq!(parse_typed_value("12.5"), Some(LaCoNValue::Float(numeral("12.5"))));
    match parse_typed_value("12.5") {
        Some(LaCoNValue::Float(n)) => assert_eq!(n.as_str().parse::<f64>().unwrap(), 12.5),
        other => panic!("unexpected {:?}", other),
    }
}

#[test]
fn every_family_reads_its_suffixes() {
    assert_eq!(
        parse_typed_value("90deg"),
        Some(LaCoNValue::Angle(numeral("90"), AngleUnit::Degree))
    );
    assert_eq!(
        parse_typed_value("1.5rad"),
        Some(LaCoNValue::Angle(numeral("1.5"), AngleUnit::Radian))
    );
    assert_eq!(parse_typed_value("30sec"), Some(LaCoNValue::Time(numeral("30"), TimeUnit::Second)));
    assert_eq!(parse_typed_value("5min"), Some(LaCoNValue::Time(numeral("5"), TimeUnit::Minute)));
    assert_eq!(
        parse_typed_value("250ms"),
        Some(LaCoNValue::Time(numeral("250"), TimeUnit::Millisecond))
    );
    assert_eq!(
        parse_typed_value("64KB"),
        Some(LaCoNValue::DataSize(numeral("64"), DataSizeUnit::Kilobyte))
    );
    assert_eq!(
        parse_typed_value("2gb"),
        Some(LaCoNValue::DataSize(numeral("2"), DataSizeUnit::Gigabyte))
    );
    assert_eq!(
        parse_typed_value("44.1kHz"),
        Some(LaCoNValue::Frequency(numeral("44.1"), FrequencyUnit::Kilohertz))
    );
    assert_eq!(
        parse_typed_value("50Hz"),
        Some(LaCoNValue::Frequency(numeral("50"), FrequencyUnit::Hertz))
    );
    assert_eq!(parse_typed_value("50%"), Some(LaCoNValue::Percentage(numeral("50"))));
    assert_eq!(parse_typed_value("1fr"), Some(LaCoNValue::Fraction(numeral("1"))));
}

#[test]
fn longer_suffix_wins_over_its_tail() {
    assert_eq!(
        parse_typed_value("3mm"),
        Some(LaCoNValue::Length(numeral("3"), LengthUnit::Millimeter))
    );
    assert_eq!(
        parse_typed_value("3cm"),
        Some(LaCoNValue::Length(numeral("3"), LengthUnit::Centimeter))
    );
    assert_eq!(parse_typed_value("2rem"), Some(LaCoNValue::Length(numeral("2"), LengthUnit::Rem)));
    assert_eq!(parse_typed_value("2em"), Some(LaCoNValue::Length(numeral("2"), LengthUnit::Em)));
    assert_eq!(parse_typed_value("7mi"), Some(LaCoNValue::Length(numeral("7"), LengthUnit::Mile)));
    assert_eq!(parse_typed_value("7m"), Some(LaCoNValue::Length(numeral("7"), LengthUnit::Meter)));
    assert_eq!(
        parse_typed_value("7Mm"),
        Some(LaCoNValue::Length(numeral("7"), LengthUnit::Megameter))
    );
}

#[test]
fn keywords_in_any_case() {
    assert_eq!(parse_typed_value("auto"), Some(LaCoNValue::Auto));
    assert_eq!(parse_typed_value("AUTO"), Some(LaCoNValue::Auto));
    assert_eq!(parse_typed_value("Auto"), Some(LaCoNValue::Auto));
    assert_eq!(parse_typed_value("none"), Some(LaCoNValue::Nothing));
    assert_eq!(parse_typed_value("NONE"), Some(LaCoNValue::Nothing));
    assert_eq!(parse_typed_value("True"), Some(LaCoNValue::Bool(true)));
    assert_eq!(parse_typed_value("FALSE"), Some(LaCoNValue::Bool(false)));
    assert_eq!(parse_typed_value("  auto \t"), Some(LaCoNValue::Auto));
}

#[test]
fn em_is_a_length_not_a_number() {
    assert_eq!(
        parse_typed_value("100em"),
        Some(LaCoNValue::Length(numeral("100"), LengthUnit::Em))
    );
    match parse_typed_value("100em") {
        Some(LaCoNValue::Length(n, LengthUnit::Em)) => {
            assert_eq!(n.as_str().parse::<f64>().unwrap(), 100.0)
        }
        other => panic!("unexpected {:?}", other),
    }
}

#[test]
fn integers_and_floats() {
    assert_eq!(parse_typed_value("42"), Some(LaCoNValue::Int(42)));
    assert_eq!(parse_typed_value("-17"), Some(LaCoNValue::Int(-17)));
    assert_eq!(parse_typed_value("+8"), Some(LaCoNValue::Int(8)));
    assert_eq!(parse_typed_value("007"), Some(LaCoNValue::Int(7)));
    assert_eq!(
        parse_typed_value("9223372036854775807"),
        Some(LaCoNValue::Int(i64::MAX))
    );
    assert_eq!(
        parse_typed_value("-9223372036854775808"),
        Some(LaCoNValue::Int(i64::MIN))
    );
    assert_eq!(
        parse_typed_value("9223372036854775808"),
        Some(LaCoNValue::Float(numeral("9223372036854775808")))
    );
    assert_eq!(parse_typed_value("1e3"), Some(LaCoNValue::Float(numeral("1e3"))));
    assert_eq!(parse_typed_value(".5"), Some(LaCoNValue::Float(numeral(".5"))));
    assert_eq!(parse_typed_value("5."), Some(LaCoNValue::Float(numeral("5."))));
    assert_eq!(parse_typed_value("-2.5E-3"), Some(LaCoNValue::Float(numeral("-2.5E-3"))));
    assert_eq!(parse_typed_value("inf"), Some(LaCoNValue::Float(numeral("inf"))));
    assert_eq!(parse_typed_value("NaN"), Some(LaCoNValue::Float(numeral("NaN"))));
}

#[test]
fn a_suffix_needs_a_finite_number_before_it() {
    assert_eq!(parse_typed_value("px"), None);
    assert_eq!(parse_typed_value("%"), None);
    assert_eq!(parse_typed_value("12abc"), None);
    assert_eq!(parse_typed_value("12 px"), None);
    assert_eq!(parse_typed_value("abcpx"), None);
    assert_eq!(parse_typed_value("infin"), None);
    assert_eq!(parse_typed_value("nanm"), None);
    assert_eq!(parse_typed_value("1e"), None);
    assert_eq!(parse_typed_value("."), None);
    assert_eq!(parse_typed_value("+"), None);
    assert_eq!(parse_typed_value(""), None);
    assert_eq!(parse_typed_value("1.2.3"), None);
    assert_eq!(parse_typed_value("1e309px"), None);
    assert_eq!(parse_typed_value("1.7976931348623159e308%"), None);
    assert_eq!(parse_value("1e999px"), Some(LaCoNValue::String("1e999px".to_string())));
    assert_eq!(
        parse_typed_value("1.7976931348623158e308px"),
        Some(LaCoNValue::Length(numeral("1.7976931348623158e308"), LengthUnit::Pixel))
    );
    assert_eq!(parse_typed_value("1e999"), Some(LaCoNValue::Float(numeral("1e999"))));
}

#[test]
fn literal_is_kept_verbatim() {
    assert_eq!(parse_string_literal("true"), LaCoNValue::StringLiteral("true".to_string()));
    assert_ne!(Some(parse_string_literal("true")), parse_typed_value("true"));
    assert_eq!(parse_string_literal(" 10px "), LaCoNValue::StringLiteral(" 10px ".to_string()));
    assert_eq!(parse_string_literal(""), LaCoNValue::StringLiteral(String::new()));
}

#[test]
fn untyped_token_falls_back_to_text() {
    assert_eq!(parse_typed_value("hello world"), None);
    assert_eq!(parse_value("hello world"), Some(LaCoNValue::String("hello world".to_string())));
    assert_eq!(parse_value(" spaced "), Some(LaCoNValue::String(" spaced ".to_string())));
    assert_eq!(parse_value(""), Some(LaCoNValue::String(String::new())));
}

#[test]
fn value_is_the_typed_value_where_there_is_one() {
    for token in ["42", "12.5px", "auto", "50%", " 3fr ", "1e3", "true"] {
        assert_eq!(parse_value(token), parse_typed_value(token));
        assert!(parse_value(token).is_some());
    }
}

#[test]
fn family_parsers_trim_and_keep_to_their_family() {
    assert_eq!(
        parse_length(" 4in "),
        Some(LaCoNValue::Length(numeral("4"), LengthUnit::Inch))
    );
    assert_eq!(parse_length("4deg"), None);
    assert_eq!(parse_angle("4deg"), Some(LaCoNValue::Angle(numeral("4"), AngleUnit::Degree)));
    assert_eq!(parse_angle("4px"), None);
    assert_eq!(parse_time("2hour"), Some(LaCoNValue::Time(numeral("2"), TimeUnit::Hour)));
    assert_eq!(parse_time("2day"), Some(LaCoNValue::Time(numeral("2"), TimeUnit::Day)));
    assert_eq!(parse_time("min"), None);
    assert_eq!(
        parse_data_size("1Tb"),
        Some(LaCoNValue::DataSize(numeral("1"), DataSizeUnit::Terabyte))
    );
    assert_eq!(parse_data_size("1XB"), None);
    assert_eq!(
        parse_frequency("3GHz"),
        Some(LaCoNValue::Frequency(numeral("3"), FrequencyUnit::Gigahertz))
    );
    assert_eq!(parse_frequency("3"), None);
    assert_eq!(parse_percentage("12.5%"), Some(LaCoNValue::Percentage(numeral("12.5"))));
    assert_eq!(parse_percentage("%"), None);
    assert_eq!(parse_fraction("2fr"), Some(LaCoNValue::Fraction(numeral("2"))));
    assert_eq!(parse_fraction("fr"), None);
}

#[test]
fn accessors_tell_the_kinds_apart() {
    assert_eq!(LaCoNValue::Int(3).as_int(), Some(3));
    assert_eq!(LaCoNValue::Bool(true).as_int(), None);
    assert_eq!(LaCoNValue::Bool(true).as_bool(), Some(true));
    assert_eq!(LaCoNValue::String("a".to_string()).as_string(), Some("a"));
    assert_eq!(LaCoNValue::StringLiteral("a".to_string()).as_string(), None);
    assert_eq!(LaCoNValue::Float(numeral("1.5")).as_float(), Some(&numeral("1.5")));
    assert_eq!(LaCoNValue::Int(1).as_float(), None);
    assert!(LaCoNValue::Auto.is_auto());
    assert!(!LaCoNValue::Nothing.is_auto());
    assert!(LaCoNValue::Nothing.is_none());
    assert!(!LaCoNValue::Auto.is_none());
    let items = vec![LaCoNValue::Int(1), LaCoNValue::Auto];
    assert_eq!(LaCoNValue::Array(vec![LaCoNValue::Int(1), LaCoNValue::Auto]).as_array(), Some(&items));
    assert_eq!(LaCoNValue::Int(1).as_array(), None);
    assert!(LaCoNValue::Int(1).as_dict().is_none());
}

#[test]
fn a_copy_of_a_value_equals_it() {
    let value = LaCoNValue::Array(vec![
        LaCoNValue::Length(numeral("2"), LengthUnit::Em),
        LaCoNValue::String("x".to_string()),
        LaCoNValue::Array(vec![LaCoNValue::Nothing]),
    ]);
    assert_eq!(value.clone(), value);
}

#[test]
fn keywords_need_no_more_than_ascii_case() {
    let letters = "autonerfls";
    for code in 0..=0x10FFFFu32 {
        if let Some(c) = char::from_u32(code) {
            let lower: String = c.to_lowercase().collect();
            if lower.len() == 1 && letters.contains(&lower) {
                assert!(c.is_ascii(), "U+{code:04X}");
            }
        }
    }
    for token in ["auto", "AUTO", "aUtO", "None", "tRuE", "FALSE", "auto\u{307}", "\u{212A}"] {
        let full = match token.to_lowercase().as_str() {
            "auto" => Some(LaCoNValue::Auto),
            "none" => Some(LaCoNValue::Nothing),
            "true" => Some(LaCoNValue::Bool(true)),
            "false" => Some(LaCoNValue::Bool(false)),
            _ => None,
        };
        assert_eq!(parse_typed_value(token), full, "{token}");
    }
}
