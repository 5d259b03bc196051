use sh_backend::models::{DeviceType, SensorUnit, SetpointType, SetpointUnit};
use sh_backend::text::{format_tenths, i64_to_dec_string, parse_tenths, str_eq, u64_to_dec_string};

#[test]
fn decimal_rendering_of_unsigned_values() {
    assert_eq!(u64_to_dec_string(0), "0");
    assert_eq!(u64_to_dec_string(7), "7");
    assert_eq!(u64_to_dec_string(10), "10");
    assert_eq!(u64_to_dec_string(12345), "12345");
    assert_eq!(u64_to_dec_string(u64::MAX), "18446744073709551615");
}

#[test]
fn decimal_rendering_of_signed_values() {
    assert_eq!(i64_to_dec_string(0), "0");
    assert_eq!(i64_to_dec_string(42), "42");
    assert_eq!(i64_to_dec_string(-42), "-42");
    assert_eq!(i64_to_dec_string(i64::MAX), "9223372036854775807");
    assert_eq!(i64_to_dec_string(i64::MIN), "-9223372036854775808");
}

#[test]
fn one_decimal_rendering_of_tenths() {
    assert_eq!(format_tenths(225), "22.5");
    assert_eq!(format_tenths(215), "21.5");
    assert_eq!(format_tenths(235), "23.5");
    assert_eq!(format_tenths(0), "0.0");
    assert_eq!(format_tenths(-5), "-0.5");
    assert_eq!(format_tenths(-225), "-22.5");
    assert_eq!(format_tenths(1000), "100.0");
}

#[test]
fn parsing_recovers_tenths() {
    assert_eq!(parse_tenths("22.5"), Some(225));
    assert_eq!(parse_tenths("22"), Some(220));
    assert_eq!(parse_tenths("0.0"), Some(0));
    assert_eq!(parse_tenths("-0.5"), Some(-5));
    assert_eq!(parse_tenths("+1.0"), Some(10));
    assert_eq!(parse_tenths("100.0"), Some(1000));
}

#[test]
fn parsing_truncates_extra_fraction_digits() {
    assert_eq!(parse_tenths("3.75"), Some(37));
    assert_eq!(parse_tenths("-3.75"), Some(-37));
    assert_eq!(parse_tenths("22.59"), Some(225));
}

#[test]
fn parsing_rejects_malformed_text() {
    assert_eq!(parse_tenths(""), None);
    assert_eq!(parse_tenths("abc"), None);
    assert_eq!(parse_tenths("2."), None);
    assert_eq!(parse_tenths(".5"), None);
    assert_eq!(parse_tenths("2.5.1"), None);
    assert_eq!(parse_tenths("2x5"), None);
    assert_eq!(parse_tenths("2.x"), None);
    assert_eq!(parse_tenths("-"), None);
    assert_eq!(parse_tenths("--2"), None);
}

#[test]
fn parsing_accepts_at_most_seventeen_integer_digits() {
    assert_eq!(parse_tenths("99999999999999999"), Some(999999999999999990));
    assert_eq!(parse_tenths("999999999999999999"), None);
}

#[test]
fn parsed_value_matches_float_reading() {
    let t = parse_tenths("22.5").unwrap();
    let f: f64 = "22.5".parse().unwrap();
    assert_eq!(t as f64 / 10.0, f);
}

#[test]
fn round_trip_render_then_parse() {
    for t in [-235i64, -5, 0, 5, 225, 1000] {
        let text = format_tenths(t);
        assert_eq!(parse_tenths(&text), Some(t));
    }
}

#[test]
fn string_equality_by_characters() {
    assert!(str_eq("abc", "abc"));
    assert!(!str_eq("abc", "abd"));
    assert!(!str_eq("abc", "ab"));
    assert!(str_eq("", ""));
}

#[test]
fn stored_enum_names_round_trip() {
    assert_eq!(DeviceType::TemperatureSensor.stored_name(), "TemperatureSensor");
    assert_eq!(DeviceType::ThermostatController.stored_name(), "ThermostatController");
    assert_eq!(
        DeviceType::from_stored_name("TemperatureSensor"),
        Some(DeviceType::TemperatureSensor)
    );
    assert_eq!(
        DeviceType::from_stored_name("ThermostatController"),
        Some(DeviceType::ThermostatController)
    );
    assert_eq!(SensorUnit::Celsius.stored_name(), "Celsius");
    assert_eq!(SensorUnit::from_stored_name("Fahrenheit"), Some(SensorUnit::Fahrenheit));
    assert_eq!(SetpointType::Temperature.stored_name(), "Temperature");
    assert_eq!(
        SetpointType::from_stored_name("Temperature"),
        Some(SetpointType::Temperature)
    );
    assert_eq!(SetpointUnit::Fahrenheit.stored_name(), "Fahrenheit");
    assert_eq!(SetpointUnit::from_stored_name("Celsius"), Some(SetpointUnit::Celsius));
}

#[test]
fn stored_enum_names_reject_unknown_text() {
    assert_eq!(DeviceType::from_stored_name("HumiditySensor"), None);
    assert_eq!(SensorUnit::from_stored_name("Kelvin"), None);
    assert_eq!(SetpointType::from_stored_name("Humidity"), None);
    assert_eq!(SetpointUnit::from_stored_name("kelvin"), None);
    assert_eq!(SensorUnit::from_stored_name("celsius"), None);
}
