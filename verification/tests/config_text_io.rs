use glimbot::config_text::ConfigParseError;
use glimbot::weights::SpamConfig;

const DEFAULT_TEXT: &str = "{\"base_pressure\":10.000000,\"image_pressure\":8.333333,\"length_pressure\":0.006250,\"line_pressure\":0.714285,\"max_pressure\":60.000000,\"ping_pressure\":2.500000,\"pressure_decay\":2.500000,\"silence_timeout\":\"600.000000s\"}";

#[test]
fn default_configuration_renders_canonically() {
    assert_eq!(SpamConfig::default().to_json(), DEFAULT_TEXT);
}

#[test]
fn canonical_text_parses_to_the_value_it_renders() {
    let parsed = SpamConfig::from_str(DEFAULT_TEXT).expect("canonical text parses");
    assert_eq!(parsed, SpamConfig::default());
}

#[test]
fn odd_values_round_trip_too() {
    let conf = SpamConfig {
        base_pressure: 0,
        image_pressure: 1,
        length_pressure: u64::MAX,
        line_pressure: 999_999,
        max_pressure: 1_000_000,
        ping_pressure: 123_456_789,
        pressure_decay: 0,
        silence_timeout: 1,
    };
    let text = conf.to_json();
    let back = SpamConfig::from_str(text.as_str()).expect("round trip");
    assert_eq!(back, conf);
    assert_eq!(back.to_json(), text);
}

#[test]
fn empty_and_truncated_texts_are_rejected() {
    assert!(SpamConfig::from_str("").is_err());
    assert!(SpamConfig::from_str("{}").is_err());
    let text = SpamConfig::default().to_json();
    let truncated = &text[..text.len() - 1];
    assert!(SpamConfig::from_str(truncated).is_err());
}

#[test]
fn a_missing_or_misspelt_field_fails_the_whole_object() {
    let text = DEFAULT_TEXT.replace("line_pressure", "lime_pressure");
    assert!(SpamConfig::from_str(&text).is_err());
}

#[test]
fn a_negative_value_fails_the_whole_object() {
    let text = DEFAULT_TEXT.replace("10.000000", "-10.000000");
    assert!(SpamConfig::from_str(&text).is_err());
}

#[test]
fn non_canonical_spellings_are_rejected() {
    // integer spelling without the six-digit fraction
    let text = DEFAULT_TEXT.replace("10.000000", "10");
    assert!(SpamConfig::from_str(&text).is_err());
    // trailing garbage
    let mut with_tail = String::from(DEFAULT_TEXT);
    with_tail.push(' ');
    assert!(SpamConfig::from_str(&with_tail).is_err());
}

#[test]
fn the_parse_error_describes_itself() {
    let err: ConfigParseError = SpamConfig::from_str("{").unwrap_err();
    assert_eq!(err.message(), "not a canonical spam configuration");
}
