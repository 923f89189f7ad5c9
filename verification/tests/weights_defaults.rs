use glimbot::weights::{
    SpamConfig, DEFAULT_BASE_PRESSURE, DEFAULT_IMAGE_PRESSURE, DEFAULT_LENGTH_PRESSURE,
    DEFAULT_LINE_PRESSURE, DEFAULT_MAX_PRESSURE, DEFAULT_PING_PRESSURE, DEFAULT_PRESSURE_DECAY,
    DEFAULT_SILENCE_TIMEOUT, SPAM_CONFIG_KEY, SPAM_IGNORE_ROLE,
};

#[test]
fn the_stock_weights_are_the_documented_ones() {
    let c = SpamConfig::default();
    assert_eq!(c.base_pressure, DEFAULT_BASE_PRESSURE);
    assert_eq!(c.image_pressure, DEFAULT_IMAGE_PRESSURE);
    assert_eq!(c.length_pressure, DEFAULT_LENGTH_PRESSURE);
    assert_eq!(c.line_pressure, DEFAULT_LINE_PRESSURE);
    assert_eq!(c.max_pressure, DEFAULT_MAX_PRESSURE);
    assert_eq!(c.ping_pressure, DEFAULT_PING_PRESSURE);
    assert_eq!(c.pressure_decay, DEFAULT_PRESSURE_DECAY);
    assert_eq!(c.silence_timeout, DEFAULT_SILENCE_TIMEOUT);
    // ten units of base pressure, a sixty-unit threshold, 2.5 s decay,
    // a ten-minute automatic mute
    assert_eq!(DEFAULT_BASE_PRESSURE, 10_000_000);
    assert_eq!(DEFAULT_MAX_PRESSURE, 60_000_000);
    assert_eq!(DEFAULT_PRESSURE_DECAY, 2_500_000);
    assert_eq!(DEFAULT_SILENCE_TIMEOUT, 600_000_000);
}

#[test]
fn the_config_keys_are_stable() {
    assert_eq!(SPAM_CONFIG_KEY, "spam_config");
    assert_eq!(SPAM_IGNORE_ROLE, "spam_ignore_role");
}
