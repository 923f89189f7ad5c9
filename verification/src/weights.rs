//! Per-guild pressure weight configuration.
//!
//! Pressure quantities are fixed-point `u64` values in micro-units
//! (one pressure unit == 1_000_000), so every weight is finite and
//! non-negative by construction. Durations and periods are `u64`
//! microseconds.

use vstd::prelude::*;

verus! {

/// One pressure unit, in micro-units.
pub const PRESSURE_UNIT: u64 = 1_000_000;

/// Default base pressure per message: 10 units.
pub const DEFAULT_BASE_PRESSURE: u64 = 10_000_000;
/// Default pressure at which a user is silenced: 60 units.
pub const DEFAULT_MAX_PRESSURE: u64 = 60_000_000;
/// Default pressure per image attachment: (60 - 10) / 6 units, rounded down.
pub const DEFAULT_IMAGE_PRESSURE: u64 = 8_333_333;
/// Default pressure per codepoint of content: (60 - 10) / 8000 units.
pub const DEFAULT_LENGTH_PRESSURE: u64 = 6_250;
/// Default pressure per line break: (60 - 10) / 70 units, rounded down.
pub const DEFAULT_LINE_PRESSURE: u64 = 714_285;
/// Default pressure per ping: (60 - 10) / 20 units.
pub const DEFAULT_PING_PRESSURE: u64 = 2_500_000;
/// Default decay period: 2.5 seconds per base unit of pressure.
pub const DEFAULT_PRESSURE_DECAY: u64 = 2_500_000;
/// Default duration of an automatic mute: ten minutes.
pub const DEFAULT_SILENCE_TIMEOUT: u64 = 600_000_000;

/// The config key under which a guild's weight configuration is stored.
pub const SPAM_CONFIG_KEY: &'static str = "spam_config";
/// The config key for a role exempt from spam checks.
pub const SPAM_IGNORE_ROLE: &'static str = "spam_ignore_role";

/// The numerical configuration values for the spam engine.
///
/// `*_pressure` fields are micro-units of pressure; `pressure_decay` is the
/// period, in microseconds, over which one `base_pressure` worth of pressure
/// decays; `silence_timeout` is the mute duration in microseconds, where zero
/// is the distinguished value meaning "indefinite".
#[derive(Clone, Copy, Debug, PartialEq, Eq, Structural)]
pub struct SpamConfig {
    /// Base pressure generated by sending a message.
    pub base_pressure: u64,
    /// Pressure generated by each image attachment in a message.
    pub image_pressure: u64,
    /// Pressure generated per codepoint in a message.
    pub length_pressure: u64,
    /// Pressure generated per line break in a message.
    pub line_pressure: u64,
    /// The pressure at which a user will be silenced.
    pub max_pressure: u64,
    /// Pressure generated per ping in a message.
    pub ping_pressure: u64,
    /// Time for one `base_pressure` worth of pressure to decay away.
    pub pressure_decay: u64,
    /// The amount of time users will be muted for; zero means indefinite.
    pub silence_timeout: u64,
}

impl Default for SpamConfig {
    /// The stock weight set used when a guild has no stored configuration.
    fn default() -> (c: SpamConfig)
        ensures
            c == SpamConfig::default_spec(),
    {
        SpamConfig {
            base_pressure: DEFAULT_BASE_PRESSURE,
            image_pressure: DEFAULT_IMAGE_PRESSURE,
            length_pressure: DEFAULT_LENGTH_PRESSURE,
            line_pressure: DEFAULT_LINE_PRESSURE,
            max_pressure: DEFAULT_MAX_PRESSURE,
            ping_pressure: DEFAULT_PING_PRESSURE,
            pressure_decay: DEFAULT_PRESSURE_DECAY,
            silence_timeout: DEFAULT_SILENCE_TIMEOUT,
        }
    }
}

impl SpamConfig {
    /// The default weight set as a spec-level value.
    pub open spec fn default_spec() -> SpamConfig {
        SpamConfig {
            base_pressure: DEFAULT_BASE_PRESSURE,
            image_pressure: DEFAULT_IMAGE_PRESSURE,
            length_pressure: DEFAULT_LENGTH_PRESSURE,
            line_pressure: DEFAULT_LINE_PRESSURE,
            max_pressure: DEFAULT_MAX_PRESSURE,
            ping_pressure: DEFAULT_PING_PRESSURE,
            pressure_decay: DEFAULT_PRESSURE_DECAY,
            silence_timeout: DEFAULT_SILENCE_TIMEOUT,
        }
    }
}

} // verus!
