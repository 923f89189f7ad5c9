//! Core of a chat-community anti-spam engine.
//!
//! Each inbound message is converted into an instantaneous "pressure"
//! contribution, folded into a per-(guild, user) accumulator whose value
//! decays linearly over time, and compared against a configured threshold.
//! When the threshold is breached and the author is not exempt (owner,
//! moderator role, or a configured ignore role), a mute action record is
//! produced for an external dispatcher to apply.
//!
//! All pressure values are fixed-point with a resolution of one millionth
//! of a pressure unit; all instants and durations are in microseconds.

pub mod accumulator;
pub mod cache;
pub mod config_text;
pub mod engine;
pub mod moderation;
pub mod pressure;
pub mod table;
pub mod weights;
