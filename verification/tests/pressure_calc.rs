use glimbot::pressure::{line_break_count, message_pressure, sat_add, sat_mul, MessageEvent};
use glimbot::weights::SpamConfig;

fn weights(base: u64, image: u64, length: u64, line: u64, ping: u64) -> SpamConfig {
    SpamConfig {
        base_pressure: base,
        image_pressure: image,
        length_pressure: length,
        line_pressure: line,
        max_pressure: 60_000_000,
        ping_pressure: ping,
        pressure_decay: 2_500_000,
        silence_timeout: 0,
    }
}

#[test]
fn weighted_sum_is_exact() {
    let conf = weights(10_000_000, 8_000_000, 6_250, 700_000, 2_500_000);
    let ev = MessageEvent {
        attachment_count_with_dimension: 2,
        content_length_codepoints: 400,
        mention_count: 1,
        role_mention_count: 2,
        mentions_everyone: true,
        line_break_count: 3,
    };
    // 10 + 2*8 + 400*0.00000625*1e6... exact micro-units:
    // 10_000_000 + 16_000_000 + 400*6_250 + 4*2_500_000 + 3*700_000
    let expected = 10_000_000 + 16_000_000 + 2_500_000 + 10_000_000 + 2_100_000;
    assert_eq!(message_pressure(&conf, &ev), expected);
}

#[test]
fn base_only_message_is_worth_the_base() {
    let conf = weights(10_000_000, 0, 0, 0, 0);
    let ev = MessageEvent {
        attachment_count_with_dimension: 9,
        content_length_codepoints: 9_999,
        mention_count: 9,
        role_mention_count: 9,
        mentions_everyone: true,
        line_break_count: 9,
    };
    assert_eq!(message_pressure(&conf, &ev), 10_000_000);
}

#[test]
fn overflowing_pressure_clamps_to_the_maximum() {
    let conf = weights(1, u64::MAX, 0, 0, 0);
    let ev = MessageEvent {
        attachment_count_with_dimension: 3,
        content_length_codepoints: 0,
        mention_count: 0,
        role_mention_count: 0,
        mentions_everyone: false,
        line_break_count: 0,
    };
    assert_eq!(message_pressure(&conf, &ev), u64::MAX);
}

#[test]
fn saturating_helpers_clamp_at_the_top() {
    assert_eq!(sat_add(u64::MAX - 1, 1), u64::MAX);
    assert_eq!(sat_add(u64::MAX, 5), u64::MAX);
    assert_eq!(sat_add(2, 3), 5);
    assert_eq!(sat_mul(u64::MAX / 2 + 1, 2), u64::MAX);
    assert_eq!(sat_mul(0, u64::MAX), 0);
    assert_eq!(sat_mul(7, 6), 42);
}

#[test]
fn every_vertical_whitespace_counts_once() {
    assert_eq!(line_break_count(""), 0);
    assert_eq!(line_break_count("no breaks here"), 0);
    assert_eq!(line_break_count("a\nb"), 1);
    assert_eq!(line_break_count("a\r\nb"), 2);
    assert_eq!(line_break_count("\n\n\n"), 3);
    assert_eq!(line_break_count("a\u{000B}b\u{000C}c"), 2);
    assert_eq!(line_break_count("x\u{2028}y\u{2029}z"), 2);
    assert_eq!(line_break_count("tab\tand space are not breaks"), 0);
}

#[test]
fn mention_of_everyone_counts_as_one_ping() {
    let conf = weights(0, 0, 0, 0, 1_000_000);
    let quiet = MessageEvent {
        attachment_count_with_dimension: 0,
        content_length_codepoints: 0,
        mention_count: 2,
        role_mention_count: 1,
        mentions_everyone: false,
        line_break_count: 0,
    };
    let loud = MessageEvent { mentions_everyone: true, ..quiet };
    assert_eq!(message_pressure(&conf, &quiet), 3_000_000);
    assert_eq!(message_pressure(&conf, &loud), 4_000_000);
}
