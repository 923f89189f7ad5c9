use glimbot::cache::{ConfigCache, DEFAULT_CONFIG_TTL};
use glimbot::engine::{CoreError, SpamModule};
use glimbot::pressure::MessageEvent;
use glimbot::table::PressureTable;
use glimbot::weights::SpamConfig;

fn conf_with_base(base: u64) -> SpamConfig {
    SpamConfig { base_pressure: base, ..SpamConfig::default() }
}

fn event() -> MessageEvent {
    MessageEvent {
        attachment_count_with_dimension: 0,
        content_length_codepoints: 1,
        mention_count: 0,
        role_mention_count: 0,
        mentions_everyone: false,
        line_break_count: 0,
    }
}

#[test]
fn cache_misses_before_any_store() {
    let cache = ConfigCache::new(10_000_000);
    assert!(cache.lookup_fresh(1, 0).is_none());
}

#[test]
fn cache_serves_within_the_window_and_expires_after() {
    let mut cache = ConfigCache::new(10_000_000);
    let conf = conf_with_base(7);
    cache.store(1, conf, 100);
    assert_eq!(cache.lookup_fresh(1, 100), Some(conf));
    assert_eq!(cache.lookup_fresh(1, 100 + 9_999_999), Some(conf));
    assert!(cache.lookup_fresh(1, 100 + 10_000_000).is_none());
    assert!(cache.lookup_fresh(2, 100).is_none());
}

#[test]
fn a_change_is_visible_no_later_than_the_window() {
    let mut cache = ConfigCache::new(10_000_000);
    cache.store(1, conf_with_base(1), 0);
    // the stored value changes at instant 50; a refetch at any instant from
    // ttl onward is forced, so the stale entry cannot outlive the window
    assert!(cache.lookup_fresh(1, 10_000_000).is_none());
    cache.store(1, conf_with_base(2), 10_000_000);
    assert_eq!(cache.lookup_fresh(1, 10_000_001).unwrap().base_pressure, 2);
}

#[test]
fn last_write_wins_on_racing_refreshes() {
    let mut cache = ConfigCache::new(10_000_000);
    cache.store(1, conf_with_base(1), 40);
    cache.store(1, conf_with_base(2), 41);
    assert_eq!(cache.lookup_fresh(1, 42).unwrap().base_pressure, 2);
}

#[test]
fn table_tracks_each_pair_independently() {
    let mut table = PressureTable::new();
    let conf = conf_with_base(10_000_000);
    assert!(table.fetch(1, 2).is_none());
    let a = table.update_and_fetch(1, 2, 5, &conf, 100);
    assert_eq!(a.pressure, 5);
    let b = table.update_and_fetch(1, 3, 9, &conf, 100);
    assert_eq!(b.pressure, 9);
    let c = table.update_and_fetch(2, 2, 11, &conf, 100);
    assert_eq!(c.pressure, 11);
    assert_eq!(table.fetch(1, 2).unwrap().pressure, 5);
    assert_eq!(table.fetch(1, 3).unwrap().pressure, 9);
    assert_eq!(table.fetch(2, 2).unwrap().pressure, 11);
    let a2 = table.update_and_fetch(1, 2, 5, &conf, 100);
    assert_eq!(a2.pressure, 10);
}

#[test]
fn engine_cache_round_trip_and_tick() {
    let mut engine = SpamModule::default();
    assert!(engine.config_hit(9, 0).is_none());
    let conf = conf_with_base(3);
    engine.store_config(9, conf, 50);
    assert_eq!(engine.config_hit(9, 60), Some(conf));
    assert!(engine.config_hit(9, 50 + DEFAULT_CONFIG_TTL).is_none());
    engine.on_tick();
    assert_eq!(engine.config_hit(9, 60), Some(conf));
}

#[test]
fn breach_happens_exactly_at_the_threshold() {
    let mut engine = SpamModule::default();
    let conf = SpamConfig {
        base_pressure: 30_000_000,
        max_pressure: 60_000_000,
        image_pressure: 0,
        length_pressure: 0,
        line_pressure: 0,
        ping_pressure: 0,
        pressure_decay: 2_500_000,
        silence_timeout: 0,
    };
    let (first, breach1) = engine.record_message(4, 8, &event(), &conf, 10);
    assert_eq!(first.pressure, 30_000_000);
    assert!(!breach1);
    let (second, breach2) = engine.record_message(4, 8, &event(), &conf, 10);
    assert_eq!(second.pressure, 60_000_000);
    assert!(breach2);
}

#[test]
fn core_errors_describe_themselves() {
    assert_eq!(
        CoreError::ConfigFetchFailed.message(),
        "could not fetch spam configuration"
    );
    assert_eq!(
        CoreError::DispatchFailed.message(),
        "could not apply moderation action"
    );
    assert_ne!(CoreError::ConfigFetchFailed, CoreError::DispatchFailed);
}
