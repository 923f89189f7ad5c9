use glimbot::accumulator::UserPressure;
use glimbot::weights::SpamConfig;

fn conf(base: u64, decay: u64) -> SpamConfig {
    SpamConfig {
        base_pressure: base,
        image_pressure: 0,
        length_pressure: 0,
        line_pressure: 0,
        max_pressure: 60_000_000,
        ping_pressure: 0,
        pressure_decay: decay,
        silence_timeout: 0,
    }
}

#[test]
fn fresh_state_has_no_pressure() {
    let s = UserPressure::initial(123);
    assert_eq!(s.last_update, 123);
    assert_eq!(s.pressure, 0);
}

#[test]
fn one_base_unit_decays_per_period() {
    let w = conf(10_000_000, 2_500_000);
    let s = UserPressure { last_update: 0, pressure: 30_000_000 };
    // 2.5 seconds pass: exactly one base unit (10 units) decays.
    let s = s.update(5_000_000, &w, 2_500_000);
    assert_eq!(s.pressure, 30_000_000 - 10_000_000 + 5_000_000);
    assert_eq!(s.last_update, 2_500_000);
}

#[test]
fn partial_periods_decay_proportionally() {
    let w = conf(10_000_000, 2_500_000);
    let s = UserPressure { last_update: 0, pressure: 10_000_000 };
    // 1.25 seconds: half a base unit decays.
    let s = s.update(0, &w, 1_250_000);
    assert_eq!(s.pressure, 5_000_000);
}

#[test]
fn decay_never_goes_below_zero() {
    let w = conf(10_000_000, 2_500_000);
    let s = UserPressure { last_update: 0, pressure: 1_000 };
    let s = s.update(7, &w, 60_000_000_000);
    assert_eq!(s.pressure, 7);
}

#[test]
fn zero_decay_period_disables_decay() {
    let w = conf(10_000_000, 0);
    let mut s = UserPressure { last_update: 0, pressure: 5_000_000 };
    let mut previous = s.pressure;
    for step in 1..6u64 {
        s = s.update(1_000, &w, step * 1_000_000_000);
        assert!(s.pressure >= previous);
        previous = s.pressure;
    }
    assert_eq!(s.pressure, 5_005_000);
}

#[test]
fn a_clock_that_went_backwards_decays_nothing() {
    let w = conf(10_000_000, 2_500_000);
    let s = UserPressure { last_update: 1_000_000, pressure: 8_000_000 };
    let s = s.update(1, &w, 500_000);
    assert_eq!(s.pressure, 8_000_001);
    assert_eq!(s.last_update, 500_000);
}

#[test]
fn zero_pressure_skips_the_decay_step() {
    let w = conf(10_000_000, 2_500_000);
    let s = UserPressure { last_update: 0, pressure: 0 };
    let s = s.update(3_000_000, &w, 99_000_000);
    assert_eq!(s.pressure, 3_000_000);
}

#[test]
fn additivity_modulo_decay_on_concrete_values() {
    let w = conf(10_000_000, 2_500_000);
    // p1 at t1, then p2 at t2: result is p1 decayed over t2 - t1, plus p2.
    let p1 = 25_000_000;
    let p2 = 4_000_000;
    let t1 = 1_000_000;
    let t2 = 6_000_000;
    let s = UserPressure::initial(t1).update(p1, &w, t1).update(p2, &w, t2);
    let decayed = 25_000_000 - (5_000_000u64 * 10_000_000 / 2_500_000);
    assert_eq!(s.pressure, decayed + p2);
}

#[test]
fn contribution_overflow_clamps() {
    let w = conf(10_000_000, 0);
    let s = UserPressure { last_update: 0, pressure: u64::MAX - 5 };
    let s = s.update(100, &w, 10);
    assert_eq!(s.pressure, u64::MAX);
}
