//! Per-(guild, user) decaying pressure accumulator.
//!
//! Between two events the accumulated pressure decays linearly: one
//! `base_pressure` worth of pressure is removed per `pressure_decay`
//! microseconds, never below zero. A `pressure_decay` of zero is the
//! distinguished "no decay" policy: decay is skipped entirely.

use vstd::prelude::*;
use crate::pressure::clamp_u64;
use crate::weights::SpamConfig;

verus! {

/// The ephemeral pressure state of one user in one guild.
#[derive(Clone, Copy, Debug, PartialEq, Eq, Structural)]
pub struct UserPressure {
    /// Instant of the last update, in microseconds.
    pub last_update: u64,
    /// Accumulated pressure, in micro-units.
    pub pressure: u64,
}

/// How much pressure decays away over `elapsed` microseconds.
pub open spec fn decay_amount(elapsed: int, conf: SpamConfig) -> int {
    (elapsed * conf.base_pressure) / conf.pressure_decay as int
}

/// `p` after decaying over `elapsed` microseconds: untouched when decay is
/// disabled or nothing has accumulated, otherwise reduced and clamped at zero.
pub open spec fn decayed(p: int, elapsed: int, conf: SpamConfig) -> int {
    if conf.pressure_decay > 0 && p > 0 {
        if p - decay_amount(elapsed, conf) < 0 {
            0
        } else {
            p - decay_amount(elapsed, conf)
        }
    } else {
        p
    }
}

impl UserPressure {
    /// The state recorded on a user's first event: no pressure yet.
    pub fn initial(now: u64) -> (s: UserPressure)
        ensures
            s == UserPressure::initial_spec(now),
    {
        UserPressure { last_update: now, pressure: 0 }
    }

    /// Spec-level counterpart of [`UserPressure::initial`].
    pub open spec fn initial_spec(now: u64) -> UserPressure {
        UserPressure { last_update: now, pressure: 0 }
    }

    /// The state one update produces: decay the old pressure over the time
    /// elapsed since the last update, add the new contribution, clamp into
    /// the representable range, and stamp the current instant.
    pub open spec fn updated(self, contribution: u64, conf: SpamConfig, now: u64) -> UserPressure {
        let elapsed = if now >= self.last_update {
            now - self.last_update
        } else {
            0
        };
        UserPressure {
            last_update: now,
            pressure: clamp_u64(
                decayed(self.pressure as int, elapsed as int, conf) + contribution,
            ) as u64,
        }
    }

    /// Folds a whole sequence of updates, oldest first, into the state.
    /// Each element carries a pressure contribution and the instant it
    /// arrives at.
    pub open spec fn updated_all(self, events: Seq<(u64, u64)>, conf: SpamConfig) -> UserPressure
        decreases events.len(),
    {
        if events.len() == 0 {
            self
        } else {
            self.updated(events[0].0, conf, events[0].1).updated_all(events.drop_first(), conf)
        }
    }

    /// Applies one event to the accumulator: first linear decay of the old
    /// pressure over the elapsed time, then the new contribution, both
    /// clamped into the representable range. Numeric edge cases are never
    /// errors.
    pub fn update(self, new_pressure: u64, conf: &SpamConfig, now: u64) -> (r: UserPressure)
        ensures
            r == self.updated(new_pressure, *conf, now),
    {
        let elapsed: u64 = if now >= self.last_update {
            now - self.last_update
        } else {
            0
        };
        let mut pressure = self.pressure;
        if conf.pressure_decay > 0 && pressure > 0 {
            proof {
                assert(elapsed as int * conf.base_pressure as int <= u64::MAX as int
                    * u64::MAX as int) by (nonlinear_arith)
                    requires
                        0 <= elapsed <= u64::MAX,
                        0 <= conf.base_pressure <= u64::MAX,
                ;
            }
            let decay: u128 = (elapsed as u128 * conf.base_pressure as u128) / (
            conf.pressure_decay as u128);
            proof {
                assert(decay == decay_amount(elapsed as int, *conf));
            }
            if decay >= pressure as u128 {
                pressure = 0;
            } else {
                pressure = pressure - decay as u64;
            }
        }
        let pressure = crate::pressure::sat_add(pressure, new_pressure);
        UserPressure { last_update: now, pressure }
    }
}

/// With any non-negative weight set whose decay period is positive, the
/// accumulated pressure is at least zero after any sequence of updates.
pub proof fn lemma_pressure_nonnegative(
    start: UserPressure,
    events: Seq<(u64, u64)>,
    conf: SpamConfig,
)
    requires
        conf.pressure_decay > 0,
    ensures
        start.updated_all(events, conf).pressure >= 0,
    decreases events.len(),
{
    if events.len() > 0 {
        lemma_pressure_nonnegative(start.updated(events[0].0, conf, events[0].1), events.drop_first(), conf);
    }
}

/// With decay disabled, one update never lowers the pressure.
pub proof fn lemma_no_decay_step(start: UserPressure, contribution: u64, now: u64, conf: SpamConfig)
    requires
        conf.pressure_decay == 0,
    ensures
        start.updated(contribution, conf, now).pressure >= start.pressure,
{
}

/// With decay disabled, the pressure is monotonically non-decreasing across
/// any sequence of updates.
pub proof fn lemma_no_decay_monotone(
    start: UserPressure,
    events: Seq<(u64, u64)>,
    conf: SpamConfig,
)
    requires
        conf.pressure_decay == 0,
    ensures
        start.updated_all(events, conf).pressure >= start.pressure,
    decreases events.len(),
{
    if events.len() > 0 {
        lemma_no_decay_step(start, events[0].0, events[0].1, conf);
        lemma_no_decay_monotone(start.updated(events[0].0, conf, events[0].1), events.drop_first(), conf);
    }
}

/// Additivity modulo decay: two updates with contributions `p1` then `p2`
/// at instants `t1 < t2`, starting from a fresh accumulator, leave exactly
/// `p1` decayed over `t2 - t1` plus `p2` — reads in between change nothing,
/// since only updates mutate the state.
pub proof fn lemma_additivity_modulo_decay(p1: u64, p2: u64, t1: u64, t2: u64, conf: SpamConfig)
    requires
        t1 < t2,
    ensures
        UserPressure::initial_spec(t1).updated(p1, conf, t1).updated(p2, conf, t2).pressure
            == clamp_u64(decayed(p1 as int, t2 - t1, conf) + p2),
{
    let s1 = UserPressure::initial_spec(t1).updated(p1, conf, t1);
    assert(s1.pressure == p1);
    assert(s1.last_update == t1);
}

} // verus!
