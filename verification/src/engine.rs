//! Orchestration of the spam engine, one inbound message at a time.
//!
//! The surrounding dispatch framework owns the suspension points — fetching
//! configuration from the persistent store and handing actions to the
//! moderation dispatcher. This module holds every decision between them:
//! cache freshness, the pressure update, the breach test, the exemption
//! checks and the construction of the action record. A failed configuration
//! fetch aborts that one event before any accumulator mutation; a failed
//! dispatch is logged by the caller and never retried.

use vstd::prelude::*;
use crate::accumulator::UserPressure;
use crate::cache::{ConfigCache, DEFAULT_CONFIG_TTL};
use crate::moderation::{ActionKind, ModAction};
use crate::pressure::{clamp_u64, message_pressure, raw_pressure, MessageEvent};
use crate::table::PressureTable;
use crate::weights::SpamConfig;

verus! {

/// Why processing of one event stopped. Every failure is scoped to its
/// event; neither the cache nor any accumulator is harmed by it.
#[derive(Clone, Copy, Debug, PartialEq, Eq, Structural)]
pub enum CoreError {
    /// The persistent store was unreachable or returned a malformed
    /// configuration; the event's pressure update is skipped entirely.
    ConfigFetchFailed,
    /// The moderation dispatcher could not apply the action; logged by the
    /// caller, never retried, and no acknowledgment reaction is emitted.
    DispatchFailed,
}

impl CoreError {
    /// A short description of the failure.
    pub fn message(&self) -> (r: &'static str)
        ensures
            self is ConfigFetchFailed ==> r@ == "could not fetch spam configuration"@,
            self is DispatchFailed ==> r@ == "could not apply moderation action"@,
    {
        match self {
            CoreError::ConfigFetchFailed => "could not fetch spam configuration",
            CoreError::DispatchFailed => "could not apply moderation action",
        }
    }
}

/// Whether the triggering user is exempt from automatic action: the guild
/// owner, a holder of the configured moderator role, or a holder of the
/// configured ignore role. `None` stands for a role that is not configured,
/// whose check is skipped.
pub fn is_exempt(is_owner: bool, holds_mod_role: Option<bool>, holds_ignore_role: Option<
    bool,
>) -> (r: bool)
    ensures
        r == (is_owner || holds_mod_role == Some(true) || holds_ignore_role == Some(true)),
{
    if is_owner {
        true
    } else if matches!(holds_mod_role, Some(true)) {
        true
    } else {
        matches!(holds_ignore_role, Some(true))
    }
}

/// Decides what to do about a user whose pressure breached the threshold:
/// nothing if the user is exempt, otherwise a mute action against the user,
/// attributed to the bot, with reason `"Spam"`, pointing back at the
/// triggering message, lasting `silence_timeout` — or indefinitely when the
/// configured timeout is zero.
pub fn plan_action(
    conf: &SpamConfig,
    guild: u64,
    user: u64,
    channel: u64,
    bot: u64,
    message: u64,
    is_owner: bool,
    holds_mod_role: Option<bool>,
    holds_ignore_role: Option<bool>,
) -> (r: Option<ModAction>)
    ensures
        (r is None) == (is_owner || holds_mod_role == Some(true) || holds_ignore_role == Some(
            true,
        )),
        r matches Some(a) ==> {
            &&& a.spec_guild() == guild
            &&& a.spec_user() == user
            &&& a.spec_channel() == channel
            &&& a.spec_moderator() == bot
            &&& a.spec_action() == ActionKind::Mute
            &&& a.reason_chars() == Some("Spam"@)
            &&& a.spec_original_message() == Some(message)
            &&& a.spec_duration() == (if conf.silence_timeout > 0 {
                Some(conf.silence_timeout)
            } else {
                None::<u64>
            })
        },
{
    if is_exempt(is_owner, holds_mod_role, holds_ignore_role) {
        return None;
    }
    let duration = if conf.silence_timeout > 0 {
        Some(conf.silence_timeout)
    } else {
        None
    };
    Some(
        ModAction::new(guild, user, channel, bot, ActionKind::Mute).with_duration(
            duration,
        ).with_reason("Spam").with_original_message(message),
    )
}

/// The spam engine: a TTL cache of per-guild weights and the table of
/// per-(guild, user) accumulators, owned as one instance and handed to
/// event handlers — never ambient global state.
pub struct SpamModule {
    /// The per-guild configuration cache.
    pub cache: ConfigCache,
    /// The per-(guild, user) accumulator table.
    pub user_pressure: PressureTable,
}

impl Default for SpamModule {
    /// An engine with an empty accumulator table and an empty configuration
    /// cache using the stock validity window.
    fn default() -> (m: SpamModule)
        ensures
            m.cache.ttl() == DEFAULT_CONFIG_TTL,
            m.cache.entries() == Map::<u64, crate::cache::CacheEntry>::empty(),
            m.user_pressure.states() == Map::<u128, UserPressure>::empty(),
    {
        SpamModule { cache: ConfigCache::new(DEFAULT_CONFIG_TTL), user_pressure: PressureTable::new() }
    }
}

impl SpamModule {
    /// Folds one message into its author's accumulator under the given
    /// weights and reports the new state, along with whether the new
    /// pressure breached the configured threshold.
    pub fn record_message(
        &mut self,
        guild: u64,
        user: u64,
        ev: &MessageEvent,
        conf: &SpamConfig,
        now: u64,
    ) -> (r: (UserPressure, bool))
        ensures
            r.0 == match old(self).user_pressure.state_of(guild, user) {
                Some(s) => s.updated(clamp_u64(raw_pressure(*conf, *ev)) as u64, *conf, now),
                None => UserPressure::initial_spec(now).updated(
                    clamp_u64(raw_pressure(*conf, *ev)) as u64,
                    *conf,
                    now,
                ),
            },
            r.1 == (r.0.pressure >= conf.max_pressure),
            final(self).user_pressure.state_of(guild, user) == Some(r.0),
            forall|g: u64, u: u64|
                !(g == guild && u == user) ==> final(self).user_pressure.state_of(g, u) == old(
                    self,
                ).user_pressure.state_of(g, u),
            final(self).cache == old(self).cache,
    {
        let contribution = message_pressure(conf, ev);
        let state = self.user_pressure.update_and_fetch(guild, user, contribution, conf, now);
        let breach = state.pressure >= conf.max_pressure;
        (state, breach)
    }

    /// The cached weights of a guild if they are still fresh at `now`;
    /// `None` obliges the caller to fetch from the store and, on success,
    /// hand the result to [`SpamModule::store_config`] — or to surface
    /// [`CoreError::ConfigFetchFailed`] for this one event, leaving every
    /// accumulator untouched.
    pub fn config_hit(&self, guild: u64, now: u64) -> (r: Option<SpamConfig>)
        ensures
            match r {
                Some(conf) => self.cache.entries().contains_key(guild) && self.cache.entry_fresh(
                    self.cache.entries()[guild],
                    now,
                ) && conf == self.cache.entries()[guild].value,
                None => !self.cache.entries().contains_key(guild) || !self.cache.entry_fresh(
                    self.cache.entries()[guild],
                    now,
                ),
            },
    {
        self.cache.lookup_fresh(guild, now)
    }

    /// Records a configuration fetched from the store at `now`.
    pub fn store_config(&mut self, guild: u64, conf: SpamConfig, now: u64)
        ensures
            final(self).cache.entries() == old(self).cache.entries().insert(
                guild,
                crate::cache::CacheEntry { value: conf, fetched_at: now },
            ),
            final(self).cache.ttl() == old(self).cache.ttl(),
            final(self).user_pressure == old(self).user_pressure,
    {
        self.cache.store(guild, conf, now);
    }

    /// The periodic hook: reserved for future cache maintenance, today a
    /// no-op that touches nothing.
    pub fn on_tick(&mut self)
        ensures
            final(self).cache == old(self).cache,
            final(self).user_pressure == old(self).user_pressure,
    {
    }
}

} // verus!
