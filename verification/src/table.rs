//! Concurrent-style store of per-(guild, user) accumulator state.
//!
//! The two-level guild-to-user grouping is flattened into a single mapping
//! keyed by the pair packed into one integer, avoiding double lookups; the
//! grouping is an implementation artifact, not a semantic. All mutation goes
//! through [`PressureTable::update_and_fetch`], which applies a whole
//! read-modify-write in one step under the exclusive borrow — per-key
//! linearizability is then the caller's lock discipline around the table.

use vstd::prelude::*;
use std::collections::HashMap;
use crate::accumulator::UserPressure;
use crate::weights::SpamConfig;

verus! {

broadcast use vstd::std_specs::hash::group_hash_axioms;

/// The packed (guild, user) key: the guild id in the upper half, the user
/// id in the lower half.
pub open spec fn pair_key(guild: u64, user: u64) -> u128 {
    (guild * 0x1_0000_0000_0000_0000 + user) as u128
}

/// Packing is injective: equal keys come from equal pairs.
pub proof fn lemma_pair_key_injective(g1: u64, u1: u64, g2: u64, u2: u64)
    requires
        pair_key(g1, u1) == pair_key(g2, u2),
    ensures
        g1 == g2 && u1 == u2,
{
    assert(g1 == g2 && u1 == u2) by (nonlinear_arith)
        requires
            g1 * 0x1_0000_0000_0000_0000 + u1 == g2 * 0x1_0000_0000_0000_0000 + u2,
            0 <= u1 < 0x1_0000_0000_0000_0000,
            0 <= u2 < 0x1_0000_0000_0000_0000,
            0 <= g1,
            0 <= g2,
    ;
}

/// Lazily populated mapping from (guild, user) to accumulator state; entries
/// are created on a user's first event and never evicted here.
pub struct PressureTable {
    states: HashMap<u128, UserPressure>,
}

impl PressureTable {
    /// The stored states, packed key to accumulator state.
    pub closed spec fn states(self) -> Map<u128, UserPressure> {
        self.states@
    }

    /// The state recorded for one (guild, user) pair, if any.
    pub open spec fn state_of(self, guild: u64, user: u64) -> Option<UserPressure> {
        if self.states().contains_key(pair_key(guild, user)) {
            Some(self.states()[pair_key(guild, user)])
        } else {
            None
        }
    }

    /// An empty table.
    pub fn new() -> (t: PressureTable)
        ensures
            t.states() == Map::<u128, UserPressure>::empty(),
    {
        PressureTable { states: HashMap::new() }
    }

    /// The current accumulator state of a user in a guild, if the user has
    /// been seen there.
    pub fn fetch(&self, guild: u64, user: u64) -> (r: Option<UserPressure>)
        ensures
            r == self.state_of(guild, user),
    {
        let key: u128 = (guild as u128) * 0x1_0000_0000_0000_0000u128 + (user as u128);
        match self.states.get(&key) {
            Some(s) => Some(*s),
            None => None,
        }
    }

    /// The sole mutation entry point: applies one accumulator update
    /// atomically to the user's current state — or to a fresh state
    /// `{ last_update: now, pressure: 0 }` on the user's first event —
    /// stores the result and returns it. No other pair's state moves.
    pub fn update_and_fetch(
        &mut self,
        guild: u64,
        user: u64,
        contribution: u64,
        conf: &SpamConfig,
        now: u64,
    ) -> (r: UserPressure)
        ensures
            r == match old(self).state_of(guild, user) {
                Some(s) => s.updated(contribution, *conf, now),
                None => UserPressure::initial_spec(now).updated(contribution, *conf, now),
            },
            final(self).state_of(guild, user) == Some(r),
            forall|g: u64, u: u64|
                !(g == guild && u == user) ==> final(self).state_of(g, u) == old(self).state_of(
                    g,
                    u,
                ),
    {
        let key: u128 = (guild as u128) * 0x1_0000_0000_0000_0000u128 + (user as u128);
        let current = match self.states.get(&key) {
            Some(s) => *s,
            None => UserPressure::initial(now),
        };
        let next = current.update(contribution, conf, now);
        self.states.insert(key, next);
        proof {
            assert forall|g: u64, u: u64| !(g == guild && u == user) implies self.state_of(g, u)
                == old(self).state_of(g, u) by {
                if pair_key(g, u) == pair_key(guild, user) {
                    lemma_pair_key_injective(g, u, guild, user);
                }
            }
        }
        next
    }
}

} // verus!
