//! Lifecycle transition policy.
//!
//! A memory moves Active -> Cooling -> Cold -> Zombie. The policy decides,
//! from a memory's access pattern, age in its status and importance, whether
//! it moves one step at a given instant. Every decision is a function of the
//! memory and of that instant, which the caller reads from its clock.

use vstd::prelude::*;
use crate::floats::{f32_le, le};
use crate::types::{EntryView, MemoryEntry, MemoryStatus, Timestamp};

verus! {

/// Microseconds in a day.
pub const DAY_MICROS: i128 = 86_400_000_000i128;

/// The instant `days` days before `now`.
pub open spec fn threshold_spec(now: Timestamp, days: i64) -> int {
    now - days * DAY_MICROS
}

/// The instant `days` days before `now`, in microseconds.
pub fn threshold_at(now: Timestamp, days: i64) -> (r: i128)
    ensures
        r == threshold_spec(now, days),
{
    assert(-0x8000_0000_0000_0000 <= days <= 0x7FFF_FFFF_FFFF_FFFF);
    assert(days * DAY_MICROS <= 0x7FFF_FFFF_FFFF_FFFF * DAY_MICROS) by (nonlinear_arith)
        requires
            days <= 0x7FFF_FFFF_FFFF_FFFF,
    ;
    assert(days * DAY_MICROS >= -0x8000_0000_0000_0000 * DAY_MICROS) by (nonlinear_arith)
        requires
            days >= -0x8000_0000_0000_0000,
    ;
    (now as i128) - (days as i128) * DAY_MICROS
}

/// Policy configuration for lifecycle transitions.
#[derive(Debug, Clone, Copy)]
pub struct PolicyConfig {
    /// Days without access before transitioning from Active to Cooling.
    pub active_to_cooling_days: i64,
    /// Days in Cooling status before transitioning to Cold.
    pub cooling_to_cold_days: i64,
    /// Days without access before transitioning from Cold to Zombie.
    pub cold_to_zombie_days: i64,
    /// Minimum access count to keep a memory Active.
    pub min_access_count: u64,
    /// Days that count as recent for accesses.
    pub access_count_window_days: i64,
    /// Minimum importance (bit pattern of an `f32` in [0, 1]) to avoid Zombie.
    pub min_importance_score: u32,
}

impl Default for PolicyConfig {
    /// 7, 14 and 30 days for the three steps, one access, a 7-day window and
    /// a minimum importance of 0.1.
    fn default() -> (r: Self)
        ensures
            r.active_to_cooling_days == 7,
            r.cooling_to_cold_days == 14,
            r.cold_to_zombie_days == 30,
            r.min_access_count == 1,
            r.access_count_window_days == 7,
            r.min_importance_score == 0x3DCC_CCCDu32,
    {
        PolicyConfig {
            active_to_cooling_days: 7,
            cooling_to_cold_days: 14,
            cold_to_zombie_days: 30,
            min_access_count: 1,
            access_count_window_days: 7,
            min_importance_score: 0x3DCC_CCCDu32,
        }
    }
}

/// The memory was accessed after the start of the recent-access window.
pub open spec fn has_recent_access_spec(c: PolicyConfig, m: EntryView, now: Timestamp) -> bool {
    match m.last_accessed {
        Some(t) => t > threshold_spec(now, c.access_count_window_days),
        None => false,
    }
}

/// The memory was accessed within the `days` days before `now`.
pub open spec fn accessed_within_spec(m: EntryView, days: i64, now: Timestamp) -> bool {
    match m.last_accessed {
        Some(t) => t > threshold_spec(now, days),
        None => false,
    }
}

/// The memory has been accessed at least the minimum number of times.
pub open spec fn has_sufficient_access_spec(c: PolicyConfig, m: EntryView) -> bool {
    m.access_count >= c.min_access_count
}

/// The memory was last updated more than `days` days before `now`.
pub open spec fn long_enough_spec(m: EntryView, days: i64, now: Timestamp) -> bool {
    m.updated_at < threshold_spec(now, days)
}

/// The memory's importance is at least the minimum (IEEE comparison).
pub open spec fn has_sufficient_importance_spec(c: PolicyConfig, m: EntryView) -> bool {
    f32_le(c.min_importance_score, m.metadata.importance)
}

/// The status a memory moves to at `now`, if it moves.
pub open spec fn next_status_spec(c: PolicyConfig, m: EntryView, now: Timestamp) -> Option<
    MemoryStatus,
> {
    match m.status {
        MemoryStatus::Active => if !accessed_within_spec(m, c.active_to_cooling_days, now)
            && !has_sufficient_access_spec(c, m) {
            Some(MemoryStatus::Cooling)
        } else {
            None
        },
        MemoryStatus::Cooling => if long_enough_spec(m, c.cooling_to_cold_days, now) {
            Some(MemoryStatus::Cold)
        } else {
            None
        },
        MemoryStatus::Cold => if !accessed_within_spec(m, c.cold_to_zombie_days, now)
            && !has_sufficient_importance_spec(c, m) {
            Some(MemoryStatus::Zombie)
        } else {
            None
        },
        MemoryStatus::Zombie => None,
    }
}

/// The next status in the lifecycle order, if any.
pub open spec fn successor(s: MemoryStatus) -> Option<MemoryStatus> {
    match s {
        MemoryStatus::Active => Some(MemoryStatus::Cooling),
        MemoryStatus::Cooling => Some(MemoryStatus::Cold),
        MemoryStatus::Cold => Some(MemoryStatus::Zombie),
        MemoryStatus::Zombie => None,
    }
}

/// The transitions that a manual status change may make: one step down the
/// lifecycle, any step back towards Active (Cooling and Cold to Active,
/// Cold to Cooling, Zombie to Active), and staying put.
pub open spec fn is_valid_transition_spec(from: MemoryStatus, to: MemoryStatus) -> bool {
    ||| from == to
    ||| (from == MemoryStatus::Active && to == MemoryStatus::Cooling)
    ||| (from == MemoryStatus::Cooling && (to == MemoryStatus::Cold || to == MemoryStatus::Active))
    ||| (from == MemoryStatus::Cold && (to == MemoryStatus::Zombie || to == MemoryStatus::Cooling
        || to == MemoryStatus::Active))
    ||| (from == MemoryStatus::Zombie && to == MemoryStatus::Active)
}

/// Whether a status change is allowed (see `is_valid_transition_spec`).
pub fn is_valid_transition(from: MemoryStatus, to: MemoryStatus) -> (r: bool)
    ensures
        r == is_valid_transition_spec(from, to),
{
    match (from, to) {
        (MemoryStatus::Active, MemoryStatus::Cooling) => true,
        (MemoryStatus::Cooling, MemoryStatus::Cold) => true,
        (MemoryStatus::Cooling, MemoryStatus::Active) => true,
        (MemoryStatus::Cold, MemoryStatus::Zombie) => true,
        (MemoryStatus::Cold, MemoryStatus::Cooling) => true,
        (MemoryStatus::Cold, MemoryStatus::Active) => true,
        (MemoryStatus::Zombie, MemoryStatus::Active) => true,
        _ => from == to,
    }
}

impl PolicyConfig {
    /// The start of the Active -> Cooling window, `active_to_cooling_days`
    /// days before `now`.
    pub fn active_threshold(&self, now: Timestamp) -> (r: i128)
        ensures
            r == threshold_spec(now, self.active_to_cooling_days),
    {
        threshold_at(now, self.active_to_cooling_days)
    }

    /// The start of the Cold -> Zombie window, `cold_to_zombie_days` days
    /// before `now`.
    pub fn cold_threshold(&self, now: Timestamp) -> (r: i128)
        ensures
            r == threshold_spec(now, self.cold_to_zombie_days),
    {
        threshold_at(now, self.cold_to_zombie_days)
    }

    /// The start of the recent-access window, `access_count_window_days`
    /// days before `now`.
    pub fn access_count_threshold(&self, now: Timestamp) -> (r: i128)
        ensures
            r == threshold_spec(now, self.access_count_window_days),
    {
        threshold_at(now, self.access_count_window_days)
    }

    /// Whether the memory was accessed within the window ending at `now`.
    pub fn has_recent_access(&self, memory: &MemoryEntry, now: Timestamp) -> (r: bool)
        ensures
            r == has_recent_access_spec(*self, memory@, now),
    {
        let threshold = self.access_count_threshold(now);
        match memory.last_accessed {
            Some(t) => (t as i128) > threshold,
            None => false,
        }
    }

    /// Whether the memory has been accessed at least `min_access_count` times.
    pub fn has_sufficient_access(&self, memory: &MemoryEntry) -> (r: bool)
        ensures
            r == has_sufficient_access_spec(*self, memory@),
    {
        memory.access_count >= self.min_access_count
    }

    /// Whether the memory was last updated more than `required_days` days
    /// before `now`.
    pub fn has_been_in_status_long_enough(
        &self,
        memory: &MemoryEntry,
        required_days: i64,
        now: Timestamp,
    ) -> (r: bool)
        ensures
            r == long_enough_spec(memory@, required_days, now),
    {
        let threshold = threshold_at(now, required_days);
        (memory.updated_at as i128) < threshold
    }

    /// Whether the memory's importance is at least `min_importance_score`.
    pub fn has_sufficient_importance(&self, memory: &MemoryEntry) -> (r: bool)
        ensures
            r == has_sufficient_importance_spec(*self, memory@),
    {
        le(self.min_importance_score, memory.metadata.importance)
    }

    /// Whether the memory was accessed within the `days` days before `now`.
    fn accessed_within_at(memory: &MemoryEntry, days: i64, now: Timestamp) -> (r: bool)
        ensures
            r == accessed_within_spec(memory@, days, now),
    {
        let threshold = threshold_at(now, days);
        match memory.last_accessed {
            Some(t) => (t as i128) > threshold,
            None => false,
        }
    }

    /// The status the memory moves to at `now`, if it moves: Active to
    /// Cooling when not accessed within `active_to_cooling_days` and with
    /// too few accesses; Cooling to Cold once updated more than
    /// `cooling_to_cold_days` ago; Cold to Zombie when not accessed within
    /// `cold_to_zombie_days` and below the minimum importance; Zombie never.
    pub fn get_next_status(&self, memory: &MemoryEntry, now: Timestamp) -> (r: Option<
        MemoryStatus,
    >)
        ensures
            r == next_status_spec(*self, memory@, now),
    {
        match memory.status {
            MemoryStatus::Active => {
                if !PolicyConfig::accessed_within_at(memory, self.active_to_cooling_days, now)
                    && !self.has_sufficient_access(memory) {
                    Some(MemoryStatus::Cooling)
                } else {
                    None
                }
            },
            MemoryStatus::Cooling => {
                if self.has_been_in_status_long_enough(memory, self.cooling_to_cold_days, now) {
                    Some(MemoryStatus::Cold)
                } else {
                    None
                }
            },
            MemoryStatus::Cold => {
                if !PolicyConfig::accessed_within_at(memory, self.cold_to_zombie_days, now)
                    && !self.has_sufficient_importance(memory) {
                    Some(MemoryStatus::Zombie)
                } else {
                    None
                }
            },
            MemoryStatus::Zombie => None,
        }
    }

    /// Whether the memory moves at `now`.
    pub fn should_transition(&self, memory: &MemoryEntry, now: Timestamp) -> (r: bool)
        ensures
            r == next_status_spec(*self, memory@, now) is Some,
    {
        self.get_next_status(memory, now).is_some()
    }

}

/// Decides when memories move through the lifecycle.
pub trait TransitionPolicy {
    /// The status the memory moves to at `now`, if it moves.
    fn get_next_status(&self, memory: &MemoryEntry, now: Timestamp) -> Option<MemoryStatus>;

    /// Whether the memory moves at `now`.
    fn should_transition(&self, memory: &MemoryEntry, now: Timestamp) -> bool;

    /// The policy configuration.
    fn config(&self) -> &PolicyConfig;
}

/// The default policy: the rules of `PolicyConfig` with a given configuration.
#[derive(Debug, Clone, Copy)]
pub struct DefaultTransitionPolicy {
    config: PolicyConfig,
}

impl DefaultTransitionPolicy {
    /// The policy with the default configuration.
    pub fn new() -> (r: Self)
        ensures
            r.view() == (PolicyConfig {
                active_to_cooling_days: 7,
                cooling_to_cold_days: 14,
                cold_to_zombie_days: 30,
                min_access_count: 1,
                access_count_window_days: 7,
                min_importance_score: 0x3DCC_CCCDu32,
            }),
    {
        DefaultTransitionPolicy { config: PolicyConfig::default() }
    }

    /// The policy with the given configuration.
    pub fn with_config(config: PolicyConfig) -> (r: Self)
        ensures
            r.view() == config,
    {
        DefaultTransitionPolicy { config }
    }

    /// The configuration the policy applies.
    pub closed spec fn view(&self) -> PolicyConfig {
        self.config
    }
}

impl Default for DefaultTransitionPolicy {
    fn default() -> (r: Self)
        ensures
            r.view() == (PolicyConfig {
                active_to_cooling_days: 7,
                cooling_to_cold_days: 14,
                cold_to_zombie_days: 30,
                min_access_count: 1,
                access_count_window_days: 7,
                min_importance_score: 0x3DCC_CCCDu32,
            }),
    {
        DefaultTransitionPolicy::new()
    }
}

impl TransitionPolicy for DefaultTransitionPolicy {
    fn get_next_status(&self, memory: &MemoryEntry, now: Timestamp) -> (r: Option<MemoryStatus>)
        ensures
            r == next_status_spec(self.view(), memory@, now),
    {
        self.config.get_next_status(memory, now)
    }

    fn should_transition(&self, memory: &MemoryEntry, now: Timestamp) -> (r: bool)
        ensures
            r == next_status_spec(self.view(), memory@, now) is Some,
    {
        self.config.get_next_status(memory, now).is_some()
    }

    fn config(&self) -> (r: &PolicyConfig)
        ensures
            *r == self.view(),
    {
        &self.config
    }
}

/// The policy's checks, with a day of 86 400 000 000 microseconds: a window
/// of `days` days ending at `now` starts `days` days before it; a memory was
/// accessed recently when its last access falls after the start of the
/// recent-access window; it has been in its status long enough when last
/// updated before the start of the window; it was accessed enough when its
/// count reaches the minimum.
pub proof fn lemma_policy_checks_by_fields(c: PolicyConfig, m: EntryView, days: i64, now: Timestamp)
    ensures
        threshold_spec(now, days) == now - days * 86_400_000_000,
        has_recent_access_spec(c, m, now) == (m.last_accessed matches Some(l) && l > now
            - c.access_count_window_days * 86_400_000_000),
        long_enough_spec(m, days, now) == (m.updated_at < now - days * 86_400_000_000),
        has_sufficient_access_spec(c, m) == (m.access_count >= c.min_access_count),
        has_sufficient_importance_spec(c, m) == f32_le(c.min_importance_score, m.metadata.importance),
{
}

/// What the policy decides, field by field, with a day of 86 400 000 000
/// microseconds: an Active memory cools when its last access (if any) is at
/// least `active_to_cooling_days` days old and it was accessed fewer than
/// `min_access_count` times; a Cooling memory goes Cold once last updated
/// more than `cooling_to_cold_days` days ago; a Cold memory becomes a Zombie
/// when its last access (if any) is at least `cold_to_zombie_days` days old
/// and its importance is below `min_importance_score`; a Zombie stays.
pub proof fn lemma_policy_decision_by_fields(c: PolicyConfig, m: EntryView, now: Timestamp)
    ensures
        m.status == MemoryStatus::Active ==> next_status_spec(c, m, now) == (if (m.last_accessed matches Some(
            l,
        ) ==> l <= now - c.active_to_cooling_days * 86_400_000_000) && m.access_count < c.min_access_count {
            Some(MemoryStatus::Cooling)
        } else {
            None::<MemoryStatus>
        }),
        m.status == MemoryStatus::Cooling ==> next_status_spec(c, m, now) == (if m.updated_at < now
            - c.cooling_to_cold_days * 86_400_000_000 {
            Some(MemoryStatus::Cold)
        } else {
            None::<MemoryStatus>
        }),
        m.status == MemoryStatus::Cold ==> next_status_spec(c, m, now) == (if (m.last_accessed matches Some(
            l,
        ) ==> l <= now - c.cold_to_zombie_days * 86_400_000_000) && !f32_le(
            c.min_importance_score,
            m.metadata.importance,
        ) {
            Some(MemoryStatus::Zombie)
        } else {
            None::<MemoryStatus>
        }),
        m.status == MemoryStatus::Zombie ==> next_status_spec(c, m, now) is None,
{
}

/// A memory that moves under the policy moves exactly one step down the
/// lifecycle, and that step is an allowed transition.
pub proof fn lemma_policy_moves_one_step(c: PolicyConfig, m: EntryView, now: Timestamp)
    ensures
        next_status_spec(c, m, now) matches Some(s) ==> successor(m.status) == Some(s)
            && is_valid_transition_spec(m.status, s),
{
}

/// A Zombie memory never moves under the policy.
pub proof fn lemma_zombie_is_final(c: PolicyConfig, m: EntryView, now: Timestamp)
    requires
        m.status == MemoryStatus::Zombie,
    ensures
        next_status_spec(c, m, now) is None,
{
}

/// A memory accessed within its status's idle period is neither cooled
/// nor buried: an Active one accessed within `active_to_cooling_days` stays
/// Active, a Cold one accessed within `cold_to_zombie_days` stays Cold.
pub proof fn lemma_recent_access_protects(c: PolicyConfig, m: EntryView, now: Timestamp)
    requires
        (m.status == MemoryStatus::Active && accessed_within_spec(m, c.active_to_cooling_days, now))
            || (m.status == MemoryStatus::Cold && accessed_within_spec(m, c.cold_to_zombie_days, now)),
    ensures
        next_status_spec(c, m, now) is None,
{
}

/// A Cold memory whose importance reaches the minimum never becomes Zombie.
pub proof fn lemma_importance_protects(c: PolicyConfig, m: EntryView, now: Timestamp)
    requires
        m.status == MemoryStatus::Cold,
        has_sufficient_importance_spec(c, m),
    ensures
        next_status_spec(c, m, now) is None,
{
}

/// Later instants only widen the idle periods: a memory that moves at `t1`
/// moves the same way at any later `t2`.
pub proof fn lemma_moves_stay_due(c: PolicyConfig, m: EntryView, t1: Timestamp, t2: Timestamp)
    requires
        t1 <= t2,
        next_status_spec(c, m, t1) is Some,
    ensures
        next_status_spec(c, m, t2) == next_status_spec(c, m, t1),
{
}

} // verus!
