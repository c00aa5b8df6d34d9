//! Counting, limiting and shaping what goes through the client side of a relay.
//!
//! | operation | direction        | counters updated           |
//! |-----------|------------------|----------------------------|
//! | read      | client to server | `octets_from`, `msgs_from` |
//! | write     | server to client | `octets_to`, `msgs_to`     |
//!
//! A read or a write is a chain of steps. Each step names one thing to try, on the stream itself, on
//! the traffic lease that shapes it, or on a timer. What came of it is handed to the step, which tells
//! the next one.

pub mod combined;
pub mod effect_laws;
pub mod laws;
pub mod read;
pub mod run_laws;
pub mod write;

use vstd::prelude::*;

use crate::stats::counters::{EventCounters, Stats};
use crate::stats::user_counters::handle_given;
use crate::stats::users::{UserStats, UserStatsHandle};
use crate::time::{millis_between, Instant};

verus! {

/// A wait for a timer, and what made it necessary.
#[derive(Debug, Clone, Copy, PartialEq, Eq, Structural)]
pub struct RateWait {
    /// Whether the timer runs.
    pub sleeping: bool,
    pub started_at: Option<Instant>,
    pub blocked_user: bool,
    pub blocked_cidr: bool,
}

/// A wait that is over.
#[derive(Debug, Clone, Copy, PartialEq, Eq, Structural)]
pub struct WaitObservation {
    pub wait_ms: u64,
    pub blocked_user: bool,
    pub blocked_cidr: bool,
}

/// The sum of two numbers, as far as a machine word goes.
pub open spec fn capped_sum(a: u64, b: u64) -> u64 {
    if a + b <= u64::MAX {
        (a + b) as u64
    } else {
        u64::MAX
    }
}

/// No wait.
pub open spec fn no_wait() -> RateWait {
    RateWait { sleeping: false, started_at: None, blocked_user: false, blocked_cidr: false }
}

impl RateWait {
    /// Wait that has begun by `now` at the latest.
    pub open spec fn armed(self, now: Instant, blocked_user: bool, blocked_cidr: bool) -> RateWait {
        RateWait {
            sleeping: true,
            started_at: if self.sleeping {
                self.started_at
            } else {
                Some(now)
            },
            blocked_user: self.blocked_user || blocked_user,
            blocked_cidr: self.blocked_cidr || blocked_cidr,
        }
    }

    /// Wait whose reasons were told.
    pub open spec fn told(self) -> RateWait {
        if self.started_at is Some {
            RateWait { sleeping: self.sleeping, ..no_wait() }
        } else {
            self
        }
    }

    /// Wait whose timer has run out.
    pub open spec fn woken(self) -> RateWait {
        RateWait { sleeping: false, ..self }.told()
    }

    /// What there is to tell of the wait at `now`.
    pub open spec fn observed(self, now: Instant) -> Option<WaitObservation> {
        match self.started_at {
            Some(started_at) => Some(
                WaitObservation {
                    wait_ms: millis_between(started_at, now),
                    blocked_user: self.blocked_user,
                    blocked_cidr: self.blocked_cidr,
                },
            ),
            None => None,
        }
    }

    /// Wait after a look at its timer.
    pub open spec fn woken_if(self, over: bool) -> RateWait {
        if over {
            self.woken()
        } else {
            self
        }
    }

    /// What there is to tell of the wait at `now`, where it is to be told.
    pub open spec fn observed_if(self, over: bool, now: Instant) -> Option<WaitObservation> {
        if over {
            self.observed(now)
        } else {
            None
        }
    }

    /// No wait.
    pub fn new() -> (res: RateWait)
        ensures
            res == no_wait(),
    {
        RateWait { sleeping: false, started_at: None, blocked_user: false, blocked_cidr: false }
    }

    /// Tells how long the wait took and what for, once.
    pub fn record_wait(&mut self, now: Instant) -> (res: Option<WaitObservation>)
        ensures
            *final(self) == old(self).told(),
            res == old(self).observed(now),
    {
        match self.started_at {
            None => None,
            Some(started_at) => {
                let observation = WaitObservation {
                    wait_ms: now.millis_since(started_at),
                    blocked_user: self.blocked_user,
                    blocked_cidr: self.blocked_cidr,
                };
                self.started_at = None;
                self.blocked_user = false;
                self.blocked_cidr = false;
                Some(observation)
            },
        }
    }

    /// Begins to wait, or goes on. Returns whether a timer is to be started.
    pub fn arm_wait(&mut self, now: Instant, blocked_user: bool, blocked_cidr: bool) -> (start: bool)
        ensures
            *final(self) == old(self).armed(now, blocked_user, blocked_cidr),
            start == !old(self).sleeping,
    {
        let start = !self.sleeping;
        if start {
            self.sleeping = true;
            self.started_at = Some(now);
        }
        self.blocked_user = self.blocked_user || blocked_user;
        self.blocked_cidr = self.blocked_cidr || blocked_cidr;
        start
    }

    /// Ends the wait if its timer has run out.
    pub fn poll_wait(&mut self, elapsed: bool, now: Instant) -> (res: Option<WaitObservation>)
        ensures
            *final(self) == old(self).woken_if(elapsed),
            res == old(self).observed_if(elapsed, now),
    {
        if !elapsed {
            return None;
        }
        self.sleeping = false;
        self.record_wait(now)
    }
}

/// Traffic of a relay in both directions, and when there was any.
#[derive(Debug, Clone, Copy, PartialEq, Eq, Structural)]
pub struct SharedCounters {
    pub c2s_bytes: u64,
    pub s2c_bytes: u64,
    pub c2s_ops: u64,
    pub s2c_ops: u64,
    /// Last activity, in milliseconds since the epoch of the relay.
    pub last_activity_ms: u64,
}

/// How hard to try for a share of a quota that others use too.
#[derive(Debug, Clone, Copy, PartialEq, Eq, Structural)]
pub struct QuotaTuning {
    /// Attempts in a row.
    pub spin_retries: usize,
    /// Rows of attempts before a wait.
    pub max_rounds: usize,
}

/// What a traffic lease gave.
#[derive(Debug, Clone, Copy, PartialEq, Eq, Structural)]
pub struct LeaseGrant {
    pub granted: u64,
    pub blocked_user: bool,
    pub blocked_cidr: bool,
}

/// When the quota is to be looked at after an operation, given what was left of it before.
#[derive(Debug, Clone, Copy, PartialEq, Eq, Structural)]
pub struct QuotaCheck {
    /// At once.
    pub immediate: bool,
    /// After so many bytes.
    pub interval: u64,
}

/// State of the client side of a relay.
pub struct StatsIo {
    pub counters: SharedCounters,
    pub user_stats: UserStatsHandle,
    /// Whether a traffic lease shapes the relay.
    pub has_lease: bool,
    /// Bytes that were read and are yet to be granted.
    pub c2s_rate_debt_bytes: u64,
    pub c2s_wait: RateWait,
    pub s2c_wait: RateWait,
    pub quota_wait: RateWait,
    pub quota_limit: Option<u64>,
    pub quota_exceeded: bool,
    pub quota_bytes_since_check: u64,
    pub quota_tuning: QuotaTuning,
    pub epoch: Instant,
}

/// A relay before its first byte. It counts as active from the start.
pub open spec fn fresh_io(
    counters: SharedCounters,
    user_stats: UserStatsHandle,
    has_lease: bool,
    quota_limit: Option<u64>,
    quota_exceeded: bool,
    quota_tuning: QuotaTuning,
    epoch: Instant,
    now: Instant,
) -> StatsIo {
    StatsIo {
        counters: SharedCounters { last_activity_ms: millis_between(epoch, now), ..counters },
        user_stats,
        has_lease,
        c2s_rate_debt_bytes: 0,
        c2s_wait: no_wait(),
        s2c_wait: no_wait(),
        quota_wait: no_wait(),
        quota_limit,
        quota_exceeded,
        quota_bytes_since_check: 0,
        quota_tuning,
        epoch,
    }
}

/// The state of a relay and what it sees of the counters.
pub struct IoState {
    pub io: StatsIo,
    pub events: EventCounters,
    /// Counters of the user.
    pub user: UserStats,
    /// Whether traffic is counted per user.
    pub user_enabled: bool,
}

/// The state of a relay with its counters.
pub open spec fn state_of(io: StatsIo, stats: Stats) -> IoState {
    IoState {
        io,
        events: stats.events,
        user: stats.users.slots()[io.user_stats.slot],
        user_enabled: stats.policy.user_enabled,
    }
}

/// The relay belongs to these counters, and tries at least once for a share of a quota.
pub open spec fn ready(io: StatsIo, stats: Stats) -> bool {
    &&& stats.users.issued(io.user_stats)
    &&& io.quota_tuning.spin_retries > 0
}

/// The relay and the counters went on to the state `after`, and nothing else changed.
pub open spec fn became(
    io: StatsIo,
    stats: Stats,
    io_after: StatsIo,
    stats_after: Stats,
    after: IoState,
) -> bool {
    &&& io_after == after.io
    &&& io_after.user_stats == io.user_stats
    &&& io_after.quota_tuning == io.quota_tuning
    &&& stats_after.policy == stats.policy
    &&& stats_after.connects_all == stats.connects_all
    &&& stats_after.me == stats.me
    &&& stats_after.events == after.events
    &&& stats_after.users.names() == stats.users.names()
    &&& stats_after.users.slots() =~= stats.users.slots().insert(io.user_stats.slot, after.user)
    &&& forall|slot: usize| #[trigger]
        stats_after.users.holders(slot) == stats.users.holders(slot)
}

/// Two steps in a row.
proof fn lemma_became_twice(
    io: StatsIo,
    stats: Stats,
    io_between: StatsIo,
    stats_between: Stats,
    between: IoState,
    io_after: StatsIo,
    stats_after: Stats,
    after: IoState,
)
    requires
        ready(io, stats),
        became(io, stats, io_between, stats_between, between),
        became(io_between, stats_between, io_after, stats_after, after),
        between.user_enabled == stats.policy.user_enabled,
    ensures
        became(io, stats, io_after, stats_after, after),
        state_of(io_between, stats_between) == between,
{
}

impl IoState {
    /// State in which the quota is used up.
    pub open spec fn exceeded(self) -> IoState {
        IoState { io: StatsIo { quota_exceeded: true, ..self.io }, ..self }
    }

    /// State after reserved bytes went back to the quota.
    pub open spec fn refunded(self, bytes: u64) -> IoState {
        IoState {
            user: self.user.refunded(bytes),
            events: EventCounters {
                quota_refund_bytes_total: self.events.quota_refund_bytes_total.wrapping_add(bytes),
                ..self.events
            },
            ..self
        }
    }

    /// State after what was reserved beyond `n` bytes went back to the quota.
    pub open spec fn refunded_beyond(self, reserved: u64, n: u64) -> IoState {
        if reserved > n {
            self.refunded((reserved - n) as u64)
        } else {
            self
        }
    }

    /// State after an attempt on the quota met contention.
    pub open spec fn contended(self) -> IoState {
        IoState {
            events: EventCounters {
                quota_contention_total: self.events.quota_contention_total.wrapping_add(1),
                ..self.events
            },
            ..self
        }
    }

    /// State after attempts on the quota were given up for a while.
    pub open spec fn given_up(self, now: Instant) -> IoState {
        IoState {
            io: StatsIo { quota_wait: self.io.quota_wait.armed(now, false, false), ..self.io },
            events: EventCounters {
                quota_contention_timeout_total: self.events.quota_contention_timeout_total.wrapping_add(
                    1,
                ),
                ..self.events
            },
            ..self
        }
    }

    /// What is left of the quota.
    pub open spec fn left(self, limit: u64) -> u64 {
        if limit >= self.user.quota_used {
            (limit - self.user.quota_used) as u64
        } else {
            0
        }
    }

    /// State after the share of a quota was taken, if it fits.
    pub open spec fn reserved(self, bytes: u64, limit: u64) -> IoState {
        IoState { user: self.user.attempted(bytes, limit), ..self }
    }

    /// Whether the quota is to be looked at after `n` more bytes.
    pub open spec fn check_due(self, n: u64, check: QuotaCheck) -> bool {
        check.immediate || capped_sum(self.io.quota_bytes_since_check, n) >= check.interval
    }

    /// State after `n` more bytes since the last look at the quota; a due look starts the count afresh.
    pub open spec fn noted(self, n: u64, check: QuotaCheck) -> IoState {
        IoState {
            io: StatsIo {
                quota_bytes_since_check: if self.check_due(n, check) {
                    0
                } else {
                    capped_sum(self.io.quota_bytes_since_check, n)
                },
                ..self.io
            },
            ..self
        }
    }

    /// State after a look at the quota.
    pub open spec fn looked(self, limit: u64) -> IoState {
        if self.user.quota_used >= limit {
            self.exceeded()
        } else {
            self
        }
    }
}

impl StatsIo {
    /// The client side of a relay of a user, which no traffic lease shapes.
    pub fn new(
        counters: SharedCounters,
        stats: &mut Stats,
        user: &str,
        quota_limit: Option<u64>,
        quota_exceeded: bool,
        quota_tuning: QuotaTuning,
        epoch: Instant,
        now: Instant,
    ) -> (res: StatsIo)
        ensures
            handle_given(*old(stats), *final(stats), user@, res.user_stats),
            final(stats).handle_stats(res.user_stats) == old(stats).user_stats(user@),
            forall|name: Seq<char>| #[trigger]
                final(stats).user_stats(name) == old(stats).user_stats(name),
            res == fresh_io(
                counters,
                res.user_stats,
                false,
                quota_limit,
                quota_exceeded,
                quota_tuning,
                epoch,
                now,
            ),
    {
        Self::new_with_traffic_lease(
            counters,
            stats,
            user,
            false,
            quota_limit,
            quota_exceeded,
            quota_tuning,
            epoch,
            now,
        )
    }

    /// The client side of a relay of a user.
    pub fn new_with_traffic_lease(
        counters: SharedCounters,
        stats: &mut Stats,
        user: &str,
        has_lease: bool,
        quota_limit: Option<u64>,
        quota_exceeded: bool,
        quota_tuning: QuotaTuning,
        epoch: Instant,
        now: Instant,
    ) -> (res: StatsIo)
        ensures
            handle_given(*old(stats), *final(stats), user@, res.user_stats),
            final(stats).handle_stats(res.user_stats) == old(stats).user_stats(user@),
            forall|name: Seq<char>| #[trigger]
                final(stats).user_stats(name) == old(stats).user_stats(name),
            res == fresh_io(
                counters,
                res.user_stats,
                has_lease,
                quota_limit,
                quota_exceeded,
                quota_tuning,
                epoch,
                now,
            ),
    {
        let user_stats = stats.get_or_create_user_stats_handle(user);
        StatsIo {
            counters: SharedCounters { last_activity_ms: now.millis_since(epoch), ..counters },
            user_stats,
            has_lease,
            c2s_rate_debt_bytes: 0,
            c2s_wait: RateWait::new(),
            s2c_wait: RateWait::new(),
            quota_wait: RateWait::new(),
            quota_limit,
            quota_exceeded,
            quota_bytes_since_check: 0,
            quota_tuning,
            epoch,
        }
    }

    /// Notes bytes since the last look at the quota. Returns whether it is time for another one.
    fn note_quota_bytes(&mut self, n: u64, check: QuotaCheck) -> (due: bool)
        ensures
            due == (check.immediate || capped_sum(old(self).quota_bytes_since_check, n)
                >= check.interval),
            *final(self) == (StatsIo {
                quota_bytes_since_check: if due {
                    0
                } else {
                    capped_sum(old(self).quota_bytes_since_check, n)
                },
                ..*old(self)
            }),
    {
        if check.immediate {
            self.quota_bytes_since_check = 0;
            return true;
        }
        self.quota_bytes_since_check = self.quota_bytes_since_check.saturating_add(n);
        if self.quota_bytes_since_check >= check.interval {
            self.quota_bytes_since_check = 0;
            true
        } else {
            false
        }
    }

    /// Gives back to the quota what was reserved beyond `n` bytes.
    fn refund_beyond(&mut self, stats: &mut Stats, reserved: u64, n: u64)
        requires
            ready(*old(self), *old(stats)),
        ensures
            became(
                *old(self),
                *old(stats),
                *final(self),
                *final(stats),
                state_of(*old(self), *old(stats)).refunded_beyond(reserved, n),
            ),
            ready(*final(self), *final(stats)),
            state_of(*final(self), *final(stats)) == state_of(*old(self), *old(stats)).refunded_beyond(
                reserved,
                n,
            ),
    {
        if reserved > n {
            stats.quota_refund(&self.user_stats, reserved - n);
        }
    }

    /// Looks whether the quota is used up.
    fn look_at_quota(&mut self, stats: &Stats, limit: u64)
        requires
            ready(*old(self), *stats),
        ensures
            *final(self) == state_of(*old(self), *stats).looked(limit).io,
    {
        if self.quota_used(stats) >= limit {
            self.quota_exceeded = true;
        }
    }

    /// Bytes that the user has used up of the quota.
    fn quota_used(&self, stats: &Stats) -> (res: u64)
        requires
            stats.users.issued(self.user_stats),
        ensures
            res == state_of(*self, *stats).user.quota_used,
    {
        stats.get_handle_quota_used(&self.user_stats)
    }
}

} // verus!
