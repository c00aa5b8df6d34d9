//! Reading from the client.

use vstd::prelude::*;

use super::{IoState, LeaseGrant, QuotaCheck, SharedCounters, StatsIo, WaitObservation};
use crate::stats::counters::Stats;
use crate::time::Instant;

verus! {

/// How a read ends.
#[derive(Debug, Clone, Copy, PartialEq, Eq, Structural)]
pub enum ReadReturn {
    /// The quota is used up.
    QuotaError,
    /// Nothing yet.
    Pending,
    /// The buffer has no room: whatever the stream makes of it.
    Delegate,
    /// The bytes are in the buffer, if there were any.
    Done,
    /// The stream failed.
    StreamError,
}

/// What a settlement of the rate debt is for.
#[derive(Debug, Clone, Copy, PartialEq, Eq, Structural)]
pub enum AfterSettle {
    /// To read into a buffer with so much room.
    Begin(usize),
    /// To conclude a read.
    End,
}

/// Ask the traffic lease to grant bytes that were read, then call [`ConsumeStage::on_consume`].
#[derive(Debug, Clone, Copy, PartialEq, Eq, Structural)]
pub struct ConsumeStage {
    pub bytes: u64,
    pub after: AfterSettle,
}

/// Look at the timer of the rate debt, started now if asked to, then call [`SleepStage::on_sleep`].
#[derive(Debug, Clone, Copy, PartialEq, Eq, Structural)]
pub struct SleepStage {
    pub start: bool,
    /// Whether there is rate debt left.
    pub in_debt: bool,
    pub after: AfterSettle,
}

/// Try for a share of the quota, then call [`ReserveStage::on_reserve`].
#[derive(Debug, Clone, Copy, PartialEq, Eq, Structural)]
pub struct ReserveStage {
    pub desired: u64,
    pub limit: u64,
    /// What was left of the quota.
    pub left: u64,
    /// Room in the buffer.
    pub remaining: usize,
    pub rounds: usize,
    pub spins: usize,
}

/// Look at the timer of the quota, started now if asked to, then call [`QuotaSleepStage::on_sleep`].
#[derive(Debug, Clone, Copy, PartialEq, Eq, Structural)]
pub struct QuotaSleepStage {
    pub start: bool,
    pub reserve: ReserveStage,
}

/// Read at most `limit` bytes from the stream, then call [`ReadStage::on_read`].
#[derive(Debug, Clone, Copy, PartialEq, Eq, Structural)]
pub struct ReadStage {
    pub limit: usize,
    /// Whether the buffer has room for more than that.
    pub limited: bool,
    pub reserved: u64,
    /// What was left of the quota, where there is one.
    pub left: Option<u64>,
}

/// The next step of a read.
#[derive(Debug, Clone, Copy, PartialEq, Eq, Structural)]
pub enum ReadStep {
    Return(ReadReturn),
    Consume(ConsumeStage),
    Sleep(SleepStage),
    Reserve(ReserveStage),
    QuotaSleep(QuotaSleepStage),
    Read(ReadStage),
}

/// What came of reading from the stream.
#[derive(Debug, Clone, Copy, PartialEq, Eq, Structural)]
pub enum ReadOutcome {
    Ready(usize),
    Pending,
    Error,
}

impl IoState {
    /// First step of a read into a buffer with so much room.
    pub open spec fn poll_read(self, remaining: usize) -> (IoState, ReadStep) {
        if self.io.quota_exceeded {
            (self, ReadStep::Return(ReadReturn::QuotaError))
        } else {
            self.settle(AfterSettle::Begin(remaining))
        }
    }

    /// Settling the rate debt.
    pub open spec fn settle(self, after: AfterSettle) -> (IoState, ReadStep) {
        if !self.io.has_lease {
            IoState { io: StatsIo { c2s_rate_debt_bytes: 0, ..self.io }, ..self }.settled(after)
        } else if self.io.c2s_rate_debt_bytes > 0 {
            (
                self,
                ReadStep::Consume(ConsumeStage { bytes: self.io.c2s_rate_debt_bytes, after }),
            )
        } else if self.io.c2s_wait.sleeping {
            (self, ReadStep::Sleep(SleepStage { start: false, in_debt: false, after }))
        } else {
            self.settled(after)
        }
    }

    /// With the rate debt settled.
    pub open spec fn settled(self, after: AfterSettle) -> (IoState, ReadStep) {
        match after {
            AfterSettle::Begin(remaining) => self.begin_read(remaining),
            AfterSettle::End => (self, ReadStep::Return(ReadReturn::Done)),
        }
    }

    /// With the rate debt unsettled for now.
    pub open spec fn unsettled(self, after: AfterSettle) -> (IoState, ReadStep) {
        match after {
            AfterSettle::Begin(_) => (self, ReadStep::Return(ReadReturn::Pending)),
            AfterSettle::End => (self, ReadStep::Return(ReadReturn::Done)),
        }
    }

    /// Reading into a buffer with so much room: no more than is left of the quota.
    pub open spec fn begin_read(self, remaining: usize) -> (IoState, ReadStep) {
        if remaining == 0 {
            (self, ReadStep::Return(ReadReturn::Delegate))
        } else {
            match self.io.quota_limit {
                None => (
                    self,
                    ReadStep::Read(
                        ReadStage { limit: remaining, limited: false, reserved: 0, left: None },
                    ),
                ),
                Some(limit) => {
                    let left = self.left(limit);
                    let most = if (left as usize) < remaining {
                        left as usize
                    } else {
                        remaining
                    };
                    if left == 0 || most == 0 {
                        (self.exceeded(), ReadStep::Return(ReadReturn::QuotaError))
                    } else {
                        (
                            self,
                            ReadStep::Reserve(
                                ReserveStage {
                                    desired: most as u64,
                                    limit,
                                    left,
                                    remaining,
                                    rounds: 0,
                                    spins: 0,
                                },
                            ),
                        )
                    }
                },
            }
        }
    }

    /// After the traffic lease was asked.
    pub open spec fn consumed(self, stage: ConsumeStage, grant: LeaseGrant, now: Instant) -> (
        IoState,
        ReadStep,
    ) {
        if grant.granted > 0 {
            IoState {
                io: StatsIo {
                    c2s_rate_debt_bytes: if self.io.c2s_rate_debt_bytes >= grant.granted {
                        (self.io.c2s_rate_debt_bytes - grant.granted) as u64
                    } else {
                        0
                    },
                    ..self.io
                },
                ..self
            }.settle(stage.after)
        } else {
            (
                IoState {
                    io: StatsIo {
                        c2s_wait: self.io.c2s_wait.armed(
                            now,
                            grant.blocked_user,
                            grant.blocked_cidr,
                        ),
                        ..self.io
                    },
                    ..self
                },
                ReadStep::Sleep(
                    SleepStage {
                        start: !self.io.c2s_wait.sleeping,
                        in_debt: true,
                        after: stage.after,
                    },
                ),
            )
        }
    }

    /// After a look at the timer of the rate debt.
    pub open spec fn slept(self, stage: SleepStage, elapsed: bool) -> (IoState, ReadStep) {
        if !elapsed {
            self.unsettled(stage.after)
        } else {
            let woken = IoState {
                io: StatsIo { c2s_wait: self.io.c2s_wait.woken(), ..self.io },
                ..self
            };
            if stage.in_debt {
                woken.settle(stage.after)
            } else {
                woken.settled(stage.after)
            }
        }
    }

    /// After an attempt on the quota.
    pub open spec fn tried(self, stage: ReserveStage, contended: bool, now: Instant) -> (
        IoState,
        ReadStep,
    ) {
        if !contended {
            if self.user.quota_used + stage.desired <= stage.limit {
                (
                    self.reserved(stage.desired, stage.limit),
                    ReadStep::Read(
                        ReadStage {
                            limit: stage.desired as usize,
                            limited: (stage.desired as usize) < stage.remaining,
                            reserved: stage.desired,
                            left: Some(stage.left),
                        },
                    ),
                )
            } else {
                (self.exceeded(), ReadStep::Return(ReadReturn::QuotaError))
            }
        } else if stage.spins + 1 < self.io.quota_tuning.spin_retries {
            (
                self.contended(),
                ReadStep::Reserve(ReserveStage { spins: (stage.spins + 1) as usize, ..stage }),
            )
        } else if stage.rounds + 1 < self.io.quota_tuning.max_rounds {
            (
                self.contended(),
                ReadStep::Reserve(
                    ReserveStage { rounds: (stage.rounds + 1) as usize, spins: 0, ..stage },
                ),
            )
        } else {
            (
                self.contended().given_up(now),
                ReadStep::QuotaSleep(
                    QuotaSleepStage {
                        start: !self.io.quota_wait.sleeping,
                        reserve: ReserveStage { rounds: 0, spins: 0, ..stage },
                    },
                ),
            )
        }
    }

    /// After a look at the timer of the quota.
    pub open spec fn quota_slept(self, stage: QuotaSleepStage, elapsed: bool) -> (
        IoState,
        ReadStep,
    ) {
        if !elapsed {
            (self, ReadStep::Return(ReadReturn::Pending))
        } else {
            (
                IoState {
                    io: StatsIo { quota_wait: self.io.quota_wait.woken(), ..self.io },
                    ..self
                },
                ReadStep::Reserve(stage.reserve),
            )
        }
    }

    /// State after `n` bytes came from the client.
    pub open spec fn received(self, n: u64, now: Instant) -> IoState {
        IoState {
            io: StatsIo {
                counters: SharedCounters {
                    c2s_bytes: self.io.counters.c2s_bytes.wrapping_add(n),
                    c2s_ops: self.io.counters.c2s_ops.wrapping_add(1),
                    last_activity_ms: crate::time::millis_between(self.io.epoch, now),
                    ..self.io.counters
                },
                ..self.io
            },
            user: if self.user_enabled {
                self.user.message_received(n)
            } else {
                self.user
            },
            ..self
        }
    }

    /// After `n` bytes came from the client: what they mean for the quota, the counters and the rate
    /// debt.
    pub open spec fn taken_in(self, limited: bool, n: u64, check: QuotaCheck, now: Instant) -> (
        IoState,
        ReadStep,
    ) {
        let noted = if limited {
            self.noted(n, check)
        } else {
            self
        };
        let looked = match self.io.quota_limit {
            Some(limit) => noted.looked(limit),
            None => noted,
        };
        let counted = looked.received(n, now);
        if self.io.has_lease {
            IoState {
                io: StatsIo {
                    c2s_rate_debt_bytes: super::capped_sum(counted.io.c2s_rate_debt_bytes, n),
                    ..counted.io
                },
                ..counted
            }.settle(AfterSettle::End)
        } else {
            (counted, ReadStep::Return(ReadReturn::Done))
        }
    }

    /// After the stream was read.
    pub open spec fn was_read(
        self,
        stage: ReadStage,
        outcome: ReadOutcome,
        check: QuotaCheck,
        now: Instant,
    ) -> (IoState, ReadStep) {
        match outcome {
            ReadOutcome::Ready(n) => {
                let kept = self.refunded_beyond(stage.reserved, n as u64);
                if n == 0 {
                    (kept, ReadStep::Return(ReadReturn::Done))
                } else {
                    kept.taken_in(stage.left is Some, n as u64, check, now)
                }
            },
            ReadOutcome::Pending => (
                self.refunded_beyond(stage.reserved, 0),
                ReadStep::Return(ReadReturn::Pending),
            ),
            ReadOutcome::Error => (
                self.refunded_beyond(stage.reserved, 0),
                ReadStep::Return(ReadReturn::StreamError),
            ),
        }
    }
}

impl StatsIo {
    /// Starts to read into a buffer with so much room.
    pub fn poll_read(&mut self, stats: &mut Stats, remaining: usize) -> (step: ReadStep)
        requires
            super::ready(*old(self), *old(stats)),
        ensures
            super::became(
                *old(self),
                *old(stats),
                *final(self),
                *final(stats),
                super::state_of(*old(self), *old(stats)).poll_read(remaining).0,
            ),
            step == super::state_of(*old(self), *old(stats)).poll_read(remaining).1,
    {
        if self.quota_exceeded {
            return ReadStep::Return(ReadReturn::QuotaError);
        }
        self.settle_c2s_rate_debt(stats, AfterSettle::Begin(remaining))
    }

    /// Settles the rate debt, or starts to.
    fn settle_c2s_rate_debt(&mut self, stats: &mut Stats, after: AfterSettle) -> (step: ReadStep)
        requires
            super::ready(*old(self), *old(stats)),
        ensures
            super::became(
                *old(self),
                *old(stats),
                *final(self),
                *final(stats),
                super::state_of(*old(self), *old(stats)).settle(after).0,
            ),
            step == super::state_of(*old(self), *old(stats)).settle(after).1,
    {
        if !self.has_lease {
            self.c2s_rate_debt_bytes = 0;
            return self.settled(stats, after);
        }
        if self.c2s_rate_debt_bytes > 0 {
            return ReadStep::Consume(ConsumeStage { bytes: self.c2s_rate_debt_bytes, after });
        }
        if self.c2s_wait.sleeping {
            return ReadStep::Sleep(SleepStage { start: false, in_debt: false, after });
        }
        self.settled(stats, after)
    }

    fn settled(&mut self, stats: &mut Stats, after: AfterSettle) -> (step: ReadStep)
        requires
            super::ready(*old(self), *old(stats)),
        ensures
            super::became(
                *old(self),
                *old(stats),
                *final(self),
                *final(stats),
                super::state_of(*old(self), *old(stats)).settled(after).0,
            ),
            step == super::state_of(*old(self), *old(stats)).settled(after).1,
    {
        match after {
            AfterSettle::Begin(remaining) => self.begin_read(stats, remaining),
            AfterSettle::End => ReadStep::Return(ReadReturn::Done),
        }
    }

    /// Takes in `n` bytes from the client.
    fn receive(
        &mut self,
        stats: &mut Stats,
        limited: bool,
        n: u64,
        check: QuotaCheck,
        now: Instant,
    ) -> (step: ReadStep)
        requires
            super::ready(*old(self), *old(stats)),
        ensures
            super::became(
                *old(self),
                *old(stats),
                *final(self),
                *final(stats),
                super::state_of(*old(self), *old(stats)).taken_in(limited, n, check, now).0,
            ),
            step == super::state_of(*old(self), *old(stats)).taken_in(limited, n, check, now).1,
    {
        if limited {
            let _ = self.note_quota_bytes(n, check);
        }
        if let Some(limit) = self.quota_limit {
            self.look_at_quota(stats, limit);
        }
        self.counters.c2s_bytes = self.counters.c2s_bytes.wrapping_add(n);
        self.counters.c2s_ops = self.counters.c2s_ops.wrapping_add(1);
        self.counters.last_activity_ms = now.millis_since(self.epoch);
        stats.add_user_traffic_from_handle(&self.user_stats, n);
        if !self.has_lease {
            return ReadStep::Return(ReadReturn::Done);
        }
        self.c2s_rate_debt_bytes = self.c2s_rate_debt_bytes.saturating_add(n);
        self.settle_c2s_rate_debt(stats, AfterSettle::End)
    }

    fn begin_read(&mut self, stats: &mut Stats, remaining: usize) -> (step: ReadStep)
        requires
            super::ready(*old(self), *old(stats)),
        ensures
            super::became(
                *old(self),
                *old(stats),
                *final(self),
                *final(stats),
                super::state_of(*old(self), *old(stats)).begin_read(remaining).0,
            ),
            step == super::state_of(*old(self), *old(stats)).begin_read(remaining).1,
    {
        if remaining == 0 {
            return ReadStep::Return(ReadReturn::Delegate);
        }
        match self.quota_limit {
            None => ReadStep::Read(
                ReadStage { limit: remaining, limited: false, reserved: 0, left: None },
            ),
            Some(limit) => {
                let left: u64 = limit.saturating_sub(self.quota_used(stats));
                let most: usize = if (left as usize) < remaining {
                    left as usize
                } else {
                    remaining
                };
                if left == 0 || most == 0 {
                    self.quota_exceeded = true;
                    return ReadStep::Return(ReadReturn::QuotaError);
                }
                ReadStep::Reserve(
                    ReserveStage {
                        desired: most as u64,
                        limit,
                        left,
                        remaining,
                        rounds: 0,
                        spins: 0,
                    },
                )
            },
        }
    }
}

impl ConsumeStage {
    /// Goes on after the traffic lease was asked.
    pub fn on_consume(
        self,
        io: &mut StatsIo,
        stats: &mut Stats,
        grant: LeaseGrant,
        now: Instant,
    ) -> (step: ReadStep)
        requires
            super::ready(*old(io), *old(stats)),
        ensures
            super::became(
                *old(io),
                *old(stats),
                *final(io),
                *final(stats),
                super::state_of(*old(io), *old(stats)).consumed(self, grant, now).0,
            ),
            step == super::state_of(*old(io), *old(stats)).consumed(self, grant, now).1,
    {
        if grant.granted > 0 {
            io.c2s_rate_debt_bytes = io.c2s_rate_debt_bytes.saturating_sub(grant.granted);
            return io.settle_c2s_rate_debt(stats, self.after);
        }
        let start = io.c2s_wait.arm_wait(now, grant.blocked_user, grant.blocked_cidr);
        ReadStep::Sleep(SleepStage { start, in_debt: true, after: self.after })
    }
}

impl SleepStage {
    /// Goes on after a look at the timer. A wait that is over is to be told to the traffic lease.
    pub fn on_sleep(self, io: &mut StatsIo, stats: &mut Stats, elapsed: bool, now: Instant) -> (res: (
        Option<WaitObservation>,
        ReadStep,
    ))
        requires
            super::ready(*old(io), *old(stats)),
        ensures
            super::became(
                *old(io),
                *old(stats),
                *final(io),
                *final(stats),
                super::state_of(*old(io), *old(stats)).slept(self, elapsed).0,
            ),
            res.1 == super::state_of(*old(io), *old(stats)).slept(self, elapsed).1,
            res.0 == old(io).c2s_wait.observed_if(elapsed, now),
    {
        let observation = io.c2s_wait.poll_wait(elapsed, now);
        if !elapsed {
            let step = match self.after {
                AfterSettle::Begin(_) => ReadStep::Return(ReadReturn::Pending),
                AfterSettle::End => ReadStep::Return(ReadReturn::Done),
            };
            return (observation, step);
        }
        let step = if self.in_debt {
            io.settle_c2s_rate_debt(stats, self.after)
        } else {
            io.settled(stats, self.after)
        };
        (observation, step)
    }
}

impl ReserveStage {
    /// Goes on after an attempt on the quota. Without contention the attempt is made here.
    pub fn on_reserve(
        self,
        io: &mut StatsIo,
        stats: &mut Stats,
        contended: bool,
        now: Instant,
    ) -> (step: ReadStep)
        requires
            super::ready(*old(io), *old(stats)),
        ensures
            super::became(
                *old(io),
                *old(stats),
                *final(io),
                *final(stats),
                super::state_of(*old(io), *old(stats)).tried(self, contended, now).0,
            ),
            step == super::state_of(*old(io), *old(stats)).tried(self, contended, now).1,
    {
        if !contended {
            match stats.quota_try_reserve(&io.user_stats, self.desired, self.limit) {
                Ok(_) => {
                    let limit = self.desired as usize;
                    return ReadStep::Read(
                        ReadStage {
                            limit,
                            limited: limit < self.remaining,
                            reserved: self.desired,
                            left: Some(self.left),
                        },
                    );
                },
                Err(_) => {
                    io.quota_exceeded = true;
                    return ReadStep::Return(ReadReturn::QuotaError);
                },
            }
        }
        stats.increment_quota_contention_total();
        if self.spins < io.quota_tuning.spin_retries - 1 {
            return ReadStep::Reserve(ReserveStage { spins: self.spins + 1, ..self });
        }
        if io.quota_tuning.max_rounds > 0 && self.rounds < io.quota_tuning.max_rounds - 1 {
            return ReadStep::Reserve(ReserveStage { rounds: self.rounds + 1, spins: 0, ..self });
        }
        stats.increment_quota_contention_timeout_total();
        let start = io.quota_wait.arm_wait(now, false, false);
        ReadStep::QuotaSleep(
            QuotaSleepStage { start, reserve: ReserveStage { rounds: 0, spins: 0, ..self } },
        )
    }
}

impl QuotaSleepStage {
    /// Goes on after a look at the timer.
    pub fn on_sleep(self, io: &mut StatsIo, stats: &mut Stats, elapsed: bool, now: Instant) -> (step:
        ReadStep)
        requires
            super::ready(*old(io), *old(stats)),
        ensures
            super::became(
                *old(io),
                *old(stats),
                *final(io),
                *final(stats),
                super::state_of(*old(io), *old(stats)).quota_slept(self, elapsed).0,
            ),
            step == super::state_of(*old(io), *old(stats)).quota_slept(self, elapsed).1,
    {
        let _ = io.quota_wait.poll_wait(elapsed, now);
        if elapsed {
            ReadStep::Reserve(self.reserve)
        } else {
            ReadStep::Return(ReadReturn::Pending)
        }
    }
}

impl ReadStage {
    /// Goes on after the stream was read. `check` tells when to look at the quota, where there is one.
    pub fn on_read(
        self,
        io: &mut StatsIo,
        stats: &mut Stats,
        outcome: ReadOutcome,
        check: QuotaCheck,
        now: Instant,
    ) -> (step: ReadStep)
        requires
            super::ready(*old(io), *old(stats)),
        ensures
            super::became(
                *old(io),
                *old(stats),
                *final(io),
                *final(stats),
                super::state_of(*old(io), *old(stats)).was_read(self, outcome, check, now).0,
            ),
            step == super::state_of(*old(io), *old(stats)).was_read(self, outcome, check, now).1,
    {
        let n: usize = match outcome {
            ReadOutcome::Ready(n) => n,
            _ => 0,
        };
        io.refund_beyond(stats, self.reserved, n as u64);
        match outcome {
            ReadOutcome::Ready(_) => {},
            ReadOutcome::Pending => {
                return ReadStep::Return(ReadReturn::Pending);
            },
            ReadOutcome::Error => {
                return ReadStep::Return(ReadReturn::StreamError);
            },
        }
        if n == 0 {
            return ReadStep::Return(ReadReturn::Done);
        }
        let ghost kept = (*io, *stats);
        let step = io.receive(stats, self.left.is_some(), n as u64, check, now);
        proof {
            super::lemma_became_twice(
                *old(io),
                *old(stats),
                kept.0,
                kept.1,
                super::state_of(kept.0, kept.1),
                *io,
                *stats,
                super::state_of(kept.0, kept.1).taken_in(self.left is Some, n as u64, check, now).0,
            );
        }
        step
    }
}

} // verus!
