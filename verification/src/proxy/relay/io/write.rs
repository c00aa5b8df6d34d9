//! Writing to the client.

use vstd::prelude::*;

use super::{IoState, LeaseGrant, QuotaCheck, SharedCounters, StatsIo, WaitObservation};
use crate::stats::counters::Stats;
use crate::time::Instant;

verus! {

/// How a write ends.
#[derive(Debug, Clone, Copy, PartialEq, Eq, Structural)]
pub enum WriteReturn {
    /// The quota is used up.
    QuotaError,
    /// Nothing yet.
    Pending,
    /// So many bytes were written.
    Done(usize),
    /// The stream failed.
    StreamError,
}

/// Ask the traffic lease to grant bytes, then call [`ConsumeStage::on_consume`].
#[derive(Debug, Clone, Copy, PartialEq, Eq, Structural)]
pub struct ConsumeStage {
    /// Bytes in the buffer.
    pub len: usize,
}

/// What a look at the timer of the shaping is for.
#[derive(Debug, Clone, Copy, PartialEq, Eq, Structural)]
pub enum AfterSleep {
    /// To ask the traffic lease again.
    Retry(ConsumeStage),
    /// To write so many bytes, of which the traffic lease has granted so many.
    Proceed(usize, u64),
}

/// Look at the timer of the shaping, started now if asked to, then call [`SleepStage::on_sleep`].
#[derive(Debug, Clone, Copy, PartialEq, Eq, Structural)]
pub struct SleepStage {
    pub start: bool,
    pub after: AfterSleep,
}

/// Try for a share of the quota, then call [`ReserveStage::on_reserve`].
#[derive(Debug, Clone, Copy, PartialEq, Eq, Structural)]
pub struct ReserveStage {
    pub desired: u64,
    pub limit: u64,
    /// What was left of the quota.
    pub left: u64,
    /// Bytes to write.
    pub len: usize,
    /// Bytes that the traffic lease has granted.
    pub granted: u64,
    pub rounds: usize,
    pub spins: usize,
}

/// Give bytes back to the traffic lease, look at the timer of the quota, started now if asked to, then
/// call [`QuotaSleepStage::on_sleep`].
#[derive(Debug, Clone, Copy, PartialEq, Eq, Structural)]
pub struct QuotaSleepStage {
    pub start: bool,
    pub lease_refund: Option<u64>,
}

/// Write the first `len` bytes of the buffer to the stream, then call [`WriteStage::on_write`].
#[derive(Debug, Clone, Copy, PartialEq, Eq, Structural)]
pub struct WriteStage {
    pub len: usize,
    pub reserved: u64,
    /// Bytes that the traffic lease has granted.
    pub granted: u64,
    /// What was left of the quota, where there is one.
    pub left: Option<u64>,
}

/// The end of a write, with what is to be given back to the traffic lease.
#[derive(Debug, Clone, Copy, PartialEq, Eq, Structural)]
pub struct WriteEnd {
    pub result: WriteReturn,
    pub lease_refund: Option<u64>,
}

/// The next step of a write.
#[derive(Debug, Clone, Copy, PartialEq, Eq, Structural)]
pub enum WriteStep {
    Return(WriteEnd),
    Consume(ConsumeStage),
    Sleep(SleepStage),
    Reserve(ReserveStage),
    QuotaSleep(QuotaSleepStage),
    Write(WriteStage),
}

/// What came of writing to the stream.
#[derive(Debug, Clone, Copy, PartialEq, Eq, Structural)]
pub enum WriteOutcome {
    Ready(usize),
    Pending,
    Error,
}

impl IoState {
    /// What is to be given back to the traffic lease where nothing of `granted` is used.
    pub open spec fn whole_refund(self, granted: u64) -> Option<u64> {
        if self.io.has_lease {
            Some(granted)
        } else {
            None
        }
    }

    /// What is to be given back to the traffic lease where `n` bytes of `granted` are used.
    pub open spec fn unused(self, granted: u64, n: u64) -> Option<u64> {
        if self.io.has_lease && granted > n {
            Some((granted - n) as u64)
        } else {
            None
        }
    }

    /// First step of a write of so many bytes.
    pub open spec fn poll_write(self, len: usize) -> (IoState, WriteStep) {
        if self.io.quota_exceeded {
            (
                self,
                WriteStep::Return(WriteEnd { result: WriteReturn::QuotaError, lease_refund: None }),
            )
        } else if !self.io.has_lease {
            self.begin_write(len, 0)
        } else if len > 0 {
            (self, WriteStep::Consume(ConsumeStage { len }))
        } else {
            self.shaped(0, 0)
        }
    }

    /// With the traffic lease asked: a timer that still runs is looked at first.
    pub open spec fn shaped(self, len: usize, granted: u64) -> (IoState, WriteStep) {
        if self.io.s2c_wait.sleeping {
            (
                self,
                WriteStep::Sleep(
                    SleepStage { start: false, after: AfterSleep::Proceed(len, granted) },
                ),
            )
        } else {
            self.begin_write(len, granted)
        }
    }

    /// After the traffic lease was asked.
    pub open spec fn granted(self, stage: ConsumeStage, grant: LeaseGrant, now: Instant) -> (
        IoState,
        WriteStep,
    ) {
        if grant.granted > 0 {
            let len = if grant.granted < stage.len as u64 {
                grant.granted as usize
            } else {
                stage.len
            };
            self.shaped(len, grant.granted)
        } else {
            (
                IoState {
                    io: StatsIo {
                        s2c_wait: self.io.s2c_wait.armed(
                            now,
                            grant.blocked_user,
                            grant.blocked_cidr,
                        ),
                        ..self.io
                    },
                    ..self
                },
                WriteStep::Sleep(
                    SleepStage {
                        start: !self.io.s2c_wait.sleeping,
                        after: AfterSleep::Retry(stage),
                    },
                ),
            )
        }
    }

    /// After a look at the timer of the shaping.
    pub open spec fn write_slept(self, stage: SleepStage, elapsed: bool) -> (IoState, WriteStep) {
        let polled = if elapsed {
            IoState { io: StatsIo { s2c_wait: self.io.s2c_wait.woken(), ..self.io }, ..self }
        } else {
            self
        };
        match stage.after {
            AfterSleep::Proceed(len, granted) => polled.begin_write(len, granted),
            AfterSleep::Retry(consume) => if elapsed {
                (polled, WriteStep::Consume(consume))
            } else {
                (
                    polled,
                    WriteStep::Return(
                        WriteEnd { result: WriteReturn::Pending, lease_refund: None },
                    ),
                )
            },
        }
    }

    /// With the quota used up.
    pub open spec fn write_refused(self, granted: u64) -> (IoState, WriteStep) {
        (
            self.exceeded(),
            WriteStep::Return(
                WriteEnd {
                    result: WriteReturn::QuotaError,
                    lease_refund: self.whole_refund(granted),
                },
            ),
        )
    }

    /// Writing so many bytes: no more than is left of the quota.
    pub open spec fn begin_write(self, len: usize, granted: u64) -> (IoState, WriteStep) {
        match self.io.quota_limit {
            None => (
                self,
                WriteStep::Write(WriteStage { len, reserved: 0, granted, left: None }),
            ),
            Some(limit) => if len > 0 {
                self.quota_round(limit, len, granted, 0)
            } else if self.left(limit) == 0 {
                self.write_refused(granted)
            } else {
                (
                    self,
                    WriteStep::Write(
                        WriteStage { len, reserved: 0, granted, left: Some(self.left(limit)) },
                    ),
                )
            },
        }
    }

    /// A row of attempts on the quota.
    pub open spec fn quota_round(self, limit: u64, len: usize, granted: u64, rounds: usize) -> (
        IoState,
        WriteStep,
    ) {
        let left = self.left(limit);
        if left == 0 {
            self.write_refused(granted)
        } else {
            (
                self,
                WriteStep::Reserve(
                    ReserveStage {
                        desired: if left < len as u64 {
                            left
                        } else {
                            len as u64
                        },
                        limit,
                        left,
                        len,
                        granted,
                        rounds,
                        spins: 0,
                    },
                ),
            )
        }
    }

    /// After a row of attempts in vain.
    pub open spec fn round_over(self, stage: ReserveStage, now: Instant) -> (IoState, WriteStep) {
        if stage.rounds + 1 < self.io.quota_tuning.max_rounds {
            self.quota_round(stage.limit, stage.len, stage.granted, (stage.rounds + 1) as usize)
        } else {
            (
                self.given_up(now),
                WriteStep::QuotaSleep(
                    QuotaSleepStage {
                        start: !self.io.quota_wait.sleeping,
                        lease_refund: self.whole_refund(stage.granted),
                    },
                ),
            )
        }
    }

    /// After an attempt on the quota.
    pub open spec fn write_tried(self, stage: ReserveStage, contended: bool, now: Instant) -> (
        IoState,
        WriteStep,
    ) {
        if contended {
            if stage.spins + 1 < self.io.quota_tuning.spin_retries {
                (
                    self.contended(),
                    WriteStep::Reserve(
                        ReserveStage { spins: (stage.spins + 1) as usize, ..stage },
                    ),
                )
            } else {
                self.contended().round_over(stage, now)
            }
        } else if self.user.quota_used + stage.desired <= stage.limit {
            (
                self.reserved(stage.desired, stage.limit),
                WriteStep::Write(
                    WriteStage {
                        len: stage.desired as usize,
                        reserved: stage.desired,
                        granted: stage.granted,
                        left: Some(stage.left),
                    },
                ),
            )
        } else {
            self.round_over(stage, now)
        }
    }

    /// After a look at the timer of the quota.
    pub open spec fn write_quota_slept(self, elapsed: bool) -> (IoState, WriteStep) {
        (
            if elapsed {
                IoState {
                    io: StatsIo { quota_wait: self.io.quota_wait.woken(), ..self.io },
                    ..self
                }
            } else {
                self
            },
            WriteStep::Return(WriteEnd { result: WriteReturn::Pending, lease_refund: None }),
        )
    }

    /// State after `n` bytes went to the client.
    pub open spec fn sent(self, n: u64, now: Instant) -> IoState {
        IoState {
            io: StatsIo {
                counters: SharedCounters {
                    s2c_bytes: self.io.counters.s2c_bytes.wrapping_add(n),
                    s2c_ops: self.io.counters.s2c_ops.wrapping_add(1),
                    last_activity_ms: crate::time::millis_between(self.io.epoch, now),
                    ..self.io.counters
                },
                s2c_wait: if self.io.has_lease {
                    self.io.s2c_wait.told()
                } else {
                    self.io.s2c_wait
                },
                ..self.io
            },
            user: if self.user_enabled {
                self.user.message_sent(n)
            } else {
                self.user
            },
            ..self
        }
    }

    /// State after `n` bytes went to the client: what they mean for the counters and the quota.
    pub open spec fn given_out(self, left: Option<u64>, n: u64, check: QuotaCheck, now: Instant) -> IoState {
        let counted = self.sent(n, now);
        match (self.io.quota_limit, left) {
            (Some(limit), Some(_)) => {
                let noted = counted.noted(n, check);
                if counted.check_due(n, check) {
                    noted.looked(limit)
                } else {
                    noted
                }
            },
            _ => counted,
        }
    }

    /// What there is to tell of a wait once the stream was written.
    pub open spec fn told_by_write(self, outcome: WriteOutcome, now: Instant) -> Option<
        super::WaitObservation,
    > {
        match outcome {
            WriteOutcome::Ready(n) if n > 0 => self.io.s2c_wait.observed_if(self.io.has_lease, now),
            _ => None,
        }
    }

    /// After the stream was written.
    pub open spec fn was_written(
        self,
        stage: WriteStage,
        outcome: WriteOutcome,
        check: QuotaCheck,
        now: Instant,
    ) -> (IoState, WriteStep) {
        match outcome {
            WriteOutcome::Ready(n) => {
                let kept = self.refunded_beyond(stage.reserved, n as u64);
                (
                    if n > 0 {
                        kept.given_out(stage.left, n as u64, check, now)
                    } else {
                        kept
                    },
                    WriteStep::Return(
                        WriteEnd {
                            result: WriteReturn::Done(n),
                            lease_refund: self.unused(stage.granted, n as u64),
                        },
                    ),
                )
            },
            WriteOutcome::Pending => (
                self.refunded_beyond(stage.reserved, 0),
                WriteStep::Return(
                    WriteEnd {
                        result: WriteReturn::Pending,
                        lease_refund: self.unused(stage.granted, 0),
                    },
                ),
            ),
            WriteOutcome::Error => (
                self.refunded_beyond(stage.reserved, 0),
                WriteStep::Return(
                    WriteEnd {
                        result: WriteReturn::StreamError,
                        lease_refund: self.unused(stage.granted, 0),
                    },
                ),
            ),
        }
    }
}

impl StatsIo {
    /// Starts to write so many bytes.
    pub fn poll_write(&mut self, stats: &mut Stats, len: usize) -> (step: WriteStep)
        requires
            super::ready(*old(self), *old(stats)),
        ensures
            super::became(
                *old(self),
                *old(stats),
                *final(self),
                *final(stats),
                super::state_of(*old(self), *old(stats)).poll_write(len).0,
            ),
            step == super::state_of(*old(self), *old(stats)).poll_write(len).1,
    {
        if self.quota_exceeded {
            return WriteStep::Return(
                WriteEnd { result: WriteReturn::QuotaError, lease_refund: None },
            );
        }
        if !self.has_lease {
            return self.begin_write(stats, len, 0);
        }
        if len > 0 {
            return WriteStep::Consume(ConsumeStage { len });
        }
        self.shaped(stats, 0, 0)
    }

    fn shaped(&mut self, stats: &mut Stats, len: usize, granted: u64) -> (step: WriteStep)
        requires
            super::ready(*old(self), *old(stats)),
        ensures
            super::became(
                *old(self),
                *old(stats),
                *final(self),
                *final(stats),
                super::state_of(*old(self), *old(stats)).shaped(len, granted).0,
            ),
            step == super::state_of(*old(self), *old(stats)).shaped(len, granted).1,
    {
        if self.s2c_wait.sleeping {
            return WriteStep::Sleep(
                SleepStage { start: false, after: AfterSleep::Proceed(len, granted) },
            );
        }
        self.begin_write(stats, len, granted)
    }

    fn whole_refund(&self, granted: u64) -> (res: Option<u64>)
        ensures
            res == (if self.has_lease {
                Some(granted)
            } else {
                None
            }),
    {
        if self.has_lease {
            Some(granted)
        } else {
            None
        }
    }

    fn unused(&self, granted: u64, n: u64) -> (res: Option<u64>)
        ensures
            res == (if self.has_lease && granted > n {
                Some((granted - n) as u64)
            } else {
                None
            }),
    {
        if self.has_lease && granted > n {
            Some(granted - n)
        } else {
            None
        }
    }

    fn write_refused(&mut self, granted: u64) -> (step: WriteStep)
        ensures
            *final(self) == (StatsIo { quota_exceeded: true, ..*old(self) }),
            step == WriteStep::Return(
                WriteEnd {
                    result: WriteReturn::QuotaError,
                    lease_refund: if old(self).has_lease {
                        Some(granted)
                    } else {
                        None
                    },
                },
            ),
    {
        self.quota_exceeded = true;
        WriteStep::Return(
            WriteEnd {
                result: WriteReturn::QuotaError,
                lease_refund: self.whole_refund(granted),
            },
        )
    }

    fn begin_write(&mut self, stats: &mut Stats, len: usize, granted: u64) -> (step: WriteStep)
        requires
            super::ready(*old(self), *old(stats)),
        ensures
            super::became(
                *old(self),
                *old(stats),
                *final(self),
                *final(stats),
                super::state_of(*old(self), *old(stats)).begin_write(len, granted).0,
            ),
            step == super::state_of(*old(self), *old(stats)).begin_write(len, granted).1,
    {
        match self.quota_limit {
            None => WriteStep::Write(WriteStage { len, reserved: 0, granted, left: None }),
            Some(limit) => {
                if len > 0 {
                    return self.quota_round(stats, limit, len, granted, 0);
                }
                let left: u64 = limit.saturating_sub(self.quota_used(stats));
                if left == 0 {
                    return self.write_refused(granted);
                }
                WriteStep::Write(WriteStage { len, reserved: 0, granted, left: Some(left) })
            },
        }
    }

    fn quota_round(
        &mut self,
        stats: &mut Stats,
        limit: u64,
        len: usize,
        granted: u64,
        rounds: usize,
    ) -> (step: WriteStep)
        requires
            super::ready(*old(self), *old(stats)),
        ensures
            super::became(
                *old(self),
                *old(stats),
                *final(self),
                *final(stats),
                super::state_of(*old(self), *old(stats)).quota_round(limit, len, granted, rounds).0,
            ),
            step == super::state_of(*old(self), *old(stats)).quota_round(
                limit,
                len,
                granted,
                rounds,
            ).1,
    {
        let left: u64 = limit.saturating_sub(self.quota_used(stats));
        if left == 0 {
            return self.write_refused(granted);
        }
        let desired: u64 = if left < len as u64 {
            left
        } else {
            len as u64
        };
        WriteStep::Reserve(
            ReserveStage { desired, limit, left, len, granted, rounds, spins: 0 },
        )
    }

    fn round_over(&mut self, stats: &mut Stats, stage: ReserveStage, now: Instant) -> (step: WriteStep)
        requires
            super::ready(*old(self), *old(stats)),
        ensures
            super::became(
                *old(self),
                *old(stats),
                *final(self),
                *final(stats),
                super::state_of(*old(self), *old(stats)).round_over(stage, now).0,
            ),
            step == super::state_of(*old(self), *old(stats)).round_over(stage, now).1,
    {
        if self.quota_tuning.max_rounds > 0 && stage.rounds < self.quota_tuning.max_rounds - 1 {
            return self.quota_round(
                stats,
                stage.limit,
                stage.len,
                stage.granted,
                stage.rounds + 1,
            );
        }
        stats.increment_quota_contention_timeout_total();
        let lease_refund = self.whole_refund(stage.granted);
        let start = self.quota_wait.arm_wait(now, false, false);
        WriteStep::QuotaSleep(QuotaSleepStage { start, lease_refund })
    }

    /// Counts `n` bytes that went to the client, and looks at the quota where that is due.
    fn give_out(
        &mut self,
        stats: &mut Stats,
        left: Option<u64>,
        n: u64,
        check: QuotaCheck,
        now: Instant,
    ) -> (res: Option<WaitObservation>)
        requires
            super::ready(*old(self), *old(stats)),
        ensures
            super::became(
                *old(self),
                *old(stats),
                *final(self),
                *final(stats),
                super::state_of(*old(self), *old(stats)).given_out(left, n, check, now),
            ),
            res == old(self).s2c_wait.observed_if(old(self).has_lease, now),
    {
        let observation = if self.has_lease {
            self.s2c_wait.record_wait(now)
        } else {
            None
        };
        self.counters.s2c_bytes = self.counters.s2c_bytes.wrapping_add(n);
        self.counters.s2c_ops = self.counters.s2c_ops.wrapping_add(1);
        self.counters.last_activity_ms = now.millis_since(self.epoch);
        stats.add_user_traffic_to_handle(&self.user_stats, n);
        if let (Some(limit), Some(_)) = (self.quota_limit, left) {
            if self.note_quota_bytes(n, check) {
                self.look_at_quota(stats, limit);
            }
        }
        observation
    }
}

impl ConsumeStage {
    /// Goes on after the traffic lease was asked.
    pub fn on_consume(
        self,
        io: &mut StatsIo,
        stats: &mut Stats,
        grant: LeaseGrant,
        now: Instant,
    ) -> (step: WriteStep)
        requires
            super::ready(*old(io), *old(stats)),
        ensures
            super::became(
                *old(io),
                *old(stats),
                *final(io),
                *final(stats),
                super::state_of(*old(io), *old(stats)).granted(self, grant, now).0,
            ),
            step == super::state_of(*old(io), *old(stats)).granted(self, grant, now).1,
    {
        if grant.granted > 0 {
            let len: usize = if grant.granted < self.len as u64 {
                grant.granted as usize
            } else {
                self.len
            };
            return io.shaped(stats, len, grant.granted);
        }
        let start = io.s2c_wait.arm_wait(now, grant.blocked_user, grant.blocked_cidr);
        WriteStep::Sleep(SleepStage { start, after: AfterSleep::Retry(self) })
    }
}

impl SleepStage {
    /// Goes on after a look at the timer. A wait that is over is to be told to the traffic lease.
    pub fn on_sleep(self, io: &mut StatsIo, stats: &mut Stats, elapsed: bool, now: Instant) -> (res: (
        Option<WaitObservation>,
        WriteStep,
    ))
        requires
            super::ready(*old(io), *old(stats)),
        ensures
            super::became(
                *old(io),
                *old(stats),
                *final(io),
                *final(stats),
                super::state_of(*old(io), *old(stats)).write_slept(self, elapsed).0,
            ),
            res.1 == super::state_of(*old(io), *old(stats)).write_slept(self, elapsed).1,
            res.0 == old(io).s2c_wait.observed_if(elapsed, now),
    {
        let observation = io.s2c_wait.poll_wait(elapsed, now);
        let step = match self.after {
            AfterSleep::Proceed(len, granted) => io.begin_write(stats, len, granted),
            AfterSleep::Retry(consume) => {
                if elapsed {
                    WriteStep::Consume(consume)
                } else {
                    WriteStep::Return(
                        WriteEnd { result: WriteReturn::Pending, lease_refund: None },
                    )
                }
            },
        };
        (observation, step)
    }
}

impl ReserveStage {
    /// Goes on after an attempt on the quota. Without contention the attempt is made here.
    pub fn on_reserve(
        self,
        io: &mut StatsIo,
        stats: &mut Stats,
        contended: bool,
        now: Instant,
    ) -> (step: WriteStep)
        requires
            super::ready(*old(io), *old(stats)),
        ensures
            super::became(
                *old(io),
                *old(stats),
                *final(io),
                *final(stats),
                super::state_of(*old(io), *old(stats)).write_tried(self, contended, now).0,
            ),
            step == super::state_of(*old(io), *old(stats)).write_tried(self, contended, now).1,
    {
        if contended {
            stats.increment_quota_contention_total();
            if self.spins < io.quota_tuning.spin_retries - 1 {
                return WriteStep::Reserve(ReserveStage { spins: self.spins + 1, ..self });
            }
            return io.round_over(stats, self, now);
        }
        match stats.quota_try_reserve(&io.user_stats, self.desired, self.limit) {
            Ok(_) => WriteStep::Write(
                WriteStage {
                    len: self.desired as usize,
                    reserved: self.desired,
                    granted: self.granted,
                    left: Some(self.left),
                },
            ),
            Err(_) => io.round_over(stats, self, now),
        }
    }
}

impl QuotaSleepStage {
    /// Concludes after a look at the timer.
    pub fn on_sleep(self, io: &mut StatsIo, stats: &mut Stats, elapsed: bool, now: Instant) -> (step:
        WriteStep)
        requires
            super::ready(*old(io), *old(stats)),
        ensures
            super::became(
                *old(io),
                *old(stats),
                *final(io),
                *final(stats),
                super::state_of(*old(io), *old(stats)).write_quota_slept(elapsed).0,
            ),
            step == super::state_of(*old(io), *old(stats)).write_quota_slept(elapsed).1,
    {
        let _ = io.quota_wait.poll_wait(elapsed, now);
        WriteStep::Return(WriteEnd { result: WriteReturn::Pending, lease_refund: None })
    }
}

impl WriteStage {
    /// Concludes after the stream was written. `check` tells when to look at the quota, where there is
    /// one. A wait that is over is to be told to the traffic lease.
    pub fn on_write(
        self,
        io: &mut StatsIo,
        stats: &mut Stats,
        outcome: WriteOutcome,
        check: QuotaCheck,
        now: Instant,
    ) -> (res: (Option<WaitObservation>, WriteStep))
        requires
            super::ready(*old(io), *old(stats)),
        ensures
            super::became(
                *old(io),
                *old(stats),
                *final(io),
                *final(stats),
                super::state_of(*old(io), *old(stats)).was_written(self, outcome, check, now).0,
            ),
            res.1 == super::state_of(*old(io), *old(stats)).was_written(
                self,
                outcome,
                check,
                now,
            ).1,
            res.0 == super::state_of(*old(io), *old(stats)).told_by_write(outcome, now),
    {
        let n: usize = match outcome {
            WriteOutcome::Ready(n) => n,
            _ => 0,
        };
        let result = match outcome {
            WriteOutcome::Ready(n) => WriteReturn::Done(n),
            WriteOutcome::Pending => WriteReturn::Pending,
            WriteOutcome::Error => WriteReturn::StreamError,
        };
        let lease_refund = io.unused(self.granted, n as u64);
        io.refund_beyond(stats, self.reserved, n as u64);
        let end = WriteStep::Return(WriteEnd { result, lease_refund });
        if n == 0 {
            return (None, end);
        }
        let ghost kept = (*io, *stats);
        let observation = io.give_out(stats, self.left, n as u64, check, now);
        proof {
            super::lemma_became_twice(
                *old(io),
                *old(stats),
                kept.0,
                kept.1,
                super::state_of(kept.0, kept.1),
                *io,
                *stats,
                super::state_of(kept.0, kept.1).given_out(self.left, n as u64, check, now),
            );
        }
        (observation, end)
    }
}

} // verus!
