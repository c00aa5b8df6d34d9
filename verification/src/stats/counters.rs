//! Traffic and event counters behind a telemetry policy.
//!
//! A policy switches whole groups of counters off: those of the core, those of the users, and those of
//! the middle-proxy side, the last in two steps. What a user has used up of a quota is kept whatever
//! the policy says. Counters wrap around at the end of their range.

use vstd::prelude::*;

use crate::stats::users::{UserStats, UserStatsTable};

verus! {

/// A counter went up by so much, around the end of its range where it has to.
pub open spec fn went_up(before: u64, after: u64, by: int) -> bool {
    after == before + by || after == before + by - 0x1_0000_0000_0000_0000
}

/// How much of the middle-proxy side is counted.
#[derive(Debug, Clone, Copy, PartialEq, Eq, Structural)]
pub enum MeTelemetryLevel {
    /// Nothing.
    Silent,
    /// Everything but the debug metrics.
    Normal,
    /// Everything.
    Debug,
}

/// Which groups of counters are live.
#[derive(Debug, Clone, Copy, PartialEq, Eq, Structural)]
pub struct TelemetryPolicy {
    pub core_enabled: bool,
    pub user_enabled: bool,
    pub me_level: MeTelemetryLevel,
}

impl TelemetryPolicy {
    /// Whether the ordinary middle-proxy counters are live.
    #[verifier::allow_in_spec]
    pub fn me_allows_normal(&self) -> bool
        returns
            !(self.me_level is Silent),
    {
        match self.me_level {
            MeTelemetryLevel::Silent => false,
            _ => true,
        }
    }

    /// Whether the debug metrics of the middle-proxy side are live.
    #[verifier::allow_in_spec]
    pub fn me_allows_debug(&self) -> bool
        returns
            self.me_level is Debug,
    {
        match self.me_level {
            MeTelemetryLevel::Debug => true,
            _ => false,
        }
    }
}

/// Counters of the middle-proxy side.
#[derive(Debug, Clone, Copy)]
pub struct MeCounters {
    pub crc_mismatch: u64,
    pub keepalive_sent: u64,
    pub route_drop_queue_full: u64,
    pub d2c_batches_total: u64,
    pub c2me_send_full_total: u64,
    pub c2me_send_high_water_total: u64,
    pub c2me_send_timeout_total: u64,
    pub d2c_batch_frames_total: u64,
    pub d2c_batch_bytes_total: u64,
    pub d2c_batch_timeout_armed_total: u64,
    pub d2c_batch_timeout_fired_total: u64,
    pub d2c_flush_reason_batch_bytes_total: u64,
    pub d2c_flush_reason_queue_drain_total: u64,
    pub d2c_write_mode_coalesced_total: u64,
    pub d2c_quota_reject_pre_write_total: u64,
    pub d2c_frame_buf_shrink_total: u64,
    pub d2c_frame_buf_shrink_bytes_total: u64,
    pub d2c_batch_frames_bucket_2_4: u64,
    pub d2c_batch_frames_bucket_5_8: u64,
    pub d2c_batch_bytes_bucket_1k_4k: u64,
    pub d2c_batch_bytes_bucket_64k_128k: u64,
    pub d2c_flush_duration_us_bucket_51_200: u64,
    pub d2c_flush_duration_us_bucket_1001_5000: u64,
}

/// Counters of desynchronised streams and of quota reservations.
#[derive(Debug, Clone, Copy)]
pub struct EventCounters {
    pub desync_total: u64,
    pub relay_protocol_desync_close_total: u64,
    pub desync_full_logged: u64,
    pub desync_suppressed: u64,
    pub quota_contention_total: u64,
    pub quota_contention_timeout_total: u64,
    pub quota_refund_bytes_total: u64,
    pub desync_frames_ok_observations: u64,
    pub desync_frames_ok_sum: u64,
}

/// Why a batch was flushed.
#[derive(Debug, Clone, Copy, PartialEq, Eq, Structural)]
pub enum MeD2cFlushReason {
    BatchBytes,
    QueueDrain,
}

/// How a batch was written.
#[derive(Debug, Clone, Copy, PartialEq, Eq, Structural)]
pub enum MeD2cWriteMode {
    Coalesced,
}

/// Where the quota stopped a batch.
#[derive(Debug, Clone, Copy, PartialEq, Eq, Structural)]
pub enum MeD2cQuotaRejectStage {
    PreWrite,
}

/// A counter that goes up by one if there is reason to.
pub open spec fn bumped_if(counter: u64, reason: bool) -> u64 {
    if reason {
        counter.wrapping_add(1)
    } else {
        counter
    }
}

impl MeCounters {
    /// Counters after a flush for a reason.
    pub open spec fn reason_filed(self, reason: MeD2cFlushReason) -> MeCounters {
        MeCounters {
            d2c_flush_reason_batch_bytes_total: bumped_if(
                self.d2c_flush_reason_batch_bytes_total,
                reason is BatchBytes,
            ),
            d2c_flush_reason_queue_drain_total: bumped_if(
                self.d2c_flush_reason_queue_drain_total,
                reason is QueueDrain,
            ),
            ..self
        }
    }

    /// Counters after a batch of so many frames.
    pub open spec fn frames_filed(self, frames: u64) -> MeCounters {
        MeCounters {
            d2c_batch_frames_bucket_2_4: bumped_if(
                self.d2c_batch_frames_bucket_2_4,
                2 <= frames <= 4,
            ),
            d2c_batch_frames_bucket_5_8: bumped_if(
                self.d2c_batch_frames_bucket_5_8,
                5 <= frames <= 8,
            ),
            ..self
        }
    }

    /// Counters after a batch of so many bytes.
    pub open spec fn bytes_filed(self, bytes: u64) -> MeCounters {
        MeCounters {
            d2c_batch_bytes_bucket_1k_4k: bumped_if(
                self.d2c_batch_bytes_bucket_1k_4k,
                1025 <= bytes <= 4096,
            ),
            d2c_batch_bytes_bucket_64k_128k: bumped_if(
                self.d2c_batch_bytes_bucket_64k_128k,
                65537 <= bytes <= 131072,
            ),
            ..self
        }
    }

    /// Counters after a flush that took so many microseconds.
    pub open spec fn duration_filed(self, duration_us: u64) -> MeCounters {
        MeCounters {
            d2c_flush_duration_us_bucket_51_200: bumped_if(
                self.d2c_flush_duration_us_bucket_51_200,
                51 <= duration_us <= 200,
            ),
            d2c_flush_duration_us_bucket_1001_5000: bumped_if(
                self.d2c_flush_duration_us_bucket_1001_5000,
                1001 <= duration_us <= 5000,
            ),
            ..self
        }
    }
}

/// All counters.
pub struct Stats {
    pub policy: TelemetryPolicy,
    pub connects_all: u64,
    pub me: MeCounters,
    pub events: EventCounters,
    pub users: UserStatsTable,
}

impl Stats {
    /// Fresh counters, with everything but the debug metrics live.
    pub fn new() -> (res: Stats)
        ensures
            res.policy == (TelemetryPolicy {
                core_enabled: true,
                user_enabled: true,
                me_level: MeTelemetryLevel::Normal,
            }),
            res.connects_all == 0,
            res.me == (MeCounters {
                crc_mismatch: 0,
                keepalive_sent: 0,
                route_drop_queue_full: 0,
                d2c_batches_total: 0,
                c2me_send_full_total: 0,
                c2me_send_high_water_total: 0,
                c2me_send_timeout_total: 0,
                d2c_batch_frames_total: 0,
                d2c_batch_bytes_total: 0,
                d2c_batch_timeout_armed_total: 0,
                d2c_batch_timeout_fired_total: 0,
                d2c_flush_reason_batch_bytes_total: 0,
                d2c_flush_reason_queue_drain_total: 0,
                d2c_write_mode_coalesced_total: 0,
                d2c_quota_reject_pre_write_total: 0,
                d2c_frame_buf_shrink_total: 0,
                d2c_frame_buf_shrink_bytes_total: 0,
                d2c_batch_frames_bucket_2_4: 0,
                d2c_batch_frames_bucket_5_8: 0,
                d2c_batch_bytes_bucket_1k_4k: 0,
                d2c_batch_bytes_bucket_64k_128k: 0,
                d2c_flush_duration_us_bucket_51_200: 0,
                d2c_flush_duration_us_bucket_1001_5000: 0,
            }),
            res.events == (EventCounters {
                desync_total: 0,
                relay_protocol_desync_close_total: 0,
                desync_full_logged: 0,
                desync_suppressed: 0,
                quota_contention_total: 0,
                quota_contention_timeout_total: 0,
                quota_refund_bytes_total: 0,
                desync_frames_ok_observations: 0,
                desync_frames_ok_sum: 0,
            }),
            res.users.names() == Map::<Seq<char>, usize>::empty(),
            res.users.slots() == Map::<usize, UserStats>::empty(),
            forall|slot: usize| #[trigger] res.users.holders(slot) == 0,
    {
        Stats {
            policy: TelemetryPolicy {
                core_enabled: true,
                user_enabled: true,
                me_level: MeTelemetryLevel::Normal,
            },
            connects_all: 0,
            me: MeCounters {
                crc_mismatch: 0,
                keepalive_sent: 0,
                route_drop_queue_full: 0,
                d2c_batches_total: 0,
                c2me_send_full_total: 0,
                c2me_send_high_water_total: 0,
                c2me_send_timeout_total: 0,
                d2c_batch_frames_total: 0,
                d2c_batch_bytes_total: 0,
                d2c_batch_timeout_armed_total: 0,
                d2c_batch_timeout_fired_total: 0,
                d2c_flush_reason_batch_bytes_total: 0,
                d2c_flush_reason_queue_drain_total: 0,
                d2c_write_mode_coalesced_total: 0,
                d2c_quota_reject_pre_write_total: 0,
                d2c_frame_buf_shrink_total: 0,
                d2c_frame_buf_shrink_bytes_total: 0,
                d2c_batch_frames_bucket_2_4: 0,
                d2c_batch_frames_bucket_5_8: 0,
                d2c_batch_bytes_bucket_1k_4k: 0,
                d2c_batch_bytes_bucket_64k_128k: 0,
                d2c_flush_duration_us_bucket_51_200: 0,
                d2c_flush_duration_us_bucket_1001_5000: 0,
            },
            events: EventCounters {
                desync_total: 0,
                relay_protocol_desync_close_total: 0,
                desync_full_logged: 0,
                desync_suppressed: 0,
                quota_contention_total: 0,
                quota_contention_timeout_total: 0,
                quota_refund_bytes_total: 0,
                desync_frames_ok_observations: 0,
                desync_frames_ok_sum: 0,
            },
            users: UserStatsTable::new(),
        }
    }

    /// Puts a policy in force; what was counted so far stays.
    pub fn apply_telemetry_policy(&mut self, policy: TelemetryPolicy)
        ensures
            *final(self) == (Stats { policy, ..*old(self) }),
    {
        self.policy = policy;
    }

    /// Counts a connection.
    pub fn increment_connects_all(&mut self)
        ensures
            *final(self) == (Stats {
                connects_all: if old(self).policy.core_enabled {
                    old(self).connects_all.wrapping_add(1)
                } else {
                    old(self).connects_all
                },
                ..*old(self)
            }),
    {
        if self.policy.core_enabled {
            self.connects_all = self.connects_all.wrapping_add(1);
        }
    }

    pub fn get_connects_all(&self) -> (res: u64)
        ensures
            res == self.connects_all,
    {
        self.connects_all
    }

    /// Counts a frame with a wrong checksum.
    pub fn increment_me_crc_mismatch(&mut self)
        ensures
            *final(self) == (Stats {
                me: if old(self).policy.me_allows_normal() {
                    MeCounters {
                        crc_mismatch: old(self).me.crc_mismatch.wrapping_add(1),
                        ..old(self).me
                    }
                } else {
                    old(self).me
                },
                ..*old(self)
            }),
    {
        if self.policy.me_allows_normal() {
            self.me.crc_mismatch = self.me.crc_mismatch.wrapping_add(1);
        }
    }

    pub fn get_me_crc_mismatch(&self) -> (res: u64)
        ensures
            res == self.me.crc_mismatch,
    {
        self.me.crc_mismatch
    }

    /// Counts a keepalive that was sent.
    pub fn increment_me_keepalive_sent(&mut self)
        ensures
            *final(self) == (Stats {
                me: if old(self).policy.me_allows_normal() {
                    MeCounters {
                        keepalive_sent: old(self).me.keepalive_sent.wrapping_add(1),
                        ..old(self).me
                    }
                } else {
                    old(self).me
                },
                ..*old(self)
            }),
    {
        if self.policy.me_allows_normal() {
            self.me.keepalive_sent = self.me.keepalive_sent.wrapping_add(1);
        }
    }

    pub fn get_me_keepalive_sent(&self) -> (res: u64)
        ensures
            res == self.me.keepalive_sent,
    {
        self.me.keepalive_sent
    }

    /// Counts a response that a full queue dropped.
    pub fn increment_me_route_drop_queue_full(&mut self)
        ensures
            *final(self) == (Stats {
                me: if old(self).policy.me_allows_normal() {
                    MeCounters {
                        route_drop_queue_full: old(self).me.route_drop_queue_full.wrapping_add(1),
                        ..old(self).me
                    }
                } else {
                    old(self).me
                },
                ..*old(self)
            }),
    {
        if self.policy.me_allows_normal() {
            self.me.route_drop_queue_full = self.me.route_drop_queue_full.wrapping_add(1);
        }
    }

    pub fn get_me_route_drop_queue_full(&self) -> (res: u64)
        ensures
            res == self.me.route_drop_queue_full,
    {
        self.me.route_drop_queue_full
    }

    /// Counts a batch towards the client.
    pub fn increment_me_d2c_batches_total(&mut self)
        ensures
            *final(self) == (Stats {
                me: if old(self).policy.me_allows_normal() {
                    MeCounters {
                        d2c_batches_total: old(self).me.d2c_batches_total.wrapping_add(1),
                        ..old(self).me
                    }
                } else {
                    old(self).me
                },
                ..*old(self)
            }),
    {
        if self.policy.me_allows_normal() {
            self.me.d2c_batches_total = self.me.d2c_batches_total.wrapping_add(1);
        }
    }

    pub fn get_me_d2c_batches_total(&self) -> (res: u64)
        ensures
            res == self.me.d2c_batches_total,
    {
        self.me.d2c_batches_total
    }

    /// Counts a send that met a full queue.
    pub fn increment_me_c2me_send_full_total(&mut self)
        ensures
            *final(self) == (Stats {
                me: if old(self).policy.me_allows_normal() {
                    MeCounters {
                        c2me_send_full_total: old(self).me.c2me_send_full_total.wrapping_add(1),
                        ..old(self).me
                    }
                } else {
                    old(self).me
                },
                ..*old(self)
            }),
    {
        if self.policy.me_allows_normal() {
            self.me.c2me_send_full_total = self.me.c2me_send_full_total.wrapping_add(1);
        }
    }

    pub fn get_me_c2me_send_full_total(&self) -> (res: u64)
        ensures
            res == self.me.c2me_send_full_total,
    {
        self.me.c2me_send_full_total
    }

    /// Counts a send that met the high-water mark.
    pub fn increment_me_c2me_send_high_water_total(&mut self)
        ensures
            *final(self) == (Stats {
                me: if old(self).policy.me_allows_normal() {
                    MeCounters {
                        c2me_send_high_water_total: old(self).me.c2me_send_high_water_total.wrapping_add(
                            1,
                        ),
                        ..old(self).me
                    }
                } else {
                    old(self).me
                },
                ..*old(self)
            }),
    {
        if self.policy.me_allows_normal() {
            self.me.c2me_send_high_water_total = self.me.c2me_send_high_water_total.wrapping_add(1);
        }
    }

    pub fn get_me_c2me_send_high_water_total(&self) -> (res: u64)
        ensures
            res == self.me.c2me_send_high_water_total,
    {
        self.me.c2me_send_high_water_total
    }

    /// Counts a send that timed out.
    pub fn increment_me_c2me_send_timeout_total(&mut self)
        ensures
            *final(self) == (Stats {
                me: if old(self).policy.me_allows_normal() {
                    MeCounters {
                        c2me_send_timeout_total: old(self).me.c2me_send_timeout_total.wrapping_add(
                            1,
                        ),
                        ..old(self).me
                    }
                } else {
                    old(self).me
                },
                ..*old(self)
            }),
    {
        if self.policy.me_allows_normal() {
            self.me.c2me_send_timeout_total = self.me.c2me_send_timeout_total.wrapping_add(1);
        }
    }

    pub fn get_me_c2me_send_timeout_total(&self) -> (res: u64)
        ensures
            res == self.me.c2me_send_timeout_total,
    {
        self.me.c2me_send_timeout_total
    }

    /// Adds the frames of a batch.
    pub fn add_me_d2c_batch_frames_total(&mut self, frames: u64)
        ensures
            *final(self) == (Stats {
                me: if old(self).policy.me_allows_normal() {
                    MeCounters {
                        d2c_batch_frames_total: old(self).me.d2c_batch_frames_total.wrapping_add(
                            frames,
                        ),
                        ..old(self).me
                    }
                } else {
                    old(self).me
                },
                ..*old(self)
            }),
    {
        if self.policy.me_allows_normal() {
            self.me.d2c_batch_frames_total = self.me.d2c_batch_frames_total.wrapping_add(frames);
        }
    }

    pub fn get_me_d2c_batch_frames_total(&self) -> (res: u64)
        ensures
            res == self.me.d2c_batch_frames_total,
    {
        self.me.d2c_batch_frames_total
    }

    /// Adds the bytes of a batch.
    pub fn add_me_d2c_batch_bytes_total(&mut self, bytes: u64)
        ensures
            *final(self) == (Stats {
                me: if old(self).policy.me_allows_normal() {
                    MeCounters {
                        d2c_batch_bytes_total: old(self).me.d2c_batch_bytes_total.wrapping_add(
                            bytes,
                        ),
                        ..old(self).me
                    }
                } else {
                    old(self).me
                },
                ..*old(self)
            }),
    {
        if self.policy.me_allows_normal() {
            self.me.d2c_batch_bytes_total = self.me.d2c_batch_bytes_total.wrapping_add(bytes);
        }
    }

    pub fn get_me_d2c_batch_bytes_total(&self) -> (res: u64)
        ensures
            res == self.me.d2c_batch_bytes_total,
    {
        self.me.d2c_batch_bytes_total
    }

    /// Counts the reason of a flush.
    pub fn increment_me_d2c_flush_reason(&mut self, reason: MeD2cFlushReason)
        ensures
            *final(self) == (Stats {
                me: if old(self).policy.me_allows_normal() {
                    old(self).me.reason_filed(reason)
                } else {
                    old(self).me
                },
                ..*old(self)
            }),
    {
        if self.policy.me_allows_normal() {
            match reason {
                MeD2cFlushReason::BatchBytes => {
                    self.me.d2c_flush_reason_batch_bytes_total =
                        self.me.d2c_flush_reason_batch_bytes_total.wrapping_add(1);
                },
                MeD2cFlushReason::QueueDrain => {
                    self.me.d2c_flush_reason_queue_drain_total =
                        self.me.d2c_flush_reason_queue_drain_total.wrapping_add(1);
                },
            }
        }
    }

    pub fn get_me_d2c_flush_reason_batch_bytes_total(&self) -> (res: u64)
        ensures
            res == self.me.d2c_flush_reason_batch_bytes_total,
    {
        self.me.d2c_flush_reason_batch_bytes_total
    }

    pub fn get_me_d2c_flush_reason_queue_drain_total(&self) -> (res: u64)
        ensures
            res == self.me.d2c_flush_reason_queue_drain_total,
    {
        self.me.d2c_flush_reason_queue_drain_total
    }

    /// Counts the mode of a write.
    pub fn increment_me_d2c_write_mode(&mut self, mode: MeD2cWriteMode)
        ensures
            *final(self) == (Stats {
                me: if old(self).policy.me_allows_normal() {
                    MeCounters {
                        d2c_write_mode_coalesced_total: old(self).me.d2c_write_mode_coalesced_total.wrapping_add(
                            1,
                        ),
                        ..old(self).me
                    }
                } else {
                    old(self).me
                },
                ..*old(self)
            }),
    {
        if self.policy.me_allows_normal() {
            match mode {
                MeD2cWriteMode::Coalesced => {
                    self.me.d2c_write_mode_coalesced_total =
                        self.me.d2c_write_mode_coalesced_total.wrapping_add(1);
                },
            }
        }
    }

    pub fn get_me_d2c_write_mode_coalesced_total(&self) -> (res: u64)
        ensures
            res == self.me.d2c_write_mode_coalesced_total,
    {
        self.me.d2c_write_mode_coalesced_total
    }

    /// Counts a batch that the quota stopped.
    pub fn increment_me_d2c_quota_reject_total(&mut self, stage: MeD2cQuotaRejectStage)
        ensures
            *final(self) == (Stats {
                me: if old(self).policy.me_allows_normal() {
                    MeCounters {
                        d2c_quota_reject_pre_write_total: old(self).me.d2c_quota_reject_pre_write_total.wrapping_add(
                            1,
                        ),
                        ..old(self).me
                    }
                } else {
                    old(self).me
                },
                ..*old(self)
            }),
    {
        if self.policy.me_allows_normal() {
            match stage {
                MeD2cQuotaRejectStage::PreWrite => {
                    self.me.d2c_quota_reject_pre_write_total =
                        self.me.d2c_quota_reject_pre_write_total.wrapping_add(1);
                },
            }
        }
    }

    pub fn get_me_d2c_quota_reject_pre_write_total(&self) -> (res: u64)
        ensures
            res == self.me.d2c_quota_reject_pre_write_total,
    {
        self.me.d2c_quota_reject_pre_write_total
    }

    /// Counts a frame buffer that shrank by `bytes`.
    pub fn observe_me_d2c_frame_buf_shrink(&mut self, bytes: u64)
        ensures
            *final(self) == (Stats {
                me: if old(self).policy.me_allows_normal() {
                    MeCounters {
                        d2c_frame_buf_shrink_total: old(self).me.d2c_frame_buf_shrink_total.wrapping_add(
                            1,
                        ),
                        d2c_frame_buf_shrink_bytes_total: old(self).me.d2c_frame_buf_shrink_bytes_total.wrapping_add(
                            bytes,
                        ),
                        ..old(self).me
                    }
                } else {
                    old(self).me
                },
                ..*old(self)
            }),
    {
        if self.policy.me_allows_normal() {
            self.me.d2c_frame_buf_shrink_total = self.me.d2c_frame_buf_shrink_total.wrapping_add(1);
            self.me.d2c_frame_buf_shrink_bytes_total =
                self.me.d2c_frame_buf_shrink_bytes_total.wrapping_add(bytes);
        }
    }

    pub fn get_me_d2c_frame_buf_shrink_total(&self) -> (res: u64)
        ensures
            res == self.me.d2c_frame_buf_shrink_total,
    {
        self.me.d2c_frame_buf_shrink_total
    }

    pub fn get_me_d2c_frame_buf_shrink_bytes_total(&self) -> (res: u64)
        ensures
            res == self.me.d2c_frame_buf_shrink_bytes_total,
    {
        self.me.d2c_frame_buf_shrink_bytes_total
    }

    /// Files the number of frames of a batch into its bucket, if there is one.
    pub fn observe_me_d2c_batch_frames(&mut self, frames: u64)
        ensures
            *final(self) == (Stats {
                me: if old(self).policy.me_allows_debug() {
                    old(self).me.frames_filed(frames)
                } else {
                    old(self).me
                },
                ..*old(self)
            }),
    {
        if self.policy.me_allows_debug() {
            if 2 <= frames && frames <= 4 {
                self.me.d2c_batch_frames_bucket_2_4 =
                    self.me.d2c_batch_frames_bucket_2_4.wrapping_add(1);
            } else if 5 <= frames && frames <= 8 {
                self.me.d2c_batch_frames_bucket_5_8 =
                    self.me.d2c_batch_frames_bucket_5_8.wrapping_add(1);
            }
        }
    }

    pub fn get_me_d2c_batch_frames_bucket_2_4(&self) -> (res: u64)
        ensures
            res == self.me.d2c_batch_frames_bucket_2_4,
    {
        self.me.d2c_batch_frames_bucket_2_4
    }

    pub fn get_me_d2c_batch_frames_bucket_5_8(&self) -> (res: u64)
        ensures
            res == self.me.d2c_batch_frames_bucket_5_8,
    {
        self.me.d2c_batch_frames_bucket_5_8
    }

    /// Files the number of bytes of a batch into its bucket, if there is one.
    pub fn observe_me_d2c_batch_bytes(&mut self, bytes: u64)
        ensures
            *final(self) == (Stats {
                me: if old(self).policy.me_allows_debug() {
                    old(self).me.bytes_filed(bytes)
                } else {
                    old(self).me
                },
                ..*old(self)
            }),
    {
        if self.policy.me_allows_debug() {
            if 1025 <= bytes && bytes <= 4096 {
                self.me.d2c_batch_bytes_bucket_1k_4k =
                    self.me.d2c_batch_bytes_bucket_1k_4k.wrapping_add(1);
            } else if 65537 <= bytes && bytes <= 131072 {
                self.me.d2c_batch_bytes_bucket_64k_128k =
                    self.me.d2c_batch_bytes_bucket_64k_128k.wrapping_add(1);
            }
        }
    }

    pub fn get_me_d2c_batch_bytes_bucket_1k_4k(&self) -> (res: u64)
        ensures
            res == self.me.d2c_batch_bytes_bucket_1k_4k,
    {
        self.me.d2c_batch_bytes_bucket_1k_4k
    }

    pub fn get_me_d2c_batch_bytes_bucket_64k_128k(&self) -> (res: u64)
        ensures
            res == self.me.d2c_batch_bytes_bucket_64k_128k,
    {
        self.me.d2c_batch_bytes_bucket_64k_128k
    }

    /// Files how long a flush took into its bucket, if there is one.
    pub fn observe_me_d2c_flush_duration_us(&mut self, duration_us: u64)
        ensures
            *final(self) == (Stats {
                me: if old(self).policy.me_allows_debug() {
                    old(self).me.duration_filed(duration_us)
                } else {
                    old(self).me
                },
                ..*old(self)
            }),
    {
        if self.policy.me_allows_debug() {
            if 51 <= duration_us && duration_us <= 200 {
                self.me.d2c_flush_duration_us_bucket_51_200 =
                    self.me.d2c_flush_duration_us_bucket_51_200.wrapping_add(1);
            } else if 1001 <= duration_us && duration_us <= 5000 {
                self.me.d2c_flush_duration_us_bucket_1001_5000 =
                    self.me.d2c_flush_duration_us_bucket_1001_5000.wrapping_add(1);
            }
        }
    }

    pub fn get_me_d2c_flush_duration_us_bucket_51_200(&self) -> (res: u64)
        ensures
            res == self.me.d2c_flush_duration_us_bucket_51_200,
    {
        self.me.d2c_flush_duration_us_bucket_51_200
    }

    pub fn get_me_d2c_flush_duration_us_bucket_1001_5000(&self) -> (res: u64)
        ensures
            res == self.me.d2c_flush_duration_us_bucket_1001_5000,
    {
        self.me.d2c_flush_duration_us_bucket_1001_5000
    }

    /// Counts a batch timeout that was armed.
    pub fn increment_me_d2c_batch_timeout_armed_total(&mut self)
        ensures
            *final(self) == (Stats {
                me: if old(self).policy.me_allows_debug() {
                    MeCounters {
                        d2c_batch_timeout_armed_total: old(self).me.d2c_batch_timeout_armed_total.wrapping_add(
                            1,
                        ),
                        ..old(self).me
                    }
                } else {
                    old(self).me
                },
                ..*old(self)
            }),
    {
        if self.policy.me_allows_debug() {
            self.me.d2c_batch_timeout_armed_total =
                self.me.d2c_batch_timeout_armed_total.wrapping_add(1);
        }
    }

    pub fn get_me_d2c_batch_timeout_armed_total(&self) -> (res: u64)
        ensures
            res == self.me.d2c_batch_timeout_armed_total,
    {
        self.me.d2c_batch_timeout_armed_total
    }

    /// Counts a batch timeout that fired.
    pub fn increment_me_d2c_batch_timeout_fired_total(&mut self)
        ensures
            *final(self) == (Stats {
                me: if old(self).policy.me_allows_debug() {
                    MeCounters {
                        d2c_batch_timeout_fired_total: old(self).me.d2c_batch_timeout_fired_total.wrapping_add(
                            1,
                        ),
                        ..old(self).me
                    }
                } else {
                    old(self).me
                },
                ..*old(self)
            }),
    {
        if self.policy.me_allows_debug() {
            self.me.d2c_batch_timeout_fired_total =
                self.me.d2c_batch_timeout_fired_total.wrapping_add(1);
        }
    }

    pub fn get_me_d2c_batch_timeout_fired_total(&self) -> (res: u64)
        ensures
            res == self.me.d2c_batch_timeout_fired_total,
    {
        self.me.d2c_batch_timeout_fired_total
    }

    /// Counts a desynchronised stream.
    pub fn increment_desync_total(&mut self)
        ensures
            *final(self) == (Stats {
                events: EventCounters {
                    desync_total: old(self).events.desync_total.wrapping_add(1),
                    ..old(self).events
                },
                ..*old(self)
            }),
    {
        self.events.desync_total = self.events.desync_total.wrapping_add(1);
    }

    pub fn get_desync_total(&self) -> (res: u64)
        ensures
            res == self.events.desync_total,
    {
        self.events.desync_total
    }

    /// Counts a relay that was closed for it.
    pub fn increment_relay_protocol_desync_close_total(&mut self)
        ensures
            *final(self) == (Stats {
                events: EventCounters {
                    relay_protocol_desync_close_total: old(self).events.relay_protocol_desync_close_total.wrapping_add(
                        1,
                    ),
                    ..old(self).events
                },
                ..*old(self)
            }),
    {
        self.events.relay_protocol_desync_close_total =
            self.events.relay_protocol_desync_close_total.wrapping_add(1);
    }

    pub fn get_relay_protocol_desync_close_total(&self) -> (res: u64)
        ensures
            res == self.events.relay_protocol_desync_close_total,
    {
        self.events.relay_protocol_desync_close_total
    }

    /// Counts a full desynchronisation report.
    pub fn increment_desync_full_logged(&mut self)
        ensures
            *final(self) == (Stats {
                events: EventCounters {
                    desync_full_logged: old(self).events.desync_full_logged.wrapping_add(1),
                    ..old(self).events
                },
                ..*old(self)
            }),
    {
        self.events.desync_full_logged = self.events.desync_full_logged.wrapping_add(1);
    }

    pub fn get_desync_full_logged(&self) -> (res: u64)
        ensures
            res == self.events.desync_full_logged,
    {
        self.events.desync_full_logged
    }

    /// Counts a suppressed desynchronisation report.
    pub fn increment_desync_suppressed(&mut self)
        ensures
            *final(self) == (Stats {
                events: EventCounters {
                    desync_suppressed: old(self).events.desync_suppressed.wrapping_add(1),
                    ..old(self).events
                },
                ..*old(self)
            }),
    {
        self.events.desync_suppressed = self.events.desync_suppressed.wrapping_add(1);
    }

    pub fn get_desync_suppressed(&self) -> (res: u64)
        ensures
            res == self.events.desync_suppressed,
    {
        self.events.desync_suppressed
    }

    /// Counts a reservation that met contention.
    pub fn increment_quota_contention_total(&mut self)
        ensures
            *final(self) == (Stats {
                events: EventCounters {
                    quota_contention_total: old(self).events.quota_contention_total.wrapping_add(1),
                    ..old(self).events
                },
                ..*old(self)
            }),
    {
        self.events.quota_contention_total = self.events.quota_contention_total.wrapping_add(1);
    }

    pub fn get_quota_contention_total(&self) -> (res: u64)
        ensures
            res == self.events.quota_contention_total,
    {
        self.events.quota_contention_total
    }

    /// Counts reservations that were given up for contention.
    pub fn increment_quota_contention_timeout_total(&mut self)
        ensures
            *final(self) == (Stats {
                events: EventCounters {
                    quota_contention_timeout_total: old(self).events.quota_contention_timeout_total.wrapping_add(
                        1,
                    ),
                    ..old(self).events
                },
                ..*old(self)
            }),
    {
        self.events.quota_contention_timeout_total =
            self.events.quota_contention_timeout_total.wrapping_add(1);
    }

    pub fn get_quota_contention_timeout_total(&self) -> (res: u64)
        ensures
            res == self.events.quota_contention_timeout_total,
    {
        self.events.quota_contention_timeout_total
    }

    /// Adds the bytes that went back to a quota.
    pub fn add_quota_refund_bytes_total(&mut self, bytes: u64)
        ensures
            *final(self) == (Stats {
                events: EventCounters {
                    quota_refund_bytes_total: old(self).events.quota_refund_bytes_total.wrapping_add(
                        bytes,
                    ),
                    ..old(self).events
                },
                ..*old(self)
            }),
    {
        self.events.quota_refund_bytes_total =
            self.events.quota_refund_bytes_total.wrapping_add(bytes);
    }

    pub fn get_quota_refund_bytes_total(&self) -> (res: u64)
        ensures
            res == self.events.quota_refund_bytes_total,
    {
        self.events.quota_refund_bytes_total
    }

    /// Notes how many frames a stream had carried when it lost its synchronisation.
    pub fn observe_desync_frames_ok(&mut self, frames: u64)
        ensures
            *final(self) == (Stats {
                events: EventCounters {
                    desync_frames_ok_observations: old(self).events.desync_frames_ok_observations.wrapping_add(
                        1,
                    ),
                    desync_frames_ok_sum: old(self).events.desync_frames_ok_sum.wrapping_add(
                        frames,
                    ),
                    ..old(self).events
                },
                ..*old(self)
            }),
    {
        self.events.desync_frames_ok_observations =
            self.events.desync_frames_ok_observations.wrapping_add(1);
        self.events.desync_frames_ok_sum = self.events.desync_frames_ok_sum.wrapping_add(frames);
    }

    pub fn get_desync_frames_ok_observations(&self) -> (res: u64)
        ensures
            res == self.events.desync_frames_ok_observations,
    {
        self.events.desync_frames_ok_observations
    }

    pub fn get_desync_frames_ok_sum(&self) -> (res: u64)
        ensures
            res == self.events.desync_frames_ok_sum,
    {
        self.events.desync_frames_ok_sum
    }
}

} // verus!
