//! What is counted, for whom and by how much.

use vstd::prelude::*;

use crate::stats::counters::{
    went_up, MeCounters, MeD2cFlushReason, MeTelemetryLevel, Stats, TelemetryPolicy,
};
use crate::stats::user_counters::{
    handle_given, handle_returned, same_but_users, user_named, user_removed, user_set,
};
use crate::stats::users::{
    after_attempt, no_traffic, one_less, one_more, QuotaReserveError, UserStats, UserStatsHandle,
};

verus! {

/// The counters of the middle-proxy side go from none through the ordinary ones to all of them.
pub proof fn law_levels_add_up(policy: TelemetryPolicy)
    ensures
        policy.me_level == MeTelemetryLevel::Silent ==> !policy.me_allows_normal()
            && !policy.me_allows_debug(),
        policy.me_level == MeTelemetryLevel::Normal ==> policy.me_allows_normal()
            && !policy.me_allows_debug(),
        policy.me_level == MeTelemetryLevel::Debug ==> policy.me_allows_normal()
            && policy.me_allows_debug(),
{
}

/// A flush is counted once, under its own reason and no other.
pub proof fn law_flush_is_filed_under_its_reason(me: MeCounters, reason: MeD2cFlushReason)
    ensures
        ({
            let after = me.reason_filed(reason);
            &&& went_up(
                me.d2c_flush_reason_batch_bytes_total,
                after.d2c_flush_reason_batch_bytes_total,
                if reason == MeD2cFlushReason::BatchBytes {
                    1
                } else {
                    0
                },
            )
            &&& went_up(
                me.d2c_flush_reason_queue_drain_total,
                after.d2c_flush_reason_queue_drain_total,
                if reason == MeD2cFlushReason::QueueDrain {
                    1
                } else {
                    0
                },
            )
            &&& after == (MeCounters {
                d2c_flush_reason_batch_bytes_total: after.d2c_flush_reason_batch_bytes_total,
                d2c_flush_reason_queue_drain_total: after.d2c_flush_reason_queue_drain_total,
                ..me
            })
        }),
{
}

/// Each bucket counts what falls between its two bounds, both among it, and nothing else: 2 to 4 and 5 to
/// 8 frames; more than 1 to 4 and more than 64 to 128 kibibytes; 51 to 200 and 1001 to 5000
/// microseconds.
pub proof fn law_buckets_count_what_falls_into_them(me: MeCounters, n: u64)
    ensures
        ({
            let after = me.frames_filed(n);
            &&& went_up(
                me.d2c_batch_frames_bucket_2_4,
                after.d2c_batch_frames_bucket_2_4,
                if n == 2 || n == 3 || n == 4 {
                    1
                } else {
                    0
                },
            )
            &&& went_up(
                me.d2c_batch_frames_bucket_5_8,
                after.d2c_batch_frames_bucket_5_8,
                if n == 5 || n == 6 || n == 7 || n == 8 {
                    1
                } else {
                    0
                },
            )
            &&& after == (MeCounters {
                d2c_batch_frames_bucket_2_4: after.d2c_batch_frames_bucket_2_4,
                d2c_batch_frames_bucket_5_8: after.d2c_batch_frames_bucket_5_8,
                ..me
            })
        }),
        ({
            let after = me.bytes_filed(n);
            &&& went_up(
                me.d2c_batch_bytes_bucket_1k_4k,
                after.d2c_batch_bytes_bucket_1k_4k,
                if 1024 < n <= 4 * 1024 {
                    1
                } else {
                    0
                },
            )
            &&& went_up(
                me.d2c_batch_bytes_bucket_64k_128k,
                after.d2c_batch_bytes_bucket_64k_128k,
                if 64 * 1024 < n <= 128 * 1024 {
                    1
                } else {
                    0
                },
            )
            &&& after == (MeCounters {
                d2c_batch_bytes_bucket_1k_4k: after.d2c_batch_bytes_bucket_1k_4k,
                d2c_batch_bytes_bucket_64k_128k: after.d2c_batch_bytes_bucket_64k_128k,
                ..me
            })
        }),
        ({
            let after = me.duration_filed(n);
            &&& went_up(
                me.d2c_flush_duration_us_bucket_51_200,
                after.d2c_flush_duration_us_bucket_51_200,
                if 50 < n <= 200 {
                    1
                } else {
                    0
                },
            )
            &&& went_up(
                me.d2c_flush_duration_us_bucket_1001_5000,
                after.d2c_flush_duration_us_bucket_1001_5000,
                if 1000 < n <= 5000 {
                    1
                } else {
                    0
                },
            )
            &&& after == (MeCounters {
                d2c_flush_duration_us_bucket_51_200: after.d2c_flush_duration_us_bucket_51_200,
                d2c_flush_duration_us_bucket_1001_5000: after.d2c_flush_duration_us_bucket_1001_5000,
                ..me
            })
        }),
{
}

/// A connection is one more of all and one more of the open ones; bytes and messages are counted in their
/// own direction, a message with its bytes. Nothing else changes by any of it.
pub proof fn law_traffic_is_counted_in_its_direction(user: UserStats, bytes: u64)
    ensures
        ({
            let after = user.connected();
            &&& went_up(user.connects, after.connects, 1)
            &&& went_up(user.curr_connects, after.curr_connects, 1)
            &&& after == (UserStats {
                connects: after.connects,
                curr_connects: after.curr_connects,
                ..user
            })
        }),
        ({
            let after = user.received(bytes);
            &&& went_up(user.octets_from, after.octets_from, bytes as int)
            &&& after == (UserStats { octets_from: after.octets_from, ..user })
        }),
        ({
            let after = user.sent(bytes);
            &&& went_up(user.octets_to, after.octets_to, bytes as int)
            &&& after == (UserStats { octets_to: after.octets_to, ..user })
        }),
        ({
            let after = user.message_received(bytes);
            &&& went_up(user.octets_from, after.octets_from, bytes as int)
            &&& went_up(user.msgs_from, after.msgs_from, 1)
            &&& after == (UserStats {
                octets_from: after.octets_from,
                msgs_from: after.msgs_from,
                ..user
            })
        }),
        ({
            let after = user.message_sent(bytes);
            &&& went_up(user.octets_to, after.octets_to, bytes as int)
            &&& went_up(user.msgs_to, after.msgs_to, 1)
            &&& after == (UserStats {
                octets_to: after.octets_to,
                msgs_to: after.msgs_to,
                ..user
            })
        }),
{
}

/// A charge uses up exactly its bytes, as far as the counter goes; a refund gives exactly its bytes back,
/// as far as there are any; and a reservation takes exactly its bytes if they fit under the limit, and
/// nothing otherwise. The traffic of the user is not touched.
pub proof fn law_quota_moves_by_the_bytes(user: UserStats, bytes: u64, limit: u64)
    ensures
        ({
            let after = user.charged(bytes);
            &&& user.quota_used + bytes <= u64::MAX ==> after.quota_used == user.quota_used + bytes
            &&& user.quota_used + bytes > u64::MAX ==> after.quota_used == u64::MAX
            &&& after == (UserStats { quota_used: after.quota_used, ..user })
        }),
        ({
            let after = user.refunded(bytes);
            &&& bytes <= user.quota_used ==> after.quota_used + bytes == user.quota_used
            &&& bytes > user.quota_used ==> after.quota_used == 0
            &&& after == (UserStats { quota_used: after.quota_used, ..user })
        }),
        ({
            let after = user.attempted(bytes, limit);
            &&& user.quota_used + bytes <= limit ==> after.quota_used == user.quota_used + bytes
            &&& user.quota_used + bytes > limit ==> after.quota_used == user.quota_used
            &&& after == (UserStats { quota_used: after.quota_used, ..user })
        }),
        after_attempt(user.quota_used, bytes, limit) == user.attempted(bytes, limit).quota_used,
{
}

/// A user without any traffic has zero on every counter.
pub proof fn law_no_traffic_is_zero()
    ensures
        no_traffic().connects == 0,
        no_traffic().curr_connects == 0,
        no_traffic().octets_from == 0,
        no_traffic().octets_to == 0,
        no_traffic().msgs_from == 0,
        no_traffic().msgs_to == 0,
        no_traffic().quota_used == 0,
{
}

/// Handles are counted one by one, up to the greatest number, which then stays.
pub proof fn law_handles_are_counted(holders: u64)
    ensures
        holders < u64::MAX ==> one_more(holders) == holders + 1,
        holders == u64::MAX ==> one_more(holders) == u64::MAX,
        0 < holders < u64::MAX ==> one_less(holders) == holders - 1,
        holders == u64::MAX ==> one_less(holders) == u64::MAX,
        holders == 0 ==> one_less(holders) == 0,
{
}

/// The counters of a known user are those of its slot; those of an unknown one are zero; and those behind
/// a handle are those of its slot.
pub proof fn law_counters_are_found_by_name(
    stats: Stats,
    name: Seq<char>,
    handle: UserStatsHandle,
)
    ensures
        stats.users.names().contains_key(name) ==> stats.user_stats(name)
            == stats.users.slots()[stats.users.names()[name]],
        !stats.users.names().contains_key(name) ==> stats.user_stats(name).connects == 0
            && stats.user_stats(name).curr_connects == 0 && stats.user_stats(name).octets_from == 0
            && stats.user_stats(name).octets_to == 0 && stats.user_stats(name).msgs_from == 0
            && stats.user_stats(name).msgs_to == 0 && stats.user_stats(name).quota_used == 0,
        stats.handle_stats(handle) == stats.users.slots()[handle.slot],
{
}

/// Two sets of counters are the same but for their users only if everything else is the same.
pub proof fn law_only_users_differ(a: Stats, b: Stats)
    ensures
        same_but_users(a, b) <==> a.policy == b.policy && a.connects_all == b.connects_all && a.me
            == b.me && a.events == b.events,
{
}

/// A new handle leads to the counters of its user as they were, is one handle more of that user, and
/// changes the counters of no user and behind no other handle.
pub proof fn law_new_handle_leads_to_its_user(
    before: Stats,
    after: Stats,
    user: Seq<char>,
    handle: UserStatsHandle,
    name: Seq<char>,
    other: UserStatsHandle,
)
    requires
        before.users.separate(),
        handle_given(before, after, user, handle),
    ensures
        after.users.names().contains_key(user) && after.users.names()[user] == handle.slot,
        after.handle_stats(handle) == before.user_stats(user),
        after.user_stats(name) == before.user_stats(name),
        before.users.issued(other) ==> after.users.issued(other) && after.handle_stats(other)
            == before.handle_stats(other),
        before.users.holders(handle.slot) < u64::MAX ==> after.users.holders(handle.slot)
            == before.users.holders(handle.slot) + 1,
        other.slot != handle.slot ==> after.users.holders(other.slot) == before.users.holders(
            other.slot,
        ),
        after.events == before.events && after.me == before.me && after.connects_all
            == before.connects_all && after.policy == before.policy,
{
    if before.users.names().contains_key(name) {
        assert(before.users.slots().contains_key(before.users.names()[name]));
    }
    if before.users.names().contains_key(user) {
        assert(before.users.slots().contains_key(before.users.names()[user]));
    }
}

/// Setting the counters of a user sets exactly those, under the name and behind every handle of the user.
/// Every other user and every other handle keeps its counters, and no handle comes or goes.
pub proof fn law_set_counters_are_found(
    before: Stats,
    after: Stats,
    user: Seq<char>,
    to: UserStats,
    name: Seq<char>,
    handle: UserStatsHandle,
)
    requires
        before.users.separate(),
        user_set(before, after, user, to),
    ensures
        after.user_stats(user) == to,
        name != user ==> after.user_stats(name) == before.user_stats(name),
        before.users.issued(handle) && before.users.names().contains_key(user)
            && before.users.names()[user] == handle.slot ==> after.handle_stats(handle) == to,
        before.users.issued(handle) && !(before.users.names().contains_key(user)
            && before.users.names()[user] == handle.slot) ==> after.handle_stats(handle)
            == before.handle_stats(handle),
        after.users.holders(handle.slot) == before.users.holders(handle.slot),
        after.events == before.events && after.me == before.me && after.connects_all
            == before.connects_all && after.policy == before.policy,
{
    if before.users.names().contains_key(name) {
        assert(before.users.slots().contains_key(before.users.names()[name]));
    }
}

/// A user that gets a slot keeps the one it has; a new one is given a slot that nobody uses, and no other
/// name moves.
pub proof fn law_names_keep_their_slots(
    before: Stats,
    after: Stats,
    user: Seq<char>,
    slot: usize,
    name: Seq<char>,
)
    requires
        user_named(before, after, user, slot),
    ensures
        after.users.names().contains_key(user) && after.users.names()[user] == slot,
        before.users.names().contains_key(name) ==> after.users.names().contains_key(name)
            && after.users.names()[name] == before.users.names()[name],
        name != user && !before.users.names().contains_key(name)
            ==> !after.users.names().contains_key(name),
        !before.users.names().contains_key(user) ==> !before.users.slots().contains_key(slot),
{
}

/// Bytes in both directions are those of the one and those of the other together.
pub proof fn law_octets_are_those_of_both_directions(user: UserStats, bytes: u64)
    ensures
        went_up(user.octets_from, user.octets(), user.octets_to as int),
        user.received(bytes).octets() == user.sent(bytes).octets(),
        went_up(user.octets(), user.message_received(bytes).octets(), bytes as int) || went_up(
            user.octets(),
            user.message_received(bytes).octets(),
            bytes - 0x1_0000_0000_0000_0000,
        ),
{
}

/// An attempt succeeds if its bytes fit under the limit, and tells what is used up from then on. It fails
/// otherwise, and leaves what was used up.
pub proof fn law_attempt_tells_what_is_used(user: UserStats, bytes: u64, limit: u64)
    ensures
        user.attempt(bytes, limit) is Ok <==> user.quota_used + bytes <= limit,
        user.attempt(bytes, limit) matches Ok(used) ==> used == user.quota_used + bytes && used
            == user.attempted(bytes, limit).quota_used,
        user.attempt(bytes, limit) matches Err(error) ==> error == QuotaReserveError::LimitExceeded
            && user.attempted(bytes, limit) == user,
{
}

/// A handle that is given back changes the counters of no user and behind no handle of another user. The
/// counters behind it stay as long as the user has a name or another handle, and go otherwise.
pub proof fn law_returned_handle_changes_no_counters(
    before: Stats,
    after: Stats,
    handle: UserStatsHandle,
    name: Seq<char>,
    other: UserStatsHandle,
)
    requires
        before.users.separate(),
        before.users.issued(handle),
        handle_returned(before, after, handle),
    ensures
        after.user_stats(name) == before.user_stats(name),
        before.users.issued(other) && other.slot != handle.slot ==> after.users.issued(other)
            && after.handle_stats(other) == before.handle_stats(other),
        before.users.holders(handle.slot) > 1 ==> after.users.issued(handle) && after.handle_stats(
            handle,
        ) == before.handle_stats(handle),
        before.users.holders(handle.slot) == 1 ==> !after.users.issued(handle),
        before.users.holders(handle.slot) == 1 && (forall|known: Seq<char>| #[trigger]
            before.users.names().contains_key(known) ==> before.users.names()[known] != handle.slot)
            ==> !after.users.slots().contains_key(handle.slot),
        before.users.names().contains_key(name) && before.users.names()[name] == handle.slot
            ==> after.users.slots().contains_key(handle.slot) && after.users.slots()[handle.slot]
            == before.users.slots()[handle.slot],
        after.events == before.events && after.me == before.me && after.connects_all
            == before.connects_all && after.policy == before.policy,
{
    if before.users.names().contains_key(name) {
        assert(before.users.slots().contains_key(before.users.names()[name]));
        assert(before.users.leads_to(before.users.names()[name]));
    }
}

/// A handle that is given out and given back again leaves every other handle and every user's counters as
/// they were, and as many handles as there were.
pub proof fn law_handle_comes_and_goes(
    before: Stats,
    between: Stats,
    after: Stats,
    user: Seq<char>,
    handle: UserStatsHandle,
    name: Seq<char>,
    slot: usize,
)
    requires
        before.users.separate(),
        handle_given(before, between, user, handle),
        handle_returned(between, after, handle),
        before.users.holders(handle.slot) < u64::MAX - 1,
    ensures
        after.users.holders(slot) == before.users.holders(slot),
        after.user_stats(name) == before.user_stats(name),
{
    law_new_handle_leads_to_its_user(before, between, user, handle, name, handle);
    law_returned_handle_changes_no_counters(between, after, handle, name, handle);
}

/// A user that is removed is known no longer and counts as without traffic; the counters go unless a
/// handle keeps them. Every other user and every handle keeps its counters.
pub proof fn law_removed_user_lives_on_in_handles(
    before: Stats,
    after: Stats,
    user: Seq<char>,
    name: Seq<char>,
    handle: UserStatsHandle,
)
    requires
        before.users.separate(),
        user_removed(before, after, user),
    ensures
        !after.users.names().contains_key(user),
        after.user_stats(user).quota_used == 0 && after.user_stats(user).octets_from == 0
            && after.user_stats(user).octets_to == 0,
        name != user ==> after.user_stats(name) == before.user_stats(name),
        before.users.issued(handle) ==> after.users.issued(handle) && after.handle_stats(handle)
            == before.handle_stats(handle),
        before.users.names().contains_key(user) && before.users.holders(
            before.users.names()[user],
        ) == 0 ==> !after.users.slots().contains_key(before.users.names()[user]),
        after.events == before.events && after.me == before.me && after.connects_all
            == before.connects_all && after.policy == before.policy,
{
    if before.users.names().contains_key(name) {
        assert(before.users.slots().contains_key(before.users.names()[name]));
    }
    if before.users.names().contains_key(user) {
        assert(before.users.slots().contains_key(before.users.names()[user]));
    }
}

} // verus!
