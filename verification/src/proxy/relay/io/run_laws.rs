//! What holds of a whole read and a whole write.

use vstd::prelude::*;

use super::laws::{
    law_granted_bytes_are_used_or_given_back, law_reading_uses_up_what_it_brings,
    law_writing_uses_up_what_it_takes, read_reserves, write_holds, write_reserves, write_returns,
    ReadEvent, WriteEvent,
};
use super::read::{ReadOutcome, ReadStep};
use super::write::{WriteOutcome, WriteStep};
use super::IoState;

verus! {

/// Whether an event is what comes of a step. The stream hands over no more than it was asked for.
pub open spec fn read_follows(step: ReadStep, event: ReadEvent) -> bool {
    match (step, event) {
        (ReadStep::Consume(asked), ReadEvent::Consumed(stage, _, _)) => stage == asked,
        (ReadStep::Sleep(asked), ReadEvent::Slept(stage, _)) => stage == asked,
        (ReadStep::Reserve(asked), ReadEvent::Tried(stage, _, _)) => stage == asked,
        (ReadStep::QuotaSleep(asked), ReadEvent::QuotaSlept(stage, _)) => stage == asked,
        (ReadStep::Read(asked), ReadEvent::WasRead(stage, outcome, _, _)) => stage == asked && (
        outcome matches ReadOutcome::Ready(n) ==> n <= stage.limit),
        _ => false,
    }
}

/// Whether an event is what comes of a step. The stream takes no more than it was given.
pub open spec fn write_follows(step: WriteStep, event: WriteEvent) -> bool {
    match (step, event) {
        (WriteStep::Consume(asked), WriteEvent::Granted(stage, _, _)) => stage == asked,
        (WriteStep::Sleep(asked), WriteEvent::Slept(stage, _)) => stage == asked,
        (WriteStep::Reserve(asked), WriteEvent::Tried(stage, _, _)) => stage == asked,
        (WriteStep::QuotaSleep(asked), WriteEvent::QuotaSlept(stage, _)) => stage == asked,
        (WriteStep::Write(asked), WriteEvent::WasWritten(stage, outcome, _, _)) => stage == asked && (
        outcome matches WriteOutcome::Ready(n) ==> n <= stage.len),
        _ => false,
    }
}

/// State and step after the events of a read.
pub open spec fn read_run(state: IoState, events: Seq<ReadEvent>) -> (IoState, ReadStep)
    decreases events.len(),
{
    if events.len() <= 1 {
        events[0].applied(state)
    } else {
        events.last().applied(read_run(state, events.drop_last()).0)
    }
}

/// State and step after the events of a write.
pub open spec fn write_run(state: IoState, events: Seq<WriteEvent>) -> (IoState, WriteStep)
    decreases events.len(),
{
    if events.len() <= 1 {
        events[0].applied(state)
    } else {
        events.last().applied(write_run(state, events.drop_last()).0)
    }
}

/// Whether the events make up a read, or the beginning of one.
pub open spec fn is_read(state: IoState, events: Seq<ReadEvent>) -> bool
    decreases events.len(),
{
    if events.len() <= 1 {
        events.len() == 1 && events[0] is Start
    } else {
        is_read(state, events.drop_last()) && read_follows(
            read_run(state, events.drop_last()).1,
            events.last(),
        )
    }
}

/// Whether the events make up a write, or the beginning of one.
pub open spec fn is_write(state: IoState, events: Seq<WriteEvent>) -> bool
    decreases events.len(),
{
    if events.len() <= 1 {
        events.len() == 1 && events[0] is Start
    } else {
        is_write(state, events.drop_last()) && write_follows(
            write_run(state, events.drop_last()).1,
            events.last(),
        )
    }
}

/// Bytes that the events of a read brought.
pub open spec fn read_bytes(events: Seq<ReadEvent>) -> int
    decreases events.len(),
{
    if events.len() == 0 {
        0
    } else {
        read_bytes(events.drop_last()) + events.last().bytes()
    }
}

/// Bytes that the events of a write took.
pub open spec fn write_bytes(events: Seq<WriteEvent>) -> int
    decreases events.len(),
{
    if events.len() == 0 {
        0
    } else {
        write_bytes(events.drop_last()) + events.last().bytes()
    }
}

/// Bytes that the traffic lease granted by an event.
pub open spec fn newly_granted(event: WriteEvent) -> int {
    match event {
        WriteEvent::Granted(_, grant, _) => grant.granted as int,
        _ => 0,
    }
}

/// Bytes that the traffic lease granted during a write.
pub open spec fn lease_granted(events: Seq<WriteEvent>) -> int
    decreases events.len(),
{
    if events.len() == 0 {
        0
    } else {
        lease_granted(events.drop_last()) + newly_granted(events.last())
    }
}

/// Bytes that were given back to the traffic lease during a write.
pub open spec fn lease_returned(state: IoState, events: Seq<WriteEvent>) -> int
    decreases events.len(),
{
    if events.len() == 0 {
        0
    } else {
        lease_returned(state, events.drop_last()) + write_returns(write_run(state, events).1)
    }
}

/// What is true of every step of a read under way.
spec fn sound_read(state: IoState, now: IoState, step: ReadStep) -> bool {
    &&& now.io.quota_limit == state.io.quota_limit
    &&& match step {
        ReadStep::Reserve(stage) => Some(stage.limit) == state.io.quota_limit && 1 <= stage.desired
            <= usize::MAX,
        ReadStep::QuotaSleep(stage) => Some(stage.reserve.limit) == state.io.quota_limit && 1
            <= stage.reserve.desired <= usize::MAX,
        ReadStep::Read(stage) => {
            &&& state.io.quota_limit is Some <==> stage.reserved > 0
            &&& stage.reserved > 0 ==> stage.limit == stage.reserved
        },
        _ => true,
    }
}

/// What is true of every step of a write under way.
spec fn sound_write(state: IoState, now: IoState, step: WriteStep) -> bool {
    &&& now.io.quota_limit == state.io.quota_limit
    &&& now.io.has_lease == state.io.has_lease
    &&& match step {
        WriteStep::Consume(_) => state.io.has_lease,
        WriteStep::Sleep(stage) => state.io.has_lease && (
        stage.after matches super::write::AfterSleep::Proceed(len, granted) ==> len <= granted),
        WriteStep::Reserve(stage) => {
            &&& Some(stage.limit) == state.io.quota_limit
            &&& 1 <= stage.desired <= stage.len
            &&& state.io.has_lease ==> stage.len <= stage.granted
        },
        WriteStep::Write(stage) => {
            &&& state.io.quota_limit is Some && stage.len > 0 <==> stage.reserved > 0
            &&& stage.reserved > 0 ==> stage.len == stage.reserved
            &&& state.io.has_lease ==> stage.len <= stage.granted
        },
        _ => true,
    }
}

/// A whole read uses up of the quota exactly the bytes that it brings, whatever comes of its steps:
/// nothing where it fails, waits or is refused, and nothing where there is no quota.
pub proof fn law_whole_read_uses_up_what_it_brings(state: IoState, events: Seq<ReadEvent>)
    requires
        is_read(state, events),
    ensures
        ({
            let (after, step) = read_run(state, events);
            &&& after.user.quota_used - read_reserves(step) == state.user.quota_used + (
            if state.io.quota_limit is Some {
                read_bytes(events)
            } else {
                0
            })
            &&& step is Return ==> read_reserves(step) == 0
        }),
{
    lemma_read_is_sound(state, events);
}

proof fn lemma_read_is_sound(state: IoState, events: Seq<ReadEvent>)
    requires
        is_read(state, events),
    ensures
        sound_read(state, read_run(state, events).0, read_run(state, events).1),
        read_bytes(events) >= 0,
        read_run(state, events).0.user.quota_used - read_reserves(read_run(state, events).1)
            == state.user.quota_used + (if state.io.quota_limit is Some {
            read_bytes(events)
        } else {
            0
        }),
    decreases events.len(),
{
    let event = events.last();
    reveal_with_fuel(read_bytes, 2);
    if events.len() > 1 {
        let earlier = events.drop_last();
        let (before, step) = read_run(state, earlier);
        lemma_read_is_sound(state, earlier);
        law_reading_uses_up_what_it_brings(before, event);
    } else {
        law_reading_uses_up_what_it_brings(state, event);
        assert(events.drop_last() =~= Seq::empty());
    }
}

/// A whole write uses up of the quota exactly the bytes that it takes, and gives back to the traffic
/// lease exactly what it was granted and did not use, whatever comes of its steps.
pub proof fn law_whole_write_uses_up_what_it_takes(state: IoState, events: Seq<WriteEvent>)
    requires
        is_write(state, events),
    ensures
        ({
            let (after, step) = write_run(state, events);
            &&& after.user.quota_used - write_reserves(step) == state.user.quota_used + (
            if state.io.quota_limit is Some {
                write_bytes(events)
            } else {
                0
            })
            &&& state.io.has_lease ==> lease_granted(events) == write_bytes(events)
                + lease_returned(state, events) + write_holds(step)
            &&& step is Return ==> write_reserves(step) == 0 && write_holds(step) == 0
        }),
{
    lemma_write_is_sound(state, events);
}

proof fn lemma_write_step(state: IoState, before: IoState, step: WriteStep, event: WriteEvent)
    requires
        sound_write(state, before, step),
        write_follows(step, event),
    ensures
        sound_write(state, event.applied(before).0, event.applied(before).1),
        event.reserved() == write_reserves(step),
        event.reserved() > 0 ==> event.bytes() <= event.reserved(),
        event.bytes() > 0 && state.io.quota_limit is Some ==> event.reserved() > 0,
        event.reserved() > 0 ==> state.io.quota_limit is Some,
        event.bytes() >= 0,
        state.io.has_lease ==> event.bytes() <= event.granted(),
        event.granted() == write_holds(step) + newly_granted(event),
        event matches WriteEvent::Tried(stage, _, _) ==> stage.desired <= usize::MAX,
{
}

proof fn lemma_write_is_sound(state: IoState, events: Seq<WriteEvent>)
    requires
        is_write(state, events),
    ensures
        sound_write(state, write_run(state, events).0, write_run(state, events).1),
        write_bytes(events) >= 0,
        write_run(state, events).0.user.quota_used - write_reserves(write_run(state, events).1)
            == state.user.quota_used + (if state.io.quota_limit is Some {
            write_bytes(events)
        } else {
            0
        }),
        state.io.has_lease ==> lease_granted(events) == write_bytes(events) + lease_returned(
            state,
            events,
        ) + write_holds(write_run(state, events).1),
    decreases events.len(),
{
    let event = events.last();
    if events.len() > 1 {
        let earlier = events.drop_last();
        let (before, step) = write_run(state, earlier);
        lemma_write_is_sound(state, earlier);
        lemma_write_step(state, before, step, event);
        law_writing_uses_up_what_it_takes(before, event);
        if state.io.has_lease {
            law_granted_bytes_are_used_or_given_back(before, event);
        }
    } else {
        let none = events.drop_last();
        law_writing_uses_up_what_it_takes(state, event);
        if state.io.has_lease {
            law_granted_bytes_are_used_or_given_back(state, event);
        }
        assert(none =~= Seq::empty());
        assert(write_bytes(none) == 0 && lease_granted(none) == 0 && lease_returned(state, none)
            == 0);
    }
}

} // verus!
