//! Closing connections.
//!
//! A close goes to the writer of a connection as a control command. The connection is forgotten
//! whether or not the command reaches the writer.

use vstd::prelude::*;

use super::super::registry::laws::law_unregister_keeps_consistency;
use super::super::registry::{ConnWriter, RegistryState};
use super::super::MePool;

verus! {

/// Limit on the wait for room in the channel of a writer, in milliseconds.
pub const CLOSE_CONN_RETRY_MS: u64 = 50;

/// Which close a control command asks for.
#[derive(Debug, Clone, Copy, PartialEq, Eq, Structural)]
pub enum CloseKind {
    CloseExt,
    CloseConn,
}

/// A control command, to be written and flushed at once.
#[derive(Debug, Clone, Copy, PartialEq, Eq, Structural)]
pub struct ControlAndFlush {
    pub kind: CloseKind,
    pub conn_id: u64,
}

/// What is to be done for a close.
#[derive(Debug, Clone, Copy, PartialEq, Eq, Structural)]
pub enum CloseStep {
    /// Send the command to the writer; take it from [`CloseStep::on_sent`] or
    /// [`CloseStep::on_try_send`] what follows.
    Send(ConnWriter, ControlAndFlush),
    /// Send the command to the writer, and give up after so many milliseconds.
    SendWithin(ConnWriter, ControlAndFlush, u64),
    /// Remove the writer and close its clients.
    RemoveWriter(u64),
    /// Nothing but to forget the connection.
    Forget,
}

/// What came of putting a command into the channel of a writer without waiting.
#[derive(Debug, Clone, Copy, PartialEq, Eq, Structural)]
pub enum CommandOutcome {
    Sent,
    Full,
    Closed,
}

/// First step of a close.
pub open spec fn first_close_step(
    state: RegistryState,
    conn_id: u64,
    kind: CloseKind,
) -> CloseStep {
    match state.writer(conn_id) {
        Some(writer) => CloseStep::Send(writer, ControlAndFlush { kind, conn_id }),
        None => CloseStep::Forget,
    }
}

impl CloseStep {
    /// Step after a command was sent, or failed to be.
    pub open spec fn after_sent(self, sent: bool) -> CloseStep {
        match self {
            CloseStep::Send(writer, _) => if sent {
                CloseStep::Forget
            } else {
                CloseStep::RemoveWriter(writer.writer_id)
            },
            _ => CloseStep::Forget,
        }
    }

    /// Goes on after a command was sent, or failed to be because the channel is closed.
    pub fn on_sent(self, sent: bool) -> (res: CloseStep)
        ensures
            res == self.after_sent(sent),
    {
        match self {
            CloseStep::Send(writer, _) => {
                if sent {
                    CloseStep::Forget
                } else {
                    CloseStep::RemoveWriter(writer.writer_id)
                }
            },
            _ => CloseStep::Forget,
        }
    }

    /// Step after a command was put into a channel, or was not.
    pub open spec fn after_try_send(self, outcome: CommandOutcome) -> CloseStep {
        match self {
            CloseStep::Send(writer, command) => if outcome == CommandOutcome::Full {
                CloseStep::SendWithin(writer, command, CLOSE_CONN_RETRY_MS)
            } else {
                CloseStep::Forget
            },
            _ => CloseStep::Forget,
        }
    }

    /// Goes on after a command was put into a channel, or was not.
    pub fn on_try_send(self, outcome: CommandOutcome) -> (res: CloseStep)
        ensures
            res == self.after_try_send(outcome),
    {
        match self {
            CloseStep::Send(writer, command) => match outcome {
                CommandOutcome::Full => CloseStep::SendWithin(writer, command, CLOSE_CONN_RETRY_MS),
                _ => CloseStep::Forget,
            },
            _ => CloseStep::Forget,
        }
    }
}

/// State after connections were forgotten one after the other, each at its time.
pub open spec fn forgotten(state: RegistryState, conn_ids: Seq<u64>, times: Seq<u64>) -> RegistryState
    decreases conn_ids.len(),
{
    if conn_ids.len() == 0 {
        state
    } else {
        forgotten(state, conn_ids.drop_last(), times).unregister(
            conn_ids.last(),
            times[conn_ids.len() - 1],
        )
    }
}

impl MePool {
    fn close_step(&self, conn_id: u64, kind: CloseKind) -> (res: CloseStep)
        ensures
            res == first_close_step(self.registry@, conn_id, kind),
    {
        match self.registry.get_writer(conn_id) {
            Some(writer) => CloseStep::Send(writer, ControlAndFlush { kind, conn_id }),
            None => CloseStep::Forget,
        }
    }

    /// Starts to close a connection for good. The command waits for room in the channel of the writer;
    /// [`CloseStep::on_sent`] says what follows.
    pub fn send_close(&self, conn_id: u64) -> (res: CloseStep)
        ensures
            res == first_close_step(self.registry@, conn_id, CloseKind::CloseExt),
    {
        self.close_step(conn_id, CloseKind::CloseExt)
    }

    /// Starts to close a connection. The command is tried without waiting;
    /// [`CloseStep::on_try_send`] says what follows.
    pub fn send_close_conn(&self, conn_id: u64) -> (res: CloseStep)
        ensures
            res == first_close_step(self.registry@, conn_id, CloseKind::CloseConn),
    {
        self.close_step(conn_id, CloseKind::CloseConn)
    }

    /// Ends a close at `now`: the connection is forgotten.
    pub fn finish_close_at(&mut self, conn_id: u64, now: u64)
        ensures
            final(self).registry@ == old(self).registry@.unregister(conn_id, now),
            final(self).conn_count == old(self).conn_count,
    {
        let _ = self.registry.unregister_at(conn_id, now);
    }

    /// Ends a close: the connection is forgotten.
    pub fn finish_close(&mut self, conn_id: u64)
        ensures
            exists|now: u64|
                final(self).registry@ == #[trigger] old(self).registry@.unregister(conn_id, now),
            final(self).conn_count == old(self).conn_count,
    {
        let _ = self.registry.unregister(conn_id);
    }

    /// The connections to be closed on shutdown, with [`MePool::send_close_conn`] one after the other.
    /// Their number is the number of closed connections.
    pub fn shutdown_send_close_conn_all(&self) -> (conn_ids: Vec<u64>)
        ensures
            conn_ids@.no_duplicates(),
            conn_ids@.to_set() == self.registry@.writer_of.dom(),
            conn_ids@.len() == self.registry@.writer_of.len(),
    {
        self.registry.active_conn_ids()
    }

    /// Number of open connections to middle proxies.
    pub fn connection_count(&self) -> (res: usize)
        ensures
            res == self.conn_count,
    {
        self.conn_count
    }
}

/// A close asks something of the writer of the connection only, and a connection without a writer asks
/// nothing of anyone.
pub proof fn law_close_reaches_the_writer_of_the_connection(
    state: RegistryState,
    conn_id: u64,
    kind: CloseKind,
    sent: bool,
    outcome: CommandOutcome,
)
    ensures
        state.writer(conn_id) is None ==> first_close_step(state, conn_id, kind)
            == CloseStep::Forget,
        state.writer(conn_id) matches Some(writer) ==> {
            let command = ControlAndFlush { kind, conn_id };
            let step = first_close_step(state, conn_id, kind);
            &&& step == CloseStep::Send(writer, command)
            &&& step.after_sent(sent) == (if sent {
                CloseStep::Forget
            } else {
                CloseStep::RemoveWriter(writer.writer_id)
            })
            &&& step.after_try_send(outcome) == (if outcome == CommandOutcome::Full {
                CloseStep::SendWithin(writer, command, CLOSE_CONN_RETRY_MS)
            } else {
                CloseStep::Forget
            })
        },
{
}

/// A command that found its channel full is tried once more, for fifty milliseconds, at the same writer; a
/// command that could not be sent costs the writer its place; and nothing else asks for anything more.
pub proof fn law_close_is_tried_again_once(
    writer: ConnWriter,
    command: ControlAndFlush,
    step: CloseStep,
    limit_ms: u64,
    sent: bool,
    outcome: CommandOutcome,
)
    ensures
        ({
            let first = CloseStep::Send(writer, command);
            &&& first.after_try_send(CommandOutcome::Full) == CloseStep::SendWithin(
                writer,
                command,
                50,
            )
            &&& first.after_try_send(CommandOutcome::Sent) == CloseStep::Forget
            &&& first.after_try_send(CommandOutcome::Closed) == CloseStep::Forget
            &&& first.after_sent(true) == CloseStep::Forget
            &&& first.after_sent(false) == CloseStep::RemoveWriter(writer.writer_id)
        }),
        !(step is Send) ==> step.after_try_send(outcome) == CloseStep::Forget && step.after_sent(sent)
            == CloseStep::Forget,
{
}

/// A close is sent to the writer under which the connection is bound, through the channel of the writer,
/// and names the connection and the kind of close. A connection that is unknown, unbound or bound to a
/// writer without a channel is just forgotten.
pub proof fn law_close_names_the_connection(
    state: RegistryState,
    conn_id: u64,
    kind: CloseKind,
)
    ensures
        ({
            let step = first_close_step(state, conn_id, kind);
            let writer_id = state.hot[conn_id].writer_id;
            if state.routes.contains_key(conn_id) && state.hot.contains_key(conn_id)
                && state.channels.contains_key(writer_id) {
                step matches CloseStep::Send(writer, command) && writer.writer_id == writer_id
                    && writer.tx == state.channels[writer_id] && command.kind == kind
                    && command.conn_id == conn_id
            } else {
                step == CloseStep::Forget
            }
        }),
{
}

/// Connections that are forgotten one after the other are forgotten in that order, each at its own time.
pub proof fn law_forgetting_goes_one_by_one(
    state: RegistryState,
    conn_ids: Seq<u64>,
    times: Seq<u64>,
    conn_id: u64,
    time: u64,
)
    requires
        times.len() == conn_ids.len(),
    ensures
        forgotten(state, Seq::empty(), times) == state,
        forgotten(state, conn_ids.push(conn_id), times.push(time)) == forgotten(
            state,
            conn_ids,
            times,
        ).unregister(conn_id, time),
{
    assert(conn_ids.push(conn_id).drop_last() =~= conn_ids);
    lemma_later_times_do_not_matter(state, conn_ids, times, time);
}

proof fn lemma_later_times_do_not_matter(
    state: RegistryState,
    conn_ids: Seq<u64>,
    times: Seq<u64>,
    time: u64,
)
    requires
        conn_ids.len() <= times.len(),
    ensures
        forgotten(state, conn_ids, times.push(time)) == forgotten(state, conn_ids, times),
    decreases conn_ids.len(),
{
    if conn_ids.len() > 0 {
        lemma_later_times_do_not_matter(state, conn_ids.drop_last(), times, time);
    }
}

/// A closed connection is gone, whatever became of its command, and a second close of it asks nothing
/// of anyone.
pub proof fn law_closed_connection_is_gone(
    state: RegistryState,
    conn_id: u64,
    kind: CloseKind,
    now: u64,
)
    ensures
        !state.unregister(conn_id, now).routes.contains_key(conn_id),
        !state.unregister(conn_id, now).writer_of.contains_key(conn_id),
        first_close_step(state.unregister(conn_id, now), conn_id, kind) == CloseStep::Forget,
{
}

/// Forgetting connections leaves exactly the others active, and keeps the registry consistent.
pub proof fn law_forgetting_leaves_the_others(
    state: RegistryState,
    conn_ids: Seq<u64>,
    times: Seq<u64>,
)
    requires
        state.consistent(),
    ensures
        forgotten(state, conn_ids, times).consistent(),
        forgotten(state, conn_ids, times).writer_of == state.writer_of.remove_keys(
            conn_ids.to_set(),
        ),
    decreases conn_ids.len(),
{
    if conn_ids.len() == 0 {
        assert(state.writer_of.remove_keys(conn_ids.to_set()) =~= state.writer_of);
    } else {
        let before = conn_ids.drop_last();
        let last = conn_ids.last();
        law_forgetting_leaves_the_others(state, before, times);
        law_unregister_keeps_consistency(
            forgotten(state, before, times),
            last,
            times[conn_ids.len() - 1],
        );
        assert(conn_ids =~= before.push(last));
        before.lemma_push_to_set_commute(last);
        assert(forgotten(state, conn_ids, times).writer_of =~= state.writer_of.remove_keys(
            conn_ids.to_set(),
        ));
    }
}

/// After a shutdown no connection is active, and no connection leads to a writer.
pub proof fn law_shutdown_leaves_no_active_connection(
    state: RegistryState,
    conn_ids: Seq<u64>,
    times: Seq<u64>,
)
    requires
        state.consistent(),
        conn_ids.to_set() == state.writer_of.dom(),
    ensures
        forgotten(state, conn_ids, times).writer_of.dom().is_empty(),
        forall|conn_id: u64| #[trigger]
            forgotten(state, conn_ids, times).writer(conn_id) is None,
{
    let after = forgotten(state, conn_ids, times);
    law_forgetting_leaves_the_others(state, conn_ids, times);
    assert(after.writer_of.dom() =~= Set::<u64>::empty());
}

} // verus!
