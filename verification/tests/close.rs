//! Closing connections.

use relay_core::transport::middle_proxy::registry::{
    ConnMeta, ConnRegistry, ConnWriter, RouteBackpressure,
};
use relay_core::transport::middle_proxy::send::close::{
    CloseKind, CloseStep, CommandOutcome, ControlAndFlush,
};
use relay_core::transport::middle_proxy::MePool;

fn pool() -> MePool {
    let mut registry = ConnRegistry::new(RouteBackpressure {
        channel_capacity: 8,
        base_timeout_ms: 25,
        high_timeout_ms: 120,
        high_watermark_pct: 80,
    });
    for id in 1..=3 {
        registry.register_route(id, 100 + id, 200 + id);
    }
    registry.register_writer(7, 307);
    let meta = ConnMeta {
        target_dc: 2,
        details: 0,
    };
    assert!(registry.bind_writer(1, 7, meta));
    assert!(registry.bind_writer(2, 7, meta));
    MePool::new(registry)
}

const WRITER: ConnWriter = ConnWriter {
    writer_id: 7,
    tx: 307,
};

#[test]
fn close_goes_to_the_writer() {
    let mut pool = pool();
    let command = ControlAndFlush {
        kind: CloseKind::CloseExt,
        conn_id: 1,
    };
    let step = pool.send_close(1);
    assert_eq!(step, CloseStep::Send(WRITER, command));
    assert_eq!(step.on_sent(true), CloseStep::Forget);
    assert_eq!(step.on_sent(false), CloseStep::RemoveWriter(7));
    pool.finish_close(1);
    assert_eq!(pool.send_close(1), CloseStep::Forget);
    assert_eq!(pool.registry.active_conn_ids(), vec![2]);
}

#[test]
fn close_conn_is_tried_twice() {
    let mut pool = pool();
    let command = ControlAndFlush {
        kind: CloseKind::CloseConn,
        conn_id: 2,
    };
    let step = pool.send_close_conn(2);
    assert_eq!(step, CloseStep::Send(WRITER, command));
    assert_eq!(step.on_try_send(CommandOutcome::Sent), CloseStep::Forget);
    assert_eq!(step.on_try_send(CommandOutcome::Closed), CloseStep::Forget);
    let retry = step.on_try_send(CommandOutcome::Full);
    assert_eq!(retry, CloseStep::SendWithin(WRITER, command, 50));
    assert_eq!(retry.on_try_send(CommandOutcome::Full), CloseStep::Forget);
    pool.finish_close_at(2, 5);
    assert_eq!(pool.registry.active_conn_ids(), vec![1]);
}

#[test]
fn connection_without_a_writer_is_only_forgotten() {
    let mut pool = pool();
    assert_eq!(pool.send_close(3), CloseStep::Forget);
    assert_eq!(pool.send_close_conn(3), CloseStep::Forget);
    pool.finish_close(3);
    assert_eq!(pool.registry.active_conn_ids().len(), 2);
}

#[test]
fn shutdown_closes_every_active_connection() {
    let mut pool = pool();
    let mut conn_ids = pool.shutdown_send_close_conn_all();
    conn_ids.sort_unstable();
    assert_eq!(conn_ids, vec![1, 2]);
    for conn_id in conn_ids {
        pool.finish_close(conn_id);
    }
    assert!(pool.shutdown_send_close_conn_all().is_empty());
}

#[test]
fn connections_are_counted() {
    let mut pool = pool();
    assert_eq!(pool.connection_count(), 0);
    pool.conn_count = 4;
    assert_eq!(pool.connection_count(), 4);
}
