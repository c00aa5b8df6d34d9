//! Connections, writers and their bindings.

use std::collections::{HashMap, HashSet};

use relay_core::transport::middle_proxy::registry::{
    BoundConn, ConnMeta, ConnRegistry, ConnWriter, RouteBackpressure,
};

fn registry() -> ConnRegistry {
    ConnRegistry::new(RouteBackpressure {
        channel_capacity: 8,
        base_timeout_ms: 25,
        high_timeout_ms: 120,
        high_watermark_pct: 80,
    })
}

fn meta(target_dc: i16) -> ConnMeta {
    ConnMeta {
        target_dc,
        details: 1_000 + target_dc.unsigned_abs() as u64,
    }
}

#[test]
fn bound_connection_leads_to_its_writer() {
    let mut registry = registry();
    registry.register_route(1, 101, 201);
    registry.register_writer(7, 307);
    assert_eq!(registry.get_writer(1), None);
    assert!(registry.bind_writer(1, 7, meta(2)));
    assert_eq!(
        registry.get_writer(1),
        Some(ConnWriter {
            writer_id: 7,
            tx: 307
        })
    );
    assert_eq!(
        registry.get_writer_with_meta(1),
        Some((
            ConnWriter {
                writer_id: 7,
                tx: 307
            },
            meta(2)
        ))
    );
    assert_eq!(registry.get_meta(1), Some(meta(2)));
    assert_eq!(registry.get_last_writer_meta(7), Some(meta(2)));
    assert_eq!(registry.active_conn_ids(), vec![1]);
    assert!(!registry.is_writer_empty(7));
}

#[test]
fn only_known_connections_are_bound_to_known_writers() {
    let mut registry = registry();
    registry.register_route(1, 101, 201);
    registry.register_writer(7, 307);
    assert!(!registry.bind_writer(2, 7, meta(2)));
    assert!(!registry.bind_writer(1, 8, meta(2)));
    assert!(registry.active_conn_ids().is_empty());
    assert_eq!(registry.get_meta(1), None);
    assert_eq!(registry.get_last_writer_meta(7), None);
}

#[test]
fn forgotten_connection_leaves_its_writer_idle() {
    let mut registry = registry();
    registry.register_route(1, 101, 201);
    registry.register_route(2, 102, 202);
    registry.register_writer(7, 307);
    assert!(registry.bind_writer_at(1, 7, meta(2), 50));
    assert!(registry.bind_writer_at(2, 7, meta(3), 51));
    assert_eq!(registry.unregister_at(1, 60), Some(7));
    assert!(registry.writer_idle_since_snapshot().is_empty());
    assert_eq!(registry.unregister_at(2, 70), Some(7));
    assert_eq!(registry.unregister_at(2, 80), None);
    assert_eq!(registry.writer_idle_since_snapshot(), HashMap::from([(7, 70)]));
    assert_eq!(registry.get_writer(2), None);
    assert!(registry.is_writer_empty(7));

    // A new connection ends the idle time.
    registry.register_route(3, 103, 203);
    assert!(registry.bind_writer_at(3, 7, meta(4), 90));
    assert!(registry.writer_idle_since_snapshot().is_empty());
    assert_eq!(registry.get_last_writer_meta(7), Some(meta(4)));
}

#[test]
fn connection_moves_between_writers() {
    let mut registry = registry();
    registry.register_route(1, 101, 201);
    registry.register_writer(7, 307);
    registry.register_writer(8, 308);
    assert!(registry.bind_writer_at(1, 7, meta(2), 10));
    assert!(registry.bind_writer_at(1, 8, meta(2), 20));
    assert_eq!(registry.writer_idle_since_snapshot(), HashMap::from([(7, 20)]));
    assert!(registry.is_writer_empty(7));
    assert_eq!(
        registry.get_writer(1),
        Some(ConnWriter {
            writer_id: 8,
            tx: 308
        })
    );
    // Binding to the same writer again changes nothing but the purpose.
    assert!(registry.bind_writer_at(1, 8, meta(5), 30));
    assert_eq!(registry.get_meta(1), Some(meta(5)));
    assert_eq!(registry.writer_idle_since_snapshot(), HashMap::from([(7, 20)]));
}

#[test]
fn lost_writer_leaves_its_connections() {
    let mut registry = registry();
    for id in 1..=3 {
        registry.register_route(id, 100 + id, 200 + id);
    }
    registry.register_writer(7, 307);
    registry.register_writer(8, 308);
    assert!(registry.bind_writer(1, 7, meta(1)));
    assert!(registry.bind_writer(2, 7, meta(2)));
    assert!(registry.bind_writer(3, 8, meta(3)));
    let mut lost = registry.writer_lost(7);
    lost.sort_by_key(|conn| conn.conn_id);
    assert_eq!(
        lost,
        vec![
            BoundConn {
                conn_id: 1,
                meta: meta(1)
            },
            BoundConn {
                conn_id: 2,
                meta: meta(2)
            },
        ]
    );
    assert_eq!(registry.get_writer(1), None);
    assert_eq!(registry.get_writer(2), None);
    assert_eq!(
        registry.get_writer(3),
        Some(ConnWriter {
            writer_id: 8,
            tx: 308
        })
    );
    assert_eq!(registry.active_conn_ids(), vec![3]);
    assert!(!registry.bind_writer(1, 7, meta(1)));
    assert!(registry.writer_lost(9).is_empty());
}

#[test]
fn writers_are_marked_idle_once() {
    let mut registry = registry();
    registry.register_writer(7, 307);
    registry.mark_writer_idle_at(7, 100);
    registry.mark_writer_idle_at(7, 200);
    registry.mark_writer_idle_at(9, 300);
    assert_eq!(
        registry.writer_idle_since_snapshot(),
        HashMap::from([(7, 100), (9, 300)])
    );
    assert_eq!(
        registry.writer_idle_since_for_writer_ids(&[9, 11, 9]),
        HashMap::from([(9, 300)])
    );
    registry.mark_writer_idle(11);
    assert_eq!(registry.writer_idle_since_snapshot().len(), 3);
}

#[test]
fn empty_writers_are_forgotten() {
    let mut registry = registry();
    registry.register_route(1, 101, 201);
    registry.register_writer(7, 307);
    registry.register_writer(8, 308);
    assert!(registry.bind_writer(1, 7, meta(1)));
    assert!(!registry.unregister_writer_if_empty(7));
    assert!(registry.unregister_writer_if_empty(8));
    assert!(registry.unregister_writer_if_empty(9));
    assert!(!registry.bind_writer(1, 8, meta(1)));
    assert_eq!(registry.non_empty_writer_ids(&[7, 8, 9]), HashSet::from([7]));
    assert_eq!(registry.unregister(1), Some(7));
    assert!(registry.unregister_writer_if_empty(7));
    assert!(registry.writer_idle_since_snapshot().is_empty());
}

#[test]
fn activity_is_counted() {
    let mut registry = registry();
    for id in 1..=5 {
        registry.register_route(id, 100 + id, 200 + id);
    }
    registry.register_writer(7, 307);
    registry.register_writer(8, 308);
    registry.register_writer(9, 309);
    assert!(registry.bind_writer(1, 7, meta(2)));
    assert!(registry.bind_writer(2, 7, meta(-2)));
    assert!(registry.bind_writer(3, 7, meta(2)));
    assert!(registry.bind_writer(4, 8, meta(0)));
    let snapshot = registry.writer_activity_snapshot();
    assert_eq!(
        snapshot.bound_clients_by_writer,
        HashMap::from([(7, 3), (8, 1), (9, 0)])
    );
    assert_eq!(
        snapshot.active_sessions_by_target_dc,
        HashMap::from([(2, 2), (-2, 1)])
    );
}

#[test]
fn binding_outlasts_what_others_do() {
    let mut registry = registry();
    for id in 1..4 {
        registry.register_route(id, 100 + id, 200 + id);
    }
    registry.register_writer(7, 307);
    registry.register_writer(8, 308);
    assert!(registry.bind_writer(1, 7, meta(2)));
    assert!(registry.bind_writer(2, 7, meta(3)));
    assert!(registry.bind_writer(3, 8, meta(4)));
    registry.register_route(1, 111, 211);
    registry.register_writer(9, 309);
    registry.mark_writer_idle(7);
    assert!(!registry.unregister_writer_if_empty(7));
    registry.set_backpressure(RouteBackpressure {
        channel_capacity: 8,
        base_timeout_ms: 1,
        high_timeout_ms: 1,
        high_watermark_pct: 1,
    });
    assert!(registry.bind_writer(2, 9, meta(5)));
    assert_eq!(registry.writer_lost(8).len(), 1);
    assert_eq!(registry.unregister(2), Some(9));
    assert_eq!(
        registry.get_writer_with_meta(1),
        Some((
            ConnWriter {
                writer_id: 7,
                tx: 307
            },
            meta(2)
        ))
    );
    assert_eq!(registry.unregister(1), Some(7));
    assert_eq!(registry.get_writer(1), None);
}
