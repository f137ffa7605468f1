//! Shared metrics.

use dxfeed::metrics::MetricsHandle;

#[test]
fn metrics_default_zeros() {
    let handle = MetricsHandle::new();
    let snap = handle.snapshot();
    assert_eq!(snap.spots_received, 0);
    assert_eq!(snap.spots_filtered, 0);
    assert_eq!(snap.spots_emitted, 0);
    assert_eq!(snap.parse_errors, 0);
    assert_eq!(snap.reconnects, 0);
    assert_eq!(snap.spot_table_size, 0);
}

#[test]
fn metrics_increment_and_snapshot() {
    let handle = MetricsHandle::new();
    handle.inc_spots_received();
    handle.inc_spots_received();
    handle.inc_spots_emitted();
    handle.inc_spots_filtered();
    handle.inc_parse_errors();
    handle.inc_reconnects();
    handle.set_spot_table_size(42);

    let snap = handle.snapshot();
    assert_eq!(snap.spots_received, 2);
    assert_eq!(snap.spots_emitted, 1);
    assert_eq!(snap.spots_filtered, 1);
    assert_eq!(snap.parse_errors, 1);
    assert_eq!(snap.reconnects, 1);
    assert_eq!(snap.spot_table_size, 42);
}

#[test]
fn metrics_clone_shares_state() {
    let handle1 = MetricsHandle::new();
    let handle2 = handle1.clone();

    handle1.inc_spots_received();
    handle2.inc_spots_received();

    assert_eq!(handle1.snapshot().spots_received, 2);
    assert_eq!(handle2.snapshot().spots_received, 2);
}

fn assert_send_sync<T: Send + Sync>() {}

#[test]
fn metrics_is_send_sync() {
    assert_send_sync::<MetricsHandle>();
}
