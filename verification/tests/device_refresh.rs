use gnil_app::refresh::{
    reconcile_delay, DeviceRefresh, RefreshGate, DEVICE_MONITOR_INTERVAL, MONITOR_RETRY_INTERVAL, RECONCILE_INTERVAL,
};

#[test]
fn coalesces_requests_while_refresh_is_running() {
    let mut gate = RefreshGate::default();
    assert!(gate.request());
    assert!(!gate.request());
    assert!(!gate.request());

    assert!(gate.finished());
    assert!(!gate.finished());
}

#[test]
fn starts_a_new_refresh_after_the_previous_one_finishes() {
    let mut gate = RefreshGate::default();
    assert!(gate.request());
    assert!(!gate.finished());
    assert!(gate.request());
}

#[test]
fn retries_failures_sooner_than_successful_reconciliation() {
    assert_eq!(reconcile_delay(false), MONITOR_RETRY_INTERVAL);
    assert_eq!(reconcile_delay(true), RECONCILE_INTERVAL);
}

#[test]
fn gate_new_is_idle_and_default() {
    let gate = RefreshGate::new();
    assert!(!gate.loading && !gate.pending);
    assert_eq!(gate, RefreshGate::default());
}

#[test]
fn queued_follow_up_keeps_gate_loading_until_it_finishes() {
    let mut gate = RefreshGate::new();
    assert!(gate.request());
    assert!(!gate.request());
    assert!(gate.finished());
    assert!(gate.loading);
    assert!(!gate.finished());
    assert!(!gate.loading);
}

#[test]
fn device_refresh_reconciles_after_the_interval() {
    let mut refresh = DeviceRefresh::new(0);
    assert!(!refresh.is_loading());
    assert!(refresh.request());
    assert!(refresh.is_loading());
    assert!(!refresh.finished(true, 100));
    assert!(!refresh.is_loading());
    assert!(!refresh.tick(100 + RECONCILE_INTERVAL - 1, false));
    assert!(refresh.tick(100 + RECONCILE_INTERVAL, false));
}

#[test]
fn device_refresh_retries_a_failed_scan_sooner() {
    let mut refresh = DeviceRefresh::new(0);
    assert!(refresh.request());
    assert!(!refresh.finished(false, 1000));
    assert!(!refresh.tick(1000 + MONITOR_RETRY_INTERVAL - 1, false));
    assert!(refresh.tick(1000 + MONITOR_RETRY_INTERVAL, false));
}

#[test]
fn device_refresh_starts_on_a_change() {
    let mut refresh = DeviceRefresh::new(0);
    assert!(refresh.tick(DEVICE_MONITOR_INTERVAL, true));
    assert!(!refresh.tick(DEVICE_MONITOR_INTERVAL, true));
}

#[test]
fn device_monitor_retry_waits_for_the_interval() {
    let mut refresh = DeviceRefresh::new(0);
    refresh.record_monitor_retry(10);
    assert!(!refresh.monitor_retry_due(10 + MONITOR_RETRY_INTERVAL - 1, false));
    assert!(refresh.monitor_retry_due(10 + MONITOR_RETRY_INTERVAL, false));
    assert!(!refresh.monitor_retry_due(10 + MONITOR_RETRY_INTERVAL, true));
}
