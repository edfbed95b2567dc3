use vstd::prelude::*;

verus! {

/// How often the device monitor is polled, in milliseconds.
pub const DEVICE_MONITOR_INTERVAL: u64 = 750;

/// Delay before retrying a failed device monitor or device scan, in milliseconds.
pub const MONITOR_RETRY_INTERVAL: u64 = 2000;

/// Delay between two full reconciliations of the device list, in milliseconds.
pub const RECONCILE_INTERVAL: u64 = 15000;

/// Coalesces device refresh requests: at most one refresh runs at a time, and
/// requests that arrive while one is running collapse into a single follow-up.
#[derive(Clone, Copy, Debug, PartialEq, Eq)]
pub struct RefreshGate {
    pub loading: bool,
    pub pending: bool,
}

impl Default for RefreshGate {
    /// An idle gate.
    fn default() -> (gate: Self)
        ensures
            !gate.loading,
            !gate.pending,
    {
        RefreshGate { loading: false, pending: false }
    }
}

impl RefreshGate {
    /// A gate is consistent when a follow-up is only queued behind a running refresh.
    pub open spec fn wf(self) -> bool {
        self.pending ==> self.loading
    }

    pub fn new() -> (gate: Self)
        ensures
            !gate.loading,
            !gate.pending,
            gate.wf(),
    {
        RefreshGate { loading: false, pending: false }
    }

    /// Asks for a refresh; returns whether the caller should start one now.
    pub fn request(&mut self) -> (start: bool)
        ensures
            (*final(self), start) == spec_request(*old(self)),
            old(self).wf() ==> final(self).wf(),
    {
        if self.loading {
            self.pending = true;
            false
        } else {
            self.loading = true;
            true
        }
    }

    /// Reports that the running refresh is done; returns whether a queued
    /// follow-up refresh should start now (it then stays loading).
    pub fn finished(&mut self) -> (again: bool)
        ensures
            (*final(self), again) == spec_finished(*old(self)),
            old(self).wf() ==> final(self).wf(),
    {
        if self.pending {
            self.pending = false;
            true
        } else {
            self.loading = false;
            false
        }
    }
}

/// The state after a request, and whether a refresh starts.
pub open spec fn spec_request(gate: RefreshGate) -> (RefreshGate, bool) {
    if gate.loading {
        (RefreshGate { loading: true, pending: true }, false)
    } else {
        (RefreshGate { loading: true, pending: gate.pending }, true)
    }
}

/// The state after a refresh finishes, and whether a follow-up starts.
pub open spec fn spec_finished(gate: RefreshGate) -> (RefreshGate, bool) {
    if gate.pending {
        (RefreshGate { loading: gate.loading, pending: false }, true)
    } else {
        (RefreshGate { loading: false, pending: false }, false)
    }
}

/// Requests made while a refresh runs coalesce. However many there are,
/// none starts a refresh, and together they leave exactly one follow-up: the
/// first `finished` starts it, the second one makes it idle again.
pub proof fn lemma_requests_coalesce(gate: RefreshGate)
    requires
        gate.wf(),
        gate.loading,
    ensures
        ({
            let after = spec_request(gate).0;
            &&& !spec_request(gate).1
            &&& spec_request(after) == spec_request(gate)
            &&& spec_finished(after) == (RefreshGate { loading: true, pending: false }, true)
            &&& spec_finished(spec_finished(after).0) == (RefreshGate { loading: false, pending: false }, false)
        }),
{
}

/// A refresh requested on an idle gate starts at once, and when it
/// finishes with no request in between, it is idle again and nothing
/// more starts; a new request then starts a new refresh.
pub proof fn lemma_request_then_finish_is_idle(gate: RefreshGate)
    requires
        gate.wf(),
        !gate.loading,
    ensures
        spec_request(gate).1,
        spec_finished(spec_request(gate).0) == (gate, false),
        spec_request(spec_finished(spec_request(gate).0).0).1,
{
}

/// Delay until the next full reconciliation, in milliseconds: a failed scan is
/// retried sooner than a successful one is repeated.
pub open spec fn spec_reconcile_delay(succeeded: bool) -> u64 {
    if succeeded { RECONCILE_INTERVAL } else { MONITOR_RETRY_INTERVAL }
}

pub fn reconcile_delay(succeeded: bool) -> (delay: u64)
    ensures
        delay == spec_reconcile_delay(succeeded),
        !succeeded ==> delay < spec_reconcile_delay(true),
{
    if succeeded {
        RECONCILE_INTERVAL
    } else {
        MONITOR_RETRY_INTERVAL
    }
}

/// The largest time stamp (milliseconds on the caller's monotonic clock) for
/// which scheduling the next deadline cannot overflow.
pub open spec fn time_in_range(now: u64) -> bool {
    now <= u64::MAX - RECONCILE_INTERVAL
}

/// The scheduling state of device refreshes. Times are milliseconds on a
/// monotonic clock chosen by the caller; starting the platform monitor and
/// scanning devices is done by the caller, which reports the outcome here.
#[derive(Clone, Copy, Debug)]
pub struct DeviceRefresh {
    pub gate: RefreshGate,
    pub next_monitor_retry: u64,
    pub next_reconcile: u64,
}

impl DeviceRefresh {
    pub fn new(now: u64) -> (refresh: Self)
        requires
            time_in_range(now),
        ensures
            refresh.gate == (RefreshGate { loading: false, pending: false }),
            refresh.next_monitor_retry == now + MONITOR_RETRY_INTERVAL,
            refresh.next_reconcile == now + RECONCILE_INTERVAL,
    {
        DeviceRefresh {
            gate: RefreshGate::new(),
            next_monitor_retry: now + MONITOR_RETRY_INTERVAL,
            next_reconcile: now + RECONCILE_INTERVAL,
        }
    }

    pub fn is_loading(&self) -> (loading: bool)
        ensures
            loading == self.gate.loading,
    {
        self.gate.loading
    }

    /// Asks for a refresh; returns whether a device scan should start now.
    pub fn request(&mut self) -> (start: bool)
        ensures
            start == !old(self).gate.loading,
            final(self).gate.loading,
            final(self).gate.pending == (old(self).gate.loading || old(self).gate.pending),
            final(self).next_monitor_retry == old(self).next_monitor_retry,
            final(self).next_reconcile == old(self).next_reconcile,
    {
        self.gate.request()
    }

    /// Reports the end of a device scan at time `now`; the next reconciliation
    /// is scheduled after the delay for that outcome. Returns whether a queued
    /// scan should start now.
    pub fn finished(&mut self, succeeded: bool, now: u64) -> (again: bool)
        requires
            time_in_range(now),
        ensures
            again == old(self).gate.pending,
            !final(self).gate.pending,
            final(self).gate.loading == (old(self).gate.pending && old(self).gate.loading),
            final(self).next_reconcile == now + spec_reconcile_delay(succeeded),
            final(self).next_monitor_retry == old(self).next_monitor_retry,
    {
        self.next_reconcile = now + reconcile_delay(succeeded);
        self.gate.finished()
    }

    /// Whether the caller should try to start the platform monitor again at
    /// `now`: only when none is running and the retry deadline has passed.
    pub fn monitor_retry_due(&self, now: u64, monitor_running: bool) -> (due: bool)
        ensures
            due == (!monitor_running && now >= self.next_monitor_retry),
    {
        !monitor_running && now >= self.next_monitor_retry
    }

    /// Records that the caller tried to start the monitor at `now`.
    pub fn record_monitor_retry(&mut self, now: u64)
        requires
            time_in_range(now),
        ensures
            final(self).next_monitor_retry == now + MONITOR_RETRY_INTERVAL,
            final(self).gate == old(self).gate,
            final(self).next_reconcile == old(self).next_reconcile,
    {
        self.next_monitor_retry = now + MONITOR_RETRY_INTERVAL;
    }

    /// One poll of the device monitor at `now`. `changed` tells whether the
    /// monitor reported a change or was just (re)started. A due reconciliation
    /// is rescheduled and forces a refresh. Returns whether a device scan
    /// should start now.
    pub fn tick(&mut self, now: u64, changed: bool) -> (start: bool)
        requires
            time_in_range(now),
        ensures
            ({
                let due = now >= old(self).next_reconcile;
                let wanted = changed || due;
                &&& final(self).next_reconcile == (if due { (now + RECONCILE_INTERVAL) as u64 } else { old(self).next_reconcile })
                &&& start == (wanted && !old(self).gate.loading)
                &&& final(self).gate == (if wanted {
                        RefreshGate { loading: true, pending: old(self).gate.loading || old(self).gate.pending }
                    } else {
                        old(self).gate
                    })
                &&& final(self).next_monitor_retry == old(self).next_monitor_retry
            }),
    {
        let mut refresh = changed;
        if now >= self.next_reconcile {
            self.next_reconcile = now + RECONCILE_INTERVAL;
            refresh = true;
        }
        refresh && self.gate.request()
    }
}

} // verus!
