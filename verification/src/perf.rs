use vstd::prelude::*;

verus! {

/// The longest duration that can be represented, in nanoseconds: `u64::MAX`
/// seconds and 999 999 999 nanoseconds. Adding durations saturates here.
pub const MAX_DURATION_NANOS: u128 = 18446744073709551615999999999;

/// Nanoseconds a second.
pub const NANOS_PER_SECOND: u128 = 1000000000;

/// A sum of durations that saturates at the longest duration.
pub open spec fn saturating_duration_add(a: int, b: int) -> int {
    if a + b > MAX_DURATION_NANOS {
        MAX_DURATION_NANOS as int
    } else {
        a + b
    }
}

/// Whole microseconds of a duration given in nanoseconds.
pub open spec fn micros(nanos: int) -> int {
    nanos / 1000
}

/// The time elapsed from `since` to `now`, zero when `now` comes first.
pub open spec fn elapsed(since: int, now: int) -> int {
    if now >= since {
        now - since
    } else {
        0
    }
}

/// Render timings of one part of the window over a report interval.
#[derive(Clone, Copy, Debug)]
pub struct RenderPerfBucket {
    pub count: u64,
    pub total_nanos: u128,
    pub max_nanos: u128,
}

impl RenderPerfBucket {
    /// Durations stay within the representable range.
    pub open spec fn well_formed(self) -> bool {
        self.total_nanos <= MAX_DURATION_NANOS && self.max_nanos <= MAX_DURATION_NANOS
    }

    /// The mean render time in whole microseconds, zero when nothing was recorded.
    pub open spec fn spec_average_micros(self) -> int {
        if self.count == 0 {
            0
        } else {
            micros(self.total_nanos as int) / (self.count as int)
        }
    }

    /// Counts one render of `elapsed_nanos`.
    pub fn record(&mut self, elapsed_nanos: u128)
        requires
            old(self).well_formed(),
            elapsed_nanos <= MAX_DURATION_NANOS,
        ensures
            final(self).well_formed(),
            final(self).count == (if old(self).count == u64::MAX { u64::MAX as int } else { old(self).count + 1 }),
            final(self).total_nanos == saturating_duration_add(old(self).total_nanos as int, elapsed_nanos as int),
            final(self).max_nanos == (if elapsed_nanos > old(self).max_nanos {
                elapsed_nanos
            } else {
                old(self).max_nanos
            }),
    {
        self.count = self.count.saturating_add(1);
        self.total_nanos = if self.total_nanos > MAX_DURATION_NANOS - elapsed_nanos {
            MAX_DURATION_NANOS
        } else {
            self.total_nanos + elapsed_nanos
        };
        if elapsed_nanos > self.max_nanos {
            self.max_nanos = elapsed_nanos;
        }
    }

    /// The mean render time in whole microseconds.
    pub fn average_micros(self) -> (average: u128)
        ensures
            average == self.spec_average_micros(),
    {
        if self.count == 0 {
            0
        } else {
            (self.total_nanos / 1000) / (self.count as u128)
        }
    }
}

impl Default for RenderPerfBucket {
    fn default() -> (bucket: Self)
        ensures
            bucket.count == 0,
            bucket.total_nanos == 0,
            bucket.max_nanos == 0,
    {
        RenderPerfBucket { count: 0, total_nanos: 0, max_nanos: 0 }
    }
}

/// Whether a sequence is in ascending order.
pub open spec fn ascending(s: Seq<u128>) -> bool {
    forall|i: int, j: int| 0 <= i <= j < s.len() ==> s[i] <= s[j]
}

/// The place of the 95th percentile in `len` ascending samples.
pub open spec fn p95_index(len: int) -> int {
    (len * 95 + 99) / 100 - 1
}

/// The 95th percentile of `samples`: the sample at `p95_index` once they are
/// in ascending order, zero when there are none.
pub open spec fn is_p95(samples: Seq<u128>, p95: u128) -> bool {
    if samples.len() == 0 {
        p95 == 0
    } else {
        exists|t: Seq<u128>|
            #[trigger] ascending(t) && t.to_multiset() == samples.to_multiset() && t.len() == samples.len() && p95 == t[p95_index(
                samples.len() as int,
            )]
    }
}

/// `slice::sort_unstable` of std, on microsecond samples.
/// Claimed: the result is a reordering of the input, in ascending order.
#[verifier::external_body]
fn sort_samples(samples: &mut Vec<u128>)
    ensures
        final(samples)@.to_multiset() == old(samples)@.to_multiset(),
        final(samples)@.len() == old(samples)@.len(),
        ascending(final(samples)@),
{
    samples.sort_unstable();
}

/// The numbers of one interval's performance line.
pub struct PerfReport {
    pub root_count: u64,
    pub root_average_micros: u128,
    pub root_max_micros: u128,
    /// Per surface: renders, mean and longest render in microseconds.
    pub surfaces: Vec<(u64, u128, u128)>,
    pub pointer_received: u64,
    pub pointer_queued: u64,
    pub pointer_applied: u64,
    pub pointer_average_micros: u128,
    pub pointer_p95_micros: u128,
    pub pointer_max_micros: u128,
}

/// Render and pointer timings, reported once a second while tracing is on.
/// Instants are nanoseconds of a monotonic clock.
pub struct PerfTrace {
    pub enabled: bool,
    pub report_started: u128,
    pub root: RenderPerfBucket,
    pub surfaces: Vec<RenderPerfBucket>,
    pub pointer_received: u64,
    pub pointer_queued: u64,
    pub pointer_applied: u64,
    pub pointer_pending_since: Option<u128>,
    pub pointer_latency_total: u128,
    pub pointer_latency_max: u128,
    pub pointer_latency_samples_micros: Vec<u128>,
}

/// A trace as plain values.
pub struct PerfTraceView {
    pub enabled: bool,
    pub report_started: u128,
    pub root: RenderPerfBucket,
    pub surfaces: Seq<RenderPerfBucket>,
    pub pointer_received: u64,
    pub pointer_queued: u64,
    pub pointer_applied: u64,
    pub pointer_pending_since: Option<u128>,
    pub pointer_latency_total: u128,
    pub pointer_latency_max: u128,
    pub pointer_latency_samples_micros: Seq<u128>,
}

impl View for PerfTrace {
    type V = PerfTraceView;

    open spec fn view(&self) -> PerfTraceView {
        PerfTraceView {
            enabled: self.enabled,
            report_started: self.report_started,
            root: self.root,
            surfaces: self.surfaces@,
            pointer_received: self.pointer_received,
            pointer_queued: self.pointer_queued,
            pointer_applied: self.pointer_applied,
            pointer_pending_since: self.pointer_pending_since,
            pointer_latency_total: self.pointer_latency_total,
            pointer_latency_max: self.pointer_latency_max,
            pointer_latency_samples_micros: self.pointer_latency_samples_micros@,
        }
    }
}

impl PerfTraceView {
    /// Durations stay within the representable range.
    pub open spec fn well_formed(self) -> bool {
        &&& self.root.well_formed()
        &&& forall|i: int| 0 <= i < self.surfaces.len() ==> (#[trigger] self.surfaces[i]).well_formed()
        &&& self.pointer_latency_total <= MAX_DURATION_NANOS
        &&& self.pointer_latency_max <= MAX_DURATION_NANOS
    }

    /// Whether the trace holds nothing for the interval begun at `now`.
    pub open spec fn is_fresh(self, now: u128) -> bool {
        &&& self.report_started == now
        &&& self.root.count == 0 && self.root.total_nanos == 0 && self.root.max_nanos == 0
        &&& forall|i: int|
            0 <= i < self.surfaces.len() ==> (#[trigger] self.surfaces[i]).count == 0 && self.surfaces[i].total_nanos
                == 0 && self.surfaces[i].max_nanos == 0
        &&& self.pointer_received == 0 && self.pointer_queued == 0 && self.pointer_applied == 0
        &&& self.pointer_latency_total == 0 && self.pointer_latency_max == 0
        &&& self.pointer_latency_samples_micros.len() == 0
    }
}

/// A count that saturates at `u64::MAX`.
pub open spec fn saturating_inc(n: u64) -> u64 {
    if n == u64::MAX {
        u64::MAX
    } else {
        (n + 1) as u64
    }
}

fn fresh_buckets(n: usize) -> (buckets: Vec<RenderPerfBucket>)
    ensures
        buckets@.len() == n,
        forall|i: int|
            0 <= i < n ==> (#[trigger] buckets@[i]).count == 0 && buckets@[i].total_nanos == 0
                && buckets@[i].max_nanos == 0,
{
    let mut buckets: Vec<RenderPerfBucket> = Vec::new();
    let mut i: usize = 0;
    while i < n
        invariant
            i <= n,
            buckets@.len() == i,
            forall|j: int|
                0 <= j < i ==> (#[trigger] buckets@[j]).count == 0 && buckets@[j].total_nanos == 0
                    && buckets@[j].max_nanos == 0,
        decreases n - i,
    {
        buckets.push(RenderPerfBucket::default());
        i += 1;
    }
    buckets
}

impl PerfTrace {
    /// A trace over `surface_count` surfaces, on or off, whose first interval starts at `now`.
    pub fn new(enabled: bool, now: u128, surface_count: usize) -> (trace: Self)
        ensures
            trace@.well_formed(),
            trace@.is_fresh(now),
            trace.enabled == enabled,
            trace.surfaces@.len() == surface_count,
            trace.pointer_pending_since is None,
    {
        PerfTrace {
            enabled,
            report_started: now,
            root: RenderPerfBucket::default(),
            surfaces: fresh_buckets(surface_count),
            pointer_received: 0,
            pointer_queued: 0,
            pointer_applied: 0,
            pointer_pending_since: None,
            pointer_latency_total: 0,
            pointer_latency_max: 0,
            pointer_latency_samples_micros: Vec::new(),
        }
    }

    /// Starts a new interval at `now`, with every count and timing at zero.
    pub fn reset_interval(&mut self, now: u128)
        ensures
            final(self)@.is_fresh(now),
            final(self)@.well_formed(),
            final(self).enabled == old(self).enabled,
            final(self).surfaces@.len() == old(self).surfaces@.len(),
            final(self).pointer_pending_since == old(self).pointer_pending_since,
    {
        self.report_started = now;
        self.root = RenderPerfBucket::default();
        self.surfaces = fresh_buckets(self.surfaces.len());
        self.pointer_received = 0;
        self.pointer_queued = 0;
        self.pointer_applied = 0;
        self.pointer_latency_total = 0;
        self.pointer_latency_max = 0;
        self.pointer_latency_samples_micros = Vec::new();
    }
}

/// A bucket after one more render of `elapsed` nanoseconds.
pub open spec fn bucket_after(b: RenderPerfBucket, elapsed_nanos: u128) -> RenderPerfBucket {
    RenderPerfBucket {
        count: saturating_inc(b.count),
        total_nanos: saturating_duration_add(b.total_nanos as int, elapsed_nanos as int) as u128,
        max_nanos: if elapsed_nanos > b.max_nanos { elapsed_nanos } else { b.max_nanos },
    }
}

/// Whether `rep` holds the numbers of the interval that `t` recorded.
pub open spec fn report_matches(t: PerfTraceView, rep: PerfReport) -> bool {
    &&& rep.root_count == t.root.count
    &&& rep.root_average_micros == t.root.spec_average_micros()
    &&& rep.root_max_micros == micros(t.root.max_nanos as int)
    &&& rep.surfaces@.len() == t.surfaces.len()
    &&& forall|i: int|
        0 <= i < t.surfaces.len() ==> #[trigger] rep.surfaces@[i] == (
            t.surfaces[i].count,
            t.surfaces[i].spec_average_micros() as u128,
            micros(t.surfaces[i].max_nanos as int) as u128,
        )
    &&& rep.pointer_received == t.pointer_received
    &&& rep.pointer_queued == t.pointer_queued
    &&& rep.pointer_applied == t.pointer_applied
    &&& rep.pointer_average_micros == (if t.pointer_applied == 0 {
        0
    } else {
        micros(t.pointer_latency_total as int) / (t.pointer_applied as int)
    })
    &&& is_p95(t.pointer_latency_samples_micros, rep.pointer_p95_micros)
    &&& rep.pointer_max_micros == micros(t.pointer_latency_max as int)
}

/// What a report check at `now` does: before a second has passed since the
/// interval began, nothing; after, a report of the interval and a fresh interval.
pub open spec fn reported(before: PerfTraceView, now: u128, after: PerfTraceView, report: Option<PerfReport>) -> bool {
    if elapsed(before.report_started as int, now as int) < NANOS_PER_SECOND {
        report is None && after == before
    } else {
        &&& report matches Some(rep) && report_matches(before, rep)
        &&& after.is_fresh(now)
        &&& after.well_formed()
        &&& after.enabled == before.enabled
        &&& after.surfaces.len() == before.surfaces.len()
        &&& after.pointer_pending_since == before.pointer_pending_since
    }
}

proof fn lemma_p95_index(len: int, q: int, r: int)
    requires
        len >= 1,
        q == len / 100,
        r == len % 100,
    ensures
        95 * q + (95 * r + 99) / 100 - 1 == p95_index(len),
        0 <= p95_index(len) < len,
{
    assert(len == 100 * q + r && 0 <= r < 100 && q >= 0) by (nonlinear_arith)
        requires
            len >= 1,
            q == len / 100,
            r == len % 100,
    ;
    assert((len * 95 + 99) / 100 == 95 * q + (95 * r + 99) / 100) by (nonlinear_arith)
        requires
            len == 100 * q + r,
            0 <= r < 100,
    ;
    assert(0 <= (len * 95 + 99) / 100 - 1 < len) by (nonlinear_arith)
        requires
            len >= 1,
    ;
}

impl PerfTrace {
    /// Reports the interval once a second has passed since it began, and starts a new one.
    pub fn maybe_report(&mut self, now: u128) -> (report: Option<PerfReport>)
        requires
            old(self)@.well_formed(),
        ensures
            reported(old(self)@, now, final(self)@, report),
    {
        if now < self.report_started || now - self.report_started < NANOS_PER_SECOND {
            return None;
        }
        let ghost before = self@;
        let pointer_average = if self.pointer_applied == 0 {
            0
        } else {
            (self.pointer_latency_total / 1000) / (self.pointer_applied as u128)
        };
        let ghost samples = self.pointer_latency_samples_micros@;
        sort_samples(&mut self.pointer_latency_samples_micros);
        let len = self.pointer_latency_samples_micros.len();
        let pointer_p95 = if len == 0 {
            0
        } else {
            let q = len / 100;
            let r = len % 100;
            proof {
                lemma_p95_index(len as int, q as int, r as int);
            }
            let index = 95 * q + (95 * r + 99) / 100 - 1;
            let ghost sorted = self.pointer_latency_samples_micros@;
            let p = self.pointer_latency_samples_micros[index];
            assert(ascending(sorted) && sorted.to_multiset() == samples.to_multiset() && sorted.len() == samples.len()
                && p == sorted[p95_index(samples.len() as int)]);
            p
        };
        let mut surfaces: Vec<(u64, u128, u128)> = Vec::new();
        let mut i: usize = 0;
        while i < self.surfaces.len()
            invariant
                self.surfaces@ == before.surfaces,
                i <= self.surfaces@.len(),
                surfaces@.len() == i,
                forall|j: int|
                    0 <= j < i ==> #[trigger] surfaces@[j] == (
                        before.surfaces[j].count,
                        before.surfaces[j].spec_average_micros() as u128,
                        micros(before.surfaces[j].max_nanos as int) as u128,
                    ),
            decreases self.surfaces@.len() - i,
        {
            let b = self.surfaces[i];
            surfaces.push((b.count, b.average_micros(), b.max_nanos / 1000));
            i += 1;
        }
        let report = PerfReport {
            root_count: self.root.count,
            root_average_micros: self.root.average_micros(),
            root_max_micros: self.root.max_nanos / 1000,
            surfaces,
            pointer_received: self.pointer_received,
            pointer_queued: self.pointer_queued,
            pointer_applied: self.pointer_applied,
            pointer_average_micros: pointer_average,
            pointer_p95_micros: pointer_p95,
            pointer_max_micros: self.pointer_latency_max / 1000,
        };
        self.reset_interval(now);
        Some(report)
    }
}

/// The trace after a pointer update was applied at `now`: the count goes up,
/// and a pending update's latency is added to the interval's timings.
pub open spec fn after_pointer_applied(t: PerfTraceView, now: u128) -> PerfTraceView {
    match t.pointer_pending_since {
        Some(started) => {
            let latency = elapsed(started as int, now as int);
            PerfTraceView {
                pointer_applied: saturating_inc(t.pointer_applied),
                pointer_pending_since: None,
                pointer_latency_total: saturating_duration_add(t.pointer_latency_total as int, latency) as u128,
                pointer_latency_max: if latency > t.pointer_latency_max {
                    latency as u128
                } else {
                    t.pointer_latency_max
                },
                pointer_latency_samples_micros: t.pointer_latency_samples_micros.push(micros(latency) as u128),
                ..t
            }
        },
        None => PerfTraceView { pointer_applied: saturating_inc(t.pointer_applied), ..t },
    }
}

impl PerfTrace {
    /// Records a render of the window root, when tracing.
    pub fn record_root(&mut self, elapsed_nanos: u128, now: u128) -> (report: Option<PerfReport>)
        requires
            old(self)@.well_formed(),
            elapsed_nanos <= MAX_DURATION_NANOS,
        ensures
            if old(self).enabled {
                reported(PerfTraceView { root: bucket_after(old(self).root, elapsed_nanos), ..old(self)@ }, now, final(self)@, report)
            } else {
                report is None && final(self)@ == old(self)@
            },
    {
        if !self.enabled {
            return None;
        }
        self.root.record(elapsed_nanos);
        self.maybe_report(now)
    }

    /// Records a render of the surface `kind`, when tracing.
    pub fn record_surface(&mut self, kind: usize, elapsed_nanos: u128, now: u128) -> (report: Option<PerfReport>)
        requires
            old(self)@.well_formed(),
            elapsed_nanos <= MAX_DURATION_NANOS,
            kind < old(self).surfaces@.len(),
        ensures
            if old(self).enabled {
                reported(
                    PerfTraceView {
                        surfaces: old(self).surfaces@.update(kind as int, bucket_after(old(self).surfaces@[kind as int], elapsed_nanos)),
                        ..old(self)@
                    },
                    now,
                    final(self)@,
                    report,
                )
            } else {
                report is None && final(self)@ == old(self)@
            },
    {
        if !self.enabled {
            return None;
        }
        let mut bucket = self.surfaces[kind];
        assert(self@.surfaces[kind as int].well_formed());
        bucket.record(elapsed_nanos);
        let ghost before = self.surfaces@;
        self.surfaces.set(kind, bucket);
        assert forall|i: int| 0 <= i < self.surfaces@.len() implies (#[trigger] self.surfaces@[i]).well_formed() by {
            if i != kind {
                assert(self.surfaces@[i] == before[i]);
                assert(old(self)@.surfaces[i].well_formed());
            }
        }
        self.maybe_report(now)
    }
}

impl PerfTrace {
    /// Counts a pointer event as received, when tracing.
    pub fn record_pointer_received(&mut self, now: u128) -> (report: Option<PerfReport>)
        requires
            old(self)@.well_formed(),
        ensures
            if old(self).enabled {
                reported(
                    PerfTraceView { pointer_received: saturating_inc(old(self).pointer_received), ..old(self)@ },
                    now,
                    final(self)@,
                    report,
                )
            } else {
                report is None && final(self)@ == old(self)@
            },
    {
        if !self.enabled {
            return None;
        }
        self.pointer_received = self.pointer_received.saturating_add(1);
        self.maybe_report(now)
    }

    /// Counts a pointer update as queued at `now`, when tracing.
    pub fn record_pointer_queued(&mut self, now: u128)
        ensures
            final(self)@ == if old(self).enabled {
                PerfTraceView {
                    pointer_queued: saturating_inc(old(self).pointer_queued),
                    pointer_pending_since: Some(now),
                    ..old(self)@
                }
            } else {
                old(self)@
            },
    {
        if self.enabled {
            self.pointer_queued = self.pointer_queued.saturating_add(1);
            self.pointer_pending_since = Some(now);
        }
    }

    /// Counts a pointer update as applied at `now`, with its latency when one
    /// was pending, when tracing.
    pub fn record_pointer_applied(&mut self, now: u128) -> (report: Option<PerfReport>)
        requires
            old(self)@.well_formed(),
            now <= MAX_DURATION_NANOS,
        ensures
            if old(self).enabled {
                reported(after_pointer_applied(old(self)@, now), now, final(self)@, report)
            } else {
                report is None && final(self)@ == old(self)@
            },
    {
        if !self.enabled {
            return None;
        }
        self.pointer_applied = self.pointer_applied.saturating_add(1);
        match self.pointer_pending_since.take() {
            Some(started) => {
                let latency = if now >= started { now - started } else { 0 };
                self.pointer_latency_total = if self.pointer_latency_total > MAX_DURATION_NANOS - latency {
                    MAX_DURATION_NANOS
                } else {
                    self.pointer_latency_total + latency
                };
                if latency > self.pointer_latency_max {
                    self.pointer_latency_max = latency;
                }
                self.pointer_latency_samples_micros.push(latency / 1000);
            },
            None => {},
        }
        self.maybe_report(now)
    }
}

} // verus!
