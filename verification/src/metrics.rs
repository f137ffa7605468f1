//! Runtime metrics for the DxFeed pipeline.
//!
//! [`DxFeedMetrics`] provides a snapshot of counters and gauges that track
//! pipeline health: spots received, filtered, emitted, parse errors,
//! reconnects, and current spot table size.
//!
//! The counters are shared between threads. What a counter holds at a given
//! time depends on what other handles do to it, so a contract here speaks of
//! the value that a counter started at and of the values that it takes, and not
//! of the one that it holds before or after a call.

use std::sync::atomic::{AtomicU64, Ordering};
use std::sync::Arc;
use vstd::prelude::*;

verus! {

// ---------------------------------------------------------------------------
// Counters
// ---------------------------------------------------------------------------

/// The value that a counter was made with.
pub uninterp spec fn counter_start(counter: AtomicU64) -> u64;

/// The values that a counter takes, from the one it was made with to the last
/// one that is written to it.
pub uninterp spec fn counter_values(counter: AtomicU64) -> Set<u64>;

/// `AtomicU64::new` makes a counter that holds the value.
#[verifier::external_body]
fn counter_at(value: u64) -> (r: AtomicU64)
    ensures
        counter_start(r) == value,
        counter_values(r).contains(value),
{
    AtomicU64::new(value)
}

/// `AtomicU64::load` returns a value that the counter takes. Which of them it
/// is, when other threads write to the counter, is left unsaid.
#[verifier::external_body]
fn read_counter(counter: &AtomicU64) -> (r: u64)
    ensures
        counter_values(*counter).contains(r),
{
    counter.load(Ordering::Relaxed)
}

/// The value that follows `v` in a counter: 0 follows the largest.
pub open spec fn next_count(v: u64) -> u64 {
    if v < u64::MAX {
        (v + 1) as u64
    } else {
        0
    }
}

/// The counter takes some value and the one that follows it.
pub open spec fn counts_up(counter: AtomicU64) -> bool {
    exists|v: u64| #[trigger]
        counter_values(counter).contains(v) && counter_values(counter).contains(next_count(v))
}

/// `AtomicU64::fetch_add` adds one to the value that it returns, starting over
/// at 0: the counter takes both values. How often it takes them is left unsaid.
#[verifier::external_body]
fn count_up(counter: &AtomicU64) -> (r: u64)
    ensures
        counter_values(*counter).contains(r),
        counter_values(*counter).contains(next_count(r)),
{
    counter.fetch_add(1, Ordering::Relaxed)
}

/// The counter takes both values.
pub open spec fn takes_both(counter: AtomicU64, before: u64, after: u64) -> bool {
    counter_values(counter).contains(before) && counter_values(counter).contains(after)
}

/// `AtomicU64::swap` writes the value in place of the one that it returns: the
/// counter takes both. How long it holds the value is left unsaid.
#[verifier::external_body]
fn put_counter(counter: &AtomicU64, value: u64) -> (r: u64)
    ensures
        takes_both(*counter, r, value),
{
    counter.swap(value, Ordering::Relaxed)
}

// ---------------------------------------------------------------------------
// Metrics
// ---------------------------------------------------------------------------

/// Shared metrics handle, cheaply cloneable.
///
/// All counters use relaxed atomic operations — exact consistency is not
/// required for metrics.
#[derive(Debug)]
pub struct MetricsHandle {
    inner: Arc<MetricsInner>,
}

#[derive(Debug)]
struct MetricsInner {
    spots_received: AtomicU64,
    spots_filtered: AtomicU64,
    spots_emitted: AtomicU64,
    parse_errors: AtomicU64,
    reconnects: AtomicU64,
    spot_table_size: AtomicU64,
}

/// A point-in-time snapshot of pipeline metrics.
#[derive(Debug, Clone, Copy, PartialEq, Eq, Structural)]
pub struct DxFeedMetrics {
    /// Total spot observations received from all sources.
    pub spots_received: u64,
    /// Total spots dropped by the filter.
    pub spots_filtered: u64,
    /// Total spot events emitted to the consumer.
    pub spots_emitted: u64,
    /// Total unparseable lines encountered.
    pub parse_errors: u64,
    /// Total source reconnection attempts.
    pub reconnects: u64,
    /// Current number of active spots in the spot table.
    pub spot_table_size: u64,
}

impl MetricsHandle {
    /// The two handles have their counters in common.
    pub closed spec fn shares(&self, other: &MetricsHandle) -> bool {
        self.inner == other.inner
    }

    /// Handles that share their counters started at the same values, take the
    /// same ones, and have counted up and been set alike.
    pub proof fn lemma_shared(&self, other: &MetricsHandle)
        requires
            self.shares(other),
        ensures
            other.shares(self),
            self.started_at() == other.started_at(),
            forall|m: DxFeedMetrics| self.takes(m) == #[trigger] other.takes(m),
            self.received_counted() == other.received_counted(),
            self.filtered_counted() == other.filtered_counted(),
            self.emitted_counted() == other.emitted_counted(),
            self.errors_counted() == other.errors_counted(),
            self.reconnects_counted() == other.reconnects_counted(),
            forall|size: u64| self.size_set(size) == #[trigger] other.size_set(size),
    {
    }

    /// The values that the counters started at.
    pub closed spec fn started_at(&self) -> DxFeedMetrics {
        DxFeedMetrics {
            spots_received: counter_start(self.inner.spots_received),
            spots_filtered: counter_start(self.inner.spots_filtered),
            spots_emitted: counter_start(self.inner.spots_emitted),
            parse_errors: counter_start(self.inner.parse_errors),
            reconnects: counter_start(self.inner.reconnects),
            spot_table_size: counter_start(self.inner.spot_table_size),
        }
    }

    /// Each metric is a value that its own counter takes.
    pub closed spec fn takes(&self, m: DxFeedMetrics) -> bool {
        &&& counter_values(self.inner.spots_received).contains(m.spots_received)
        &&& counter_values(self.inner.spots_filtered).contains(m.spots_filtered)
        &&& counter_values(self.inner.spots_emitted).contains(m.spots_emitted)
        &&& counter_values(self.inner.parse_errors).contains(m.parse_errors)
        &&& counter_values(self.inner.reconnects).contains(m.reconnects)
        &&& counter_values(self.inner.spot_table_size).contains(m.spot_table_size)
    }

    /// The counter of received spots has counted up.
    pub closed spec fn received_counted(&self) -> bool {
        counts_up(self.inner.spots_received)
    }

    /// The counter of filtered spots has counted up.
    pub closed spec fn filtered_counted(&self) -> bool {
        counts_up(self.inner.spots_filtered)
    }

    /// The counter of emitted spots has counted up.
    pub closed spec fn emitted_counted(&self) -> bool {
        counts_up(self.inner.spots_emitted)
    }

    /// The counter of parse errors has counted up.
    pub closed spec fn errors_counted(&self) -> bool {
        counts_up(self.inner.parse_errors)
    }

    /// The counter of reconnects has counted up.
    pub closed spec fn reconnects_counted(&self) -> bool {
        counts_up(self.inner.reconnects)
    }

    /// The gauge of the spot table's size takes `size`.
    pub closed spec fn size_set(&self, size: u64) -> bool {
        counter_values(self.inner.spot_table_size).contains(size)
    }

    /// Create a new metrics handle, with every counter at zero.
    pub fn new() -> (r: Self)
        ensures
            r.started_at() == (DxFeedMetrics {
                spots_received: 0,
                spots_filtered: 0,
                spots_emitted: 0,
                parse_errors: 0,
                reconnects: 0,
                spot_table_size: 0,
            }),
            r.takes(r.started_at()),
    {
        MetricsHandle {
            inner: Arc::new(
                MetricsInner {
                    spots_received: counter_at(0),
                    spots_filtered: counter_at(0),
                    spots_emitted: counter_at(0),
                    parse_errors: counter_at(0),
                    reconnects: counter_at(0),
                    spot_table_size: counter_at(0),
                },
            ),
        }
    }

    /// Increment spots received counter.
    pub fn inc_spots_received(&self)
        ensures
            self.received_counted(),
    {
        count_up(&self.inner.spots_received);
    }

    /// Increment spots filtered counter.
    pub fn inc_spots_filtered(&self)
        ensures
            self.filtered_counted(),
    {
        count_up(&self.inner.spots_filtered);
    }

    /// Increment spots emitted counter.
    pub fn inc_spots_emitted(&self)
        ensures
            self.emitted_counted(),
    {
        count_up(&self.inner.spots_emitted);
    }

    /// Increment parse errors counter.
    pub fn inc_parse_errors(&self)
        ensures
            self.errors_counted(),
    {
        count_up(&self.inner.parse_errors);
    }

    /// Increment reconnects counter.
    pub fn inc_reconnects(&self)
        ensures
            self.reconnects_counted(),
    {
        count_up(&self.inner.reconnects);
    }

    /// Set the current spot table size gauge. What a later snapshot shows of it
    /// depends on when other handles set it.
    pub fn set_spot_table_size(&self, size: u64)
        ensures
            self.size_set(size),
    {
        put_counter(&self.inner.spot_table_size, size);
    }

    /// Take a point-in-time snapshot of all metrics.
    pub fn snapshot(&self) -> (r: DxFeedMetrics)
        ensures
            self.takes(r),
    {
        DxFeedMetrics {
            spots_received: read_counter(&self.inner.spots_received),
            spots_filtered: read_counter(&self.inner.spots_filtered),
            spots_emitted: read_counter(&self.inner.spots_emitted),
            parse_errors: read_counter(&self.inner.parse_errors),
            reconnects: read_counter(&self.inner.reconnects),
            spot_table_size: read_counter(&self.inner.spot_table_size),
        }
    }
}

impl Clone for MetricsHandle {
    /// A handle to the same counters.
    fn clone(&self) -> (r: Self)
        ensures
            r.shares(self),
    {
        MetricsHandle { inner: self.inner.clone() }
    }
}

impl Default for MetricsHandle {
    fn default() -> (r: Self)
        ensures
            r.started_at() == (DxFeedMetrics {
                spots_received: 0,
                spots_filtered: 0,
                spots_emitted: 0,
                parse_errors: 0,
                reconnects: 0,
                spot_table_size: 0,
            }),
            r.takes(r.started_at()),
    {
        Self::new()
    }
}

} // verus!
