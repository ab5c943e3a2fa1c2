//! The histogram of decision latencies.

use vstd::multiset::Multiset;
use vstd::prelude::*;

verus! {

/// A histogram of latencies in nanoseconds.
///
/// It holds an `hdrhistogram::Histogram<u64>`.
#[verifier::external_body]
pub struct LatencyHistogram {
    inner: hdrhistogram::Histogram<u64>,
}

/// The values that a histogram has recorded.
pub uninterp spec fn latency_samples(histogram: LatencyHistogram) -> Multiset<u64>;

/// The smallest and largest value and the number of significant figures that a
/// histogram was made for.
pub uninterp spec fn latency_bounds(histogram: LatencyHistogram) -> Seq<u64>;

/// The value that a histogram made for `bounds` gives for a percentile of
/// `samples`.
pub uninterp spec fn value_at(bounds: Seq<u64>, samples: Multiset<u64>, percent: u8) -> u64;

/// From one nanosecond to sixty milliseconds, with three significant figures.
pub open spec fn engine_bounds() -> Seq<u64> {
    seq![1u64, 60_000_000u64, 3u64]
}

/// The largest value that a histogram with the engine's bounds has a bin for.
pub const LARGEST_LATENCY: u64 = 67_108_863;

/// The number of neighbouring values that share a bin with `v`.
pub open spec fn bin_width(v: nat) -> nat
    decreases v,
{
    if v < 2048 {
        1
    } else {
        2 * bin_width(v / 2)
    }
}

/// The largest value in the bin of `v`.
pub open spec fn bin_top(v: nat) -> int {
    (v / bin_width(v)) * bin_width(v) + bin_width(v) - 1
}

/// The largest of the samples.
pub open spec fn largest_sample(samples: Multiset<u64>) -> u64 {
    choose|m: u64| #[trigger]
        samples.contains(m) && forall|x: u64| #[trigger] samples.contains(x) ==> x <= m
}

impl LatencyHistogram {
    /// Calls `hdrhistogram::Histogram::new_with_bounds`: an empty histogram made
    /// for the given bounds.
    #[verifier::external_body]
    fn new_with_bounds(low: u64, high: u64, figures: u8) -> (r: Self)
        requires
            low == 1,
            high >= 2,
            figures <= 5,
        ensures
            latency_samples(r) == Multiset::<u64>::empty(),
            latency_bounds(r) == seq![low, high, figures as u64],
    {
        LatencyHistogram {
            inner: hdrhistogram::Histogram::new_with_bounds(low, high, figures).unwrap(),
        }
    }

    /// An empty histogram with the engine's bounds.
    pub fn new() -> (r: Self)
        ensures
            latency_samples(r) == Multiset::<u64>::empty(),
            latency_bounds(r) == engine_bounds(),
    {
        LatencyHistogram::new_with_bounds(1, 60_000_000, 3)
    }

    /// Calls `hdrhistogram::Histogram::record`. A histogram with the engine's
    /// bounds records every value up to `LARGEST_LATENCY`, and refuses a larger
    /// one without a change.
    #[verifier::external_body]
    pub(crate) fn record(&mut self, value: u64) -> (r: bool)
        requires
            latency_bounds(*old(self)) == engine_bounds(),
        ensures
            r == (value <= LARGEST_LATENCY),
            latency_bounds(*final(self)) == latency_bounds(*old(self)),
            latency_samples(*final(self)) == if value <= LARGEST_LATENCY {
                latency_samples(*old(self)).insert(value)
            } else {
                latency_samples(*old(self))
            },
    {
        self.inner.record(value).is_ok()
    }

    /// Calls `hdrhistogram::Histogram::len`: the number of recorded values, or
    /// the largest 64-bit number where there are more.
    #[verifier::external_body]
    fn len(&self) -> (r: u64)
        ensures
            r == if latency_samples(*self).len() <= u64::MAX {
                latency_samples(*self).len() as int
            } else {
                u64::MAX as int
            },
    {
        self.inner.len()
    }

    /// Calls `hdrhistogram::Histogram::max`: the largest value in the bin of the
    /// largest recorded value.
    #[verifier::external_body]
    fn max(&self) -> (r: u64)
        requires
            latency_bounds(*self) == engine_bounds(),
            latency_samples(*self).len() > 0,
        ensures
            r == bin_top(largest_sample(latency_samples(*self)) as nat),
    {
        self.inner.max()
    }

    /// Calls `hdrhistogram::Histogram::value_at_percentile`. The value is a
    /// function of the bounds, the recorded values and the percentile, named
    /// `value_at`: the largest value in the bin that the given share of the
    /// recorded values do not exceed. That it is so is not stated, since the
    /// share is computed in floating point.
    #[verifier::external_body]
    fn value_at_percentile(&self, percent: u8) -> (r: u64)
        requires
            latency_samples(*self).len() <= u64::MAX,
        ensures
            r == value_at(latency_bounds(*self), latency_samples(*self), percent),
    {
        self.inner.value_at_percentile(percent.into())
    }

    /// The number of samples, three percentiles and the largest sample, rounded
    /// up to microseconds. All zero where nothing was recorded.
    pub fn snapshot(&self) -> (r: LatencySnapshot)
        requires
            latency_bounds(*self) == engine_bounds(),
            latency_samples(*self).len() <= u64::MAX,
        ensures
            r == latency_summary(latency_samples(*self)),
    {
        let samples: u64 = self.len();
        if samples == 0 {
            return LatencySnapshot::default();
        }
        LatencySnapshot {
            samples,
            p50_us: to_micros(self.value_at_percentile(50)),
            p95_us: to_micros(self.value_at_percentile(95)),
            p99_us: to_micros(self.value_at_percentile(99)),
            max_us: to_micros(self.max()),
        }
    }
}

/// A summary of the recorded latencies.
#[derive(Clone, Copy, Debug, PartialEq, Eq, Structural)]
pub struct LatencySnapshot {
    pub samples: u64,
    pub p50_us: u64,
    pub p95_us: u64,
    pub p99_us: u64,
    pub max_us: u64,
}

impl Default for LatencySnapshot {
    fn default() -> (r: Self)
        ensures
            r == (LatencySnapshot { samples: 0, p50_us: 0, p95_us: 0, p99_us: 0, max_us: 0 }),
    {
        LatencySnapshot { samples: 0, p50_us: 0, p95_us: 0, p99_us: 0, max_us: 0 }
    }
}

/// Nanoseconds in microseconds, rounded up.
pub open spec fn micros_of(nanos: int) -> int {
    if nanos % 1_000 == 0 {
        nanos / 1_000
    } else {
        nanos / 1_000 + 1
    }
}

/// The summary of `samples` recorded with the engine's bounds.
pub open spec fn latency_summary(samples: Multiset<u64>) -> LatencySnapshot {
    if samples.len() == 0 {
        LatencySnapshot { samples: 0, p50_us: 0, p95_us: 0, p99_us: 0, max_us: 0 }
    } else {
        LatencySnapshot {
            samples: samples.len() as u64,
            p50_us: micros_of(value_at(engine_bounds(), samples, 50) as int) as u64,
            p95_us: micros_of(value_at(engine_bounds(), samples, 95) as int) as u64,
            p99_us: micros_of(value_at(engine_bounds(), samples, 99) as int) as u64,
            max_us: micros_of(bin_top(largest_sample(samples) as nat)) as u64,
        }
    }
}

fn to_micros(nanos: u64) -> (r: u64)
    ensures
        r == micros_of(nanos as int),
{
    if nanos % 1_000 == 0 {
        nanos / 1_000
    } else {
        nanos / 1_000 + 1
    }
}

} // verus!
