//! Aggregate statistics over connections: a logarithmic duration histogram,
//! the longest and the shortest duration, and running sums of what was sent.
//!
//! All counters are modular: a sum that outgrows its type wraps around.

use vstd::prelude::*;
use vstd::arithmetic::power2::pow2;
use vstd::arithmetic::power2::lemma_pow2_unfold;
use vstd::arithmetic::power2::lemma_pow2_pos;
use vstd::arithmetic::power2::lemma2_to64;

verus! {

/// Number of buckets in a duration histogram.
pub const BUCKETS: usize = 32;

/// Floor of the binary logarithm of `n`, with 0 for `n < 2`.
pub open spec fn log2_floor(n: nat) -> nat
    decreases n,
{
    if n < 2 {
        0
    } else {
        1 + log2_floor(n / 2)
    }
}

/// The histogram bucket that a duration of `seconds` falls into: the floor of
/// its binary logarithm, with bucket 0 for durations under two seconds and
/// bucket 31 for everything from 2^31 seconds on.
pub open spec fn bucket_of(seconds: u64) -> nat {
    if log2_floor(seconds as nat) < 31 {
        log2_floor(seconds as nat)
    } else {
        31
    }
}

/// Computes the histogram bucket of a duration given in whole seconds.
pub fn bucket(seconds: u64) -> (b: usize)
    ensures
        b == bucket_of(seconds),
        b < BUCKETS,
{
    let mut b: usize = 0;
    let mut rest: u64 = seconds;
    while rest >= 2 && b < 31
        invariant
            b <= 31,
            log2_floor(seconds as nat) == b + log2_floor(rest as nat),
        decreases rest,
    {
        rest = rest / 2;
        b = b + 1;
    }
    b
}

/// `log2_floor(n)` is the exponent of the largest power of two that is not
/// above `n`, for every `n` from 1 on.
pub proof fn lemma_log2_floor_bounds(n: nat)
    requires
        n >= 1,
    ensures
        pow2(log2_floor(n)) <= n < pow2(log2_floor(n) + 1),
    decreases n,
{
    if n < 2 {
        lemma2_to64();
    } else {
        lemma_log2_floor_bounds(n / 2);
        lemma_pow2_unfold(log2_floor(n / 2) + 1);
        lemma_pow2_unfold(log2_floor(n / 2) + 2);
    }
}

/// Bucket `b` below the last holds exactly the durations from `2^b` up to
/// `2^(b+1) - 1` seconds, bucket 0 the duration zero besides; the last
/// bucket holds every duration from `2^31` seconds on.
pub proof fn law_bucket_ranges(seconds: u64)
    ensures
        bucket_of(seconds) <= 31,
        seconds == 0 ==> bucket_of(seconds) == 0,
        seconds >= 1 ==> pow2(bucket_of(seconds)) <= seconds,
        bucket_of(seconds) < 31 ==> seconds < pow2(bucket_of(seconds) + 1),
{
    if seconds >= 1 {
        lemma_log2_floor_bounds(seconds as nat);
        if log2_floor(seconds as nat) >= 31 {
            lemma_pow2_grows(31, log2_floor(seconds as nat));
        }
    } else {
        lemma_pow2_pos(1);
    }
}

proof fn lemma_pow2_grows(a: nat, b: nat)
    requires
        a <= b,
    ensures
        pow2(a) <= pow2(b),
    decreases b,
{
    if a < b {
        lemma_pow2_grows(a, (b - 1) as nat);
        lemma_pow2_unfold(b);
    }
}

/// The histogram without a sample: zero in every bucket.
pub open spec fn no_samples() -> [usize; 32] {
    vstd::array::spec_array_fill_for_copy_type(0usize)
}

/// The histogram `hist` with one more sample in bucket `b`.
pub open spec fn with_sample(hist: [usize; 32], b: int) -> [usize; 32] {
    vstd::array::spec_array_update(hist, b, hist[b].wrapping_add(1))
}

/// The sums of the first `n` buckets of two histograms, bucket by bucket,
/// and zero in the buckets from `n` on.
pub open spec fn sum_upto(a: [usize; 32], b: [usize; 32], n: nat) -> [usize; 32]
    decreases n,
{
    if n == 0 {
        no_samples()
    } else {
        vstd::array::spec_array_update(
            sum_upto(a, b, (n - 1) as nat),
            n - 1,
            a[n - 1].wrapping_add(b[n - 1]),
        )
    }
}

/// Bucket by bucket, the sum of two histograms.
pub open spec fn sum_of(a: [usize; 32], b: [usize; 32]) -> [usize; 32] {
    sum_upto(a, b, 32)
}

/// Every bucket of `sum_of(a, b)` holds the sum of that bucket in `a` and in `b`.
pub proof fn lemma_sum_of(a: [usize; 32], b: [usize; 32])
    ensures
        forall|k: int| 0 <= k < 32 ==> #[trigger] sum_of(a, b)[k] == a[k].wrapping_add(b[k]),
{
    lemma_sum_upto(a, b, 32);
}

proof fn lemma_sum_upto(a: [usize; 32], b: [usize; 32], n: nat)
    requires
        n <= 32,
    ensures
        forall|k: int| 0 <= k < n ==> #[trigger] sum_upto(a, b, n)[k] == a[k].wrapping_add(b[k]),
    decreases n,
{
    if n > 0 {
        lemma_sum_upto(a, b, (n - 1) as nat);
        let before = sum_upto(a, b, (n - 1) as nat);
        let after = sum_upto(a, b, n);
        assert(after@ == before@.update(n - 1, a[n - 1].wrapping_add(b[n - 1])));
        assert forall|k: int| 0 <= k < n implies #[trigger] after[k] == a[k].wrapping_add(
            b[k],
        ) by {
            if k < n - 1 {
                assert(after@[k] == before@[k]);
                assert(before[k] == a[k].wrapping_add(b[k]));
            }
        }
    }
}

/// Sum of the entries of `counts`, wrapping around.
pub open spec fn wrapping_sum(counts: Seq<usize>) -> usize
    decreases counts.len(),
{
    if counts.len() == 0 {
        0
    } else {
        wrapping_sum(counts.drop_last()).wrapping_add(counts.last())
    }
}

/// What was measured over a set of connections.
#[derive(Clone, Copy, Debug, PartialEq, Eq)]
pub struct ClientMetrics {
    /// Longest duration in seconds; 0 where nothing was recorded.
    pub maximum_connection_time: u64,
    /// Shortest duration in seconds; `u64::MAX` where nothing was recorded.
    pub minimum_connection_time: u64,
    /// Number of durations per bucket, see [`bucket_of`].
    pub connection_time_till: [usize; 32],
    /// Sum of the durations in seconds.
    pub connection_time: u64,
    /// Sum of the chunks sent.
    pub sent_chunks_sum: u64,
    /// Sum of the easter eggs sent.
    pub sent_eastereggs_sum: u64,
    /// Sum of the banners completed.
    pub sent_banners_sum: u64,
}

impl ClientMetrics {
    /// The statistics of no connection at all.
    pub open spec fn empty() -> ClientMetrics {
        ClientMetrics {
            maximum_connection_time: 0,
            minimum_connection_time: u64::MAX,
            connection_time_till: no_samples(),
            connection_time: 0,
            sent_chunks_sum: 0,
            sent_eastereggs_sum: 0,
            sent_banners_sum: 0,
        }
    }

    /// These statistics with one more connection folded in, which lasted
    /// `seconds` and sent the given numbers of chunks, easter eggs and banners.
    pub open spec fn recorded(
        self,
        seconds: u64,
        chunks: u64,
        eastereggs: u64,
        banners: u64,
    ) -> ClientMetrics {
        ClientMetrics {
            maximum_connection_time: if seconds > self.maximum_connection_time {
                seconds
            } else {
                self.maximum_connection_time
            },
            minimum_connection_time: if seconds < self.minimum_connection_time {
                seconds
            } else {
                self.minimum_connection_time
            },
            connection_time_till: with_sample(self.connection_time_till, bucket_of(seconds) as int),
            connection_time: self.connection_time.wrapping_add(seconds),
            sent_chunks_sum: self.sent_chunks_sum.wrapping_add(chunks),
            sent_eastereggs_sum: self.sent_eastereggs_sum.wrapping_add(eastereggs),
            sent_banners_sum: self.sent_banners_sum.wrapping_add(banners),
        }
    }

    /// The count shown for bucket line `line` of the cumulative histogram:
    /// the first bucket alone on line 0, on every later line the sum of the
    /// buckets before the one with that number, and on the last line, which
    /// has no upper bound, the sum of all buckets.
    pub open spec fn cumulative_spec(self, line: int) -> usize {
        if line == 0 {
            self.connection_time_till[0]
        } else if line < 31 {
            wrapping_sum(self.connection_time_till@.take(line))
        } else {
            wrapping_sum(self.connection_time_till@)
        }
    }

    /// The statistics over two sets of connections together, the live ones
    /// `current` and the former ones `former`: the sums and the histograms
    /// added up, the longer of the two longest durations and the shorter of
    /// the two shortest.
    pub open spec fn total_spec(current: ClientMetrics, former: ClientMetrics) -> ClientMetrics {
        ClientMetrics {
            maximum_connection_time: if current.maximum_connection_time
                > former.maximum_connection_time {
                current.maximum_connection_time
            } else {
                former.maximum_connection_time
            },
            minimum_connection_time: if current.minimum_connection_time
                < former.minimum_connection_time {
                current.minimum_connection_time
            } else {
                former.minimum_connection_time
            },
            connection_time_till: sum_of(current.connection_time_till, former.connection_time_till),
            connection_time: current.connection_time.wrapping_add(former.connection_time),
            sent_chunks_sum: current.sent_chunks_sum.wrapping_add(former.sent_chunks_sum),
            sent_eastereggs_sum: current.sent_eastereggs_sum.wrapping_add(
                former.sent_eastereggs_sum,
            ),
            sent_banners_sum: current.sent_banners_sum.wrapping_add(former.sent_banners_sum),
        }
    }

    /// Statistics of no connection at all.
    pub fn new() -> (metrics: ClientMetrics)
        ensures
            metrics == ClientMetrics::empty(),
    {
        ClientMetrics {
            maximum_connection_time: 0,
            minimum_connection_time: u64::MAX,
            connection_time_till: [0usize;32],
            connection_time: 0,
            sent_chunks_sum: 0,
            sent_eastereggs_sum: 0,
            sent_banners_sum: 0,
        }
    }

    /// Folds one connection into the statistics.
    pub fn record(&mut self, seconds: u64, chunks: u64, eastereggs: u64, banners: u64)
        ensures
            *final(self) == old(self).recorded(seconds, chunks, eastereggs, banners),
    {
        if seconds > self.maximum_connection_time {
            self.maximum_connection_time = seconds;
        }
        if seconds < self.minimum_connection_time {
            self.minimum_connection_time = seconds;
        }
        let b = bucket(seconds);
        self.connection_time_till[b] = self.connection_time_till[b].wrapping_add(1);
        self.connection_time = self.connection_time.wrapping_add(seconds);
        self.sent_chunks_sum = self.sent_chunks_sum.wrapping_add(chunks);
        self.sent_eastereggs_sum = self.sent_eastereggs_sum.wrapping_add(eastereggs);
        self.sent_banners_sum = self.sent_banners_sum.wrapping_add(banners);
    }

    /// The cumulative histogram: for each of its lines the count shown there.
    pub fn cumulative(&self) -> (lines: [usize; 32])
        ensures
            forall|line: int| 0 <= line < 32 ==> lines[line] == self.cumulative_spec(line),
    {
        let mut lines: [usize; 32] = [0usize;32];
        lines[0] = self.connection_time_till[0];
        let mut count: usize = 0;
        let mut i: usize = 0;
        assert(self.connection_time_till@.take(0) =~= Seq::<usize>::empty());
        while i < 31
            invariant
                i <= 31,
                count == wrapping_sum(self.connection_time_till@.take(i as int)),
                forall|line: int|
                    0 <= line <= i && line < 31 ==> lines[line] == self.cumulative_spec(line),
            decreases 31 - i,
        {
            assert(self.connection_time_till@.take(i + 1).drop_last()
                =~= self.connection_time_till@.take(i as int));
            count = count.wrapping_add(self.connection_time_till[i]);
            i = i + 1;
            if i < 31 {
                lines[i] = count;
            }
        }
        assert(self.connection_time_till@.drop_last() =~= self.connection_time_till@.take(31));
        lines[31] = count.wrapping_add(self.connection_time_till[31]);
        lines
    }

    /// The statistics over the live and the former connections together.
    pub fn total(current: &ClientMetrics, former: &ClientMetrics) -> (all: ClientMetrics)
        ensures
            all == ClientMetrics::total_spec(*current, *former),
    {
        let mut till: [usize; 32] = [0usize;32];
        let mut i: usize = 0;
        while i < 32
            invariant
                i <= 32,
                forall|k: int|
                    0 <= k < i ==> till[k] == current.connection_time_till[k].wrapping_add(
                        former.connection_time_till[k],
                    ),
            decreases 32 - i,
        {
            till[i] = current.connection_time_till[i].wrapping_add(former.connection_time_till[i]);
            i = i + 1;
        }
        let all = ClientMetrics {
            maximum_connection_time: if current.maximum_connection_time
                > former.maximum_connection_time {
                current.maximum_connection_time
            } else {
                former.maximum_connection_time
            },
            minimum_connection_time: if current.minimum_connection_time
                < former.minimum_connection_time {
                current.minimum_connection_time
            } else {
                former.minimum_connection_time
            },
            connection_time_till: till,
            connection_time: current.connection_time.wrapping_add(former.connection_time),
            sent_chunks_sum: current.sent_chunks_sum.wrapping_add(former.sent_chunks_sum),
            sent_eastereggs_sum: current.sent_eastereggs_sum.wrapping_add(
                former.sent_eastereggs_sum,
            ),
            sent_banners_sum: current.sent_banners_sum.wrapping_add(former.sent_banners_sum),
        };
        proof {
            lemma_sum_of(current.connection_time_till, former.connection_time_till);
            assert(all.connection_time_till =~= sum_of(
                current.connection_time_till,
                former.connection_time_till,
            ));
        }
        all
    }
}

/// What a registry reports of itself at one moment.
#[derive(Clone, Copy, Debug, PartialEq, Eq)]
pub struct Snapshot {
    /// Seconds since the registry was made.
    pub uptime_seconds: u64,
    /// Number of live connections.
    pub connections_count: usize,
    /// How often admission was asked for.
    pub connections_total: usize,
    /// Statistics of the live connections.
    pub current: ClientMetrics,
    /// Statistics of the connections that were disconnected.
    pub former: ClientMetrics,
    /// Statistics of both together.
    pub total: ClientMetrics,
}

/// Line by line, the cumulative histogram of the statistics over all
/// connections is the sum of the cumulative histograms of its two parts.
pub proof fn law_total_cumulative(current: ClientMetrics, former: ClientMetrics, line: int)
    requires
        0 <= line < 32,
    ensures
        ClientMetrics::total_spec(current, former).cumulative_spec(line) == current.cumulative_spec(
            line,
        ).wrapping_add(former.cumulative_spec(line)),
{
    let all = ClientMetrics::total_spec(current, former);
    lemma_sum_of(current.connection_time_till, former.connection_time_till);
    if 0 < line < 31 {
        lemma_wrapping_sum_pointwise(
            current.connection_time_till@.take(line),
            former.connection_time_till@.take(line),
            all.connection_time_till@.take(line),
        );
    } else if line == 31 {
        lemma_wrapping_sum_pointwise(
            current.connection_time_till@,
            former.connection_time_till@,
            all.connection_time_till@,
        );
    }
}

/// The statistics over all connections have the longest and the shortest
/// duration of the two sets; where in one of the sets the shortest duration
/// is not above the longest, it is not in both together.
pub proof fn law_total_extremes(current: ClientMetrics, former: ClientMetrics)
    ensures
        ({
            let all = ClientMetrics::total_spec(current, former);
            &&& all.maximum_connection_time >= current.maximum_connection_time
            &&& all.maximum_connection_time >= former.maximum_connection_time
            &&& all.maximum_connection_time == current.maximum_connection_time
                || all.maximum_connection_time == former.maximum_connection_time
            &&& all.minimum_connection_time <= current.minimum_connection_time
            &&& all.minimum_connection_time <= former.minimum_connection_time
            &&& all.minimum_connection_time == current.minimum_connection_time
                || all.minimum_connection_time == former.minimum_connection_time
            &&& (current.minimum_connection_time <= current.maximum_connection_time
                || former.minimum_connection_time <= former.maximum_connection_time)
                ==> all.minimum_connection_time <= all.maximum_connection_time
        }),
{
}

/// A duration that is folded in lies between the shortest and the longest
/// duration from then on.
pub proof fn law_record_extremes(
    metrics: ClientMetrics,
    seconds: u64,
    chunks: u64,
    eastereggs: u64,
    banners: u64,
)
    ensures
        ({
            let after = metrics.recorded(seconds, chunks, eastereggs, banners);
            &&& after.minimum_connection_time <= seconds <= after.maximum_connection_time
            &&& after.minimum_connection_time <= metrics.minimum_connection_time
            &&& after.maximum_connection_time >= metrics.maximum_connection_time
        }),
{
}

/// The last line of the cumulative histogram counts every connection: it is
/// zero where there is none, and each connection that is folded in adds one.
pub proof fn law_last_line_counts_all(
    metrics: ClientMetrics,
    seconds: u64,
    chunks: u64,
    eastereggs: u64,
    banners: u64,
)
    ensures
        ClientMetrics::empty().cumulative_spec(31) == 0,
        metrics.recorded(seconds, chunks, eastereggs, banners).cumulative_spec(31)
            == metrics.cumulative_spec(31).wrapping_add(1),
{
    lemma_wrapping_sum_zero(no_samples()@);
    lemma_wrapping_sum_update(metrics.connection_time_till@, bucket_of(seconds) as int);
}

proof fn lemma_wrapping_sum_zero(counts: Seq<usize>)
    requires
        forall|i: int| 0 <= i < counts.len() ==> counts[i] == 0,
    ensures
        wrapping_sum(counts) == 0,
    decreases counts.len(),
{
    if counts.len() > 0 {
        lemma_wrapping_sum_zero(counts.drop_last());
    }
}

proof fn lemma_wrapping_sum_update(counts: Seq<usize>, at: int)
    requires
        0 <= at < counts.len(),
    ensures
        wrapping_sum(counts.update(at, counts[at].wrapping_add(1))) == wrapping_sum(
            counts,
        ).wrapping_add(1),
    decreases counts.len(),
{
    let more = counts.update(at, counts[at].wrapping_add(1));
    if at < counts.len() - 1 {
        assert(more.drop_last() =~= counts.drop_last().update(at, counts[at].wrapping_add(1)));
        lemma_wrapping_sum_update(counts.drop_last(), at);
    } else {
        assert(more.drop_last() =~= counts.drop_last());
    }
}

proof fn lemma_wrapping_sum_pointwise(a: Seq<usize>, b: Seq<usize>, c: Seq<usize>)
    requires
        a.len() == b.len() == c.len(),
        forall|i: int| 0 <= i < c.len() ==> c[i] == a[i].wrapping_add(b[i]),
    ensures
        wrapping_sum(c) == wrapping_sum(a).wrapping_add(wrapping_sum(b)),
    decreases c.len(),
{
    if c.len() > 0 {
        lemma_wrapping_sum_pointwise(a.drop_last(), b.drop_last(), c.drop_last());
    }
}

} // verus!
