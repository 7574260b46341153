//! The metrics aggregation pipeline: per-request and per-task records are
//! folded into running aggregates, percentiles are computed from an integer
//! histogram on demand, and coordinated-omission mitigation synthesizes the
//! samples a stalled pass would otherwise hide.

use vstd::prelude::*;

use crate::swanling::SwanlingTaskSet;

verus! {

/// The coordinated-omission mitigation strategies. A pass is flagged when its
/// observed duration exceeds twice the expected cadence.
#[derive(Clone, Copy, Debug, PartialEq, Eq, Structural)]
pub enum SwanlingCoordinatedOmissionMitigation {
    /// The expected cadence is the moving average of observed pass durations.
    Average,
    /// No synthesis.
    Disabled,
    /// The expected cadence is the largest observed pass duration.
    Maximum,
    /// The expected cadence is the smallest observed pass duration.
    Minimum,
}

/// The HTTP methods the engine distinguishes in its metrics.
#[derive(Clone, Copy, Debug, PartialEq, Eq, Structural)]
pub enum SwanlingMethod {
    /// An HTTP DELETE request.
    Delete,
    /// An HTTP GET request.
    Get,
    /// An HTTP HEAD request.
    Head,
    /// An HTTP PATCH request.
    Patch,
    /// An HTTP POST request.
    Post,
    /// An HTTP PUT request.
    Put,
}

impl SwanlingMethod {
    /// The method's name, as it stands in metric keys.
    pub fn as_str(&self) -> (r: &'static str)
        ensures
            r@ == self.spec_name(),
    {
        match self {
            SwanlingMethod::Delete => "DELETE",
            SwanlingMethod::Get => "GET",
            SwanlingMethod::Head => "HEAD",
            SwanlingMethod::Patch => "PATCH",
            SwanlingMethod::Post => "POST",
            SwanlingMethod::Put => "PUT",
        }
    }

    /// The method's name as a character sequence.
    pub open spec fn spec_name(self) -> Seq<char> {
        match self {
            SwanlingMethod::Delete => "DELETE"@,
            SwanlingMethod::Get => "GET"@,
            SwanlingMethod::Head => "HEAD"@,
            SwanlingMethod::Patch => "PATCH"@,
            SwanlingMethod::Post => "POST"@,
            SwanlingMethod::Put => "PUT"@,
        }
    }
}

/// One raw request record, as a user emits it for every request made.
#[derive(Debug, PartialEq, Eq)]
pub struct SwanlingRequestMetric {
    /// Milliseconds since the load test started.
    pub elapsed: u64,
    /// The request's method.
    pub method: SwanlingMethod,
    /// The request's name, usually its path.
    pub name: String,
    /// The URL the final response came from.
    pub final_url: String,
    /// Whether the request was redirected.
    pub redirected: bool,
    /// How many milliseconds the request took.
    pub response_time: u64,
    /// The response's HTTP status code.
    pub status_code: u16,
    /// Whether the request counts as a success.
    pub success: bool,
    /// Whether this record was synthesized by coordinated-omission
    /// mitigation.
    pub update: bool,
    /// Which user emitted the record.
    pub user: usize,
    /// The error string of a failed request, empty on success.
    pub error: String,
    /// The size of the response body in bytes.
    pub response_size: u64,
    /// The user's expected request cadence when the record was emitted, zero
    /// when mitigation is disabled or not yet seeded.
    pub user_cadence: u64,
    /// The observed over-cadence gap this record reports, zero when the pass
    /// stayed on cadence.
    pub coordinated_omission_elapsed: u64,
}

/// One raw task record, as a user emits it after every task invocation.
#[derive(Debug, PartialEq, Eq)]
pub struct SwanlingTaskMetric {
    /// Milliseconds since the load test started.
    pub elapsed: u64,
    /// The index of the task set the task belongs to.
    pub taskset_index: usize,
    /// The index of the task within its set.
    pub task_index: usize,
    /// The task's name.
    pub name: String,
    /// How many milliseconds the task took.
    pub run_time: u64,
    /// Whether the task function returned success.
    pub success: bool,
    /// Which user emitted the record.
    pub user: usize,
}

impl SwanlingTaskMetric {
    /// A new task record with the clock not yet stopped.
    pub fn new(elapsed: u64, taskset_index: usize, task_index: usize, name: String, user: usize)
        -> (r: SwanlingTaskMetric)
        ensures
            r.elapsed == elapsed,
            r.taskset_index == taskset_index,
            r.task_index == task_index,
            r.name == name,
            r.run_time == 0,
            r.success == true,
            r.user == user,
    {
        SwanlingTaskMetric { elapsed, taskset_index, task_index, name, run_time: 0, success: true, user }
    }

    /// Stops the clock and records the outcome.
    pub fn set_time(&mut self, run_time: u64, success: bool)
        ensures
            *final(self) == (SwanlingTaskMetric { run_time, success, ..*old(self) }),
    {
        self.run_time = run_time;
        self.success = success;
    }
}

/// A metric record on its way from a user to the aggregator.
#[derive(Debug, PartialEq, Eq)]
pub enum SwanlingMetric {
    /// A raw request record.
    Request(SwanlingRequestMetric),
    /// A raw task record.
    Task(SwanlingTaskMetric),
}

/// Running timing data: a histogram of integer-millisecond buckets plus
/// minimum, maximum, total and count.
#[derive(Debug, PartialEq, Eq)]
pub struct SwanlingMetricTimingData {
    /// Bucketed response times: `(bucket, how many responses fell in it)`,
    /// in ascending bucket order with no bucket listed twice.
    pub times: Vec<(u64, u64)>,
    /// The smallest recorded time.
    pub minimum_time: u64,
    /// The largest recorded time.
    pub maximum_time: u64,
    /// The sum of all recorded times.
    pub total_time: u64,
    /// How many times were recorded.
    pub counter: u64,
}

/// The histogram bucket a response time falls in: exact below 100 ms, tens
/// of milliseconds below one second, hundreds below ten seconds, whole
/// seconds above.
pub open spec fn spec_bucket_of(time: u64) -> u64 {
    if time < 100 {
        time
    } else if time < 1000 {
        (time / 10 * 10) as u64
    } else if time < 10000 {
        (time / 100 * 100) as u64
    } else {
        (time / 1000 * 1000) as u64
    }
}

/// Rounds a response time down to its histogram bucket. The bucket never
/// exceeds the time, and the time is within the bucket's granularity.
pub fn bucket_of(time: u64) -> (b: u64)
    ensures
        b == spec_bucket_of(time),
        b <= time,
        time < b + 1000,
{
    proof {
        assert(time >= 100 ==> time / 10 * 10 <= time && time < time / 10 * 10 + 10) by (nonlinear_arith);
        assert(time >= 1000 ==> time / 100 * 100 <= time && time < time / 100 * 100 + 100) by (nonlinear_arith);
        assert(time >= 10000 ==> time / 1000 * 1000 <= time && time < time / 1000 * 1000 + 1000) by (nonlinear_arith);
    }
    if time < 100 {
        time
    } else if time < 1000 {
        time / 10 * 10
    } else if time < 10000 {
        time / 100 * 100
    } else {
        time / 1000 * 1000
    }
}

/// The total count a histogram holds.
pub open spec fn hist_total(h: Seq<(u64, u64)>) -> nat
    decreases h.len(),
{
    if h.len() == 0 {
        0
    } else {
        hist_total(h.drop_last()) + h.last().1 as nat
    }
}

/// The count of recorded times in buckets at or below `b`.
pub open spec fn hist_cumulative(h: Seq<(u64, u64)>, b: u64) -> nat
    decreases h.len(),
{
    if h.len() == 0 {
        0
    } else if h.last().0 <= b {
        hist_cumulative(h.drop_last(), b) + h.last().1 as nat
    } else {
        hist_cumulative(h.drop_last(), b)
    }
}

/// A well-formed histogram: buckets strictly ascending, counts positive.
pub open spec fn hist_wf(h: Seq<(u64, u64)>) -> bool {
    &&& forall|i: int, j: int| 0 <= i < j < h.len() ==> (#[trigger] h[i]).0 < (#[trigger] h[j]).0
    &&& forall|i: int| 0 <= i < h.len() ==> (#[trigger] h[i]).1 >= 1
}

impl SwanlingMetricTimingData {
    /// Whether the fields agree: the counter matches the histogram and the
    /// histogram is well formed.
    pub open spec fn wf(self) -> bool {
        &&& hist_wf(self.times@)
        &&& self.counter == hist_total(self.times@)
    }

    /// Fresh timing data with nothing recorded.
    pub fn new() -> (r: SwanlingMetricTimingData)
        ensures
            r.wf(),
            r.counter == 0,
            r.times@.len() == 0,
            r.minimum_time == 0,
            r.maximum_time == 0,
            r.total_time == 0,
    {
        SwanlingMetricTimingData {
            times: Vec::new(),
            minimum_time: 0,
            maximum_time: 0,
            total_time: 0,
            counter: 0,
        }
    }

    /// Folds one response time in: the counter and the time's bucket grow by
    /// one, the minimum, maximum and total follow, the rest of the histogram
    /// stands unchanged.
    pub fn record_time(&mut self, time: u64)
        requires
            old(self).wf(),
            old(self).counter < u64::MAX,
        ensures
            final(self).wf(),
            final(self).counter == old(self).counter + 1,
            hist_cumulative(final(self).times@, spec_bucket_of(time)) == hist_cumulative(
                old(self).times@,
                spec_bucket_of(time),
            ) + 1,
            final(self).minimum_time == if old(self).counter == 0 {
                time
            } else if time < old(self).minimum_time {
                time
            } else {
                old(self).minimum_time
            },
            final(self).maximum_time == if time > old(self).maximum_time {
                time
            } else {
                old(self).maximum_time
            },
            final(self).total_time == if old(self).total_time + time <= u64::MAX {
                (old(self).total_time + time) as u64
            } else {
                u64::MAX
            },
    {
        let bucket = bucket_of(time);
        if self.counter == 0 || time < self.minimum_time {
            self.minimum_time = time;
        }
        if time > self.maximum_time {
            self.maximum_time = time;
        }
        if self.total_time > u64::MAX - time {
            self.total_time = u64::MAX;
        } else {
            self.total_time = self.total_time + time;
        }
        self.counter = self.counter + 1;
        hist_increment(&mut self.times, bucket);
    }
}

/// One count in the histogram never exceeds the whole.
proof fn lemma_hist_count_le_total(h: Seq<(u64, u64)>, i: int)
    requires
        0 <= i < h.len(),
    ensures
        h[i].1 as nat <= hist_total(h),
    decreases h.len(),
{
    if i == h.len() - 1 {
    } else {
        assert(h.drop_last()[i] == h[i]);
        lemma_hist_count_le_total(h.drop_last(), i);
    }
}

/// Updating one bucket's count changes neither the other buckets nor the
/// cumulative counts below it.
proof fn lemma_hist_update_count(h: Seq<(u64, u64)>, i: int, c: u64, b: u64)
    requires
        0 <= i < h.len(),
    ensures
        hist_total(h.update(i, (h[i].0, c))) == hist_total(h) - h[i].1 + c,
        hist_cumulative(h.update(i, (h[i].0, c)), b) == if h[i].0 <= b {
            hist_cumulative(h, b) - h[i].1 + c
        } else {
            hist_cumulative(h, b) as int
        },
    decreases h.len(),
{
    let h2 = h.update(i, (h[i].0, c));
    if i == h.len() - 1 {
        assert(h2.drop_last() =~= h.drop_last());
        assert(h2.last() == (h[i].0, c));
    } else {
        lemma_hist_update_count(h.drop_last(), i, c, b);
        assert(h2.drop_last() =~= h.drop_last().update(i, (h[i].0, c)));
        assert(h2.last() == h.last());
    }
}

/// Inserting a fresh bucket of count one adds one to the totals at or above
/// it and nothing below.
proof fn lemma_hist_insert_bucket(h: Seq<(u64, u64)>, i: int, nb: u64, b: u64)
    requires
        0 <= i <= h.len(),
    ensures
        hist_total(h.insert(i, (nb, 1u64))) == hist_total(h) + 1,
        hist_cumulative(h.insert(i, (nb, 1u64)), b) == if nb <= b {
            hist_cumulative(h, b) + 1
        } else {
            hist_cumulative(h, b)
        },
    decreases h.len(),
{
    let h2 = h.insert(i, (nb, 1u64));
    if i == h.len() {
        assert(h2.drop_last() =~= h);
        assert(h2.last() == (nb, 1u64));
    } else {
        lemma_hist_insert_bucket(h.drop_last(), i, nb, b);
        assert(h2.drop_last() =~= h.drop_last().insert(i, (nb, 1u64)));
        assert(h2.last() == h.last());
    }
}

/// Adds one to a bucket's count, inserting the bucket if it is new; the
/// histogram stays sorted and the cumulative counts grow by exactly one at
/// and above the bucket.
fn hist_increment(times: &mut Vec<(u64, u64)>, bucket: u64)
    requires
        hist_wf(old(times)@),
        hist_total(old(times)@) < u64::MAX,
    ensures
        hist_wf(final(times)@),
        hist_total(final(times)@) == hist_total(old(times)@) + 1,
        forall|b: u64|
            #[trigger] hist_cumulative(final(times)@, b) == if bucket <= b {
                hist_cumulative(old(times)@, b) + 1
            } else {
                hist_cumulative(old(times)@, b)
            },
{
    let ghost h0 = times@;
    // Find the first position whose bucket is not below ours.
    let mut i: usize = 0;
    while i < times.len() && times[i].0 < bucket
        invariant
            i <= h0.len(),
            h0 == times@,
            forall|j: int| 0 <= j < i ==> (#[trigger] h0[j]).0 < bucket,
        decreases h0.len() - i,
    {
        i = i + 1;
    }
    if i < times.len() && times[i].0 == bucket {
        let c = times[i].1;
        proof {
            lemma_hist_count_le_total(h0, i as int);
            lemma_hist_update_count(h0, i as int, (c + 1) as u64, 0);
        }
        times[i] = (bucket, c + 1);
        proof {
            assert(times@ =~= h0.update(i as int, (h0[i as int].0, (c + 1) as u64)));
            assert forall|b: u64| #[trigger] hist_cumulative(times@, b) == (if bucket <= b {
                hist_cumulative(h0, b) + 1
            } else {
                hist_cumulative(h0, b)
            }) by {
                lemma_hist_update_count(h0, i as int, (c + 1) as u64, b);
            }
            assert(hist_wf(times@)) by {
                assert(forall|j: int|
                    0 <= j < times@.len() && j != i ==> times@[j] == h0[j]);
            }
            lemma_hist_update_count(h0, i as int, (c + 1) as u64, bucket);
        }
    } else {
        proof {
            lemma_hist_insert_bucket(h0, i as int, bucket, 0);
        }
        times.insert(i, (bucket, 1));
        proof {
            assert(times@ =~= h0.insert(i as int, (bucket, 1u64)));
            assert forall|b: u64| #[trigger] hist_cumulative(times@, b) == (if bucket <= b {
                hist_cumulative(h0, b) + 1
            } else {
                hist_cumulative(h0, b)
            }) by {
                lemma_hist_insert_bucket(h0, i as int, bucket, b);
            }
            assert(hist_wf(times@)) by {
                assert(forall|j: int| 0 <= j < i ==> times@[j] == h0[j]);
                assert(forall|j: int|
                    i < j < times@.len() ==> times@[j] == h0[j - 1]);
                assert forall|a: int, c: int|
                    0 <= a < c < times@.len() implies (#[trigger] times@[a]).0 < (
                #[trigger] times@[c]).0 by {
                    if a == i {
                        assert(h0[c - 1].0 >= bucket);
                        assert(h0[c - 1].0 != bucket);
                    } else if c == i {
                        assert(h0[a].0 < bucket);
                    }
                }
            }
            lemma_hist_insert_bucket(h0, i as int, bucket, bucket);
        }
    }
}

/// The count of the first `i` buckets.
pub open spec fn prefix_total(h: Seq<(u64, u64)>, i: int) -> nat
    decreases i,
{
    if i <= 0 {
        0
    } else {
        prefix_total(h, i - 1) + h[i - 1].1 as nat
    }
}

/// The whole histogram is its own prefix.
proof fn lemma_prefix_total_all(h: Seq<(u64, u64)>)
    ensures
        prefix_total(h, h.len() as int) == hist_total(h),
    decreases h.len(),
{
    if h.len() > 0 {
        lemma_prefix_total_all(h.drop_last());
        lemma_prefix_total_drop_last(h, h.len() - 1);
    }
}

/// A prefix that stops before the last bucket ignores the last bucket.
proof fn lemma_prefix_total_drop_last(h: Seq<(u64, u64)>, k: int)
    requires
        0 <= k < h.len(),
    ensures
        prefix_total(h, k) == prefix_total(h.drop_last(), k),
    decreases k,
{
    if k > 0 {
        lemma_prefix_total_drop_last(h, k - 1);
        assert(h.drop_last()[k - 1] == h[k - 1]);
    }
}

/// A prefix never exceeds the whole.
proof fn lemma_prefix_le_total(h: Seq<(u64, u64)>, i: int)
    requires
        0 <= i <= h.len(),
    ensures
        prefix_total(h, i) <= hist_total(h),
    decreases h.len() - i,
{
    if i == h.len() {
        lemma_prefix_total_all(h);
    } else {
        lemma_prefix_le_total(h, i + 1);
    }
}

/// No cumulative count exceeds the whole.
proof fn lemma_cum_le_total(h: Seq<(u64, u64)>, b: u64)
    ensures
        hist_cumulative(h, b) <= hist_total(h),
    decreases h.len(),
{
    if h.len() > 0 {
        lemma_cum_le_total(h.drop_last(), b);
    }
}

/// If every bucket at position `k` or later lies above `b`, the cumulative
/// count at `b` fits in the first `k` buckets.
proof fn lemma_cum_le_prefix(h: Seq<(u64, u64)>, b: u64, k: int)
    requires
        0 <= k <= h.len(),
        forall|j: int| k <= j < h.len() ==> (#[trigger] h[j]).0 > b,
    ensures
        hist_cumulative(h, b) <= prefix_total(h, k),
    decreases h.len(),
{
    if h.len() == 0 {
    } else if h.last().0 <= b {
        assert(k == h.len());
        lemma_cum_le_total(h, b);
        lemma_prefix_total_all(h);
    } else {
        if k <= h.len() - 1 {
            assert(forall|j: int|
                k <= j < h.drop_last().len() ==> (#[trigger] h.drop_last()[j]).0 > b);
            lemma_cum_le_prefix(h.drop_last(), b, k);
            lemma_prefix_total_drop_last(h, k);
        } else {
            lemma_cum_le_prefix(h.drop_last(), b, k - 1);
            lemma_prefix_total_all(h);
            lemma_prefix_le_total(h.drop_last(), k - 1);
            lemma_prefix_total_all(h.drop_last());
        }
    }
}

/// In a sorted histogram, the cumulative count at bucket `i` is the count of
/// the first `i + 1` buckets.
proof fn lemma_cum_at_bucket(h: Seq<(u64, u64)>, i: int)
    requires
        hist_wf(h),
        0 <= i < h.len(),
    ensures
        hist_cumulative(h, h[i].0) == prefix_total(h, i + 1),
    decreases h.len(),
{
    if i == h.len() - 1 {
        // Every bucket is at or below the last one.
        lemma_cum_all_below(h, h[i].0);
        lemma_prefix_total_all(h);
    } else {
        assert(hist_wf(h.drop_last()));
        assert(h.drop_last()[i] == h[i]);
        lemma_cum_at_bucket(h.drop_last(), i);
        lemma_prefix_total_drop_last(h, i + 1);
        assert(h.last().0 > h[i].0);
    }
}

/// When every bucket is at or below `b`, the cumulative count is the whole.
proof fn lemma_cum_all_below(h: Seq<(u64, u64)>, b: u64)
    requires
        forall|j: int| 0 <= j < h.len() ==> (#[trigger] h[j]).0 <= b,
    ensures
        hist_cumulative(h, b) == hist_total(h),
    decreases h.len(),
{
    if h.len() > 0 {
        lemma_cum_all_below(h.drop_last(), b);
    }
}

/// The ceiling of `total * p_num / p_den`: how many samples a percentile
/// must cover.
pub open spec fn percentile_threshold(total: nat, p_num: nat, p_den: nat) -> nat {
    ((total * p_num + p_den - 1) / p_den as int) as nat
}

/// The percentile of a histogram: the smallest bucket whose cumulative count
/// reaches at least the ceiling of `total * p_num / p_den` of the recorded
/// values. With an empty histogram the percentile is zero.
pub fn percentile(times: &Vec<(u64, u64)>, p_num: u64, p_den: u64) -> (r: u64)
    requires
        hist_wf(times@),
        hist_total(times@) <= u64::MAX,
        1 <= p_num <= p_den,
    ensures
        times@.len() == 0 ==> r == 0,
        times@.len() > 0 ==> {
            &&& hist_cumulative(times@, r) >= percentile_threshold(
                hist_total(times@),
                p_num as nat,
                p_den as nat,
            )
            &&& exists|i: int| 0 <= i < times@.len() && (#[trigger] times@[i]).0 == r
            &&& forall|b: u64|
                b < r ==> hist_cumulative(times@, b) < percentile_threshold(
                    hist_total(times@),
                    p_num as nat,
                    p_den as nat,
                )
        },
{
    let ghost h = times@;
    let ghost total_spec = hist_total(h);
    let ghost threshold = percentile_threshold(total_spec, p_num as nat, p_den as nat);
    if times.len() == 0 {
        return 0;
    }
    // Total the histogram.
    let mut total: u64 = 0;
    let mut i: usize = 0;
    while i < times.len()
        invariant
            h == times@,
            i <= h.len(),
            total_spec == hist_total(h),
            total_spec <= u64::MAX,
            total as nat == prefix_total(h, i as int),
        decreases h.len() - i,
    {
        proof {
            lemma_prefix_le_total(h, i + 1);
        }
        total = total + times[i].1;
        i = i + 1;
    }
    proof {
        lemma_prefix_total_all(h);
    }
    // The number of samples the percentile must cover.
    proof {
        assert((total as int) * (p_num as int) + (p_den as int - 1) <= u128::MAX) by (nonlinear_arith)
            requires
                total <= u64::MAX,
                p_num <= u64::MAX,
                1 <= p_den <= u64::MAX,
        {
        }
    }
    let th128: u128 = (total as u128 * p_num as u128 + (p_den - 1) as u128) / (p_den as u128);
    proof {
        assert((total as nat * p_num as nat + p_den as nat - 1) / p_den as int <= total as int) by (nonlinear_arith)
            requires
                1 <= p_num <= p_den,
        {
        }
    }
    let th: u64 = th128 as u64;
    proof {
        assert(th as nat == threshold);
        assert(threshold >= 1) by (nonlinear_arith)
            requires
                threshold == (total_spec * p_num + p_den - 1) / p_den as int,
                total_spec >= 1,
                1 <= p_num <= p_den,
        {
        }
    }
    let mut i: usize = 0;
    let mut cum: u64 = 0;
    while i < times.len()
        invariant
            h == times@,
            hist_wf(h),
            i <= h.len(),
            total_spec == hist_total(h),
            total_spec >= 1,
            threshold == percentile_threshold(total_spec, p_num as nat, p_den as nat),
            threshold <= total_spec,
            total_spec <= u64::MAX,
            th as nat == threshold,
            cum as nat == prefix_total(h, i as int),
            (cum as nat) < threshold,
        decreases h.len() - i,
    {
        let (bucket, count) = times[i];
        proof {
            lemma_prefix_le_total(h, i + 1);
            lemma_cum_at_bucket(h, i as int);
        }
        let new_cum = cum + count;
        if new_cum >= th {
            proof {
                assert(hist_cumulative(h, bucket) >= threshold);
                assert forall|b: u64| b < bucket implies hist_cumulative(h, b) < threshold by {
                    assert forall|j: int| i as int <= j < h.len() implies (#[trigger] h[j]).0
                        > b by {
                        assert(h[j].0 >= h[i as int].0);
                    }
                    lemma_cum_le_prefix(h, b, i as int);
                }
            }
            return bucket;
        }
        cum = new_cum;
        i = i + 1;
    }
    proof {
        lemma_prefix_total_all(h);
        assert(false);
    }
    0
}


/// How many responses carried one status code.
pub open spec fn status_count(s: Seq<(u16, u64)>, code: u16) -> nat
    decreases s.len(),
{
    if s.len() == 0 {
        0
    } else if s.last().0 == code {
        status_count(s.drop_last(), code) + s.last().1 as nat
    } else {
        status_count(s.drop_last(), code)
    }
}

/// Raising one entry's count raises its code's total by the same amount.
proof fn lemma_status_update(s: Seq<(u16, u64)>, i: int, c: u64, code: u16)
    requires
        0 <= i < s.len(),
    ensures
        status_count(s.update(i, (s[i].0, c)), code) == if s[i].0 == code {
            status_count(s, code) - s[i].1 + c
        } else {
            status_count(s, code) as int
        },
    decreases s.len(),
{
    let s2 = s.update(i, (s[i].0, c));
    if i == s.len() - 1 {
        assert(s2.drop_last() =~= s.drop_last());
        assert(s2.last() == (s[i].0, c));
    } else {
        lemma_status_update(s.drop_last(), i, c, code);
        assert(s2.drop_last() =~= s.drop_last().update(i, (s[i].0, c)));
        assert(s2.last() == s.last());
    }
}

/// Appending an entry raises its code's total by its count.
proof fn lemma_status_push(s: Seq<(u16, u64)>, p: (u16, u64), code: u16)
    ensures
        status_count(s.push(p), code) == if p.0 == code {
            status_count(s, code) + p.1
        } else {
            status_count(s, code) as int
        },
{
    assert(s.push(p).drop_last() =~= s);
}

/// The total count one entry holds is bounded by its code's total.
proof fn lemma_status_entry_le(s: Seq<(u16, u64)>, i: int)
    requires
        0 <= i < s.len(),
    ensures
        s[i].1 as nat <= status_count(s, s[i].0),
    decreases s.len(),
{
    if i == s.len() - 1 {
    } else {
        assert(s.drop_last()[i] == s[i]);
        lemma_status_entry_le(s.drop_last(), i);
    }
}

/// Adds one response with the given status code to the per-code counters.
fn status_increment(counts: &mut Vec<(u16, u64)>, code: u16)
    requires
        forall|i: int| 0 <= i < old(counts)@.len() ==> (#[trigger] old(counts)@[i]).1 < u64::MAX,
    ensures
        forall|c: u16|
            #[trigger] status_count(final(counts)@, c) == if c == code {
                status_count(old(counts)@, c) + 1int
            } else {
                status_count(old(counts)@, c) as int
            },
        forall|i: int| 0 <= i < final(counts)@.len() ==> (#[trigger] final(counts)@[i]).1 <= u64::MAX,
{
    let ghost s0 = counts@;
    let mut i: usize = 0;
    while i < counts.len()
        invariant
            s0 == counts@,
            s0 == old(counts)@,
            i <= s0.len(),
            forall|j: int| 0 <= j < i ==> (#[trigger] s0[j]).0 != code,
            forall|j: int| 0 <= j < s0.len() ==> (#[trigger] s0[j]).1 < u64::MAX,
        decreases s0.len() - i,
    {
        if counts[i].0 == code {
            let c = counts[i].1;
            counts[i] = (code, c + 1);
            proof {
                assert(counts@ =~= s0.update(i as int, (s0[i as int].0, (c + 1) as u64)));
                assert forall|cc: u16| #[trigger] status_count(counts@, cc) == (if cc == code {
                    status_count(s0, cc) + 1int
                } else {
                    status_count(s0, cc) as int
                }) by {
                    lemma_status_update(s0, i as int, (c + 1) as u64, cc);
                }
            }
            return ;
        }
        i = i + 1;
    }
    counts.push((code, 1));
    proof {
        assert(counts@ =~= s0.push((code, 1u64)));
        assert forall|cc: u16| #[trigger] status_count(counts@, cc) == (if cc == code {
            status_count(s0, cc) + 1int
        } else {
            status_count(s0, cc) as int
        }) by {
            lemma_status_push(s0, (code, 1u64), cc);
        }
    }
}

/// The running aggregate of all requests that share one `METHOD name` key.
#[derive(Debug, PartialEq, Eq)]
pub struct SwanlingRequestMetricAggregate {
    /// The path (or name) requests were made against.
    pub path: String,
    /// The method requests were made with.
    pub method: SwanlingMethod,
    /// Timing data of the requests that were actually made.
    pub raw_data: SwanlingMetricTimingData,
    /// Timing data synthesized by coordinated-omission mitigation, kept
    /// separate from the raw histogram.
    pub coordinated_omission_data: SwanlingMetricTimingData,
    /// How many responses carried each status code, when tracking is enabled.
    pub status_code_counts: Vec<(u16, u64)>,
    /// How many requests succeeded.
    pub success_count: u64,
    /// How many requests failed.
    pub fail_count: u64,
}

impl SwanlingRequestMetricAggregate {
    /// The aggregate's bookkeeping invariant: the histograms are well formed
    /// and every request counted once is either a success or a failure, so
    /// the counter always equals `success_count + fail_count`.
    pub open spec fn wf(self) -> bool {
        &&& self.raw_data.wf()
        &&& self.coordinated_omission_data.wf()
        &&& self.raw_data.counter == self.success_count + self.fail_count
        &&& forall|c: u16|
            #[trigger] status_count(self.status_code_counts@, c) <= self.raw_data.counter
    }

    /// A fresh aggregate with nothing recorded.
    pub fn new(path: &str, method: SwanlingMethod) -> (r: SwanlingRequestMetricAggregate)
        ensures
            r.wf(),
            r.path@ == path@,
            r.method == method,
            r.raw_data.counter == 0,
            r.coordinated_omission_data.counter == 0,
            r.success_count == 0,
            r.fail_count == 0,
            r.status_code_counts@.len() == 0,
    {
        SwanlingRequestMetricAggregate {
            path: path.to_owned(),
            method,
            raw_data: SwanlingMetricTimingData::new(),
            coordinated_omission_data: SwanlingMetricTimingData::new(),
            status_code_counts: Vec::new(),
            success_count: 0,
            fail_count: 0,
        }
    }

    /// Folds one raw request record in. A synthesized record (`update`) only
    /// extends the coordinated-omission histogram; a real record bumps the
    /// counter, exactly one of the success and failure counts, the raw
    /// histogram, and, when tracking is enabled, its status code's counter.
    pub fn record(&mut self, response_time: u64, status_code: u16, success: bool, update: bool, status_codes_enabled: bool)
        requires
            old(self).wf(),
            old(self).raw_data.counter < u64::MAX,
            old(self).coordinated_omission_data.counter < u64::MAX,
        ensures
            final(self).wf(),
            final(self).path == old(self).path,
            final(self).method == old(self).method,
            update ==> {
                &&& final(self).raw_data == old(self).raw_data
                &&& final(self).success_count == old(self).success_count
                &&& final(self).fail_count == old(self).fail_count
                &&& final(self).status_code_counts == old(self).status_code_counts
                &&& final(self).coordinated_omission_data.counter == old(
                    self,
                ).coordinated_omission_data.counter + 1
                &&& hist_cumulative(
                    final(self).coordinated_omission_data.times@,
                    spec_bucket_of(response_time),
                ) == hist_cumulative(
                    old(self).coordinated_omission_data.times@,
                    spec_bucket_of(response_time),
                ) + 1
            },
            !update ==> {
                &&& final(self).coordinated_omission_data == old(self).coordinated_omission_data
                &&& final(self).raw_data.counter == old(self).raw_data.counter + 1
                &&& hist_cumulative(final(self).raw_data.times@, spec_bucket_of(response_time))
                    == hist_cumulative(old(self).raw_data.times@, spec_bucket_of(response_time))
                    + 1
                &&& final(self).success_count == old(self).success_count + (if success {
                    1int
                } else {
                    0int
                })
                &&& final(self).fail_count == old(self).fail_count + (if success {
                    0int
                } else {
                    1int
                })
                &&& forall|c: u16|
                    #[trigger] status_count(final(self).status_code_counts@, c) == if status_codes_enabled && c == status_code {
                        status_count(old(self).status_code_counts@, c) + 1int
                    } else {
                        status_count(old(self).status_code_counts@, c) as int
                    }
            },
    {
        if update {
            self.coordinated_omission_data.record_time(response_time);
        } else {
            self.raw_data.record_time(response_time);
            if success {
                self.success_count = self.success_count + 1;
            } else {
                self.fail_count = self.fail_count + 1;
            }
            if status_codes_enabled {
                proof {
                    assert forall|i: int|
                        0 <= i < self.status_code_counts@.len() implies (
                    #[trigger] self.status_code_counts@[i]).1 < u64::MAX by {
                        lemma_status_entry_le(self.status_code_counts@, i);
                    }
                }
                status_increment(&mut self.status_code_counts, status_code);
            }
        }
    }
}

/// The running aggregate of one error, keyed by its method, name and text.
#[derive(Debug, PartialEq, Eq)]
pub struct SwanlingErrorMetricAggregate {
    /// The method of the failed requests.
    pub method: SwanlingMethod,
    /// The name of the failed requests.
    pub name: String,
    /// The error text.
    pub error: String,
    /// How often this error occurred.
    pub occurrences: u64,
}

/// The running aggregate of one task's invocations.
#[derive(Debug, PartialEq, Eq)]
pub struct SwanlingTaskMetricAggregate {
    /// The index of the task set the task belongs to.
    pub taskset_index: usize,
    /// The index of the task within its set.
    pub task_index: usize,
    /// The task's name.
    pub task_name: String,
    /// Timing data of the task's invocations.
    pub times: SwanlingMetricTimingData,
    /// How many invocations returned success.
    pub success_count: u64,
    /// How many invocations returned failure.
    pub fail_count: u64,
}

impl SwanlingTaskMetricAggregate {
    /// Every invocation counted once is either a success or a failure.
    pub open spec fn wf(self) -> bool {
        &&& self.times.wf()
        &&& self.times.counter == self.success_count + self.fail_count
    }

    /// A fresh aggregate with nothing recorded.
    pub fn new(taskset_index: usize, task_index: usize, task_name: String) -> (r: SwanlingTaskMetricAggregate)
        ensures
            r.wf(),
            r.taskset_index == taskset_index,
            r.task_index == task_index,
            r.task_name == task_name,
            r.times.counter == 0,
            r.success_count == 0,
            r.fail_count == 0,
    {
        SwanlingTaskMetricAggregate {
            taskset_index,
            task_index,
            task_name,
            times: SwanlingMetricTimingData::new(),
            success_count: 0,
            fail_count: 0,
        }
    }

    /// Folds one task invocation in.
    pub fn record(&mut self, run_time: u64, success: bool)
        requires
            old(self).wf(),
            old(self).times.counter < u64::MAX,
        ensures
            final(self).wf(),
            final(self).taskset_index == old(self).taskset_index,
            final(self).task_index == old(self).task_index,
            final(self).task_name == old(self).task_name,
            final(self).times.counter == old(self).times.counter + 1,
            hist_cumulative(final(self).times.times@, spec_bucket_of(run_time))
                == hist_cumulative(old(self).times.times@, spec_bucket_of(run_time)) + 1,
            final(self).success_count == old(self).success_count + (if success {
                1int
            } else {
                0int
            }),
            final(self).fail_count == old(self).fail_count + (if success {
                0int
            } else {
                1int
            }),
    {
        self.times.record_time(run_time);
        if success {
            self.success_count = self.success_count + 1;
        } else {
            self.fail_count = self.fail_count + 1;
        }
    }
}


/// The key one request aggregate is filed under: `METHOD name`.
pub open spec fn spec_request_key(method: SwanlingMethod, name: Seq<char>) -> Seq<char> {
    method.spec_name() + " "@ + name
}

/// Builds the `METHOD name` key of a request.
pub fn request_key(method: SwanlingMethod, name: &str) -> (r: String)
    ensures
        r@ == spec_request_key(method, name@),
{
    proof {
        reveal_strlit(" ");
    }
    let mut k = method.as_str().to_owned();
    k.append(" ");
    k.append(name);
    k
}

/// The key one error aggregate is filed under: `METHOD name: error`.
pub open spec fn spec_error_key(method: SwanlingMethod, name: Seq<char>, error: Seq<char>) -> Seq<
    char,
> {
    method.spec_name() + " "@ + name + ": "@ + error
}

/// Builds the `METHOD name: error` key of an error.
pub fn error_key(method: SwanlingMethod, name: &str, error: &str) -> (r: String)
    ensures
        r@ == spec_error_key(method, name@, error@),
{
    proof {
        reveal_strlit(" ");
        reveal_strlit(": ");
    }
    let mut k = method.as_str().to_owned();
    k.append(" ");
    k.append(name);
    k.append(": ");
    k.append(error);
    k
}

/// The elapsed values coordinated-omission mitigation synthesizes for an
/// over-cadence gap: one sample for every extra cadence the gap contained,
/// each the observed gap minus its position times the cadence.
pub open spec fn spec_co_extra(gap: u64, cadence: u64) -> nat {
    if cadence > 0 && gap / cadence >= 1 {
        (gap / cadence - 1) as nat
    } else {
        0
    }
}

/// Synthesizes the elapsed values hidden by an over-cadence gap.
pub fn co_synthesized_times(gap: u64, cadence: u64) -> (r: Vec<u64>)
    requires
        cadence >= 1,
    ensures
        r@.len() == spec_co_extra(gap, cadence),
        forall|i: int| 0 <= i < r@.len() ==> #[trigger] r@[i] == gap - (i + 1) * cadence,
{
    let n = gap / cadence;
    let mut r: Vec<u64> = Vec::new();
    if n == 0 {
        return r;
    }
    let mut i: u64 = 1;
    proof {
        assert(n * cadence <= gap) by (nonlinear_arith)
            requires
                cadence >= 1,
                n == gap / cadence,
        {
        }
    }
    while i < n
        invariant
            cadence >= 1,
            n == gap / cadence,
            n * cadence <= gap,
            1 <= i <= n,
            r@.len() == i - 1,
            forall|j: int| 0 <= j < r@.len() ==> #[trigger] r@[j] == gap - (j + 1) * cadence,
        decreases n - i,
    {
        proof {
            assert(i * cadence <= n * cadence) by (nonlinear_arith)
                requires
                    i <= n,
                    cadence >= 1,
            {
            }
        }
        r.push(gap - i * cadence);
        i = i + 1;
    }
    r
}

/// All metrics merged together, as the supervisor owns them for one run.
#[derive(Debug, PartialEq, Eq)]
pub struct SwanlingMetrics {
    /// A hash identifying the load test the metrics belong to; it matters
    /// only to distributed coordination, which this engine does not run, so
    /// it stays zero here.
    pub hash: u64,
    /// How many users have been launched.
    pub users: usize,
    /// How many seconds the load test has been running.
    pub duration: usize,
    /// Per-request aggregates, keyed by `METHOD name`, each key once.
    pub requests: Vec<(String, SwanlingRequestMetricAggregate)>,
    /// Per-task aggregates.
    pub tasks: Vec<SwanlingTaskMetricAggregate>,
    /// Per-error aggregates, keyed by `METHOD name: error`, each key once.
    pub errors: Vec<(String, SwanlingErrorMetricAggregate)>,
    /// How many records, synthesized ones included, have been folded in.
    pub records_folded: u64,
    /// Whether the load test is finished and percentiles and errors are to be
    /// displayed.
    pub final_metrics: bool,
    /// Whether to display status code metrics.
    pub display_status_codes: bool,
    /// Whether to display metrics at all.
    pub display_metrics: bool,
}

impl SwanlingMetrics {
    /// The container's bookkeeping invariant: keys are unique, every
    /// aggregate is internally consistent, and no counter outruns the number
    /// of folded records.
    pub open spec fn wf(self) -> bool {
        &&& forall|i: int, j: int|
            0 <= i < j < self.requests@.len() ==> (#[trigger] self.requests@[i]).0@ != (
            #[trigger] self.requests@[j]).0@
        &&& forall|i: int|
            0 <= i < self.requests@.len() ==> (#[trigger] self.requests@[i]).1.wf() && (
            self.requests@[i]).1.raw_data.counter + (
            self.requests@[i]).1.coordinated_omission_data.counter <= self.records_folded
        &&& forall|i: int, j: int|
            0 <= i < j < self.errors@.len() ==> (#[trigger] self.errors@[i]).0@ != (
            #[trigger] self.errors@[j]).0@
        &&& forall|i: int|
            0 <= i < self.errors@.len() ==> (#[trigger] self.errors@[i]).1.occurrences
                <= self.records_folded
        &&& forall|i: int|
            0 <= i < self.tasks@.len() ==> (#[trigger] self.tasks@[i]).wf() && (
            self.tasks@[i]).times.counter <= self.records_folded
        &&& forall|i: int, j: int|
            0 <= i < j < self.tasks@.len() ==> !((#[trigger] self.tasks@[i]).taskset_index == (
            #[trigger] self.tasks@[j]).taskset_index && self.tasks@[i].task_index
                == self.tasks@[j].task_index)
    }

    /// Fresh, empty metrics.
    pub fn new() -> (r: SwanlingMetrics)
        ensures
            r.wf(),
            r.hash == 0,
            r.users == 0,
            r.duration == 0,
            r.requests@.len() == 0,
            r.tasks@.len() == 0,
            r.errors@.len() == 0,
            r.records_folded == 0,
            r.final_metrics == false,
            r.display_status_codes == false,
            r.display_metrics == false,
    {
        SwanlingMetrics {
            hash: 0,
            users: 0,
            duration: 0,
            requests: Vec::new(),
            tasks: Vec::new(),
            errors: Vec::new(),
            records_folded: 0,
            final_metrics: false,
            display_status_codes: false,
            display_metrics: false,
        }
    }

    /// Looks a request aggregate up by its `METHOD name` key.
    pub fn request_metric(&self, key: &str) -> (r: Option<&SwanlingRequestMetricAggregate>)
        ensures
            match r {
                Some(a) => exists|i: int|
                    0 <= i < self.requests@.len() && (#[trigger] self.requests@[i]).0@ == key@
                        && self.requests@[i].1 == a,
                None => forall|i: int|
                    0 <= i < self.requests@.len() ==> (#[trigger] self.requests@[i]).0@ != key@,
            },
    {
        let mut i: usize = 0;
        while i < self.requests.len()
            invariant
                i <= self.requests@.len(),
                forall|j: int|
                    0 <= j < i ==> (#[trigger] self.requests@[j]).0@ != key@,
            decreases self.requests@.len() - i,
        {
            if crate::util::str_eq(self.requests[i].0.as_str(), key) {
                return Some(&self.requests[i].1);
            }
            i = i + 1;
        }
        None
    }

    /// Looks an error aggregate up by its `METHOD name: error` key.
    pub fn error_metric(&self, key: &str) -> (r: Option<&SwanlingErrorMetricAggregate>)
        ensures
            match r {
                Some(a) => exists|i: int|
                    0 <= i < self.errors@.len() && (#[trigger] self.errors@[i]).0@ == key@
                        && self.errors@[i].1 == a,
                None => forall|i: int|
                    0 <= i < self.errors@.len() ==> (#[trigger] self.errors@[i]).0@ != key@,
            },
    {
        let mut i: usize = 0;
        while i < self.errors.len()
            invariant
                i <= self.errors@.len(),
                forall|j: int| 0 <= j < i ==> (#[trigger] self.errors@[j]).0@ != key@,
            decreases self.errors@.len() - i,
        {
            if crate::util::str_eq(self.errors[i].0.as_str(), key) {
                return Some(&self.errors[i].1);
            }
            i = i + 1;
        }
        None
    }

    /// Folds one raw request record into the aggregates, as the supervisor
    /// does for every record it drains. A record is filed under its `METHOD
    /// name` key; a failed record also feeds the error summary when that is
    /// enabled; and when coordinated-omission mitigation flagged the record,
    /// one synthesized sample per extra cadence joins the aggregate's
    /// separate mitigation histogram.
    #[verifier::rlimit(100)]
    #[verifier::spinoff_prover]
    pub fn record_request(
        &mut self,
        raw: &SwanlingRequestMetric,
        status_codes_enabled: bool,
        error_summary_enabled: bool,
        co_enabled: bool,
    )
        requires
            old(self).wf(),
            old(self).records_folded + 1 + spec_co_extra(
                raw.coordinated_omission_elapsed,
                raw.user_cadence,
            ) <= u64::MAX,
        ensures
            final(self).wf(),
            final(self).records_folded == old(self).records_folded + 1 + (if co_enabled {
                spec_co_extra(raw.coordinated_omission_elapsed, raw.user_cadence) as int
            } else {
                0int
            }),
            final(self).users == old(self).users,
            final(self).tasks == old(self).tasks,
            request_folded(
                old(self).requests@,
                final(self).requests@,
                *raw,
                status_codes_enabled,
                co_enabled,
            ),
            error_folded(old(self).errors@, final(self).errors@, *raw, error_summary_enabled),
    {
        let ghost key = spec_request_key(raw.method, raw.name@);
        let ghost reqs0 = self.requests@;
        let extra = if co_enabled && raw.user_cadence >= 1 && raw.coordinated_omission_elapsed
            >= 1 {
            co_synthesized_times(raw.coordinated_omission_elapsed, raw.user_cadence)
        } else {
            Vec::new()
        };
        proof {
            if !(co_enabled && raw.user_cadence >= 1 && raw.coordinated_omission_elapsed >= 1) {
                if raw.coordinated_omission_elapsed == 0 && raw.user_cadence >= 1 {
                    assert(raw.coordinated_omission_elapsed / raw.user_cadence == 0);
                }
            }
            assert(co_enabled ==> extra@.len() == spec_co_extra(
                raw.coordinated_omission_elapsed,
                raw.user_cadence,
            ));
        }
        // Find the aggregate this record is filed under.
        let k = request_key(raw.method, raw.name.as_str());
        let mut idx: usize = 0;
        let mut found: bool = false;
        while idx < self.requests.len() && !found
            invariant
                self == old(self),
                reqs0 == self.requests@,
                idx <= reqs0.len(),
                !found ==> forall|j: int| 0 <= j < idx ==> (#[trigger] reqs0[j]).0@ != key,
                found ==> idx < reqs0.len() && reqs0[idx as int].0@ == key,
                k@ == key,
            decreases reqs0.len() - idx + (if found {
                0int
            } else {
                1int
            }),
        {
            if crate::util::str_eq(self.requests[idx].0.as_str(), k.as_str()) {
                found = true;
            } else {
                idx = idx + 1;
            }
        }
        let ghost key_was_there = found;
        if !found {
            let agg = SwanlingRequestMetricAggregate::new(raw.name.as_str(), raw.method);
            idx = self.requests.len();
            self.requests.push((k, agg));
        }
        let ghost reqs1 = self.requests@;
        // Take the entry out, fold the record and its synthesized samples in,
        // and put it back.
        let (entry_key, mut agg) = self.requests.remove(idx);
        let ghost agg0 = agg;
        proof {
            assert(agg0.wf());
            assert(agg0.raw_data.counter + agg0.coordinated_omission_data.counter <= old(
                self,
            ).records_folded) by {
                if key_was_there {
                    assert(reqs1[idx as int] == reqs0[idx as int]);
                }
            }
        }
        agg.record(raw.response_time, raw.status_code, raw.success, false, status_codes_enabled);
        let ghost agg_first = agg;
        let mut folded: u64 = 1;
        let mut t: usize = 0;
        while t < extra.len()
            invariant
                agg.wf(),
                t <= extra@.len(),
                extra@.len() + 1 + old(self).records_folded <= u64::MAX,
                agg0.raw_data.counter + agg0.coordinated_omission_data.counter <= old(
                    self,
                ).records_folded,
                folded == 1 + t,
                agg.raw_data == agg_first.raw_data,
                agg.success_count == agg_first.success_count,
                agg.fail_count == agg_first.fail_count,
                agg.status_code_counts == agg_first.status_code_counts,
                agg.path == agg_first.path,
                agg.method == agg_first.method,
                agg.coordinated_omission_data.counter == agg_first.coordinated_omission_data.counter
                    + t,
                agg_first.raw_data.counter == agg0.raw_data.counter + 1,
                agg_first.coordinated_omission_data.counter
                    == agg0.coordinated_omission_data.counter,
            decreases extra@.len() - t,
        {
            agg.record(extra[t], raw.status_code, raw.success, true, status_codes_enabled);
            folded = folded + 1;
            t = t + 1;
        }
        self.requests.insert(idx, (entry_key, agg));
        self.records_folded = self.records_folded + folded;
        proof {
            if key_was_there {
                assert(self.requests@ =~= reqs0.update(idx as int, (entry_key, agg)));
                assert(entry_key == reqs0[idx as int].0);
                let ci = choose|i: int| 0 <= i < reqs0.len() && (#[trigger] reqs0[i]).0@ == key;
                assert(ci == idx) by {
                    if ci != idx {
                        assert(reqs0[ci].0@ != reqs0[idx as int].0@);
                    }
                }
            } else {
                assert(reqs1 == reqs0.push(reqs1.last()));
                assert(reqs1.len() == reqs0.len() + 1);
                assert(self.requests@ =~= reqs0.push((entry_key, agg)));
                assert(!exists|i: int| 0 <= i < reqs0.len() && (#[trigger] reqs0[i]).0@ == key);
            }
            assert(request_folded(reqs0, self.requests@, *raw, status_codes_enabled, co_enabled));
        }
        // Feed the error summary for a failed request.
        let ghost errs0 = self.errors@;
        if !raw.success && error_summary_enabled {
            let ek = error_key(raw.method, raw.name.as_str(), raw.error.as_str());
            let ghost ekey = spec_error_key(raw.method, raw.name@, raw.error@);
            let mut e: usize = 0;
            let mut efound: bool = false;
            while e < self.errors.len() && !efound
                invariant
                    errs0 == self.errors@,
                    e <= errs0.len(),
                    !efound ==> forall|j: int| 0 <= j < e ==> (#[trigger] errs0[j]).0@ != ekey,
                    efound ==> e < errs0.len() && errs0[e as int].0@ == ekey,
                    ek@ == ekey,
                decreases errs0.len() - e + (if efound {
                    0int
                } else {
                    1int
                }),
            {
                if crate::util::str_eq(self.errors[e].0.as_str(), ek.as_str()) {
                    efound = true;
                } else {
                    e = e + 1;
                }
            }
            if efound {
                let (ekey_owned, mut eagg) = self.errors.remove(e);
                proof {
                    assert(errs0[e as int].1.occurrences <= old(self).records_folded);
                }
                eagg.occurrences = eagg.occurrences + 1;
                self.errors.insert(e, (ekey_owned, eagg));
                proof {
                    assert(self.errors@ =~= errs0.update(e as int, self.errors@[e as int]));
                    let ci = choose|i: int| 0 <= i < errs0.len() && (#[trigger] errs0[i]).0@
                        == ekey;
                    assert(ci == e) by {
                        if ci != e {
                            assert(errs0[ci].0@ != errs0[e as int].0@);
                        }
                    }
                }
            } else {
                let eagg = SwanlingErrorMetricAggregate {
                    method: raw.method,
                    name: raw.name.clone(),
                    error: raw.error.clone(),
                    occurrences: 1,
                };
                self.errors.push((ek, eagg));
                proof {
                    assert(!exists|i: int| 0 <= i < errs0.len() && (#[trigger] errs0[i]).0@
                        == ekey);
                }
            }
        }
    }

    /// Folds one raw task record into its aggregate, matched by task set and
    /// task index; a record of an unknown task is dropped.
    pub fn record_task(&mut self, raw: &SwanlingTaskMetric)
        requires
            old(self).wf(),
            old(self).records_folded < u64::MAX,
        ensures
            final(self).wf(),
            final(self).records_folded == old(self).records_folded + 1,
            final(self).requests == old(self).requests,
            final(self).errors == old(self).errors,
            final(self).users == old(self).users,
            task_folded(old(self).tasks@, final(self).tasks@, *raw),
    {
        let ghost t0 = self.tasks@;
        let mut i: usize = 0;
        let mut found: bool = false;
        while i < self.tasks.len() && !found
            invariant
                self == old(self),
                t0 == self.tasks@,
                i <= t0.len(),
                !found ==> forall|j: int|
                    0 <= j < i ==> !((#[trigger] t0[j]).taskset_index == raw.taskset_index
                        && t0[j].task_index == raw.task_index),
                found ==> i < t0.len() && t0[i as int].taskset_index == raw.taskset_index
                    && t0[i as int].task_index == raw.task_index,
            decreases t0.len() - i + (if found {
                0int
            } else {
                1int
            }),
        {
            if self.tasks[i].taskset_index == raw.taskset_index && self.tasks[i].task_index
                == raw.task_index {
                found = true;
            } else {
                i = i + 1;
            }
        }
        self.records_folded = self.records_folded + 1;
        if found {
            let mut agg = self.tasks.remove(i);
            proof {
                assert(agg.times.counter <= old(self).records_folded);
            }
            agg.record(raw.run_time, raw.success);
            self.tasks.insert(i, agg);
            proof {
                assert(self.tasks@ =~= t0.update(i as int, self.tasks@[i as int]));
                let ci = choose|j: int|
                    0 <= j < t0.len() && (#[trigger] t0[j]).taskset_index == raw.taskset_index
                        && t0[j].task_index == raw.task_index;
                assert(task_folded(t0, self.tasks@, *raw)) by {
                    assert(0 <= ci < t0.len());
                    assert(ci == i) by {
                        if ci < i {
                            assert(!(t0[ci].taskset_index == t0[i as int].taskset_index
                                && t0[ci].task_index == t0[i as int].task_index));
                        } else if ci > i {
                            assert(!(t0[i as int].taskset_index == t0[ci].taskset_index
                                && t0[i as int].task_index == t0[ci].task_index));
                        }
                    }
                }
            }
        } else {
            proof {
                assert(!exists|j: int|
                    0 <= j < t0.len() && (#[trigger] t0[j]).taskset_index == raw.taskset_index
                        && t0[j].task_index == raw.task_index);
            }
        }
    }
}

/// What folding one request record does to the request aggregates: exactly
/// the record's own key changes, gaining this record (and, for a flagged
/// record, its synthesized mitigation samples); a fresh key is appended.
pub open spec fn request_folded(
    before: Seq<(String, SwanlingRequestMetricAggregate)>,
    after: Seq<(String, SwanlingRequestMetricAggregate)>,
    raw: SwanlingRequestMetric,
    status_codes_enabled: bool,
    co_enabled: bool,
) -> bool {
    let key = spec_request_key(raw.method, raw.name@);
    let extra = if co_enabled {
        spec_co_extra(raw.coordinated_omission_elapsed, raw.user_cadence)
    } else {
        0
    };
    if exists|i: int| 0 <= i < before.len() && (#[trigger] before[i]).0@ == key {
        let i = choose|i: int| 0 <= i < before.len() && (#[trigger] before[i]).0@ == key;
        &&& after.len() == before.len()
        &&& forall|j: int| 0 <= j < before.len() && j != i ==> after[j] == before[j]
        &&& after[i].0@ == key
        &&& request_applied(before[i].1, after[i].1, raw, status_codes_enabled, extra)
    } else {
        &&& after.len() == before.len() + 1
        &&& forall|j: int| 0 <= j < before.len() ==> after[j] == before[j]
        &&& after.last().0@ == key
        &&& after.last().1.path@ == raw.name@
        &&& after.last().1.method == raw.method
        &&& after.last().1.raw_data.counter == 1
        &&& after.last().1.success_count == (if raw.success {
            1int
        } else {
            0int
        })
        &&& after.last().1.fail_count == (if raw.success {
            0int
        } else {
            1int
        })
        &&& after.last().1.coordinated_omission_data.counter == extra
    }
}

/// How one aggregate changes when one record (plus `extra` synthesized
/// samples) is folded in.
pub open spec fn request_applied(
    a0: SwanlingRequestMetricAggregate,
    a1: SwanlingRequestMetricAggregate,
    raw: SwanlingRequestMetric,
    status_codes_enabled: bool,
    extra: nat,
) -> bool {
    &&& a1.path == a0.path
    &&& a1.method == a0.method
    &&& a1.raw_data.counter == a0.raw_data.counter + 1
    &&& hist_cumulative(a1.raw_data.times@, spec_bucket_of(raw.response_time)) == hist_cumulative(
        a0.raw_data.times@,
        spec_bucket_of(raw.response_time),
    ) + 1
    &&& a1.success_count == a0.success_count + (if raw.success {
        1int
    } else {
        0int
    })
    &&& a1.fail_count == a0.fail_count + (if raw.success {
        0int
    } else {
        1int
    })
    &&& a1.coordinated_omission_data.counter == a0.coordinated_omission_data.counter + extra
    &&& forall|c: u16|
        #[trigger] status_count(a1.status_code_counts@, c) == if status_codes_enabled && c
            == raw.status_code {
            status_count(a0.status_code_counts@, c) + 1int
        } else {
            status_count(a0.status_code_counts@, c) as int
        }
}

/// What folding one request record does to the error summary: nothing for a
/// success or when the summary is disabled; otherwise exactly the record's
/// error key gains one occurrence, or enters with one.
pub open spec fn error_folded(
    before: Seq<(String, SwanlingErrorMetricAggregate)>,
    after: Seq<(String, SwanlingErrorMetricAggregate)>,
    raw: SwanlingRequestMetric,
    error_summary_enabled: bool,
) -> bool {
    let key = spec_error_key(raw.method, raw.name@, raw.error@);
    if raw.success || !error_summary_enabled {
        after == before
    } else if exists|i: int| 0 <= i < before.len() && (#[trigger] before[i]).0@ == key {
        let i = choose|i: int| 0 <= i < before.len() && (#[trigger] before[i]).0@ == key;
        &&& after.len() == before.len()
        &&& forall|j: int| 0 <= j < before.len() && j != i ==> after[j] == before[j]
        &&& after[i].0@ == key
        &&& after[i].1.method == before[i].1.method
        &&& after[i].1.name == before[i].1.name
        &&& after[i].1.error == before[i].1.error
        &&& after[i].1.occurrences == before[i].1.occurrences + 1
    } else {
        &&& after.len() == before.len() + 1
        &&& forall|j: int| 0 <= j < before.len() ==> after[j] == before[j]
        &&& after.last().0@ == key
        &&& after.last().1.method == raw.method
        &&& after.last().1.name@ == raw.name@
        &&& after.last().1.error@ == raw.error@
        &&& after.last().1.occurrences == 1
    }
}

/// What folding one task record does to the task aggregates: exactly the
/// matching task's aggregate gains the record, or the record is dropped when
/// no aggregate matches.
pub open spec fn task_folded(
    before: Seq<SwanlingTaskMetricAggregate>,
    after: Seq<SwanlingTaskMetricAggregate>,
    raw: SwanlingTaskMetric,
) -> bool {
    if exists|i: int|
        0 <= i < before.len() && (#[trigger] before[i]).taskset_index == raw.taskset_index
            && before[i].task_index == raw.task_index {
        let i = choose|i: int|
            0 <= i < before.len() && (#[trigger] before[i]).taskset_index == raw.taskset_index
                && before[i].task_index == raw.task_index;
        &&& after.len() == before.len()
        &&& forall|j: int| 0 <= j < before.len() && j != i ==> after[j] == before[j]
        &&& after[i].taskset_index == before[i].taskset_index
        &&& after[i].task_index == before[i].task_index
        &&& after[i].task_name == before[i].task_name
        &&& after[i].times.counter == before[i].times.counter + 1
        &&& after[i].success_count == before[i].success_count + (if raw.success {
            1int
        } else {
            0int
        })
        &&& after[i].fail_count == before[i].fail_count + (if raw.success {
            0int
        } else {
            1int
        })
    } else {
        after == before
    }
}


/// Whether two timing records hold the same data.
pub open spec fn timing_eq(a: SwanlingMetricTimingData, b: SwanlingMetricTimingData) -> bool {
    &&& a.times@ == b.times@
    &&& a.minimum_time == b.minimum_time
    &&& a.maximum_time == b.maximum_time
    &&& a.total_time == b.total_time
    &&& a.counter == b.counter
}

/// Whether two request aggregates hold the same data.
pub open spec fn request_agg_eq(
    a: SwanlingRequestMetricAggregate,
    b: SwanlingRequestMetricAggregate,
) -> bool {
    &&& a.path@ == b.path@
    &&& a.method == b.method
    &&& timing_eq(a.raw_data, b.raw_data)
    &&& timing_eq(a.coordinated_omission_data, b.coordinated_omission_data)
    &&& a.status_code_counts@ == b.status_code_counts@
    &&& a.success_count == b.success_count
    &&& a.fail_count == b.fail_count
}

/// Whether two error aggregates hold the same data.
pub open spec fn error_agg_eq(
    a: SwanlingErrorMetricAggregate,
    b: SwanlingErrorMetricAggregate,
) -> bool {
    &&& a.method == b.method
    &&& a.name@ == b.name@
    &&& a.error@ == b.error@
    &&& a.occurrences == b.occurrences
}

/// Whether two task aggregates hold the same data.
pub open spec fn task_agg_eq(a: SwanlingTaskMetricAggregate, b: SwanlingTaskMetricAggregate) -> bool {
    &&& a.taskset_index == b.taskset_index
    &&& a.task_index == b.task_index
    &&& a.task_name@ == b.task_name@
    &&& timing_eq(a.times, b.times)
    &&& a.success_count == b.success_count
    &&& a.fail_count == b.fail_count
}

/// Whether two metrics containers hold the same data.
pub open spec fn metrics_eq(a: SwanlingMetrics, b: SwanlingMetrics) -> bool {
    &&& a.hash == b.hash
    &&& a.users == b.users
    &&& a.duration == b.duration
    &&& a.records_folded == b.records_folded
    &&& a.final_metrics == b.final_metrics
    &&& a.display_status_codes == b.display_status_codes
    &&& a.display_metrics == b.display_metrics
    &&& a.requests@.len() == b.requests@.len()
    &&& forall|i: int|
        0 <= i < a.requests@.len() ==> (#[trigger] a.requests@[i]).0@ == b.requests@[i].0@
            && request_agg_eq(a.requests@[i].1, b.requests@[i].1)
    &&& a.errors@.len() == b.errors@.len()
    &&& forall|i: int|
        0 <= i < a.errors@.len() ==> (#[trigger] a.errors@[i]).0@ == b.errors@[i].0@
            && error_agg_eq(a.errors@[i].1, b.errors@[i].1)
    &&& a.tasks@.len() == b.tasks@.len()
    &&& forall|i: int|
        0 <= i < a.tasks@.len() ==> task_agg_eq(#[trigger] a.tasks@[i], b.tasks@[i])
}

/// Copies a timing record.
pub fn clone_timing(t: &SwanlingMetricTimingData) -> (r: SwanlingMetricTimingData)
    ensures
        timing_eq(r, *t),
{
    let mut times: Vec<(u64, u64)> = Vec::new();
    let mut i: usize = 0;
    while i < t.times.len()
        invariant
            i <= t.times@.len(),
            times@ == t.times@.take(i as int),
        decreases t.times@.len() - i,
    {
        times.push(t.times[i]);
        i = i + 1;
        proof {
            assert(times@ =~= t.times@.take(i as int));
        }
    }
    proof {
        assert(t.times@.take(t.times@.len() as int) =~= t.times@);
    }
    SwanlingMetricTimingData {
        times,
        minimum_time: t.minimum_time,
        maximum_time: t.maximum_time,
        total_time: t.total_time,
        counter: t.counter,
    }
}

/// Copies a per-status-code counter list.
fn clone_status_counts(v: &Vec<(u16, u64)>) -> (r: Vec<(u16, u64)>)
    ensures
        r@ == v@,
{
    let mut r: Vec<(u16, u64)> = Vec::new();
    let mut i: usize = 0;
    while i < v.len()
        invariant
            i <= v@.len(),
            r@ == v@.take(i as int),
        decreases v@.len() - i,
    {
        r.push(v[i]);
        i = i + 1;
        proof {
            assert(r@ =~= v@.take(i as int));
        }
    }
    proof {
        assert(v@.take(v@.len() as int) =~= v@);
    }
    r
}

/// Copies a request aggregate.
pub fn clone_request_agg(a: &SwanlingRequestMetricAggregate) -> (r: SwanlingRequestMetricAggregate)
    ensures
        request_agg_eq(r, *a),
{
    SwanlingRequestMetricAggregate {
        path: a.path.clone(),
        method: a.method,
        raw_data: clone_timing(&a.raw_data),
        coordinated_omission_data: clone_timing(&a.coordinated_omission_data),
        status_code_counts: clone_status_counts(&a.status_code_counts),
        success_count: a.success_count,
        fail_count: a.fail_count,
    }
}

/// Copies an error aggregate.
pub fn clone_error_agg(a: &SwanlingErrorMetricAggregate) -> (r: SwanlingErrorMetricAggregate)
    ensures
        error_agg_eq(r, *a),
{
    SwanlingErrorMetricAggregate {
        method: a.method,
        name: a.name.clone(),
        error: a.error.clone(),
        occurrences: a.occurrences,
    }
}

/// Copies a task aggregate.
pub fn clone_task_agg(a: &SwanlingTaskMetricAggregate) -> (r: SwanlingTaskMetricAggregate)
    ensures
        task_agg_eq(r, *a),
{
    SwanlingTaskMetricAggregate {
        taskset_index: a.taskset_index,
        task_index: a.task_index,
        task_name: a.task_name.clone(),
        times: clone_timing(&a.times),
        success_count: a.success_count,
        fail_count: a.fail_count,
    }
}

/// Copies a whole metrics container, as a controller snapshot is taken.
pub fn clone_metrics(m: &SwanlingMetrics) -> (r: SwanlingMetrics)
    ensures
        metrics_eq(r, *m),
{
    let mut requests: Vec<(String, SwanlingRequestMetricAggregate)> = Vec::new();
    let mut i: usize = 0;
    while i < m.requests.len()
        invariant
            i <= m.requests@.len(),
            requests@.len() == i,
            forall|j: int|
                0 <= j < i ==> (#[trigger] requests@[j]).0@ == m.requests@[j].0@ && request_agg_eq(
                    requests@[j].1,
                    m.requests@[j].1,
                ),
        decreases m.requests@.len() - i,
    {
        requests.push((m.requests[i].0.clone(), clone_request_agg(&m.requests[i].1)));
        i = i + 1;
    }
    let mut errors: Vec<(String, SwanlingErrorMetricAggregate)> = Vec::new();
    let mut i: usize = 0;
    while i < m.errors.len()
        invariant
            i <= m.errors@.len(),
            errors@.len() == i,
            forall|j: int|
                0 <= j < i ==> (#[trigger] errors@[j]).0@ == m.errors@[j].0@ && error_agg_eq(
                    errors@[j].1,
                    m.errors@[j].1,
                ),
        decreases m.errors@.len() - i,
    {
        errors.push((m.errors[i].0.clone(), clone_error_agg(&m.errors[i].1)));
        i = i + 1;
    }
    let mut tasks: Vec<SwanlingTaskMetricAggregate> = Vec::new();
    let mut i: usize = 0;
    while i < m.tasks.len()
        invariant
            i <= m.tasks@.len(),
            tasks@.len() == i,
            forall|j: int| 0 <= j < i ==> task_agg_eq(#[trigger] tasks@[j], m.tasks@[j]),
        decreases m.tasks@.len() - i,
    {
        tasks.push(clone_task_agg(&m.tasks[i]));
        i = i + 1;
    }
    SwanlingMetrics {
        hash: m.hash,
        users: m.users,
        duration: m.duration,
        requests,
        tasks,
        errors,
        records_folded: m.records_folded,
        final_metrics: m.final_metrics,
        display_status_codes: m.display_status_codes,
        display_metrics: m.display_metrics,
    }
}

} // verus!
