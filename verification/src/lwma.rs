//! Linear weighted moving average (LWMA) difficulty retargeting.
//!
//! The window holds the last `block_window + 1` observations of
//! `(timestamp, accumulated difficulty)`. The target for the next block is
//! `ceil(avg_diff * k / W)` where `avg_diff` is the mean difficulty over the
//! window, `W` is the solve-time sum weighted linearly towards recent blocks,
//! and `k = n * (n + 1) * target_time / 2` is the weight sum times the target
//! block interval. Solve times are clamped to `[1, 6 * target_time]`: a
//! non-increasing timestamp counts as one second, which blocks manipulation
//! through backward-dated blocks, and the upper clamp prevents oscillation
//! after a long stall. All arithmetic is exact over the integers.

use vstd::prelude::*;

verus! {

use std::collections::VecDeque;

/// The difficulty of a proof of work, always at least 1.
#[derive(Clone, Copy, Debug, PartialEq, Eq, PartialOrd, Ord, Hash, Structural)]
pub struct Difficulty(pub u64);

/// The lowest difficulty a chain accepts, and the target while the window
/// still holds fewer than two observations.
pub const INITIAL_DIFFICULTY: u64 = 1;

impl Difficulty {
    /// The minimum difficulty.
    pub fn min() -> (r: Difficulty)
        ensures
            r.0 == 1,
    {
        Difficulty(INITIAL_DIFFICULTY)
    }

    /// The difficulty as a plain integer.
    pub fn as_u64(&self) -> (r: u64)
        ensures
            r == self.0,
    {
        self.0
    }
}

/// Errors reported by the difficulty adjustment window.
#[derive(Clone, Copy, Debug, PartialEq, Eq, Structural)]
pub enum DifficultyAdjustmentError {
    /// A new observation carried an accumulated difficulty that does not
    /// exceed the previous one.
    DecreasingAccumulatedDifficulty,
}

/// Largest supported window length; keeps the retarget arithmetic inside
/// 128-bit machine range.
pub const MAX_BLOCK_WINDOW: usize = 65536;

/// Largest supported target block interval, in seconds; keeps the retarget
/// arithmetic inside 128-bit machine range.
pub const MAX_TARGET_TIME: u64 = 0xFFFF_FFFF;

/// A sequence is strictly increasing from one element to the next.
pub open spec fn strictly_increasing(s: Seq<u64>) -> bool {
    forall|i: int| 0 <= i < s.len() - 1 ==> #[trigger] s[i] < s[i + 1]
}

/// The effective timestamp of observation `i` after clamping: a timestamp
/// that does not exceed the previous effective timestamp is treated as one
/// second after it.
pub open spec fn clamped_ts(ts: Seq<u64>, i: int) -> int
    decreases i,
{
    if i <= 0 {
        ts[0] as int
    } else if ts[i] > clamped_ts(ts, i - 1) {
        ts[i] as int
    } else {
        clamped_ts(ts, i - 1) + 1
    }
}

/// The clamped solve time of observation `i`: the gap between effective
/// timestamps, capped at six target intervals.
pub open spec fn solve_time(ts: Seq<u64>, target_time: u64, i: int) -> int {
    let gap = clamped_ts(ts, i) - clamped_ts(ts, i - 1);
    if gap < 6 * target_time {
        gap
    } else {
        6 * target_time
    }
}

/// The linearly weighted sum of the first `i` solve times:
/// `sum over j in 1..=i of solve_time(j) * j`.
pub open spec fn weighted_solve_sum(ts: Seq<u64>, target_time: u64, i: int) -> int
    decreases i,
{
    if i <= 0 {
        0
    } else {
        weighted_solve_sum(ts, target_time, i - 1) + solve_time(ts, target_time, i) * i
    }
}

/// Ceiling division for non-negative dividends and positive divisors.
pub open spec fn ceil_div(a: int, b: int) -> int {
    (a + b - 1) / b
}

/// The retarget value of a window with at least two observations:
/// `ceil(total_difficulty * k / (n * W))`, which equals
/// `ceil(avg_difficulty * k / W)` computed exactly over the rationals.
pub open spec fn lwma_window_target(ts: Seq<u64>, accs: Seq<u64>, target_time: u64) -> int {
    let n = ts.len() - 1;
    let d = accs[n as int] - accs[0];
    let k = n * (n + 1) * target_time / 2;
    let w = weighted_solve_sum(ts, target_time, n as int);
    ceil_div(d * k, n * w)
}

/// A strictly increasing run keeps a gap of at least the index distance.
pub proof fn lemma_strictly_increasing_gap(s: Seq<u64>, i: int, j: int)
    requires
        strictly_increasing(s),
        0 <= i <= j < s.len(),
    ensures
        s[i] + (j - i) <= s[j],
    decreases j - i,
{
    if i < j {
        lemma_strictly_increasing_gap(s, i, j - 1);
    }
}

/// Effective timestamps advance by at least one second per observation.
pub proof fn lemma_clamped_ts_step(ts: Seq<u64>, i: int)
    requires
        0 < i,
    ensures
        clamped_ts(ts, i - 1) + 1 <= clamped_ts(ts, i),
{
}

/// A clamped solve time always lies in `[1, 6 * target_time]`.
pub proof fn lemma_solve_time_bounds(ts: Seq<u64>, target_time: u64, i: int)
    requires
        0 < i,
        target_time >= 1,
    ensures
        1 <= solve_time(ts, target_time, i) <= 6 * target_time,
{
    lemma_clamped_ts_step(ts, i);
}

/// The weighted solve-time sum over `i` observations lies between `i` and
/// `6 * target_time * i * i`.
pub proof fn lemma_weighted_sum_bounds(ts: Seq<u64>, target_time: u64, i: int)
    requires
        0 <= i,
        target_time >= 1,
    ensures
        i <= weighted_solve_sum(ts, target_time, i) <= 6 * target_time * i * i,
    decreases i,
{
    if i > 0 {
        lemma_weighted_sum_bounds(ts, target_time, i - 1);
        lemma_solve_time_bounds(ts, target_time, i);
        let st = solve_time(ts, target_time, i);
        let prev = weighted_solve_sum(ts, target_time, i - 1);
        assert(i - 1 + st * i >= i) by (nonlinear_arith)
            requires
                st >= 1,
                i >= 1,
        ;
        assert(6 * target_time * (i - 1) * (i - 1) + st * i <= 6 * target_time * i * i)
            by (nonlinear_arith)
            requires
                1 <= st <= 6 * target_time,
                i >= 1,
                target_time >= 1,
        ;
    }
}

/// A non-increasing timestamp is treated as one second after the previous
/// effective timestamp, so its clamped solve time is exactly one second.
pub proof fn lemma_non_increasing_timestamp_unit_solve(ts: Seq<u64>, target_time: u64, i: int)
    requires
        0 < i,
        target_time >= 1,
        ts[i] <= clamped_ts(ts, i - 1),
    ensures
        clamped_ts(ts, i) == clamped_ts(ts, i - 1) + 1,
        solve_time(ts, target_time, i) == 1,
{
}

/// `ceil_div(a, b)` is the least `q >= 0` with `q * b >= a`, for `a >= 0`
/// and `b >= 1`.
pub proof fn lemma_ceil_div_characterization(a: int, b: int)
    requires
        0 <= a,
        1 <= b,
    ensures
        ceil_div(a, b) * b >= a,
        ceil_div(a, b) >= 0,
        forall|q: int| 0 <= q && #[trigger] (q * b) >= a ==> ceil_div(a, b) <= q,
{
    vstd::arithmetic::div_mod::lemma_fundamental_div_mod(a + b - 1, b);
    vstd::arithmetic::div_mod::lemma_remainder_upper(a + b - 1, b);
    vstd::arithmetic::div_mod::lemma_remainder_lower(a + b - 1, b);
    vstd::arithmetic::div_mod::lemma_div_pos_is_pos(a + b - 1, b);
    assert forall|q: int| 0 <= q && #[trigger] (q * b) >= a implies ceil_div(a, b) <= q by {
        vstd::arithmetic::div_mod::lemma_div_is_ordered(a + b - 1, q * b + b - 1, b);
        vstd::arithmetic::div_mod::lemma_fundamental_div_mod(q * b + b - 1, b);
        vstd::arithmetic::div_mod::lemma_remainder_upper(q * b + b - 1, b);
        vstd::arithmetic::div_mod::lemma_remainder_lower(q * b + b - 1, b);
        assert((q * b + b - 1) / b == q) by (nonlinear_arith)
            requires
                1 <= b,
                q * b + b - 1 == b * ((q * b + b - 1) / b) + (q * b + b - 1) % b,
                0 <= (q * b + b - 1) % b < b,
        ;
    }
}

/// Ceiling division grows with the dividend and shrinks with the divisor.
pub proof fn lemma_ceil_div_monotone(a1: int, b1: int, a2: int, b2: int)
    requires
        0 <= a1 <= a2,
        1 <= b2 <= b1,
    ensures
        ceil_div(a1, b1) <= ceil_div(a2, b2),
{
    lemma_ceil_div_characterization(a1, b1);
    lemma_ceil_div_characterization(a2, b2);
    let q2 = ceil_div(a2, b2);
    assert(q2 * b1 >= q2 * b2) by (nonlinear_arith)
        requires
            q2 >= 0,
            b1 >= b2,
    ;
    assert(q2 * b1 >= a1);
}

/// Monotone response of the retarget value: with the same window length and
/// target interval, a window whose difficulty span is at least as large and
/// whose weighted solve-time sum is no larger retargets at least as high. In
/// particular a run of non-increasing timestamps, whose solve times all clamp
/// to one second, can only drive the difficulty up, never down.
pub proof fn lemma_lwma_monotone_response(
    ts1: Seq<u64>,
    accs1: Seq<u64>,
    ts2: Seq<u64>,
    accs2: Seq<u64>,
    target_time: u64,
)
    requires
        target_time >= 1,
        ts1.len() == accs1.len(),
        ts2.len() == accs2.len(),
        ts1.len() == ts2.len(),
        ts1.len() >= 2,
        strictly_increasing(accs1),
        strictly_increasing(accs2),
        accs1[accs1.len() - 1] - accs1[0] <= accs2[accs2.len() - 1] - accs2[0],
        weighted_solve_sum(ts2, target_time, ts2.len() - 1) <= weighted_solve_sum(
            ts1,
            target_time,
            ts1.len() - 1,
        ),
    ensures
        lwma_window_target(ts1, accs1, target_time) <= lwma_window_target(ts2, accs2, target_time),
{
    let n = ts1.len() - 1;
    let d1 = accs1[n as int] - accs1[0];
    let d2 = accs2[n as int] - accs2[0];
    let k = n * (n + 1) * target_time / 2;
    let w1 = weighted_solve_sum(ts1, target_time, n as int);
    let w2 = weighted_solve_sum(ts2, target_time, n as int);
    lemma_strictly_increasing_gap(accs1, 0, n as int);
    lemma_strictly_increasing_gap(accs2, 0, n as int);
    lemma_weighted_sum_bounds(ts1, target_time, n as int);
    lemma_weighted_sum_bounds(ts2, target_time, n as int);
    assert(n * (n + 1) * target_time >= 2) by (nonlinear_arith)
        requires
            n >= 1,
            target_time >= 1,
    ;
    vstd::arithmetic::div_mod::lemma_div_pos_is_pos(n * (n + 1) * target_time, 2);
    assert(k >= 1) by {
        vstd::arithmetic::div_mod::lemma_div_is_ordered(2, n * (n + 1) * target_time, 2);
    }
    assert(d1 * k <= d2 * k) by (nonlinear_arith)
        requires
            0 <= d1 <= d2,
            k >= 1,
    ;
    assert(0 <= d1 * k) by (nonlinear_arith)
        requires
            0 <= d1,
            0 <= k,
    ;
    assert(1 <= n * w2 <= n * w1) by (nonlinear_arith)
        requires
            1 <= n,
            1 <= w2 <= w1,
    ;
    lemma_ceil_div_monotone(d1 * k, n * w1, d2 * k, n * w2);
}

/// What remains of a window of the given length after a new observation is
/// pushed: the oldest observation falls away once the window is full.
pub open spec fn trimmed(s: Seq<u64>, window: int) -> Seq<u64> {
    if s.len() > window + 1 {
        s.subrange(s.len() - (window + 1), s.len() as int)
    } else {
        s
    }
}

/// Difficulty retargeting over a sliding window of timestamp and accumulated
/// difficulty observations, weighted linearly towards the most recent blocks.
#[derive(Clone, Debug)]
pub struct LinearWeightedMovingAverage {
    timestamps: VecDeque<u64>,
    accumulated_difficulties: VecDeque<u64>,
    block_window: usize,
    target_time: u64,
}

impl Default for LinearWeightedMovingAverage {
    /// An empty window under the consensus window length and target interval.
    fn default() -> (r: Self)
        ensures
            r.wf(),
            r.spec_timestamps() == Seq::<u64>::empty(),
            r.spec_accumulated_difficulties() == Seq::<u64>::empty(),
            r.spec_block_window() == crate::consensus::DIFFICULTY_BLOCK_WINDOW,
            r.spec_target_time() == crate::consensus::DIFF_TARGET_BLOCK_INTERVAL,
    {
        let consensus = crate::consensus::ConsensusConstants::current();
        LinearWeightedMovingAverage::new(
            consensus.get_difficulty_block_window() as usize,
            consensus.get_diff_target_block_interval(),
        )
    }
}

impl LinearWeightedMovingAverage {
    /// The window is consistent: both deques move together, hold at most
    /// `block_window + 1` observations, the accumulated difficulties rise
    /// strictly, and the parameters lie in the supported range.
    pub closed spec fn wf(self) -> bool {
        &&& 1 <= self.block_window <= MAX_BLOCK_WINDOW
        &&& 1 <= self.target_time <= MAX_TARGET_TIME
        &&& self.timestamps@.len() == self.accumulated_difficulties@.len()
        &&& self.timestamps@.len() <= self.block_window + 1
        &&& strictly_increasing(self.accumulated_difficulties@)
    }

    /// The timestamps currently in the window, oldest first.
    pub closed spec fn spec_timestamps(self) -> Seq<u64> {
        self.timestamps@
    }

    /// The accumulated difficulties currently in the window, oldest first.
    pub closed spec fn spec_accumulated_difficulties(self) -> Seq<u64> {
        self.accumulated_difficulties@
    }

    /// The configured window length.
    pub closed spec fn spec_block_window(self) -> int {
        self.block_window as int
    }

    /// The configured target block interval.
    pub closed spec fn spec_target_time(self) -> u64 {
        self.target_time
    }

    /// Create an empty window for the given window length and target block
    /// interval, in seconds.
    pub fn new(block_window: usize, target_time: u64) -> (r: LinearWeightedMovingAverage)
        requires
            1 <= block_window <= MAX_BLOCK_WINDOW,
            1 <= target_time <= MAX_TARGET_TIME,
        ensures
            r.wf(),
            r.spec_timestamps() == Seq::<u64>::empty(),
            r.spec_accumulated_difficulties() == Seq::<u64>::empty(),
            r.spec_block_window() == block_window,
            r.spec_target_time() == target_time,
    {
        LinearWeightedMovingAverage {
            timestamps: VecDeque::new(),
            accumulated_difficulties: VecDeque::new(),
            block_window,
            target_time,
        }
    }

    /// Record a block's timestamp and accumulated difficulty. The observation
    /// is rejected, and the window left unchanged, when the accumulated
    /// difficulty does not exceed the previous one; otherwise it is appended
    /// and the oldest observation falls away once the window is full.
    #[verifier::rlimit(60)]
    pub fn add(&mut self, timestamp: u64, accumulated_difficulty: Difficulty) -> (r: Result<
        (),
        DifficultyAdjustmentError,
    >)
        requires
            old(self).wf(),
        ensures
            final(self).wf(),
            final(self).spec_block_window() == old(self).spec_block_window(),
            final(self).spec_target_time() == old(self).spec_target_time(),
            ({
                let accs = old(self).spec_accumulated_difficulties();
                let accepted = accs.len() == 0 || accs[accs.len() - 1]
                    < accumulated_difficulty.0;
                &&& r == (if accepted {
                    Ok::<(), DifficultyAdjustmentError>(())
                } else {
                    Err::<(), DifficultyAdjustmentError>(
                        DifficultyAdjustmentError::DecreasingAccumulatedDifficulty,
                    )
                })
                &&& accepted ==> final(self).spec_timestamps() == trimmed(
                    old(self).spec_timestamps().push(timestamp),
                    old(self).spec_block_window(),
                )
                &&& accepted ==> final(self).spec_accumulated_difficulties() == trimmed(
                    old(self).spec_accumulated_difficulties().push(accumulated_difficulty.0),
                    old(self).spec_block_window(),
                )
                &&& !accepted ==> *final(self) == *old(self)
            }),
    {
        let len = self.accumulated_difficulties.len();
        if len > 0 {
            let last = self.accumulated_difficulties[len - 1];
            if accumulated_difficulty.0 <= last {
                return Err(DifficultyAdjustmentError::DecreasingAccumulatedDifficulty);
            }
        }
        self.timestamps.push_back(timestamp);
        self.accumulated_difficulties.push_back(accumulated_difficulty.0);
        proof {
            let accs = self.accumulated_difficulties@;
            let pre = old(self).accumulated_difficulties@;
            assert forall|i: int| 0 <= i < accs.len() - 1 implies #[trigger] accs[i] < accs[i
                + 1] by {
                if i < pre.len() - 1 {
                    assert(pre[i] < pre[i + 1]);
                }
            }
            assert(self.timestamps@ =~= trimmed_to(
                old(self).timestamps@.push(timestamp),
                self.timestamps@.len() as int,
            ));
            assert(self.accumulated_difficulties@ =~= trimmed_to(
                old(self).accumulated_difficulties@.push(accumulated_difficulty.0),
                self.timestamps@.len() as int,
            ));
        }
        while self.timestamps.len() > self.block_window + 1
            invariant
                old(self).wf(),
                self.block_window == old(self).block_window,
                self.target_time == old(self).target_time,
                self.timestamps@.len() == self.accumulated_difficulties@.len(),
                self.timestamps@.len() <= old(self).timestamps@.len() + 1,
                self.timestamps@.len() >= self.block_window + 1 || self.timestamps@.len() == old(
                    self,
                ).timestamps@.len() + 1,
                strictly_increasing(self.accumulated_difficulties@),
                self.timestamps@ == trimmed_to(
                    old(self).timestamps@.push(timestamp),
                    self.timestamps@.len() as int,
                ),
                self.accumulated_difficulties@ == trimmed_to(
                    old(self).accumulated_difficulties@.push(accumulated_difficulty.0),
                    self.timestamps@.len() as int,
                ),
            decreases self.timestamps@.len(),
        {
            let ghost pre_accs = self.accumulated_difficulties@;
            self.timestamps.pop_front();
            self.accumulated_difficulties.pop_front();
            proof {
                let accs = self.accumulated_difficulties@;
                assert forall|i: int| 0 <= i < accs.len() - 1 implies #[trigger] accs[i] < accs[i
                    + 1] by {
                    assert(accs[i] == pre_accs[i + 1]);
                    assert(accs[i + 1] == pre_accs[i + 2]);
                }
                assert(self.timestamps@ =~= trimmed_to(
                    old(self).timestamps@.push(timestamp),
                    self.timestamps@.len() as int,
                ));
                assert(self.accumulated_difficulties@ =~= trimmed_to(
                    old(self).accumulated_difficulties@.push(accumulated_difficulty.0),
                    self.timestamps@.len() as int,
                ));
            }
        }
        proof {
            assert(self.timestamps@ =~= trimmed(
                old(self).timestamps@.push(timestamp),
                self.block_window as int,
            ));
            assert(self.accumulated_difficulties@ =~= trimmed(
                old(self).accumulated_difficulties@.push(accumulated_difficulty.0),
                self.block_window as int,
            ));
        }
        Ok(())
    }

    /// The retarget value for the current window contents: the initial
    /// difficulty while fewer than two observations are held, and the
    /// weighted-average target otherwise.
    #[verifier::rlimit(60)]
    fn calculate(&self) -> (r: Difficulty)
        requires
            self.wf(),
            self.spec_timestamps().len() > 1 ==> lwma_window_target(
                self.spec_timestamps(),
                self.spec_accumulated_difficulties(),
                self.spec_target_time(),
            ) <= u64::MAX,
        ensures
            r.0 == if self.spec_timestamps().len() <= 1 {
                INITIAL_DIFFICULTY as int
            } else {
                lwma_window_target(
                    self.spec_timestamps(),
                    self.spec_accumulated_difficulties(),
                    self.spec_target_time(),
                )
            },
    {
        let len = self.timestamps.len();
        if len <= 1 {
            return Difficulty(INITIAL_DIFFICULTY);
        }
        let ghost ts = self.timestamps@;
        let ghost accs = self.accumulated_difficulties@;
        let n: usize = len - 1;
        let a0: u64 = self.accumulated_difficulties[0];
        let an: u64 = self.accumulated_difficulties[n];
        proof {
            lemma_strictly_increasing_gap(accs, 0, n as int);
        }
        let d: u64 = an - a0;
        let tt128: u128 = self.target_time as u128;
        let cap: u128 = 6 * tt128;
        let mut weighted_times: u128 = 0;
        let mut prev: u128 = self.timestamps[0] as u128;
        let mut i: usize = 1;
        while i <= n
            invariant
                1 <= i <= n + 1,
                1 <= n < ts.len(),
                n <= MAX_BLOCK_WINDOW,
                ts == self.timestamps@,
                1 <= self.target_time <= MAX_TARGET_TIME,
                tt128 == self.target_time as u128,
                cap == 6 * tt128,
                prev == clamped_ts(ts, i - 1),
                prev <= u64::MAX as int + i - 1,
                weighted_times == weighted_solve_sum(ts, self.target_time, i - 1),
            decreases n + 1 - i,
        {
            let t_i: u128 = self.timestamps[i] as u128;
            let this_ts: u128 = if t_i > prev {
                t_i
            } else {
                prev + 1
            };
            let gap: u128 = this_ts - prev;
            let solve: u128 = if gap < cap {
                gap
            } else {
                cap
            };
            proof {
                lemma_solve_time_bounds(ts, self.target_time, i as int);
                lemma_weighted_sum_bounds(ts, self.target_time, i - 1);
                assert(solve == solve_time(ts, self.target_time, i as int));
                assert(weighted_times + solve * i < u128::MAX) by (nonlinear_arith)
                    requires
                        weighted_times <= 6 * (self.target_time as int) * (i - 1) * (i - 1),
                        1 <= solve <= 6 * (self.target_time as int),
                        1 <= i <= 65536,
                        1 <= self.target_time <= 0xFFFF_FFFF,
                ;
            }
            weighted_times = weighted_times + solve * (i as u128);
            prev = this_ts;
            i += 1;
        }
        let ghost tt_int = self.target_time as int;
        let ghost w_spec = weighted_solve_sum(ts, self.target_time, n as int);
        proof {
            lemma_weighted_sum_bounds(ts, self.target_time, n as int);
            assert(w_spec <= 6 * tt_int * n * n <= 0x60000_0000 * 65536 * 65536)
                by (nonlinear_arith)
                requires
                    1 <= n <= 65536,
                    1 <= tt_int <= 0xFFFF_FFFF,
                    w_spec <= 6 * tt_int * n * n,
            ;
        }
        let n128: u128 = n as u128;
        proof {
            assert(n128 * (n128 + 1) <= 65536 * 65537) by (nonlinear_arith)
                requires
                    1 <= n128 <= 65536,
            ;
            assert(n128 * (n128 + 1) * tt128 <= 65536 * 65537 * 0xFFFF_FFFF) by (nonlinear_arith)
                requires
                    1 <= n128 <= 65536,
                    1 <= tt128 <= 0xFFFF_FFFF,
            ;
        }
        let k: u128 = n128 * (n128 + 1) * tt128 / 2;
        let d128: u128 = d as u128;
        proof {
            assert(d128 * k <= 0xFFFF_FFFF_FFFF_FFFF * (65536 * 65537 * 0xFFFF_FFFF / 2))
                by (nonlinear_arith)
                requires
                    d128 <= 0xFFFF_FFFF_FFFF_FFFF,
                    0 <= k <= 65536 * 65537 * 0xFFFF_FFFF / 2,
            ;
            assert(n128 * weighted_times <= 65536 * (0x60000_0000 * 65536 * 65536))
                by (nonlinear_arith)
                requires
                    n128 <= 65536,
                    0 <= weighted_times <= 0x60000_0000 * 65536 * 65536,
            ;
            assert(1 <= n128 * weighted_times) by (nonlinear_arith)
                requires
                    1 <= n128 && 1 <= weighted_times,
            ;
        }
        let nw: u128 = n128 * weighted_times;
        let num: u128 = d128 * k + nw - 1;
        let target128: u128 = num / nw;
        proof {
            assert(target128 == lwma_window_target(ts, accs, self.target_time));
        }
        Difficulty(target128 as u64)
    }

    /// The difficulty the next block must meet, from the current window.
    pub fn get_difficulty(&self) -> (r: Difficulty)
        requires
            self.wf(),
            self.spec_timestamps().len() > 1 ==> lwma_window_target(
                self.spec_timestamps(),
                self.spec_accumulated_difficulties(),
                self.spec_target_time(),
            ) <= u64::MAX,
        ensures
            r.0 == if self.spec_timestamps().len() <= 1 {
                INITIAL_DIFFICULTY as int
            } else {
                lwma_window_target(
                    self.spec_timestamps(),
                    self.spec_accumulated_difficulties(),
                    self.spec_target_time(),
                )
            },
    {
        self.calculate()
    }
}

/// The suffix of `s` of the given length.
pub open spec fn trimmed_to(s: Seq<u64>, len: int) -> Seq<u64> {
    s.subrange(s.len() - len, s.len() as int)
}

} // verus!
