//! The latency profile: a five-number summary of observed round-trip
//! times, and the interquartile-range acceptance predicate that the
//! protocol's outlier filter is built on.

use vstd::prelude::*;

verus! {

use vstd::arithmetic::div_mod::{
    lemma_div_is_ordered,
    lemma_div_multiples_vanish,
    lemma_multiply_divide_lt,
    lemma_div_pos_is_pos,
};
use vstd::relations::{sorted_by, total_ordering};
use vstd::seq_lib::lemma_sorted_unique;
use vstd::seq_lib::lemma_multiset_commutative;

broadcast use vstd::seq_lib::group_to_multiset_ensures;

/// A ceiling on every round-trip time the engine accepts as a sample,
/// in microseconds; generous (over eleven days), but small enough that
/// the summary arithmetic cannot overflow.
pub const RTT_LIMIT: i64 = 1_000_000_000_000;

/// The most probe samples one profile is ever built from.
pub const MAX_SAMPLES: usize = 1000;

/// A ceiling on the `rtt` argument of the acceptance predicate.
pub const RANGE_ARG_LIMIT: i64 = 100_000_000_000_000_000;

/// Ascending order on round-trip times.
pub open spec fn micros_order() -> spec_fn(i64, i64) -> bool {
    |a: i64, b: i64| a <= b
}

/// Whether a sequence of round-trip times is sorted ascending.
pub open spec fn micros_sorted(s: Seq<i64>) -> bool {
    forall|i: int, j: int| 0 <= i <= j < s.len() ==> s[i] <= s[j]
}

/// The ascending rearrangement of a sequence of round-trip times.
pub open spec fn sort_micros(s: Seq<i64>) -> Seq<i64> {
    s.sort_by(micros_order())
}

pub proof fn lemma_sort_micros_ensures(s: Seq<i64>)
    ensures
        micros_sorted(sort_micros(s)),
        sort_micros(s).to_multiset() == s.to_multiset(),
        sort_micros(s).len() == s.len(),
{
    s.lemma_sort_by_ensures(micros_order());
    let t = sort_micros(s);
    assert(t.len() == t.to_multiset().len());
    assert(s.len() == s.to_multiset().len());
    assert forall|i: int, j: int| 0 <= i <= j < t.len() implies t[i] <= t[j] by {
        if i < j {
            assert(micros_order()(t[i], t[j]));
        }
    }
}

/// All values of a sequence lie within the bounds of another sequence's
/// values whenever the two hold the same elements.
proof fn lemma_multiset_value_bounds(a: Seq<i64>, b: Seq<i64>, lo: i64, hi: i64)
    requires
        a.to_multiset() == b.to_multiset(),
        forall|i: int| 0 <= i < b.len() ==> lo <= #[trigger] b[i] <= hi,
    ensures
        forall|i: int| 0 <= i < a.len() ==> lo <= #[trigger] a[i] <= hi,
{
    assert forall|i: int| 0 <= i < a.len() implies lo <= #[trigger] a[i] <= hi by {
        assert(a.contains(a[i]));
        assert(a.to_multiset().count(a[i]) > 0);
        assert(b.contains(a[i]));
        let j = choose|j: int| 0 <= j < b.len() && b[j] == a[i];
        assert(lo <= b[j] <= hi);
    }
}

/// The sum of a sequence of round-trip times.
pub open spec fn sum_micros(s: Seq<i64>) -> int
    decreases s.len(),
{
    if s.len() == 0 {
        0
    } else {
        sum_micros(s.drop_last()) + s.last()
    }
}

/// The middle sample of the ascending rearrangement (upper median),
/// which the profiling phase reports as each probe's running median.
pub open spec fn running_median(s: Seq<i64>) -> i64
    recommends
        s.len() > 0,
{
    sort_micros(s)[s.len() as int / 2]
}

/// The floor of the arithmetic mean.
pub open spec fn mean_micros(s: Seq<i64>) -> int
    recommends
        s.len() > 0,
{
    sum_micros(s) / (s.len() as int)
}

proof fn lemma_sum_bounds(s: Seq<i64>, lo: int, hi: int)
    requires
        forall|i: int| 0 <= i < s.len() ==> lo <= #[trigger] s[i] <= hi,
    ensures
        s.len() * lo <= sum_micros(s) <= s.len() * hi,
    decreases s.len(),
{
    if s.len() > 0 {
        lemma_sum_bounds(s.drop_last(), lo, hi);
        assert((s.len() - 1) * lo + lo == s.len() * lo) by (nonlinear_arith);
        assert((s.len() - 1) * hi + hi == s.len() * hi) by (nonlinear_arith);
    }
}

/// The linear-interpolated quartile of a sorted sequence: the value at
/// position `(len - 1) * q / 4`, interpolating between the two nearest
/// samples when that position falls between indices.
pub open spec fn quartile(s: Seq<i64>, q: int) -> int
    recommends
        s.len() >= 1,
        0 <= q <= 4,
{
    let pos = (s.len() - 1) * q;
    let lo = pos / 4;
    let rem = pos % 4;
    if rem == 0 {
        s[lo] as int
    } else {
        s[lo] + (s[lo + 1] - s[lo]) * rem / 4
    }
}

/// Facts about one quartile position of a sorted sequence: where its
/// interpolation indices lie and how the value relates to them.
proof fn lemma_quartile_shape(s: Seq<i64>, q: int)
    requires
        micros_sorted(s),
        s.len() >= 1,
        0 <= q <= 4,
    ensures
        0 <= ((s.len() - 1) * q) / 4 < s.len(),
        ((s.len() - 1) * q) % 4 != 0 ==> ((s.len() - 1) * q) / 4 + 1 < s.len(),
        s[((s.len() - 1) * q) / 4] <= quartile(s, q),
        ((s.len() - 1) * q) % 4 != 0 ==> quartile(s, q) <= s[((s.len() - 1) * q) / 4 + 1],
        ((s.len() - 1) * q) % 4 == 0 ==> quartile(s, q) == s[((s.len() - 1) * q) / 4],
{
    let n = s.len() as int;
    let pos = (n - 1) * q;
    let lo = pos / 4;
    let rem = pos % 4;
    assert(0 <= pos <= (n - 1) * 4) by (nonlinear_arith)
        requires n >= 1 && 0 <= q <= 4 && pos == (n - 1) * q;
    lemma_div_pos_is_pos(pos, 4);
    lemma_div_is_ordered(pos, (n - 1) * 4, 4);
    lemma_div_multiples_vanish(n - 1, 4);
    assert(((n - 1) * 4) / 4 == (4 * (n - 1)) / 4);
    assert(lo <= n - 1);
    if rem != 0 {
        // pos is not a multiple of 4, so it lies strictly below (n-1)*4
        assert(pos < (n - 1) * 4);
        lemma_multiply_divide_lt(pos, n - 1, 4);
        assert(lo < n - 1);
        let d = s[lo + 1] - s[lo];
        assert(s[lo] <= s[lo + 1]);
        assert(0 <= d * rem <= d * 4) by (nonlinear_arith)
            requires d >= 0 && 0 <= rem <= 4;
        lemma_div_pos_is_pos(d * rem, 4);
        lemma_div_is_ordered(d * rem, d * 4, 4);
        lemma_div_multiples_vanish(d, 4);
        assert((d * 4) / 4 == (4 * d) / 4);
        assert(0 <= d * rem / 4 <= d);
    }
}

/// Quartiles of a sorted sequence do not decrease with `q`.
proof fn lemma_quartile_monotone(s: Seq<i64>, qa: int, qb: int)
    requires
        micros_sorted(s),
        s.len() >= 1,
        0 <= qa <= qb <= 4,
    ensures
        quartile(s, qa) <= quartile(s, qb),
{
    let n = s.len() as int;
    let pa = (n - 1) * qa;
    let pb = (n - 1) * qb;
    assert(pa <= pb) by (nonlinear_arith)
        requires n >= 1 && 0 <= qa <= qb && pa == (n - 1) * qa && pb == (n - 1) * qb;
    lemma_quartile_shape(s, qa);
    lemma_quartile_shape(s, qb);
    let la = pa / 4;
    let lb = pb / 4;
    lemma_div_is_ordered(pa, pb, 4);
    if la == lb {
        let d = s[la + 1] - s[la];
        let ra = pa % 4;
        let rb = pb % 4;
        vstd::arithmetic::div_mod::lemma_fundamental_div_mod(pa, 4);
        vstd::arithmetic::div_mod::lemma_fundamental_div_mod(pb, 4);
        assert(ra <= rb);
        if ra != 0 && rb != 0 {
            assert(d * ra <= d * rb) by (nonlinear_arith)
                requires d >= 0 && ra <= rb;
            lemma_div_is_ordered(d * ra, d * rb, 4);
        } else if ra == 0 && rb != 0 {
            assert(s[la] <= quartile(s, qb));
        }
    } else {
        // the interpolation windows are disjoint: qa's upper sample is at
        // or below qb's lower sample
        assert(la + 1 <= lb);
        let ra = pa % 4;
        if ra != 0 {
            assert(quartile(s, qa) <= s[la + 1]);
            assert(s[la + 1] <= s[lb]);
        } else {
            assert(s[la] <= s[lb]);
        }
        assert(s[lb] <= quartile(s, qb));
    }
}

// ── The profile itself ──

/// A five-number summary of observed round-trip times, in microseconds.
/// Immutable once constructed.
#[derive(Debug, Clone, Copy, PartialEq, Eq, Structural)]
pub struct LatencyProfile {
    pub min: i64,
    pub q1: i64,
    pub median: i64,
    pub mean: i64,
    pub q3: i64,
    pub max: i64,
}

impl LatencyProfile {
    /// Well-formedness: the summary values are ordered, and all lie in
    /// the representable sample range.
    pub open spec fn wf(self) -> bool {
        &&& 0 <= self.min <= self.q1 <= self.median <= self.q3 <= self.max <= RTT_LIMIT
        &&& self.min <= self.mean <= self.max
    }

    /// The interquartile range.
    pub open spec fn spec_iqr(self) -> int {
        self.q3 - self.q1
    }

    /// The interquartile range `q3 - q1`.
    pub fn iqr(&self) -> (r: i64)
        requires
            self.wf(),
        ensures
            r == self.spec_iqr(),
    {
        self.q3 - self.q1
    }

    /// The acceptance band: `q1 - k*iqr <= rtt <= q3 + k*iqr`, with the
    /// multiplier `k` given in tenths (so `15` means `1.5`); both sides
    /// are scaled by ten to stay in integers.
    pub open spec fn spec_in_range(self, rtt: int, multiplier_tenths: int) -> bool {
        &&& 10 * self.q1 - multiplier_tenths * self.spec_iqr() <= 10 * rtt
        &&& 10 * rtt <= 10 * self.q3 + multiplier_tenths * self.spec_iqr()
    }

    /// Whether `rtt` lies inside the interquartile acceptance band.
    pub fn is_in_range(&self, rtt: i64, multiplier_tenths: i64) -> (r: bool)
        requires
            self.wf(),
            -RANGE_ARG_LIMIT <= rtt <= RANGE_ARG_LIMIT,
            0 <= multiplier_tenths <= 10_000,
        ensures
            r == self.spec_in_range(rtt as int, multiplier_tenths as int),
    {
        proof {
            assert(0 <= multiplier_tenths * (self.q3 - self.q1) <= 10_000 * RTT_LIMIT)
                by (nonlinear_arith)
                requires
                    0 <= multiplier_tenths <= 10_000,
                    0 <= self.q3 - self.q1 <= RTT_LIMIT,
            ;
        }
        let spread = multiplier_tenths * (self.q3 - self.q1);
        let lower = 10 * self.q1 - spread;
        let upper = 10 * self.q3 + spread;
        let scaled = 10 * rtt;
        lower <= scaled && scaled <= upper
    }
}

/// The five-number summary of a multiset of samples: each quartile is the
/// linear-interpolated value of the ascending rearrangement, and the mean
/// is the floor of the arithmetic mean.
pub open spec fn profile_from(samples: Seq<i64>) -> LatencyProfile {
    let s = sort_micros(samples);
    LatencyProfile {
        min: quartile(s, 0) as i64,
        q1: quartile(s, 1) as i64,
        median: quartile(s, 2) as i64,
        mean: mean_micros(s) as i64,
        q3: quartile(s, 3) as i64,
        max: quartile(s, 4) as i64,
    }
}

/// Every profile built from at least one in-range sample is well-formed:
/// `min <= q1 <= median <= q3 <= max`, all within the sample range.
pub proof fn lemma_profile_from_wf(samples: Seq<i64>)
    requires
        samples.len() >= 1,
        forall|i: int| 0 <= i < samples.len() ==> 0 <= #[trigger] samples[i] <= RTT_LIMIT,
    ensures
        profile_from(samples).wf(),
        profile_from(samples).min == sort_micros(samples)[0],
        profile_from(samples).max == sort_micros(samples)[samples.len() - 1],
{
    let s = sort_micros(samples);
    lemma_sort_micros_ensures(samples);
    lemma_multiset_value_bounds(s, samples, 0, RTT_LIMIT);
    let n = s.len() as int;
    lemma_quartile_monotone(s, 0, 1);
    lemma_quartile_monotone(s, 1, 2);
    lemma_quartile_monotone(s, 2, 3);
    lemma_quartile_monotone(s, 3, 4);
    // the extreme quartiles are the first and last samples
    assert((n - 1) * 0 == 0) by (nonlinear_arith);
    assert(quartile(s, 0) == s[0]);
    assert((n - 1) * 4 % 4 == 0 && (n - 1) * 4 / 4 == n - 1) by {
        lemma_div_multiples_vanish(n - 1, 4);
        vstd::arithmetic::div_mod::lemma_mod_multiples_basic(n - 1, 4);
        assert((n - 1) * 4 == 4 * (n - 1)) by (nonlinear_arith);
    }
    assert(quartile(s, 4) == s[n - 1]);
    // the mean lies between the extremes
    lemma_sum_bounds(s, s[0] as int, s[n - 1] as int);
    lemma_div_is_ordered(n * s[0], sum_micros(s), n);
    lemma_div_is_ordered(sum_micros(s), n * s[n - 1], n);
    lemma_div_multiples_vanish(s[0] as int, n);
    lemma_div_multiples_vanish(s[n - 1] as int, n);
    assert(n * s[0] == s[0] * n) by (nonlinear_arith);
    assert(n * s[n - 1] == s[n - 1] * n) by (nonlinear_arith);
}

// ── Executable construction ──

/// The sequence with `x` spliced in keeps all old elements and gains `x`.
proof fn lemma_insert_multiset(s: Seq<i64>, j: int, x: i64)
    requires
        0 <= j <= s.len(),
    ensures
        s.insert(j, x).to_multiset() == s.to_multiset().insert(x),
{
    let left = s.subrange(0, j);
    let right = s.subrange(j, s.len() as int);
    lemma_multiset_commutative(left.push(x), right);
    lemma_multiset_commutative(left, right);
    assert(s =~= left + right);
    assert(left.push(x).to_multiset() =~= left.to_multiset().insert(x));
    assert(s.insert(j, x).to_multiset() =~= s.to_multiset().insert(x));
}

/// Splices `x` into a sorted vector, keeping it sorted.
fn insert_sorted(v: &mut Vec<i64>, x: i64)
    requires
        micros_sorted(old(v)@),
        old(v)@.len() < MAX_SAMPLES,
    ensures
        micros_sorted(final(v)@),
        final(v)@.to_multiset() == old(v)@.to_multiset().insert(x),
        final(v)@.len() == old(v)@.len() + 1,
{
    let mut j: usize = 0;
    while j < v.len() && v[j] <= x
        invariant
            0 <= j <= v@.len(),
            forall|k: int| 0 <= k < j ==> v@[k] <= x,
            v == old(v),
        decreases v@.len() - j,
    {
        j += 1;
    }
    proof {
        if j < v@.len() {
            assert(v@[j as int] > x);
        }
    }
    v.insert(j, x);
    proof {
        old(v)@.insert_ensures(j as int, x);
        lemma_insert_multiset(old(v)@, j as int, x);
        let nv = v@;
        let n = nv.len() as int;
        assert forall|a: int, b: int| 0 <= a <= b < n implies nv[a] <= nv[b] by {
            let s = old(v)@;
            if a < j && b < j {
                assert(nv[a] == s[a] && nv[b] == s[b]);
            } else if a < j && b == j {
                assert(nv[a] == s[a] && nv[b] == x);
            } else if a < j && b > j {
                assert(nv[a] == s[a] && nv[b] == s[b - 1]);
                assert(s[j as int] <= s[b - 1]);
            } else if a == j && b == j {
            } else if a == j && b > j {
                assert(nv[a] == x && nv[b] == s[b - 1]);
                assert(s[j as int] <= s[b - 1]);
            } else {
                assert(nv[a] == s[a - 1] && nv[b] == s[b - 1]);
            }
        }
    }
}

/// The ascending rearrangement of the samples, as a fresh vector.
pub fn sorted_copy(input: &Vec<i64>) -> (out: Vec<i64>)
    requires
        input@.len() <= MAX_SAMPLES,
    ensures
        out@ == sort_micros(input@),
{
    let mut out: Vec<i64> = Vec::new();
    let mut i: usize = 0;
    while i < input.len()
        invariant
            0 <= i <= input@.len(),
            input@.len() <= MAX_SAMPLES,
            micros_sorted(out@),
            out@.len() == i,
            out@.to_multiset() == input@.take(i as int).to_multiset(),
        decreases input@.len() - i,
    {
        let x = input[i];
        proof {
            assert(input@.take(i + 1).drop_last() =~= input@.take(i as int));
            assert(input@.take(i + 1) =~= input@.take(i as int).push(x));
        }
        insert_sorted(&mut out, x);
        i += 1;
    }
    proof {
        assert(input@.take(input@.len() as int) =~= input@);
        lemma_sort_micros_ensures(input@);
        let leq = micros_order();
        assert(total_ordering(leq));
        assert(sorted_by(out@, leq));
        assert(sorted_by(sort_micros(input@), leq));
        lemma_sorted_unique(out@, sort_micros(input@), leq);
        assert(out@ =~= sort_micros(input@));
    }
    out
}

/// One quartile of a sorted sample vector.
fn quartile_exec(v: &Vec<i64>, q: usize) -> (r: i64)
    requires
        micros_sorted(v@),
        1 <= v@.len() <= MAX_SAMPLES,
        q <= 4,
        forall|i: int| 0 <= i < v@.len() ==> 0 <= #[trigger] v@[i] <= RTT_LIMIT,
    ensures
        r == quartile(v@, q as int),
{
    proof {
        lemma_quartile_shape(v@, q as int);
    }
    let n = v.len();
    let pos = (n - 1) * q;
    let lo = pos / 4;
    let rem = pos % 4;
    if rem == 0 {
        v[lo]
    } else {
        let a = v[lo];
        let b = v[lo + 1];
        let add = (((b - a) as u64) * (rem as u64)) / 4;
        proof {
            let d = (b - a) as int;
            assert(d * (rem as int) == ((b - a) as u64 * (rem as u64)) as int) by (nonlinear_arith)
                requires
                    0 <= d <= RTT_LIMIT,
                    0 < (rem as int) < 4,
                    d == (b - a) as u64 as int,
                    rem as int == rem as u64 as int,
            ;
        }
        a + (add as i64)
    }
}

/// Builds the five-number summary from raw samples: sorts them, takes the
/// interpolated quartiles, and floors the mean.
pub fn from_rtts(rtts: &Vec<i64>) -> (p: LatencyProfile)
    requires
        1 <= rtts@.len() <= MAX_SAMPLES,
        forall|i: int| 0 <= i < rtts@.len() ==> 0 <= #[trigger] rtts@[i] <= RTT_LIMIT,
    ensures
        p == profile_from(rtts@),
        p.wf(),
{
    proof {
        lemma_profile_from_wf(rtts@);
        lemma_sort_micros_ensures(rtts@);
    }
    let sorted = sorted_copy(rtts);
    proof {
        lemma_multiset_value_bounds(sorted@, rtts@, 0, RTT_LIMIT);
    }
    let min = quartile_exec(&sorted, 0);
    let q1 = quartile_exec(&sorted, 1);
    let median = quartile_exec(&sorted, 2);
    let q3 = quartile_exec(&sorted, 3);
    let max = quartile_exec(&sorted, 4);
    let mean = mean_exec(&sorted);
    LatencyProfile { min, q1, median, mean, q3, max }
}

/// The floor of the arithmetic mean of the samples.
fn mean_exec(v: &Vec<i64>) -> (m: i64)
    requires
        1 <= v@.len() <= MAX_SAMPLES,
        forall|i: int| 0 <= i < v@.len() ==> 0 <= #[trigger] v@[i] <= RTT_LIMIT,
    ensures
        m == mean_micros(v@),
{
    let n = v.len();
    let mut sum: i64 = 0;
    let mut i: usize = 0;
    while i < n
        invariant
            0 <= i <= n,
            n == v@.len(),
            1 <= n <= MAX_SAMPLES,
            forall|k: int| 0 <= k < v@.len() ==> 0 <= #[trigger] v@[k] <= RTT_LIMIT,
            sum == sum_micros(v@.take(i as int)),
            0 <= sum <= (i as int) * RTT_LIMIT,
        decreases n - i,
    {
        proof {
            assert(v@.take(i + 1).drop_last() =~= v@.take(i as int));
            assert(v@.take(i + 1).last() == v@[i as int]);
            assert((i as int) * RTT_LIMIT + RTT_LIMIT == (i + 1) as int * RTT_LIMIT)
                by (nonlinear_arith);
        }
        sum = sum + v[i];
        i += 1;
    }
    proof {
        assert(v@.take(n as int) =~= v@);
        assert((n as int) * RTT_LIMIT <= 1000 * RTT_LIMIT) by (nonlinear_arith)
            requires 1 <= (n as int) <= 1000;
    }
    let m = (sum as u64) / (n as u64);
    proof {
        vstd::arithmetic::div_mod::lemma_fundamental_div_mod(sum as int, n as int);
        lemma_div_pos_is_pos(sum as int, n as int);
        lemma_div_is_ordered(sum as int, 1000 * RTT_LIMIT, n as int);
    }
    m as i64
}

} // verus!
