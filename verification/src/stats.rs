use vstd::prelude::*;
use vstd::arithmetic::div_mod::{lemma_div_is_ordered, lemma_div_multiples_vanish, lemma_fundamental_div_mod, lemma_mod_division_less_than_divisor};

verus! {

/// Most samples one accumulator accepts; keeps every intermediate sum within
/// the unsigned 128-bit range used by the executable statistics.
pub const MAX_SAMPLES: usize = 1048576;

/// Largest single duration, in milliseconds, one sample may hold.
pub const MAX_SAMPLE_MS: u64 = 16777216;

/// Fixed-point scale of reported means and standard deviations: micro-units
/// per milli-unit, so six fractional decimal digits.
pub const MICROS_PER_MILLI: u64 = 1000000;

/// The square of the fixed-point scale, used when taking the square root of a
/// variance.
pub const MICROS_SQ: u64 = 1000000000000;

/// Sum of a sample series, as a mathematical integer.
pub open spec fn sum_int(s: Seq<u64>) -> int
    decreases s.len(),
{
    if s.len() == 0 {
        0
    } else {
        sum_int(s.drop_last()) + s.last()
    }
}

/// Sum of the squares of a sample series.
pub open spec fn sum_sq_int(s: Seq<u64>) -> int
    decreases s.len(),
{
    if s.len() == 0 {
        0
    } else {
        sum_sq_int(s.drop_last()) + s.last() * s.last()
    }
}

/// `len^2` times the population variance of the series: for `n` samples with
/// sum `S` and sum of squares `Q`, this is `n * Q - S * S`.
pub open spec fn dev_num(s: Seq<u64>) -> int {
    s.len() * sum_sq_int(s) - sum_int(s) * sum_int(s)
}

/// The arithmetic mean of the series in micro-milliseconds, rounded down.
pub open spec fn mean_micros_spec(s: Seq<u64>) -> int {
    (sum_int(s) * MICROS_PER_MILLI) / (s.len() as int)
}

/// `v` is the population standard deviation of `s` in micro-milliseconds,
/// rounded down: `v = floor(10^6 * sqrt(dev_num(s)) / len)`, stated without a
/// square-root function by squaring both bounds.
pub open spec fn is_stddev_micros(s: Seq<u64>, v: int) -> bool {
    let n = s.len() as int;
    let target = dev_num(s) * (MICROS_SQ as int);
    (v * n) * (v * n) <= target && target < ((v + 1) * n) * ((v + 1) * n)
}

/// A series every accumulator maintains: bounded length, bounded samples.
pub open spec fn wf_series(s: Seq<u64>) -> bool {
    s.len() <= MAX_SAMPLES && forall|i: int| 0 <= i < s.len() ==> s[i] <= MAX_SAMPLE_MS
}

/// Sum of the squared deviations of each sample from `t / n`, with everything
/// scaled by `n` so that it stays an integer: the sum over `i` of
/// `(n * s[i] - t)^2`.
pub open spec fn scaled_dev_sq_sum(s: Seq<u64>, n: int, t: int) -> int
    decreases s.len(),
{
    if s.len() == 0 {
        0
    } else {
        scaled_dev_sq_sum(s.drop_last(), n, t) + (n * s.last() - t) * (n * s.last() - t)
    }
}

proof fn lemma_scaled_dev_expand(s: Seq<u64>, n: int, t: int)
    ensures
        scaled_dev_sq_sum(s, n, t) == n * n * sum_sq_int(s) - 2 * n * t * sum_int(s) + s.len()
            * (t * t),
    decreases s.len(),
{
    if s.len() == 0 {
    } else {
        let d = s.drop_last();
        lemma_scaled_dev_expand(d, n, t);
        let x = s.last() as int;
        let l = s.len() as int;
        assert((n * x - t) * (n * x - t) == (n * n) * (x * x) - 2 * n * t * x + t * t)
            by (nonlinear_arith);
        assert(n * n * sum_sq_int(s) == n * n * sum_sq_int(d) + (n * n) * (x * x))
            by (nonlinear_arith)
            requires
                sum_sq_int(s) == sum_sq_int(d) + x * x,
        ;
        assert(2 * n * t * sum_int(s) == 2 * n * t * sum_int(d) + 2 * n * t * x)
            by (nonlinear_arith)
            requires
                sum_int(s) == sum_int(d) + x,
        ;
        assert(l * (t * t) == d.len() * (t * t) + t * t) by (nonlinear_arith)
            requires
                l == d.len() + 1,
        ;
    }
}

proof fn lemma_scaled_dev_nonneg(s: Seq<u64>, n: int, t: int)
    ensures
        scaled_dev_sq_sum(s, n, t) >= 0,
    decreases s.len(),
{
    if s.len() == 0 {
    } else {
        let d = s.drop_last();
        lemma_scaled_dev_nonneg(d, n, t);
        let x = s.last() as int;
        assert((n * x - t) * (n * x - t) >= 0) by (nonlinear_arith);
    }
}

/// Characterizes `dev_num` as a sum of squares: `len * dev_num(s)` equals the
/// sum over the series of the squared, `len`-scaled deviations from the mean.
/// In particular the variance numerator is never negative, so the population
/// standard deviation is well defined.
pub proof fn lemma_variance_characterization(s: Seq<u64>)
    ensures
        s.len() * dev_num(s) == scaled_dev_sq_sum(s, s.len() as int, sum_int(s)),
        dev_num(s) >= 0,
{
    let l = s.len() as int;
    let t = sum_int(s);
    let q = sum_sq_int(s);
    lemma_scaled_dev_expand(s, l, t);
    lemma_scaled_dev_nonneg(s, l, t);
    assert(l * dev_num(s) == scaled_dev_sq_sum(s, l, t)) by (nonlinear_arith)
        requires
            scaled_dev_sq_sum(s, l, t) == l * l * q - 2 * l * t * t + l * (t * t),
            dev_num(s) == l * q - t * t,
    ;
    if s.len() == 0 {
        assert(dev_num(s) == 0);
    } else {
        assert(dev_num(s) >= 0) by (nonlinear_arith)
            requires
                l > 0,
                l * dev_num(s) >= 0,
        ;
    }
}

/// A series whose samples all hold one value has variance numerator zero, so
/// its population standard deviation is exactly zero.
pub proof fn lemma_constant_series(s: Seq<u64>, c: u64)
    requires
        forall|i: int| 0 <= i < s.len() ==> s[i] == c,
    ensures
        sum_int(s) == s.len() * c,
        sum_sq_int(s) == s.len() * ((c as int) * (c as int)),
        dev_num(s) == 0,
    decreases s.len(),
{
    let l = s.len() as int;
    let cc = c as int;
    if s.len() == 0 {
        assert(dev_num(s) == 0) by (nonlinear_arith)
            requires
                dev_num(s) == 0 * sum_sq_int(s) - sum_int(s) * sum_int(s),
                sum_int(s) == 0,
        ;
    } else {
        let d = s.drop_last();
        assert(forall|i: int| 0 <= i < d.len() ==> d[i] == c);
        lemma_constant_series(d, c);
        assert(sum_int(s) == l * cc && sum_sq_int(s) == l * (cc * cc)) by (nonlinear_arith)
            requires
                sum_int(s) == sum_int(d) + cc,
                sum_sq_int(s) == sum_sq_int(d) + cc * cc,
                sum_int(d) == d.len() * cc,
                sum_sq_int(d) == d.len() * (cc * cc),
                l == d.len() + 1,
        ;
        assert(dev_num(s) == 0) by (nonlinear_arith)
            requires
                dev_num(s) == l * sum_sq_int(s) - sum_int(s) * sum_int(s),
                sum_int(s) == l * cc,
                sum_sq_int(s) == l * (cc * cc),
        ;
    }
}

/// Bounds the sums of a well-formed series, so that the executable statistics
/// can be shown free of overflow.
pub proof fn lemma_sum_bounds(s: Seq<u64>)
    requires
        wf_series(s),
    ensures
        0 <= sum_int(s) <= s.len() * 16777216,
        0 <= sum_sq_int(s) <= s.len() * 281474976710656,
    decreases s.len(),
{
    if s.len() == 0 {
    } else {
        let d = s.drop_last();
        assert(wf_series(d));
        lemma_sum_bounds(d);
        let x = s.last() as int;
        let l = s.len() as int;
        assert(0 <= sum_int(s) <= l * 16777216) by (nonlinear_arith)
            requires
                sum_int(s) == sum_int(d) + x,
                0 <= sum_int(d) <= d.len() * 16777216,
                0 <= x <= 16777216,
                l == d.len() + 1,
        ;
        assert(0 <= sum_sq_int(s) <= l * 281474976710656) by (nonlinear_arith)
            requires
                sum_sq_int(s) == sum_sq_int(d) + x * x,
                0 <= sum_sq_int(d) <= d.len() * 281474976710656,
                0 <= x <= 16777216,
                l == d.len() + 1,
        ;
    }
}

/// A series that is pointwise at most another has an arithmetic mean at most
/// the other's: running means preserve per-sample ordering.
pub proof fn lemma_mean_monotone(s1: Seq<u64>, s2: Seq<u64>)
    requires
        s1.len() == s2.len(),
        forall|i: int| 0 <= i < s1.len() ==> s1[i] <= s2[i],
    ensures
        mean_micros_spec(s1) <= mean_micros_spec(s2),
{
    lemma_sum_pointwise_le(s1, s2);
    let l = s1.len() as int;
    if l == 0 {
    } else {
        lemma_div_is_ordered(
            sum_int(s1) * (MICROS_PER_MILLI as int),
            sum_int(s2) * (MICROS_PER_MILLI as int),
            l,
        );
    }
}

proof fn lemma_sum_pointwise_le(s1: Seq<u64>, s2: Seq<u64>)
    requires
        s1.len() == s2.len(),
        forall|i: int| 0 <= i < s1.len() ==> s1[i] <= s2[i],
    ensures
        sum_int(s1) <= sum_int(s2),
    decreases s1.len(),
{
    if s1.len() == 0 {
    } else {
        let d1 = s1.drop_last();
        let d2 = s2.drop_last();
        assert(forall|i: int| 0 <= i < d1.len() ==> d1[i] <= d2[i]);
        lemma_sum_pointwise_le(d1, d2);
    }
}

proof fn lemma_sum_take_succ(s: Seq<u64>, i: int)
    requires
        0 <= i < s.len(),
    ensures
        sum_int(s.take(i + 1)) == sum_int(s.take(i)) + s[i],
        sum_sq_int(s.take(i + 1)) == sum_sq_int(s.take(i)) + s[i] * s[i],
{
    assert(s.take(i + 1).drop_last() =~= s.take(i));
    assert(s.take(i + 1).last() == s[i]);
}

/// Running set of CPU-time samples, in milliseconds, for one benchmark phase.
/// The series is append-only: it is never truncated, reordered or reset, so a
/// reading reflects the full history recorded so far.
pub struct StatsAccumulator {
    samples: Vec<u64>,
}

impl View for StatsAccumulator {
    type V = Seq<u64>;

    closed spec fn view(&self) -> Seq<u64> {
        self.samples@
    }
}

impl StatsAccumulator {
    pub open spec fn wf(&self) -> bool {
        wf_series(self@)
    }

    pub fn new() -> (r: Self)
        ensures
            r@ =~= Seq::<u64>::empty(),
            r.wf(),
    {
        StatsAccumulator { samples: Vec::new() }
    }

    pub fn count(&self) -> (r: usize)
        ensures
            r == self@.len(),
    {
        self.samples.len()
    }

    /// Appends one observation to the series.
    pub fn record(&mut self, duration_ms: u64)
        requires
            old(self).wf(),
            old(self)@.len() < MAX_SAMPLES,
            duration_ms <= MAX_SAMPLE_MS,
        ensures
            final(self)@ =~= old(self)@.push(duration_ms),
            final(self).wf(),
    {
        self.samples.push(duration_ms);
    }

    /// The arithmetic mean of every recorded value, in micro-milliseconds
    /// rounded down, or nothing when no value was recorded.
    pub fn mean_micros(&self) -> (r: Option<u64>)
        requires
            self.wf(),
        ensures
            r is Some <==> self@.len() > 0,
            r is Some ==> r->Some_0 == mean_micros_spec(self@),
    {
        let c = self.samples.len();
        if c == 0 {
            return None;
        }
        let s = sum_millis(&self.samples);
        proof {
            lemma_sum_bounds(self@);
            assert(sum_int(self@) * 1000000 <= (c as int) * 16777216000000) by (nonlinear_arith)
                requires
                    0 <= sum_int(self@) <= (c as int) * 16777216,
            ;
            lemma_div_is_ordered(
                sum_int(self@) * (MICROS_PER_MILLI as int),
                (c as int) * 16777216000000,
                c as int,
            );
            lemma_div_multiples_vanish(16777216000000, c as int);
        }
        let m = (s * (MICROS_PER_MILLI as u128)) / (c as u128);
        Some(m as u64)
    }

    /// The population standard deviation of every recorded value, in
    /// micro-milliseconds rounded down, or nothing when no value was
    /// recorded.  The squared-deviation sum is divided by the sample count,
    /// not by one less.
    pub fn std_deviation_micros(&self) -> (r: Option<u64>)
        requires
            self.wf(),
        ensures
            r is Some <==> self@.len() > 0,
            r is Some ==> is_stddev_micros(self@, r->Some_0 as int),
    {
        let c = self.samples.len();
        if c == 0 {
            return None;
        }
        let s = sum_millis(&self.samples);
        let q = sum_sq_millis(&self.samples);
        proof {
            lemma_sum_bounds(self@);
            lemma_variance_characterization(self@);
            assert((c as int) * sum_sq_int(self@) <= 0x10000000000000000000000) by (nonlinear_arith)
                requires
                    0 <= sum_sq_int(self@) <= (c as int) * 281474976710656,
                    0 < (c as int) <= 1048576,
            ;
            assert(sum_int(self@) * sum_int(self@) <= 0x10000000000000000000000) by (nonlinear_arith)
                requires
                    0 <= sum_int(self@) <= (c as int) * 16777216,
                    0 < (c as int) <= 1048576,
            ;
        }
        let nq = (c as u128) * q;
        let s2 = s * s;
        let dnum = nq - s2;
        let v2 = dnum * (MICROS_SQ as u128);
        let root = isqrt_u128(v2);
        let v = root / (c as u128);
        proof {
            let n = c as int;
            let r = root as int;
            let vv = v as int;
            let rem = r % n;
            let target = dev_num(self@) * (MICROS_SQ as int);
            assert(v2 == target);
            lemma_fundamental_div_mod(r, n);
            lemma_mod_division_less_than_divisor(r, n);
            assert(vv * n <= r && r < (vv + 1) * n) by (nonlinear_arith)
                requires
                    n > 0,
                    r == n * vv + rem,
                    0 <= rem < n,
            ;
            assert((vv * n) * (vv * n) <= target) by (nonlinear_arith)
                requires
                    0 <= vv * n <= r,
                    r * r <= target,
            ;
            assert(target < ((vv + 1) * n) * ((vv + 1) * n)) by (nonlinear_arith)
                requires
                    0 <= r,
                    r < (vv + 1) * n,
                    target < (r + 1) * (r + 1),
            ;
            assert(r <= 0xffffffffffffffff) by (nonlinear_arith)
                requires
                    0 <= r,
                    r * r <= v2,
                    v2 <= 0xffffffffffffffffffffffffffffffff,
            ;
            assert(vv <= r) by (nonlinear_arith)
                requires
                    n >= 1,
                    0 <= r,
                    r == n * vv + rem,
                    0 <= rem,
            ;
        }
        Some(v as u64)
    }
}

fn sum_millis(samples: &Vec<u64>) -> (r: u128)
    requires
        wf_series(samples@),
    ensures
        r == sum_int(samples@),
{
    let mut acc: u128 = 0;
    let mut i: usize = 0;
    while i < samples.len()
        invariant
            0 <= i <= samples@.len(),
            wf_series(samples@),
            acc == sum_int(samples@.take(i as int)),
            acc <= (i as int) * 16777216,
        decreases samples@.len() - i,
    {
        proof {
            lemma_sum_take_succ(samples@, i as int);
        }
        acc = acc + (samples[i] as u128);
        i = i + 1;
    }
    proof {
        assert(samples@.take(samples@.len() as int) =~= samples@);
    }
    acc
}

fn sum_sq_millis(samples: &Vec<u64>) -> (r: u128)
    requires
        wf_series(samples@),
    ensures
        r == sum_sq_int(samples@),
{
    let mut acc: u128 = 0;
    let mut i: usize = 0;
    while i < samples.len()
        invariant
            0 <= i <= samples@.len(),
            wf_series(samples@),
            acc == sum_sq_int(samples@.take(i as int)),
            acc <= (i as int) * 281474976710656,
        decreases samples@.len() - i,
    {
        proof {
            lemma_sum_take_succ(samples@, i as int);
            let x = samples@[i as int] as int;
            assert(x * x <= 281474976710656) by (nonlinear_arith)
                requires
                    0 <= x <= 16777216,
            ;
        }
        acc = acc + (samples[i] as u128) * (samples[i] as u128);
        i = i + 1;
    }
    proof {
        assert(samples@.take(samples@.len() as int) =~= samples@);
    }
    acc
}

/// Rounded-down integer square root over the full unsigned 128-bit range, by
/// bisection.
fn isqrt_u128(x: u128) -> (r: u128)
    ensures
        (r as int) * (r as int) <= x,
        x < ((r as int) + 1) * ((r as int) + 1),
{
    if x == 0 {
        return 0;
    }
    let mut lo: u128 = 0;
    let mut hi: u128 = 0x10000000000000000;
    proof {
        assert(x < (hi as int) * (hi as int)) by (nonlinear_arith)
            requires
                x <= 0xffffffffffffffffffffffffffffffffu128,
                hi == 0x10000000000000000u128,
        ;
    }
    while hi - lo > 1
        invariant
            lo < hi <= 0x10000000000000000u128,
            (lo as int) * (lo as int) <= x,
            x < (hi as int) * (hi as int),
        decreases hi - lo,
    {
        let mid = lo + (hi - lo) / 2;
        proof {
            assert((mid as int) * (mid as int) < 0x100000000000000000000000000000000int)
                by (nonlinear_arith)
                requires
                    mid < 0x10000000000000000u128,
            ;
        }
        if mid * mid <= x {
            lo = mid;
        } else {
            hi = mid;
        }
    }
    lo
}

} // verus!
