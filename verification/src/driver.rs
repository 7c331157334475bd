use vstd::prelude::*;
use vstd::pervasive::unreached;
use std::io::Write;
use crate::bn::bn_ctx_new;
use crate::errors::{BenchError, PrimitiveKind};
use crate::generator::{CredentialMaterialGenerator, TimingBreakdown, PRIME_BITS};
use crate::stats::{
    is_stddev_micros, lemma_mean_monotone, mean_micros_spec, wf_series, StatsAccumulator,
    MAX_SAMPLES, MAX_SAMPLE_MS,
};

verus! {

/// One snapshot of a phase's running statistics: mean and population standard
/// deviation of every sample recorded so far, in micro-milliseconds.
#[derive(Clone, Copy, PartialEq, Eq, Structural, Debug)]
pub struct PhasePoint {
    pub mean_micros: u64,
    pub stddev_micros: u64,
}

/// The three per-attribute-count series a finished run hands to reporting,
/// one snapshot per attribute-count value, in increasing order, plus the
/// iteration count that produced them.
pub struct BenchmarkReport {
    pub iterations: u64,
    pub all: Vec<PhasePoint>,
    pub primes: Vec<PhasePoint>,
    pub qrs: Vec<PhasePoint>,
}

/// The sweep's state: three cumulative sample series, one per phase, and the
/// three snapshot series built from them.  The accumulators are never reset
/// between sweep steps, so each snapshot deliberately reflects every
/// iteration run so far, not only the current attribute count's.
pub struct BenchmarkDriver {
    acc_all: StatsAccumulator,
    acc_primes: StatsAccumulator,
    acc_qrs: StatsAccumulator,
    series_all: Vec<PhasePoint>,
    series_primes: Vec<PhasePoint>,
    series_qrs: Vec<PhasePoint>,
}

impl BenchmarkDriver {
    pub closed spec fn samples_all(&self) -> Seq<u64> {
        self.acc_all@
    }

    pub closed spec fn samples_primes(&self) -> Seq<u64> {
        self.acc_primes@
    }

    pub closed spec fn samples_qrs(&self) -> Seq<u64> {
        self.acc_qrs@
    }

    pub closed spec fn snapshots_all(&self) -> Seq<PhasePoint> {
        self.series_all@
    }

    pub closed spec fn snapshots_primes(&self) -> Seq<PhasePoint> {
        self.series_primes@
    }

    pub closed spec fn snapshots_qrs(&self) -> Seq<PhasePoint> {
        self.series_qrs@
    }

    pub open spec fn sample_count(&self) -> nat {
        self.samples_all().len()
    }

    pub open spec fn step_count(&self) -> nat {
        self.snapshots_all().len()
    }

    /// The driver's invariant: the three sample series grow in lock step,
    /// with each iteration's phase durations at most its total duration, and
    /// the three snapshot series grow in lock step, with each snapshot's
    /// phase means at most its all-phases mean.
    pub open spec fn wf(&self) -> bool {
        &&& wf_series(self.samples_all())
        &&& wf_series(self.samples_primes())
        &&& wf_series(self.samples_qrs())
        &&& self.samples_primes().len() == self.samples_all().len()
        &&& self.samples_qrs().len() == self.samples_all().len()
        &&& (forall|i: int|
            0 <= i < self.samples_all().len() ==> self.samples_primes()[i]
                <= self.samples_all()[i] && self.samples_qrs()[i] <= self.samples_all()[i])
        &&& self.snapshots_primes().len() == self.snapshots_all().len()
        &&& self.snapshots_qrs().len() == self.snapshots_all().len()
        &&& (forall|k: int|
            0 <= k < self.snapshots_all().len() ==> self.snapshots_primes()[k].mean_micros
                <= self.snapshots_all()[k].mean_micros && self.snapshots_qrs()[k].mean_micros
                <= self.snapshots_all()[k].mean_micros)
    }

    pub fn new() -> (r: Self)
        ensures
            r.wf(),
            r.sample_count() == 0,
            r.step_count() == 0,
    {
        BenchmarkDriver {
            acc_all: StatsAccumulator::new(),
            acc_primes: StatsAccumulator::new(),
            acc_qrs: StatsAccumulator::new(),
            series_all: Vec::new(),
            series_primes: Vec::new(),
            series_qrs: Vec::new(),
        }
    }

    /// Feeds one iteration's timing into the three cumulative series.
    pub fn record_iteration(&mut self, timing: TimingBreakdown)
        requires
            old(self).wf(),
            old(self).sample_count() < MAX_SAMPLES,
            timing.total_ms <= MAX_SAMPLE_MS,
            timing.primes_ms + timing.qrs_ms <= timing.total_ms,
        ensures
            final(self).wf(),
            final(self).samples_all() =~= old(self).samples_all().push(timing.total_ms),
            final(self).samples_primes() =~= old(self).samples_primes().push(timing.primes_ms),
            final(self).samples_qrs() =~= old(self).samples_qrs().push(timing.qrs_ms),
            final(self).snapshots_all() == old(self).snapshots_all(),
            final(self).snapshots_primes() == old(self).snapshots_primes(),
            final(self).snapshots_qrs() == old(self).snapshots_qrs(),
    {
        self.acc_all.record(timing.total_ms);
        self.acc_primes.record(timing.primes_ms);
        self.acc_qrs.record(timing.qrs_ms);
    }

    /// Closes one attribute-count step: snapshots each phase's current mean
    /// and population standard deviation into that phase's snapshot series.
    pub fn snapshot_step(&mut self)
        requires
            old(self).wf(),
            old(self).sample_count() > 0,
        ensures
            final(self).wf(),
            final(self).samples_all() == old(self).samples_all(),
            final(self).samples_primes() == old(self).samples_primes(),
            final(self).samples_qrs() == old(self).samples_qrs(),
            final(self).step_count() == old(self).step_count() + 1,
            final(self).snapshots_all().drop_last() =~= old(self).snapshots_all(),
            final(self).snapshots_primes().drop_last() =~= old(self).snapshots_primes(),
            final(self).snapshots_qrs().drop_last() =~= old(self).snapshots_qrs(),
            final(self).snapshots_all().last().mean_micros == mean_micros_spec(
                old(self).samples_all(),
            ),
            final(self).snapshots_primes().last().mean_micros == mean_micros_spec(
                old(self).samples_primes(),
            ),
            final(self).snapshots_qrs().last().mean_micros == mean_micros_spec(
                old(self).samples_qrs(),
            ),
            is_stddev_micros(
                old(self).samples_all(),
                final(self).snapshots_all().last().stddev_micros as int,
            ),
            is_stddev_micros(
                old(self).samples_primes(),
                final(self).snapshots_primes().last().stddev_micros as int,
            ),
            is_stddev_micros(
                old(self).samples_qrs(),
                final(self).snapshots_qrs().last().stddev_micros as int,
            ),
    {
        let mean_all = match self.acc_all.mean_micros() {
            Some(v) => v,
            None => unreached(),
        };
        let sd_all = match self.acc_all.std_deviation_micros() {
            Some(v) => v,
            None => unreached(),
        };
        let mean_primes = match self.acc_primes.mean_micros() {
            Some(v) => v,
            None => unreached(),
        };
        let sd_primes = match self.acc_primes.std_deviation_micros() {
            Some(v) => v,
            None => unreached(),
        };
        let mean_qrs = match self.acc_qrs.mean_micros() {
            Some(v) => v,
            None => unreached(),
        };
        let sd_qrs = match self.acc_qrs.std_deviation_micros() {
            Some(v) => v,
            None => unreached(),
        };
        proof {
            lemma_mean_monotone(self.samples_primes(), self.samples_all());
            lemma_mean_monotone(self.samples_qrs(), self.samples_all());
        }
        self.series_all.push(PhasePoint { mean_micros: mean_all, stddev_micros: sd_all });
        self.series_primes.push(PhasePoint { mean_micros: mean_primes, stddev_micros: sd_primes });
        self.series_qrs.push(PhasePoint { mean_micros: mean_qrs, stddev_micros: sd_qrs });
    }

    /// Hands the finished snapshot series over for reporting.
    pub fn into_report(self, iterations: u64) -> (r: BenchmarkReport)
        ensures
            r.iterations == iterations,
            r.all@ == self.snapshots_all(),
            r.primes@ == self.snapshots_primes(),
            r.qrs@ == self.snapshots_qrs(),
    {
        BenchmarkReport {
            iterations,
            all: self.series_all,
            primes: self.series_primes,
            qrs: self.series_qrs,
        }
    }
}

/// Relies on std::io's `Write::write_fmt`, through the `write!` macro: emits
/// the single-line progress indicator, overwritten in place.
#[verifier::external_body]
fn emit_progress(attr_count: u64, iteration: u64) {
    let _ = write!(std::io::stdout(), "\r// n_attrs: {}; iter: {}", attr_count, iteration);
}

/// Relies on std::io's `Write::flush`: pushes the progress line out at once.
#[verifier::external_body]
fn flush_progress() {
    let _ = std::io::stdout().flush();
}

/// The full sweep with the standard prime size.
pub fn run_benchmark(n_attrs: u64, n_iters: u64) -> (r: Result<BenchmarkReport, BenchError>)
    requires
        1 <= n_attrs,
        1 <= n_iters,
        n_attrs * n_iters <= MAX_SAMPLES,
    ensures
        r is Ok ==> r->Ok_0.iterations == n_iters && r->Ok_0.all@.len() == n_attrs
            && r->Ok_0.primes@.len() == n_attrs && r->Ok_0.qrs@.len() == n_attrs,
        r is Ok ==> forall|k: int|
            0 <= k < n_attrs ==> r->Ok_0.primes@[k].mean_micros <= r->Ok_0.all@[k].mean_micros
                && r->Ok_0.qrs@[k].mean_micros <= r->Ok_0.all@[k].mean_micros,
{
    run_benchmark_with_bits(n_attrs, n_iters, PRIME_BITS)
}

/// The full sweep with a chosen prime size: attribute counts one through
/// `n_attrs`, `n_iters` iterations each, a snapshot per attribute count.  On
/// success every snapshot series has one entry per attribute count, and each
/// snapshot's phase means stay at or below its all-phases mean.
pub fn run_benchmark_with_bits(n_attrs: u64, n_iters: u64, prime_bits: u32) -> (r: Result<
    BenchmarkReport,
    BenchError,
>)
    requires
        1 <= n_attrs,
        1 <= n_iters,
        n_attrs * n_iters <= MAX_SAMPLES,
        3 <= prime_bits <= 1000000,
    ensures
        r is Ok ==> r->Ok_0.iterations == n_iters && r->Ok_0.all@.len() == n_attrs
            && r->Ok_0.primes@.len() == n_attrs && r->Ok_0.qrs@.len() == n_attrs,
        r is Ok ==> forall|k: int|
            0 <= k < n_attrs ==> r->Ok_0.primes@[k].mean_micros <= r->Ok_0.all@[k].mean_micros
                && r->Ok_0.qrs@[k].mean_micros <= r->Ok_0.all@[k].mean_micros,
{
    let mut ctx = match bn_ctx_new() {
        Ok(c) => c,
        Err(_) => {
            return Err(BenchError::PrimitiveFailure(PrimitiveKind::ContextAllocation));
        },
    };
    let mut driver = BenchmarkDriver::new();
    let mut k: u64 = 1;
    while k <= n_attrs
        invariant
            1 <= k <= n_attrs + 1,
            1 <= n_iters,
            n_attrs * n_iters <= MAX_SAMPLES,
            3 <= prime_bits <= 1000000,
            driver.wf(),
            driver.step_count() == k - 1,
            driver.sample_count() == (k - 1) * n_iters,
        decreases n_attrs + 1 - k,
    {
        let mut i: u64 = 0;
        while i < n_iters
            invariant
                0 <= i <= n_iters,
                1 <= k <= n_attrs,
                1 <= n_iters,
                n_attrs * n_iters <= MAX_SAMPLES,
                3 <= prime_bits <= 1000000,
                driver.wf(),
                driver.step_count() == k - 1,
                driver.sample_count() == (k - 1) * n_iters + i,
            decreases n_iters - i,
        {
            emit_progress(k, i);
            flush_progress();
            let timing = match CredentialMaterialGenerator::generate_with_bits(
                k,
                prime_bits,
                &mut ctx,
            ) {
                Ok(t) => t,
                Err(e) => {
                    return Err(e);
                },
            };
            proof {
                assert((k - 1) * n_iters + i < k * n_iters) by (nonlinear_arith)
                    requires
                        i < n_iters,
                        k >= 1,
                ;
                assert(k * n_iters <= n_attrs * n_iters) by (nonlinear_arith)
                    requires
                        1 <= k <= n_attrs,
                        n_iters >= 1,
                ;
            }
            driver.record_iteration(timing);
            i = i + 1;
        }
        proof {
            assert((k - 1) * n_iters + n_iters == k * n_iters) by (nonlinear_arith);
            assert(k * n_iters >= 1) by (nonlinear_arith)
                requires
                    k >= 1,
                    n_iters >= 1,
            ;
            assert(n_attrs <= n_attrs * n_iters) by (nonlinear_arith)
                requires
                    n_iters >= 1,
                    n_attrs >= 0,
            ;
        }
        driver.snapshot_step();
        k = k + 1;
    }
    Ok(driver.into_report(n_iters))
}

} // verus!
