use vstd::prelude::*;
use crate::bn::{bn_generate_safe_prime, bn_mul, bn_value};
use crate::cpu::{cpu_elapsed_ms, cpu_now};
use crate::errors::{BenchError, PrimitiveKind};
use crate::sampler::QuadraticResidueSampler;
use crate::stats::MAX_SAMPLE_MS;

verus! {

/// Fixed bit length of each safe prime in the standard benchmark setup.
pub const PRIME_BITS: u32 = 1024;

/// The CPU cost of one credential-material generation, split by phase, in
/// whole milliseconds.
#[derive(Clone, Copy, PartialEq, Eq, Structural, Debug)]
pub struct TimingBreakdown {
    /// CPU time of the whole generation.
    pub total_ms: u64,
    /// CPU time of generating the two safe primes.
    pub primes_ms: u64,
    /// CPU time of sampling the invertible residues.
    pub qrs_ms: u64,
}

/// Produces two safe primes and their composite product, samples invertible
/// residues modulo the product, and reports only what each phase cost: the
/// material itself is discarded at the end of the call.
pub struct CredentialMaterialGenerator;

impl CredentialMaterialGenerator {
    /// One timed generation with the standard prime size.
    pub fn generate(attribute_count: u64, ctx: &mut openssl::bn::BigNumContext) -> (r: Result<
        TimingBreakdown,
        BenchError,
    >)
        ensures
            r is Ok ==> r->Ok_0.total_ms <= MAX_SAMPLE_MS && r->Ok_0.primes_ms + r->Ok_0.qrs_ms
                <= r->Ok_0.total_ms,
    {
        Self::generate_with_bits(attribute_count, PRIME_BITS, ctx)
    }

    /// One timed generation with a chosen prime size.  The phase checkpoints
    /// nest: the prime phase and the residue phase both lie inside the
    /// all-phases window, so on a sane process CPU clock the two phase
    /// durations sum to at most the total.  A reading that breaks that bound,
    /// or exceeds what the statistics accept, is reported as a failure of the
    /// timing primitive.
    pub fn generate_with_bits(
        attribute_count: u64,
        prime_bits: u32,
        ctx: &mut openssl::bn::BigNumContext,
    ) -> (r: Result<TimingBreakdown, BenchError>)
        requires
            3 <= prime_bits <= 1000000,
        ensures
            r is Ok ==> r->Ok_0.total_ms <= MAX_SAMPLE_MS && r->Ok_0.primes_ms + r->Ok_0.qrs_ms
                <= r->Ok_0.total_ms,
    {
        let all_start = match cpu_now() {
            Some(t) => t,
            None => {
                return Err(BenchError::PrimitiveFailure(PrimitiveKind::CpuTimeRead));
            },
        };
        let primes_start = match cpu_now() {
            Some(t) => t,
            None => {
                return Err(BenchError::PrimitiveFailure(PrimitiveKind::CpuTimeRead));
            },
        };
        let p = match bn_generate_safe_prime(prime_bits) {
            Ok(v) => v,
            Err(_) => {
                return Err(BenchError::PrimitiveFailure(PrimitiveKind::PrimeGeneration));
            },
        };
        let q = match bn_generate_safe_prime(prime_bits) {
            Ok(v) => v,
            Err(_) => {
                return Err(BenchError::PrimitiveFailure(PrimitiveKind::PrimeGeneration));
            },
        };
        let primes_elapsed = match cpu_elapsed_ms(&primes_start) {
            Some(d) => d,
            None => {
                return Err(BenchError::PrimitiveFailure(PrimitiveKind::CpuTimeRead));
            },
        };
        let modulus = match bn_mul(&p, &q, ctx) {
            Ok(v) => v,
            Err(_) => {
                return Err(BenchError::PrimitiveFailure(PrimitiveKind::Multiplication));
            },
        };
        proof {
            assert(bn_value(modulus) >= 1) by (nonlinear_arith)
                requires
                    bn_value(modulus) == bn_value(p) * bn_value(q),
                    bn_value(p) >= 5,
                    bn_value(q) >= 5,
            ;
        }
        let qrs_start = match cpu_now() {
            Some(t) => t,
            None => {
                return Err(BenchError::PrimitiveFailure(PrimitiveKind::CpuTimeRead));
            },
        };
        let _residues = match QuadraticResidueSampler::sample(&modulus, attribute_count, ctx) {
            Ok(v) => v,
            Err(e) => {
                return Err(e);
            },
        };
        let qrs_elapsed = match cpu_elapsed_ms(&qrs_start) {
            Some(d) => d,
            None => {
                return Err(BenchError::PrimitiveFailure(PrimitiveKind::CpuTimeRead));
            },
        };
        let total_elapsed = match cpu_elapsed_ms(&all_start) {
            Some(d) => d,
            None => {
                return Err(BenchError::PrimitiveFailure(PrimitiveKind::CpuTimeRead));
            },
        };
        if total_elapsed > (MAX_SAMPLE_MS as u128) {
            return Err(BenchError::PrimitiveFailure(PrimitiveKind::TimingRange));
        }
        if primes_elapsed > total_elapsed || qrs_elapsed > total_elapsed {
            return Err(BenchError::PrimitiveFailure(PrimitiveKind::TimingRange));
        }
        if primes_elapsed + qrs_elapsed > total_elapsed {
            return Err(BenchError::PrimitiveFailure(PrimitiveKind::TimingRange));
        }
        Ok(
            TimingBreakdown {
                total_ms: total_elapsed as u64,
                primes_ms: primes_elapsed as u64,
                qrs_ms: qrs_elapsed as u64,
            },
        )
    }
}

} // verus!
