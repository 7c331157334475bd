use vstd::prelude::*;
use crate::bn::{bn_gcd, bn_is_one, bn_rand_below, bn_value};
use crate::errors::{BenchError, PrimitiveKind};
use crate::number_theory::gcd_nat;

verus! {

/// Most random draws the sampler spends on any single output before it treats
/// the randomness source as broken.  For a modulus that is the product of two
/// large primes the chance of even one rejection is astronomically small, so
/// the ceiling exists only to convert a pathological source into a clean
/// failure instead of an endless loop.
pub const MAX_REJECTIONS_PER_SAMPLE: u64 = 65536;

/// Draws invertible residues modulo a composite by rejection sampling.  A
/// draw is accepted exactly when its greatest common divisor with the modulus
/// is one; such a residue is what the benchmark treats as a quadratic
/// residue, without true quadratic-residue verification.
pub struct QuadraticResidueSampler;

impl QuadraticResidueSampler {
    /// Produces `count` random values modulo `modulus`, each invertible: in
    /// `[0, modulus)` and coprime to the modulus.  Draws that share a factor
    /// with the modulus are rejected and redrawn.
    pub fn sample(
        modulus: &openssl::bn::BigNum,
        count: u64,
        ctx: &mut openssl::bn::BigNumContext,
    ) -> (r: Result<Vec<openssl::bn::BigNum>, BenchError>)
        requires
            bn_value(*modulus) >= 1,
        ensures
            r is Ok ==> r->Ok_0@.len() == count,
            r is Ok ==> forall|j: int|
                0 <= j < r->Ok_0@.len() ==> bn_value(r->Ok_0@[j]) < bn_value(*modulus) && gcd_nat(
                    bn_value(r->Ok_0@[j]),
                    bn_value(*modulus),
                ) == 1,
    {
        let mut out: Vec<openssl::bn::BigNum> = Vec::new();
        let mut produced: u64 = 0;
        while produced < count
            invariant
                bn_value(*modulus) >= 1,
                produced <= count,
                out@.len() == produced,
                forall|j: int|
                    0 <= j < out@.len() ==> bn_value(out@[j]) < bn_value(*modulus) && gcd_nat(
                        bn_value(out@[j]),
                        bn_value(*modulus),
                    ) == 1,
            decreases count - produced,
        {
            let mut attempts: u64 = 0;
            let mut accepted: Option<openssl::bn::BigNum> = None;
            while attempts < MAX_REJECTIONS_PER_SAMPLE && accepted.is_none()
                invariant
                    bn_value(*modulus) >= 1,
                    attempts <= MAX_REJECTIONS_PER_SAMPLE,
                    accepted is Some ==> bn_value(accepted->Some_0) < bn_value(*modulus)
                        && gcd_nat(bn_value(accepted->Some_0), bn_value(*modulus)) == 1,
                decreases MAX_REJECTIONS_PER_SAMPLE - attempts,
            {
                let candidate = match bn_rand_below(modulus) {
                    Ok(c) => c,
                    Err(_) => {
                        return Err(BenchError::PrimitiveFailure(PrimitiveKind::RandomSampling));
                    },
                };
                let g = match bn_gcd(&candidate, modulus, ctx) {
                    Ok(g) => g,
                    Err(_) => {
                        return Err(BenchError::PrimitiveFailure(PrimitiveKind::GcdComputation));
                    },
                };
                let coprime = match bn_is_one(&g) {
                    Ok(b) => b,
                    Err(_) => {
                        return Err(BenchError::PrimitiveFailure(PrimitiveKind::CoprimalityCheck));
                    },
                };
                if coprime {
                    accepted = Some(candidate);
                }
                attempts = attempts + 1;
            }
            match accepted {
                Some(v) => {
                    out.push(v);
                    produced = produced + 1;
                },
                None => {
                    return Err(BenchError::PrimitiveFailure(PrimitiveKind::SamplingExhausted));
                },
            }
        }
        Ok(out)
    }
}

} // verus!
