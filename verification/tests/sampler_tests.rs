use creddef_bench::sampler::QuadraticResidueSampler;
use openssl::bn::{BigNum, BigNumContext};

fn bn_to_u64(b: &BigNum) -> u64 {
    let bytes = b.to_vec();
    let mut v: u64 = 0;
    for byte in bytes {
        v = v * 256 + byte as u64;
    }
    v
}

fn gcd_u64(mut a: u64, mut b: u64) -> u64 {
    while b != 0 {
        let r = a % b;
        a = b;
        b = r;
    }
    a
}

#[test]
fn sample_returns_exactly_k_invertible_residues() {
    let n = BigNum::from_u32(15).unwrap();
    let mut ctx = BigNumContext::new().unwrap();
    let out = QuadraticResidueSampler::sample(&n, 10, &mut ctx).unwrap();
    assert_eq!(out.len(), 10);
    for r in &out {
        let v = bn_to_u64(r);
        assert!(v < 15);
        assert_eq!(gcd_u64(v, 15), 1);
    }
}

#[test]
fn sample_rejects_shared_factors_of_a_semiprime() {
    // modulus 35 = 5 * 7: multiples of 5 or 7 share a factor and must never
    // come back
    let n = BigNum::from_u32(35).unwrap();
    let mut ctx = BigNumContext::new().unwrap();
    let out = QuadraticResidueSampler::sample(&n, 25, &mut ctx).unwrap();
    assert_eq!(out.len(), 25);
    for r in &out {
        let v = bn_to_u64(r);
        assert!(v < 35);
        assert!(v % 5 != 0);
        assert!(v % 7 != 0);
    }
}

#[test]
fn sample_of_zero_count_is_empty() {
    let n = BigNum::from_u32(21).unwrap();
    let mut ctx = BigNumContext::new().unwrap();
    let out = QuadraticResidueSampler::sample(&n, 0, &mut ctx).unwrap();
    assert_eq!(out.len(), 0);
}
