use vstd::prelude::*;
use crate::number_theory::{gcd_nat, is_prime};

verus! {

#[verifier::external_type_specification]
#[verifier::external_body]
pub struct ExBigNum(openssl::bn::BigNum);

#[verifier::external_type_specification]
#[verifier::external_body]
pub struct ExBigNumContext(openssl::bn::BigNumContext);

#[verifier::external_type_specification]
#[verifier::external_body]
pub struct ExErrorStack(openssl::error::ErrorStack);

/// The natural number a big-number value holds.  Every contract on the
/// big-number wrappers speaks of values through this function.
pub uninterp spec fn bn_value(b: openssl::bn::BigNum) -> nat;

/// Relies on openssl's `BigNumContext::new_secure`: allocates the scratch
/// context the modular-arithmetic routines require.
#[verifier::external_body]
pub(crate) fn bn_ctx_new() -> (r: Result<openssl::bn::BigNumContext, openssl::error::ErrorStack>) {
    openssl::bn::BigNumContext::new_secure()
}

/// Relies on openssl's `BigNumRef::generate_prime` with `safe` set: on success
/// the result is a (probabilistically certified) safe prime of the requested
/// bit length, so both it and its half-less-one are prime, and it is at least
/// five, the smallest safe prime.
#[verifier::external_body]
pub(crate) fn bn_generate_safe_prime(bits: u32) -> (r: Result<
    openssl::bn::BigNum,
    openssl::error::ErrorStack,
>)
    requires
        3 <= bits <= 1000000,
    ensures
        r is Ok ==> is_prime(bn_value(r->Ok_0)) && is_prime(
            ((bn_value(r->Ok_0) - 1) / 2) as nat,
        ) && bn_value(r->Ok_0) >= 5,
{
    let mut p = openssl::bn::BigNum::new()?;
    p.generate_prime(bits as i32, true, None, None)?;
    Ok(p)
}

/// Relies on openssl's `BigNumRef::checked_mul`: on success the result holds
/// the exact, non-modular product of the two arguments.
#[verifier::external_body]
pub(crate) fn bn_mul(
    a: &openssl::bn::BigNum,
    b: &openssl::bn::BigNum,
    ctx: &mut openssl::bn::BigNumContext,
) -> (r: Result<openssl::bn::BigNum, openssl::error::ErrorStack>)
    ensures
        r is Ok ==> bn_value(r->Ok_0) == bn_value(*a) * bn_value(*b),
{
    let mut n = openssl::bn::BigNum::new()?;
    n.checked_mul(a, b, ctx)?;
    Ok(n)
}

/// Relies on openssl's `BigNumRef::rand_range`: on success the result is a
/// cryptographically random nonnegative value strictly below the modulus.
/// Nothing more is assumed: two calls on one modulus may differ.
#[verifier::external_body]
pub(crate) fn bn_rand_below(modulus: &openssl::bn::BigNum) -> (r: Result<
    openssl::bn::BigNum,
    openssl::error::ErrorStack,
>)
    requires
        bn_value(*modulus) >= 1,
    ensures
        r is Ok ==> bn_value(r->Ok_0) < bn_value(*modulus),
{
    let mut v = openssl::bn::BigNum::new()?;
    modulus.rand_range(&mut v)?;
    Ok(v)
}

/// Relies on openssl's `BigNumRef::gcd`: on success the result holds the
/// greatest common divisor of the two arguments, which Euclid's recursion
/// computes.
#[verifier::external_body]
pub(crate) fn bn_gcd(
    a: &openssl::bn::BigNum,
    b: &openssl::bn::BigNum,
    ctx: &mut openssl::bn::BigNumContext,
) -> (r: Result<openssl::bn::BigNum, openssl::error::ErrorStack>)
    ensures
        r is Ok ==> bn_value(r->Ok_0) == gcd_nat(bn_value(*a), bn_value(*b)),
{
    let mut g = openssl::bn::BigNum::new()?;
    g.gcd(a, b, ctx)?;
    Ok(g)
}

/// Relies on openssl's `BigNum::from_u32` and the `PartialEq` of big numbers,
/// which compares the held values: tells whether the argument holds one.
#[verifier::external_body]
pub(crate) fn bn_is_one(b: &openssl::bn::BigNum) -> (r: Result<bool, openssl::error::ErrorStack>)
    ensures
        r is Ok ==> (r->Ok_0 <==> bn_value(*b) == 1),
{
    let one = openssl::bn::BigNum::from_u32(1)?;
    Ok(*b == one)
}

} // verus!
