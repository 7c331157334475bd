use vstd::prelude::*;

verus! {

/// Identifies which underlying primitive failed when a benchmark run aborts.
#[derive(Clone, Copy, PartialEq, Eq, Structural, Debug)]
pub enum PrimitiveKind {
    /// Allocating the big-number context failed.
    ContextAllocation,
    /// Safe-prime generation failed.
    PrimeGeneration,
    /// Computing the composite modulus failed.
    Multiplication,
    /// Drawing a random residue failed.
    RandomSampling,
    /// Computing a greatest common divisor failed.
    GcdComputation,
    /// Testing a computed gcd against one failed.
    CoprimalityCheck,
    /// Reading the process CPU clock failed.
    CpuTimeRead,
    /// The CPU clock returned a duration outside the range the statistics
    /// accept, or durations whose phases do not nest.
    TimingRange,
    /// The rejection sampler exhausted its retry budget.
    SamplingExhausted,
}

/// A fatal error of a benchmark run.  Every failure aborts the run: the tool
/// has no partial-result or resume semantics.
#[derive(Clone, Copy, PartialEq, Eq, Structural, Debug)]
pub enum BenchError {
    /// An underlying cryptographic, arithmetic or timing primitive failed.
    PrimitiveFailure(PrimitiveKind),
    /// A mean or standard deviation was requested of an empty series; the
    /// driver guarantees at least one sample before each snapshot, so this
    /// marks an invariant violation.
    StatisticsUndefined,
}

} // verus!
