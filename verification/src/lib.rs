//! Benchmark harness for the cost of generating anonymous-credential setup
//! material: two large safe primes, their composite product, and a configurable
//! number of invertible residues modulo that product.  CPU time is measured for
//! three phases (full generation, prime generation, residue sampling) across a
//! sweep of attribute counts, and per-configuration mean and population
//! standard deviation are reported in fixed-point micro-milliseconds.

pub mod bn;
pub mod cpu;
pub mod driver;
pub mod errors;
pub mod generator;
pub mod number_theory;
pub mod parse;
pub mod report;
pub mod sampler;
pub mod stats;
