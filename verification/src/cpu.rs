use vstd::prelude::*;

verus! {

#[verifier::external_type_specification]
#[verifier::external_body]
pub struct ExProcessTime(cpu_time::ProcessTime);

/// Relies on cpu_time's `ProcessTime::try_now`: a checkpoint of the process
/// CPU clock, or nothing where the platform refuses the reading.  The
/// checkpoint is opaque; nothing is assumed of it.
#[verifier::external_body]
pub(crate) fn cpu_now() -> (r: Option<cpu_time::ProcessTime>) {
    match cpu_time::ProcessTime::try_now() {
        Ok(t) => Some(t),
        Err(_) => None,
    }
}

/// Relies on cpu_time's `ProcessTime::try_elapsed`: the whole milliseconds of
/// process CPU time spent since the checkpoint, or nothing where the platform
/// refuses the reading.  The value depends on the machine and the moment of
/// the call, so nothing is assumed of it.
#[verifier::external_body]
pub(crate) fn cpu_elapsed_ms(start: &cpu_time::ProcessTime) -> (r: Option<u128>) {
    match start.try_elapsed() {
        Ok(d) => Some(d.as_millis()),
        Err(_) => None,
    }
}

} // verus!
