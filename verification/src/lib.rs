pub mod aggregate;
pub mod errors;
pub mod guard;
pub mod orchestrator;
pub mod ports;
pub mod sampler;
pub mod series;
pub mod version;

use vstd::prelude::*;

verus! {

/// Converts a duration given as whole seconds plus a sub-second
/// millisecond remainder into a total number of milliseconds.
pub fn duration_to_ms(secs: u64, subsec_millis: u32) -> (r: u64)
    requires
        secs * 1000 + subsec_millis <= u64::MAX,
    ensures
        r == secs * 1000 + subsec_millis,
{
    secs * 1000 + subsec_millis as u64
}

} // verus!
