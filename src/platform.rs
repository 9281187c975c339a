//! What only the host can tell: the number of CPUs.

use vstd::prelude::*;

verus! {

/// Relies on `num_cpus::get`: the number of CPUs available to this process,
/// which its documentation promises is at least 1.
#[verifier::external_body]
pub(crate) fn cpu_count() -> (r: usize)
    ensures
        r >= 1,
{
    num_cpus::get()
}

} // verus!
