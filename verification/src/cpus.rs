//! How many workers to run, going by the processors of the machine.

use vstd::prelude::*;

verus! {

/// Calls `num_cpus::get`. Trusted: the number of logical processors that
/// the process may use, which that crate documents to be at least one.
#[verifier::external_body]
fn logical_cpus() -> (n: usize)
    ensures
        n >= 1,
{
    num_cpus::get()
}

/// Calls `num_cpus::get_physical`. Trusted: the number of physical cores,
/// which that crate documents to be at least one.
#[verifier::external_body]
fn physical_cpus() -> (n: usize)
    ensures
        n >= 1,
{
    num_cpus::get_physical()
}

/// The larger of the two processor counts.
pub fn larger_count(logical: usize, physical: usize) -> (n: usize)
    ensures
        n == if logical < physical {
            physical
        } else {
            logical
        },
{
    if logical < physical {
        physical
    } else {
        logical
    }
}

/// The number of workers for a pool that was asked to have `size` of them,
/// on a machine with `processors` processors: `size`, or one worker for
/// each processor where `size` is zero.
pub fn pool_size(size: usize, processors: usize) -> (n: usize)
    ensures
        n == if size < 1 {
            processors
        } else {
            size
        },
{
    if size < 1 {
        processors
    } else {
        size
    }
}

/// The number of processors of this machine: the number of logical
/// processors or that of physical cores, whichever is larger.
pub fn cpus() -> (n: usize)
    ensures
        n >= 1,
{
    let logical = logical_cpus();
    let physical = physical_cpus();
    larger_count(logical, physical)
}

} // verus!
