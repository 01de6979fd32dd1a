//! How many workgroups the compute passes dispatch.

use vstd::prelude::*;

use crate::grid::instance_count;

verus! {

/// Number of invocations in one workgroup of the compute shaders.
pub const WORKGROUP_SIZE: u32 = 64;

/// Least number of workgroups of `size` invocations that give every one of
/// `instances` particles an invocation.
pub open spec fn workgroups_needed(instances: int, size: int) -> int {
    (instances + size - 1) / size
}

/// Number of workgroups that cover `instances` particles: the quotient
/// `instances / WORKGROUP_SIZE`, rounded up.
pub fn workgroup_count(instances: u32) -> (groups: u32)
    ensures
        groups == workgroups_needed(instances as int, WORKGROUP_SIZE as int),
        groups * 64 >= instances,
        groups == 0 || (groups - 1) * 64 < instances,
{
    let whole = instances / WORKGROUP_SIZE;
    if instances % WORKGROUP_SIZE == 0 {
        whole
    } else {
        whole + 1
    }
}

/// Number of workgroups that each compute pass dispatches for a net of
/// `per_row` by `per_row` particles.
pub fn net_workgroup_count(per_row: u32) -> (groups: u32)
    requires
        per_row * per_row <= u32::MAX,
    ensures
        groups == workgroups_needed(per_row * per_row, WORKGROUP_SIZE as int),
        groups * 64 >= per_row * per_row,
        groups == 0 || (groups - 1) * 64 < per_row * per_row,
{
    workgroup_count(instance_count(per_row))
}

} // verus!
