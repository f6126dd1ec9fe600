//! Moving the instruction pointers of frozen threads across a patch, so that
//! each thread resumes correctly whichever side of the write it stopped on.
use vstd::prelude::*;

verus! {

/// Where a thread stopped at `ip` resumes once a hook of `target`, with its
/// first `len` bytes relocated to `trampoline`, is enabled (`enabling`) or
/// disabled: inside the overwritten bytes it moves to the same offset of the
/// trampoline, and back on disable.
pub open spec fn moved_ip(ip: u64, target: u64, trampoline: u64, len: u64, enabling: bool) -> int {
    if enabling {
        if target <= ip < target + len {
            trampoline + (ip - target)
        } else {
            ip as int
        }
    } else {
        if trampoline <= ip < trampoline + len {
            target + (ip - trampoline)
        } else {
            ip as int
        }
    }
}

/// The position a thread stopped at `ip` resumes at.
pub fn relocate_ip(ip: u64, target: u64, trampoline: u64, len: u64, enabling: bool) -> (r: u64)
    requires
        target + len <= u64::MAX,
        trampoline + len <= u64::MAX,
    ensures
        r == moved_ip(ip, target, trampoline, len, enabling),
{
    if enabling {
        if target <= ip && ip < target + len {
            trampoline + (ip - target)
        } else {
            ip
        }
    } else {
        if trampoline <= ip && ip < trampoline + len {
            target + (ip - trampoline)
        } else {
            ip
        }
    }
}

/// Relocates the instruction pointers of a snapshot of frozen threads.
pub fn relocate_ips(ips: &mut Vec<u64>, target: u64, trampoline: u64, len: u64, enabling: bool)
    requires
        target + len <= u64::MAX,
        trampoline + len <= u64::MAX,
    ensures
        final(ips)@.len() == old(ips)@.len(),
        forall|i: int|
            0 <= i < old(ips)@.len() ==> final(ips)@[i] == moved_ip(
                #[trigger] old(ips)@[i],
                target,
                trampoline,
                len,
                enabling,
            ),
{
    let mut i: usize = 0;
    while i < ips.len()
        invariant
            target + len <= u64::MAX,
            trampoline + len <= u64::MAX,
            ips@.len() == old(ips)@.len(),
            i <= ips@.len(),
            forall|j: int|
                0 <= j < i ==> ips@[j] == moved_ip(#[trigger] old(ips)@[j], target, trampoline, len, enabling),
            forall|j: int| i <= j < ips@.len() ==> ips@[j] == old(ips)@[j],
        decreases ips@.len() - i,
    {
        let moved = relocate_ip(ips[i], target, trampoline, len, enabling);
        ips.set(i, moved);
        i = i + 1;
    }
}

} // verus!
