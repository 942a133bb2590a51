//! The outcome of asking KVM for the dirty-page bitmap of a memory slot.
//!
//! Bit `n` of the bitmap is set if page `n` of the slot has been written since the last reset of
//! the log. The bitmap is handed on as it is.
use vstd::prelude::*;

verus! {

/// Errors of the dirty-page tracker.
#[derive(Debug, Clone, Copy, PartialEq, Eq, Structural)]
pub enum DirtyTrackerError {
    /// `KVM_GET_DIRTY_LOG` failed for `slot` with the error number `errno`. A slot that was
    /// registered without dirty logging gives `EINVAL`.
    Kvm { slot: u32, errno: i32 },
}

/// The bitmap of `slot`, out of what `KVM_GET_DIRTY_LOG` gave: the bitmap or an error number.
pub fn get_dirty_log(slot: u32, outcome: Result<Vec<u64>, i32>) -> (r: Result<
    Vec<u64>,
    DirtyTrackerError,
>)
    ensures
        match outcome {
            Ok(bitmap) => r matches Ok(v) && v@ == bitmap@,
            Err(errno) => r == Err::<Vec<u64>, DirtyTrackerError>(
                DirtyTrackerError::Kvm { slot, errno },
            ),
        },
{
    match outcome {
        Ok(bitmap) => Ok(bitmap),
        Err(errno) => Err(DirtyTrackerError::Kvm { slot, errno }),
    }
}

} // verus!
