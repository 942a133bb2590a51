//! Annotations that other projects define but that change the behaviour of the runtime.
use vstd::prelude::*;

verus! {

/// Annotation to enable SGX: hardware-based isolation and memory encryption.
pub const SGX_EPC: &'static str = "sgx.intel.com/epc";

/// Where it is present on the specification of a new sandbox, the sandbox is restored from a
/// snapshot and not booted. The value is the absolute path of a snapshot directory that holds the
/// hypervisor's state and configuration files.
pub const SANDBOX_SNAPSHOT_RESTORE_FROM_PATH: &'static str = "podsnapshot.aks.io/restore-from-path";

} // verus!
