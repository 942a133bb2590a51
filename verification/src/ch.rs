//! The Cloud Hypervisor side: launching it, restoring into it, and minding it.
use vstd::prelude::*;

pub mod config_laws;
pub mod features;
pub mod hypervisor;
pub mod json;
pub mod launch;
pub mod log;
pub mod memory;
pub mod messages;
pub mod operation_laws;
pub mod protection;
pub mod restore;
pub mod rewrite_laws;
pub mod snapshot_rewrite;
pub mod start;
pub mod vcpu_tids;

verus! {

} // verus!
