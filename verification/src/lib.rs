//! Verified core of the micro-VM snapshot format and of the restore path around it.
use vstd::prelude::*;

pub mod annotations;
pub mod ch;
pub mod snapshot;
pub mod text;
pub mod wire;

verus! {

} // verus!
