//! Annotations that change the behaviour of the runtime.
use vstd::prelude::*;

pub mod thirdparty;

verus! {

} // verus!
