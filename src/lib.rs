//! Debug capture of strided four-axis float tensors: accumulate named
//! tensors for the current step, fold them into an ordered step record,
//! and persist or reload them as bytes.
use vstd::prelude::*;

pub mod tensor;
pub mod layout;
pub mod capture;
pub mod codec;
pub mod session;

verus! {

} // verus!
