//! What the display backends compute and decide.
use vstd::prelude::*;

pub mod cvt;
pub mod winit;

verus! {

} // verus!
