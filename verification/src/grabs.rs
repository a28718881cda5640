//! Pointer and touch grabs: what each decides from the events that reach it.
use vstd::prelude::*;

pub mod dispatch_laws;
pub mod gesture_laws;
pub mod move_grab;
pub mod pan_grab;
pub mod resize_grab;
pub mod touch_fingers;
pub mod touch_gesture_grab;
pub mod touch_laws;
pub mod touch_plan;
pub mod touch_recognizer;

verus! {

} // verus!
