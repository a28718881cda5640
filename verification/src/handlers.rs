//! What the shell protocols' handlers decide.
use vstd::prelude::*;

pub mod compositor;
pub mod layer_shell;
pub mod window_laws;
pub mod xdg_shell;

verus! {

} // verus!
