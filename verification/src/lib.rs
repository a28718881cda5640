//! The decision logic of an infinite-canvas window manager.
use vstd::prelude::*;

pub mod backend;
pub mod canvas;
pub mod config;
pub mod decision_laws;
pub mod decorations;
pub mod desktop_entry;
pub mod entry_laws;
pub mod geometry;
pub mod grabs;
pub mod handlers;
pub mod text;
pub mod text_laws;

verus! {

} // verus!
