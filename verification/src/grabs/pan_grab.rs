//! Panning the canvas with the pointer: click or drag.
use vstd::prelude::*;

use crate::config::numbers;
use crate::config::numbers::Real;

verus! {

/// The bits of 25.0: the squared distance, in screen pixels, from which a
/// press and release is a drag and no click.
pub const CLICK_THRESHOLD_SQ: u64 = 0x4039_0000_0000_0000;

/// What a pan grab holds of the pan.
#[derive(Clone, Copy, Debug, PartialEq, Eq, Structural)]
pub struct PanGrab {
    pub from_empty_canvas: bool,
    /// The pointer has moved past the click threshold from its start.
    pub dragged: bool,
}

/// Where a motion goes.
#[derive(Clone, Copy, Debug, PartialEq, Eq, Structural)]
pub enum PanRoute {
    /// Routing crossed to another output: put the pointer back where it last
    /// was in bounds, and drop the event.
    SnapBack,
    /// Pan by the motion.
    Pan,
}

/// What a button event ends.
#[derive(Clone, Copy, Debug, PartialEq, Eq, Structural)]
pub struct PanRelease {
    /// A click on empty canvas: nothing is focused anymore.
    pub clear_focus: bool,
}

impl PanGrab {
    /// A pan that has just started.
    pub fn new(from_empty_canvas: bool) -> (r: PanGrab)
        ensures
            r == (PanGrab { from_empty_canvas, dragged: false }),
    {
        PanGrab { from_empty_canvas, dragged: false }
    }

    /// Where a motion goes.
    pub fn route(&self, other_output: bool) -> (r: PanRoute)
        ensures
            r == (if other_output {
                PanRoute::SnapBack
            } else {
                PanRoute::Pan
            }),
    {
        if other_output {
            PanRoute::SnapBack
        } else {
            PanRoute::Pan
        }
    }

    /// Note how far the pointer is from its start, squared. Once past the
    /// threshold, the pan stays a drag.
    pub fn motion(&mut self, distance_sq: &Real)
        ensures
            *final(self) == (PanGrab {
                dragged: old(self).dragged || numbers::at_least(
                    *distance_sq,
                    Real { bits: CLICK_THRESHOLD_SQ },
                ),
                ..*old(self)
            }),
    {
        let threshold: Real = Real { bits: CLICK_THRESHOLD_SQ };
        if !self.dragged && distance_sq.at_least(&threshold) {
            self.dragged = true;
        }
    }

    /// What a button event ends: nothing while a button is still pressed.
    pub fn button(&self, any_pressed: bool) -> (r: Option<PanRelease>)
        ensures
            r == (if any_pressed {
                None
            } else {
                Some(PanRelease { clear_focus: self.from_empty_canvas && !self.dragged })
            }),
    {
        if any_pressed {
            None
        } else {
            Some(PanRelease { clear_focus: self.from_empty_canvas && !self.dragged })
        }
    }
}

} // verus!
