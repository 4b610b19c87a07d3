//! The event model the router works on.
//!
//! Terminal input arrives at the application edge as backend-specific
//! key and mouse events; the shell around the library translates them
//! into these plain values before the engine sees them.  Events the
//! engine does not recognise come back as not consumed, so an outer
//! dispatcher can route them elsewhere.

use vstd::prelude::*;

verus! {

/// A key press, as the engine reads it.
#[derive(Clone, Copy, PartialEq, Eq, Structural, Debug)]
pub enum KeyInput {
    /// Move the selection up one row.
    Up,
    /// Move the selection down one row.
    Down,
    /// Scroll up one window.
    PageUp,
    /// Scroll down one window.
    PageDown,
    /// Jump to the first row.
    Home,
    /// Jump to the last row.
    End,
    /// Toggle the sort on the column left of the active one.
    SortLeft,
    /// Toggle the sort on the column right of the active one.
    SortRight,
    /// Hand the selected row to the host application.
    Activate,
    /// Anything else; forwarded unhandled.
    Other,
}

/// A mouse event, with coordinates relative to the widget's content
/// area (borders stripped): row 0 is the header.
#[derive(Clone, Copy, PartialEq, Eq, Structural, Debug)]
pub enum MouseInput {
    /// A click at content column `x`, content row `y`.
    Click { x: u16, y: u16 },
    /// One wheel notch up.
    WheelUp,
    /// One wheel notch down.
    WheelDown,
}

/// What became of an event.
#[derive(Clone, Copy, PartialEq, Eq, Structural, Debug)]
pub enum EventOutcome {
    /// The event was not for this widget; route it elsewhere.
    NotConsumed,
    /// The event changed this widget's state.
    Consumed,
    /// The event activated the row at this position in the data set;
    /// the host application decides what that means.
    Activated(usize),
}

} // verus!
