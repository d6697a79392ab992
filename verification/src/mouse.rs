//! A mouse event, as the host hands it over.
use vstd::prelude::*;

use crate::chord::Modifiers;

verus! {

/// A mouse button, including the four scroll directions, which are buttons on the wire.
///
/// [`MouseButton::NoButton`] means no button is held, and is what a motion with everything up
/// carries.
#[derive(Clone, Copy, PartialEq, Eq, Hash, Debug, Structural)]
pub enum MouseButton {
    /// Left.
    Left,
    /// Middle.
    Middle,
    /// Right.
    Right,
    /// A tick of the wheel away from the user.
    WheelUp,
    /// A tick of the wheel toward the user.
    WheelDown,
    /// A tick of a horizontal wheel to the left.
    WheelLeft,
    /// A tick of a horizontal wheel to the right.
    WheelRight,
    /// The back button, reported as button 8.
    Back,
    /// The forward button, reported as button 9.
    Forward,
    /// No button.
    NoButton,
}

/// What happened to the mouse.
#[derive(Clone, Copy, PartialEq, Eq, Hash, Debug, Structural)]
pub enum MouseAction {
    /// A button went down.
    Press,
    /// A button came up.
    Release,
    /// The pointer moved.
    Motion,
}

/// A mouse event, in zero-based cell coordinates from the top-left of the grid.
#[derive(Clone, Copy, PartialEq, Eq, Hash, Debug, Structural)]
pub struct MouseEvent {
    /// The button involved, or [`MouseButton::NoButton`] for a motion with nothing held.
    pub button: MouseButton,
    /// What happened.
    pub action: MouseAction,
    /// The column, zero-based.
    pub col: u16,
    /// The row, zero-based.
    pub row: u16,
    /// The modifiers held.
    pub mods: Modifiers,
}

} // verus!
