//! The input events that the game reacts to.

use vstd::prelude::*;

verus! {

/// A button of the pointer.
#[derive(Clone, Copy, Debug, PartialEq, Eq, Structural)]
pub enum MouseButton {
    Left,
    Middle,
    Right,
    Other,
}

/// A key of the keyboard: the four keys that scroll the camera, and every
/// other key.
#[derive(Clone, Copy, Debug, PartialEq, Eq, Structural)]
pub enum Key {
    W,
    A,
    S,
    D,
    Other,
}

/// An input event.
#[derive(Clone, Copy, Debug, PartialEq, Eq, Structural)]
pub enum Event {
    /// A pointer button went down or up.
    PointerInput { button: MouseButton, is_down: bool },
    /// The pointer moved to `location`.
    PointerMoved { location: crate::geom::ScreenPoint },
    /// A key went down or up.
    KeyboardInput { key: Key, is_down: bool },
}

impl Event {
    /// Whether the event is a press of the left pointer button.
    pub open spec fn spec_is_left_press(self) -> bool {
        self matches Event::PointerInput { button, is_down } && button == MouseButton::Left
            && is_down
    }

    /// Whether the event is a press of the left pointer button.
    pub fn is_left_press(&self) -> (pressed: bool)
        ensures
            pressed == self.spec_is_left_press(),
    {
        match self {
            Event::PointerInput { button, is_down } => *is_down && *button == MouseButton::Left,
            _ => false,
        }
    }
}

} // verus!
