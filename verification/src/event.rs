//! Events of the window and its input devices, and the things that react to
//! them.
use vstd::prelude::*;

verus! {

/// A key of the keyboard, by its code.
pub type VirtualKeyCode = u32;

/// A key of the keyboard, by its place.
pub type ScanCode = u8;

/// Whether an element (a key or a button) is down.
#[derive(Clone, Copy, Debug, PartialEq, Eq, Structural)]
pub enum ElementState {
    Pressed,
    Released,
}

/// A button of the mouse.
#[derive(Clone, Copy, Debug, PartialEq, Eq, Structural)]
pub enum MouseButton {
    Left,
    Right,
    Middle,
    Other(u8),
}

/// An event of the window or of an input device.
#[derive(Clone, Copy, Debug, PartialEq, Eq, Structural)]
pub enum Event {
    /// The window was closed.
    Closed,
    /// The window was resized to a width and a height.
    Resized(u32, u32),
    /// A key went down or up.
    KeyboardInput(ElementState, ScanCode, Option<VirtualKeyCode>),
    /// The pointer entered the window.
    MouseEntered,
    /// The pointer left the window.
    MouseLeft,
    /// A mouse button went down or up.
    MouseInput(ElementState, MouseButton),
    /// The pointer moved to a position in the window.
    MouseMoved(i32, i32),
    /// Any other event.
    Other,
}

/// Things that change with events.
pub trait React {
    fn react(&mut self, event: &Event);
}

impl React for () {
    fn react(&mut self, event: &Event) {
    }
}

} // verus!
