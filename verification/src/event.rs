//! The input events that the display reports and the widgets react to.

use crate::key_code::KeyCode;
use vstd::prelude::*;

verus! {

/// Which modifier keys are held down.
#[derive(Debug, Copy, Clone, PartialEq, Eq, Structural)]
pub struct ModifiersState {
    /// Whether a shift key is pressed.
    pub shift: bool,
    /// Whether a control key is pressed.
    pub control: bool,
    /// Whether an alt key is pressed.
    pub alt: bool,
    /// Whether a logo key is pressed (the Windows key, the command key).
    pub logo: bool,
}

impl ModifiersState {
    /// Whether every modifier that `required` asks for is held in `self`.
    pub open spec fn covers(self, required: ModifiersState) -> bool {
        &&& required.shift ==> self.shift
        &&& required.control ==> self.control
        &&& required.alt ==> self.alt
        &&& required.logo ==> self.logo
    }

    /// Whether `self` has at least the modifiers of `modifiers` enabled. Further
    /// modifiers held in `self` do not matter.
    pub fn matches(&self, modifiers: ModifiersState) -> (m: bool)
        ensures
            m == self.covers(modifiers),
    {
        let shift = !modifiers.shift || self.shift;
        let control = !modifiers.control || self.control;
        let alt = !modifiers.alt || self.alt;
        let logo = !modifiers.logo || self.logo;

        shift && control && alt && logo
    }
}

/// Matching is reflexive and transitive, and the state with no modifier held
/// is matched by every state.
pub proof fn lemma_matches_is_a_preorder(a: ModifiersState, b: ModifiersState, c: ModifiersState)
    ensures
        a.covers(a),
        a.covers(b) && b.covers(c) ==> a.covers(c),
        a.covers(ModifiersState { shift: false, control: false, alt: false, logo: false }),
{
}

/// A keyboard event.
#[derive(Debug, Copy, Clone, PartialEq, Eq, Structural)]
pub enum Keyboard {
    /// A key was pressed.
    KeyPressed {
        /// The key.
        key_code: KeyCode,
        /// The modifiers held at that moment.
        modifiers: ModifiersState,
    },
    /// A key was released.
    KeyReleased {
        /// The key.
        key_code: KeyCode,
        /// The modifiers held at that moment.
        modifiers: ModifiersState,
    },
    /// The set of modifiers held has changed.
    ModifiersChanged(ModifiersState),
}

/// A mouse event.
#[derive(Debug, Copy, Clone, PartialEq, Eq, Structural)]
pub enum Mouse {
    /// A button was pressed.
    ButtonPressed(MouseButton),
    /// A button was released.
    ButtonReleased(MouseButton),
    /// The cursor entered the window.
    CursorEntered,
    /// The cursor left the window.
    CursorLeft,
    /// The cursor moved.
    CursorMoved {
        /// The X coordinate of the cursor.
        x: usize,
        /// The Y coordinate of the cursor.
        y: usize,
    },
    /// The wheel was turned.
    WheelScrolled {
        /// How far.
        delta: ScrollDelta,
    },
}

/// A mouse button.
#[derive(Debug, Copy, Clone, PartialEq, Eq, Structural)]
pub enum MouseButton {
    /// The left button.
    Left,
    /// The right button.
    Right,
    /// The middle button (the wheel).
    Middle,
    /// Another button.
    Other(u8),
}

/// How far a scroll moved.
#[derive(Debug, Copy, Clone, PartialEq, Eq, Structural)]
pub enum ScrollDelta {
    /// A movement measured in whole pixels.
    Pixels {
        /// Pixels scrolled horizontally.
        x: i64,
        /// Pixels scrolled vertically.
        y: i64,
    },
}

/// A window event.
#[derive(Debug, Copy, Clone, PartialEq, Eq, Structural)]
pub enum Window {
    /// The window was resized.
    Resized {
        /// The new width.
        width: u32,
        /// The new height.
        height: u32,
    },
}

/// An event of the user interface.
#[derive(Debug, Copy, Clone, PartialEq, Eq, Structural)]
pub enum Event {
    /// A keyboard event.
    Keyboard(Keyboard),
    /// A mouse event.
    Mouse(Mouse),
    /// A window event.
    Window(Window),
}

} // verus!
