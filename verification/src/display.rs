//! What a program may ask of the window that shows the interface.

use vstd::prelude::*;

verus! {

/// The optional settings of a display, given when it is created.
#[derive(Clone, Copy, Debug, PartialEq, Eq, Structural)]
pub struct DisplayDescritor {
    /// Whether the display has a border.
    pub border: bool,
    /// Whether the display shows a title.
    pub titled: bool,
    /// Whether the user may resize the display.
    pub resizable: bool,
    /// Whether the display stays above every display that is not topmost.
    pub topmost: bool,
    /// Whether the user may minimise the display.
    pub minimizable: bool,
}

impl DisplayDescritor {
    /// The settings of an ordinary window: bordered, titled and minimisable, of
    /// fixed size and not topmost.
    pub fn default() -> (d: DisplayDescritor)
        ensures
            d == (DisplayDescritor {
                border: true,
                titled: true,
                resizable: false,
                topmost: false,
                minimizable: true,
            }),
    {
        DisplayDescritor {
            border: true,
            titled: true,
            resizable: false,
            topmost: false,
            minimizable: true,
        }
    }
}

} // verus!
