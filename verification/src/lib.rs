//! A renderer-agnostic core for retained-mode user interfaces.
//!
//! The crate holds a tree of widgets, lays it out, tracks which widgets must be
//! drawn anew, and keeps an ordered collection of draw instructions for a
//! renderer to paint. Opening windows, reading input devices and rasterising
//! are left to the program that embeds it.
//!
//! - [`util`]: vectors on the pixel grid, colours, the machine that hands out
//!   identities, and a queue.
//! - [`event`] and [`key_code`]: the events that widgets react to.
//! - [`widget`]: the kinds of widgets, what each does with an event and what
//!   each draws.
//! - [`tree`]: the arena that holds the widgets and the links between them.
//! - [`layout`]: where a widget places its children.
//! - [`rebuild`]: the build pass over a tree.
//! - [`dispatch`]: the way of an event through a tree.
//! - [`renderer`]: draw instructions, the collections that a renderer reads,
//!   and one round of the event loop.
//! - [`display`]: the settings of a window.
//!
//! Positions and sizes are whole pixels. Arithmetic on them never fails: a
//! coordinate that would leave the range of `i64` is held at the nearest bound.
//! Time is a count of clock ticks that the caller brings along with an event.

pub mod dispatch;
pub mod display;
pub mod event;
pub mod key_code;
pub mod layout;
pub mod rebuild;
pub mod renderer;
pub mod tree;
pub mod util;
pub mod widget;
