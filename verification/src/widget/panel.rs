//! A container that reacts to the left button on it and to the right button
//! beside it.

use crate::event::{Event, Mouse, MouseButton};
use crate::renderer::{Message, RenderInstruction};
use crate::util::{Color, Queue, Vector2D};
use crate::widget::{
    covers, cursor_at, cursor_point, elapsed, emit, hit, sent, stamped, Fields, Layout, Outcome,
    Reaction,
};
use vstd::prelude::*;

verus! {

/// How long a button must be held for a long press, in the unit of the clock.
pub const ON_LONG_PRESS_TIME: u64 = 500;

/// A panel: armed by the left button when the cursor is on it, and by the
/// right button when the cursor is off it.
pub struct PanelWidget {
    pub fields: Fields,
    /// Whether the panel reacts at all.
    pub is_clickable: bool,
    /// The colour of the panel.
    pub background_color: Color,
    /// Sent when a button is released soon after it was pressed.
    pub on_press: Option<Message>,
    /// Sent when a button is released late.
    pub on_long_press: Option<Message>,
    /// Whether a button is held down.
    pub is_pressed: bool,
    /// When a button was pressed last.
    pub click_time: u64,
    /// Where the cursor was seen last.
    pub cursor_pos: Vector2D,
}

impl PanelWidget {
    /// Whether the cursor is on the panel.
    pub open spec fn hovered(self) -> bool {
        covers(self.fields.position, self.fields.size, self.cursor_pos)
    }

    /// Whether a press arms the panel.
    pub open spec fn armed(self) -> bool {
        self.is_clickable && (self.on_press.is_some() || self.on_long_press.is_some())
    }

    /// The message that a release at `now` sends: a press before the threshold,
    /// a long press from it on.
    pub open spec fn released(self, now: u64) -> Option<Message> {
        if elapsed(now, self.click_time) < ON_LONG_PRESS_TIME {
            self.on_press
        } else {
            self.on_long_press
        }
    }

    /// Whether `button` counts where the cursor is: the left button on the
    /// panel, the right button off it.
    pub open spec fn concerns(self, button: MouseButton) -> bool {
        match button {
            MouseButton::Left => self.hovered(),
            MouseButton::Right => !self.hovered(),
            _ => false,
        }
    }

    /// The panel follows the cursor, is armed by a press that concerns it, and
    /// sends its message on a release that concerns it. Presses and releases
    /// of the left and the right button end here; all else goes on to the
    /// children.
    pub open spec fn reacted(self, event: Event, now: u64) -> Outcome<PanelWidget> {
        match event {
            Event::Mouse(Mouse::CursorMoved { x, y }) => Outcome {
                widget: PanelWidget { cursor_pos: cursor_at(x, y), ..self },
                message: None,
                reaction: Reaction::Forward,
            },
            Event::Mouse(Mouse::ButtonPressed(button)) => if button == MouseButton::Left || button
                == MouseButton::Right {
                Outcome {
                    widget: if self.armed() && self.concerns(button) {
                        PanelWidget { is_pressed: true, click_time: now, ..self }
                    } else {
                        self
                    },
                    message: None,
                    reaction: Reaction::Stop,
                }
            } else {
                Outcome { widget: self, message: None, reaction: Reaction::Forward }
            },
            Event::Mouse(Mouse::ButtonReleased(button)) => if button == MouseButton::Left || button
                == MouseButton::Right {
                Outcome {
                    widget: PanelWidget { is_pressed: false, ..self },
                    message: if self.is_pressed && self.concerns(button) {
                        stamped(self.released(now), event)
                    } else {
                        None
                    },
                    reaction: Reaction::Stop,
                }
            } else {
                Outcome { widget: self, message: None, reaction: Reaction::Forward }
            },
            _ => Outcome { widget: self, message: None, reaction: Reaction::Forward },
        }
    }

    pub fn new(
        size: Vector2D,
        is_clickable: bool,
        background_color: Color,
        on_press: Option<Message>,
        on_long_press: Option<Message>,
    ) -> (w: PanelWidget)
        ensures
            w.fields.fresh(size, Layout::Stacked),
            w.is_clickable == is_clickable,
            w.background_color == background_color,
            w.on_press == on_press,
            w.on_long_press == on_long_press,
            !w.is_pressed,
            w.click_time == 0,
            w.cursor_pos == (Vector2D { x: -1i64, y: -1i64 }),
    {
        PanelWidget {
            fields: Fields::new(size, Layout::Stacked),
            is_clickable: is_clickable,
            background_color: background_color,
            on_press: on_press,
            on_long_press: on_long_press,
            is_pressed: false,
            click_time: 0,
            cursor_pos: Vector2D::new(-1, -1),
        }
    }

    pub fn set_is_clickable(&mut self, value: bool)
        ensures
            *final(self) == (PanelWidget { is_clickable: value, ..*old(self) }),
    {
        self.is_clickable = value;
    }

    /// What a press of the left or the right button does.
    fn press(&mut self, counts: bool, now: u64)
        ensures
            *final(self) == if old(self).armed() && counts {
                PanelWidget { is_pressed: true, click_time: now, ..*old(self) }
            } else {
                *old(self)
            },
    {
        if self.is_clickable && (self.on_press.is_some() || self.on_long_press.is_some()) {
            if counts {
                self.is_pressed = true;
                self.click_time = now;
            }
        }
    }

    /// What a release of the left or the right button does.
    fn release(&mut self, counts: bool, event: Event, now: u64, messages: &mut Queue<Message>)
        ensures
            *final(self) == (PanelWidget { is_pressed: false, ..*old(self) }),
            final(messages)@ == sent(
                old(messages)@,
                if old(self).is_pressed && counts {
                    stamped(old(self).released(now), event)
                } else {
                    None
                },
            ),
    {
        if self.is_pressed {
            self.is_pressed = false;
            if counts {
                if now.saturating_sub(self.click_time) < ON_LONG_PRESS_TIME {
                    emit(self.on_press, event, messages);
                } else {
                    emit(self.on_long_press, event, messages);
                }
            }
        }
    }

    pub fn on_event(&mut self, event: Event, now: u64, messages: &mut Queue<Message>) -> (r:
        Reaction)
        ensures
            *final(self) == old(self).reacted(event, now).widget,
            final(messages)@ == sent(old(messages)@, old(self).reacted(event, now).message),
            r == old(self).reacted(event, now).reaction,
    {
        match event {
            Event::Mouse(Mouse::CursorMoved { x, y }) => {
                self.cursor_pos = cursor_point(x, y);
                Reaction::Forward
            },
            Event::Mouse(Mouse::ButtonPressed(MouseButton::Left)) => {
                let inside = self.is_cursor_inside(self.cursor_pos);
                self.press(inside, now);
                Reaction::Stop
            },
            Event::Mouse(Mouse::ButtonReleased(MouseButton::Left)) => {
                let inside = self.is_cursor_inside(self.cursor_pos);
                self.release(inside, event, now, messages);
                Reaction::Stop
            },
            Event::Mouse(Mouse::ButtonPressed(MouseButton::Right)) => {
                let inside = self.is_cursor_inside(self.cursor_pos);
                self.press(!inside, now);
                Reaction::Stop
            },
            Event::Mouse(Mouse::ButtonReleased(MouseButton::Right)) => {
                let inside = self.is_cursor_inside(self.cursor_pos);
                self.release(!inside, event, now, messages);
                Reaction::Stop
            },
            _ => Reaction::Forward,
        }
    }

    /// A panel draws nothing.
    pub fn recipe(&self) -> (instructions: Vec<RenderInstruction>)
        ensures
            instructions@ == Seq::<RenderInstruction>::empty(),
    {
        Vec::new()
    }

    /// Whether `cursor_pos` lies on the panel, its edges included.
    pub fn is_cursor_inside(&self, cursor_pos: Vector2D) -> (inside: bool)
        ensures
            inside == covers(self.fields.position, self.fields.size, cursor_pos),
    {
        hit(self.fields.position, self.fields.size, cursor_pos)
    }
}

} // verus!
