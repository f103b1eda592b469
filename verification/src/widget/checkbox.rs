//! A box that is checked and unchecked by clicking on it.

use crate::event::{Event, Mouse, MouseButton};
use crate::renderer::{Message, RenderInstruction};
use crate::util::{add_clamped, clamp, inner, inner_of, share, share_of, Color, Queue, Vector2D};
use crate::widget::{
    covers, cursor_at, cursor_point, emit, hit, sent, stamped, Fields, Layout, Outcome, Reaction,
};
use vstd::prelude::*;

verus! {

/// A widget with two states. A click on it flips the state and sends the
/// widget's message.
pub struct CheckBoxWidget {
    pub fields: Fields,
    /// The colour inside the border.
    pub background_color: Color,
    /// The colour of the border while the box is checked.
    pub selected_color: Color,
    /// Sent whenever the state flips.
    pub on_change: Option<Message>,
    /// The width of the border while the box is unchecked, in pixels.
    pub border_size: i64,
    /// The width of the border while the box is checked, in percent of the
    /// size of the box.
    pub selected_relative_size: i64,
    /// Where the cursor was seen last.
    pub cursor_pos: Vector2D,
    /// Whether the box is checked.
    pub is_checked: bool,
}

impl CheckBoxWidget {
    /// Whether the cursor is on the box.
    pub open spec fn hovered(self) -> bool {
        covers(self.fields.position, self.fields.size, self.cursor_pos)
    }

    /// The box follows the cursor. A press of the left button on the box flips
    /// it, marks it dirty and sends its message. Presses of the left button end
    /// here; all else goes on to the children.
    pub open spec fn reacted(self, event: Event, now: u64) -> Outcome<CheckBoxWidget> {
        match event {
            Event::Mouse(Mouse::CursorMoved { x, y }) => Outcome {
                widget: CheckBoxWidget { cursor_pos: cursor_at(x, y), ..self },
                message: None,
                reaction: Reaction::Forward,
            },
            Event::Mouse(Mouse::ButtonPressed(MouseButton::Left)) => if self.hovered() {
                Outcome {
                    widget: CheckBoxWidget {
                        is_checked: !self.is_checked,
                        fields: Fields { dirty: true, ..self.fields },
                        ..self
                    },
                    message: stamped(self.on_change, event),
                    reaction: Reaction::Stop,
                }
            } else {
                Outcome { widget: self, message: None, reaction: Reaction::Stop }
            },
            _ => Outcome { widget: self, message: None, reaction: Reaction::Forward },
        }
    }

    /// The width of the border as it is drawn, along each axis.
    pub open spec fn border(self) -> Vector2D {
        if self.is_checked {
            Vector2D {
                x: share(self.fields.size.x, self.selected_relative_size),
                y: share(self.fields.size.y, self.selected_relative_size),
            }
        } else {
            Vector2D { x: self.border_size, y: self.border_size }
        }
    }

    /// What the box draws: a rectangle in the colour of the border (black while
    /// unchecked), and inside it, the border left free, one in the colour of
    /// the background.
    pub open spec fn drawn(self) -> Seq<RenderInstruction> {
        seq![
            RenderInstruction::DrawRect {
                point: self.fields.position,
                size: self.fields.size,
                color: if self.is_checked {
                    self.selected_color
                } else {
                    Color { a: 0xff, r: 0, g: 0, b: 0 }
                },
                clip_point: self.fields.position,
                clip_size: self.fields.size,
            },
            RenderInstruction::DrawRect {
                point: Vector2D {
                    x: clamp(self.fields.position.x + self.border().x),
                    y: clamp(self.fields.position.y + self.border().y),
                },
                size: Vector2D {
                    x: inner(self.fields.size.x, self.border().x),
                    y: inner(self.fields.size.y, self.border().y),
                },
                color: self.background_color,
                clip_point: self.fields.position,
                clip_size: self.fields.size,
            },
        ]
    }

    pub fn new(
        size: Vector2D,
        background_color: Color,
        selected_color: Color,
        on_change: Option<Message>,
        is_checked: bool,
        border_size: i64,
        selected_relative_size: i64,
    ) -> (w: CheckBoxWidget)
        ensures
            w.fields.fresh(size, Layout::Stacked),
            w.background_color == background_color,
            w.selected_color == selected_color,
            w.on_change == on_change,
            w.is_checked == is_checked,
            w.border_size == border_size,
            w.selected_relative_size == selected_relative_size,
            w.cursor_pos == (Vector2D { x: -1i64, y: -1i64 }),
    {
        CheckBoxWidget {
            fields: Fields::new(size, Layout::Stacked),
            background_color: background_color,
            selected_color: selected_color,
            on_change: on_change,
            is_checked: is_checked,
            border_size: border_size,
            selected_relative_size: selected_relative_size,
            cursor_pos: Vector2D::new(-1, -1),
        }
    }

    fn is_mouse_inside(&self) -> (inside: bool)
        ensures
            inside == self.hovered(),
    {
        hit(self.fields.position, self.fields.size, self.cursor_pos)
    }

    /// Sets the message that is sent when the state flips.
    pub fn set_message(&mut self, on_change: Option<Message>)
        ensures
            *final(self) == (CheckBoxWidget { on_change: on_change, ..*old(self) }),
    {
        self.on_change = on_change;
    }

    pub fn get_is_checked(&self) -> (checked: bool)
        ensures
            checked == self.is_checked,
    {
        self.is_checked
    }

    pub fn on_event(&mut self, event: Event, now: u64, messages: &mut Queue<Message>) -> (r:
        Reaction)
        ensures
            *final(self) == old(self).reacted(event, now).widget,
            final(messages)@ == sent(old(messages)@, old(self).reacted(event, now).message),
            r == old(self).reacted(event, now).reaction,
    {
        match event {
            Event::Mouse(Mouse::CursorMoved { x, y }) => {
                self.cursor_pos = cursor_point(x, y);
                Reaction::Forward
            },
            Event::Mouse(Mouse::ButtonPressed(MouseButton::Left)) => {
                if self.is_mouse_inside() {
                    emit(self.on_change, event, messages);
                    self.is_checked = !self.is_checked;
                    self.fields.dirty = true;
                }
                Reaction::Stop
            },
            _ => Reaction::Forward,
        }
    }

    pub fn recipe(&self) -> (instructions: Vec<RenderInstruction>)
        ensures
            instructions@ == self.drawn(),
    {
        let border = if self.is_checked {
            Vector2D::new(
                share_of(self.fields.size.x, self.selected_relative_size),
                share_of(self.fields.size.y, self.selected_relative_size),
            )
        } else {
            Vector2D::new(self.border_size, self.border_size)
        };
        let mut instructions = Vec::new();
        instructions.push(
            RenderInstruction::DrawRect {
                point: self.fields.position,
                size: self.fields.size,
                color: if self.is_checked {
                    self.selected_color
                } else {
                    Color::from_hex(0xFF000000)
                },
                clip_point: self.fields.position,
                clip_size: self.fields.size,
            },
        );
        instructions.push(
            RenderInstruction::DrawRect {
                point: Vector2D::new(
                    add_clamped(self.fields.position.x, border.x),
                    add_clamped(self.fields.position.y, border.y),
                ),
                size: Vector2D::new(
                    inner_of(self.fields.size.x, border.x),
                    inner_of(self.fields.size.y, border.y),
                ),
                color: self.background_color,
                clip_point: self.fields.position,
                clip_size: self.fields.size,
            },
        );
        assert(instructions@ =~= self.drawn());
        instructions
    }

    /// Whether `cursor_pos` lies on the box, its edges included.
    pub fn is_cursor_inside(&self, cursor_pos: Vector2D) -> (inside: bool)
        ensures
            inside == covers(self.fields.position, self.fields.size, cursor_pos),
    {
        hit(self.fields.position, self.fields.size, cursor_pos)
    }
}

} // verus!
