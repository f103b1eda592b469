//! A framed line of text that can take the focus.

use crate::event::{Event, Mouse, MouseButton};
use crate::renderer::{Message, RenderInstruction};
use crate::util::{add_clamped, clamp, inner, inner_of, Color, Queue, Vector2D};
use crate::widget::{
    covers, cursor_at, cursor_point, hit, sent, Fields, Layout, Outcome, Reaction,
};
use vstd::prelude::*;

verus! {

/// The size of the font in which a text box shows its text.
pub const FONT_SIZE: usize = 22;

/// A widget that shows a text in a frame. A click on it gives it the focus, a
/// click elsewhere takes the focus away.
pub struct TextBoxWidget {
    pub fields: Fields,
    /// The colour inside the frame.
    pub background_color: Color,
    /// The colour of the text.
    pub text_color: Color,
    /// The width of the frame, in pixels.
    pub border_thickness: i64,
    /// The text shown.
    pub text: String,
    /// The message for changes of the text.
    pub on_text_change: Option<Message>,
    /// Whether the box has the focus.
    pub is_focused: bool,
    /// Where the cursor was seen last.
    pub cursor_pos: Vector2D,
}

impl TextBoxWidget {
    /// Whether the cursor is on the box.
    pub open spec fn hovered(self) -> bool {
        covers(self.fields.position, self.fields.size, self.cursor_pos)
    }

    /// The box follows the cursor. A press of the left button gives the box
    /// the focus if the cursor is on it, and takes it away if not. Presses of
    /// the left button end here; all else goes on to the children.
    pub open spec fn reacted(self, event: Event, now: u64) -> Outcome<TextBoxWidget> {
        match event {
            Event::Mouse(Mouse::CursorMoved { x, y }) => Outcome {
                widget: TextBoxWidget { cursor_pos: cursor_at(x, y), ..self },
                message: None,
                reaction: Reaction::Forward,
            },
            Event::Mouse(Mouse::ButtonPressed(MouseButton::Left)) => Outcome {
                widget: TextBoxWidget { is_focused: self.hovered(), ..self },
                message: None,
                reaction: Reaction::Stop,
            },
            _ => Outcome { widget: self, message: None, reaction: Reaction::Forward },
        }
    }

    /// What the box draws: a black rectangle, inside it, the frame left free,
    /// one in the colour of the background, and the text, which starts 10
    /// pixels right of and 20 below the upper left corner.
    pub open spec fn drawn(self) -> Seq<RenderInstruction> {
        seq![
            RenderInstruction::DrawRect {
                point: self.fields.position,
                size: self.fields.size,
                color: Color { a: 0xff, r: 0, g: 0, b: 0 },
                clip_point: self.fields.position,
                clip_size: self.fields.size,
            },
            RenderInstruction::DrawRect {
                point: Vector2D {
                    x: clamp(self.fields.position.x + self.border_thickness),
                    y: clamp(self.fields.position.y + self.border_thickness),
                },
                size: Vector2D {
                    x: inner(self.fields.size.x, self.border_thickness),
                    y: inner(self.fields.size.y, self.border_thickness),
                },
                color: self.background_color,
                clip_point: self.fields.position,
                clip_size: self.fields.size,
            },
            RenderInstruction::DrawText {
                point: Vector2D {
                    x: clamp(self.fields.position.x + 10),
                    y: clamp(self.fields.position.y + 20),
                },
                font_size: FONT_SIZE,
                string: self.text,
                color: self.text_color,
                clip_point: self.fields.position,
                clip_size: self.fields.size,
            },
        ]
    }

    pub fn new(
        size: Vector2D,
        background_color: Color,
        text_color: Color,
        border_thickness: i64,
        text: String,
        on_text_change: Option<Message>,
    ) -> (w: TextBoxWidget)
        ensures
            w.fields.fresh(size, Layout::Stacked),
            w.background_color == background_color,
            w.text_color == text_color,
            w.border_thickness == border_thickness,
            w.text == text,
            w.on_text_change == on_text_change,
            !w.is_focused,
            w.cursor_pos == (Vector2D { x: -1i64, y: -1i64 }),
    {
        TextBoxWidget {
            fields: Fields::new(size, Layout::Stacked),
            background_color: background_color,
            text_color: text_color,
            border_thickness: border_thickness,
            text: text,
            on_text_change: on_text_change,
            is_focused: false,
            cursor_pos: Vector2D::new(-1, -1),
        }
    }

    /// Sets the message for changes of the text.
    pub fn set_message(&mut self, on_text_change: Option<Message>)
        ensures
            *final(self) == (TextBoxWidget { on_text_change: on_text_change, ..*old(self) }),
    {
        self.on_text_change = on_text_change;
    }

    pub fn on_event(&mut self, event: Event, now: u64, messages: &mut Queue<Message>) -> (r:
        Reaction)
        ensures
            *final(self) == old(self).reacted(event, now).widget,
            final(messages)@ == sent(old(messages)@, old(self).reacted(event, now).message),
            r == old(self).reacted(event, now).reaction,
    {
        match event {
            Event::Mouse(Mouse::CursorMoved { x, y }) => {
                self.cursor_pos = cursor_point(x, y);
                Reaction::Forward
            },
            Event::Mouse(Mouse::ButtonPressed(MouseButton::Left)) => {
                if self.is_cursor_inside(self.cursor_pos) {
                    self.is_focused = true;
                } else {
                    self.is_focused = false;
                }
                Reaction::Stop
            },
            _ => Reaction::Forward,
        }
    }

    pub fn recipe(&self) -> (instructions: Vec<RenderInstruction>)
        ensures
            instructions@ == self.drawn(),
    {
        let mut instructions = Vec::new();
        instructions.push(
            RenderInstruction::DrawRect {
                point: self.fields.position,
                size: self.fields.size,
                color: Color::from_hex(0xFF000000),
                clip_point: self.fields.position,
                clip_size: self.fields.size,
            },
        );
        instructions.push(
            RenderInstruction::DrawRect {
                point: Vector2D::new(
                    add_clamped(self.fields.position.x, self.border_thickness),
                    add_clamped(self.fields.position.y, self.border_thickness),
                ),
                size: Vector2D::new(
                    inner_of(self.fields.size.x, self.border_thickness),
                    inner_of(self.fields.size.y, self.border_thickness),
                ),
                color: self.background_color,
                clip_point: self.fields.position,
                clip_size: self.fields.size,
            },
        );
        instructions.push(
            RenderInstruction::DrawText {
                point: Vector2D::new(
                    add_clamped(self.fields.position.x, 10),
                    add_clamped(self.fields.position.y, 20),
                ),
                font_size: FONT_SIZE,
                string: self.text.clone(),
                color: self.text_color,
                clip_point: self.fields.position,
                clip_size: self.fields.size,
            },
        );
        assert(instructions@ =~= self.drawn());
        instructions
    }

    /// Whether `cursor_pos` lies on the box, its edges included.
    pub fn is_cursor_inside(&self, cursor_pos: Vector2D) -> (inside: bool)
        ensures
            inside == covers(self.fields.position, self.fields.size, cursor_pos),
    {
        hit(self.fields.position, self.fields.size, cursor_pos)
    }
}

} // verus!
