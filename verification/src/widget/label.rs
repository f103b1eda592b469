//! A line of text on a coloured background.

use crate::event::Event;
use crate::renderer::{Message, RenderInstruction};
use crate::util::{add_clamped, Color, Queue, Vector2D, clamp};
use crate::widget::{covers, hit, sent, Fields, Layout, Outcome, Reaction};
use vstd::prelude::*;

verus! {

/// A widget that shows a short text. It does not react to events.
pub struct LabelWidget {
    pub fields: Fields,
    /// The text shown.
    pub text: String,
    /// The size of the font.
    pub font_size: usize,
    /// The colour behind the text.
    pub background_color: Color,
    /// The colour of the text.
    pub foreground_color: Color,
    /// The upper left corner of the clip rectangle, where it is not the
    /// label's own.
    pub clip_point: Option<Vector2D>,
    /// The size of the clip rectangle, where it is not the label's own.
    pub clip_size: Option<Vector2D>,
}

impl LabelWidget {
    /// Where the label's instructions are clipped.
    pub open spec fn clip(self) -> (Vector2D, Vector2D) {
        (
            match self.clip_point {
                Some(p) => p,
                None => self.fields.position,
            },
            match self.clip_size {
                Some(s) => s,
                None => self.fields.size,
            },
        )
    }

    /// What the label draws: its background, then its text, which starts at
    /// the lower left corner.
    pub open spec fn drawn(self) -> Seq<RenderInstruction> {
        seq![
            RenderInstruction::DrawRect {
                point: self.fields.position,
                size: self.fields.size,
                color: self.background_color,
                clip_point: self.clip().0,
                clip_size: self.clip().1,
            },
            RenderInstruction::DrawText {
                point: Vector2D {
                    x: self.fields.position.x,
                    y: clamp(self.fields.position.y + self.fields.size.y),
                },
                font_size: self.font_size,
                string: self.text,
                color: self.foreground_color,
                clip_point: self.clip().0,
                clip_size: self.clip().1,
            },
        ]
    }

    /// A label ignores every event, and keeps it from its children.
    pub open spec fn reacted(self, event: Event, now: u64) -> Outcome<LabelWidget> {
        Outcome { widget: self, message: None, reaction: Reaction::Stop }
    }

    pub fn new(
        text: String,
        size: Vector2D,
        font_size: usize,
        background_color: Color,
        foreground_color: Color,
    ) -> (w: LabelWidget)
        ensures
            w.fields.fresh(size, Layout::Stacked),
            w.text == text,
            w.font_size == font_size,
            w.background_color == background_color,
            w.foreground_color == foreground_color,
            w.clip_point.is_none(),
            w.clip_size.is_none(),
    {
        LabelWidget {
            fields: Fields::new(size, Layout::Stacked),
            text: text,
            font_size: font_size,
            background_color: background_color,
            foreground_color: foreground_color,
            clip_point: None,
            clip_size: None,
        }
    }

    /// Changes the text. The label must be drawn anew.
    pub fn set_text(&mut self, text: String)
        ensures
            *final(self) == (LabelWidget {
                text: text,
                fields: Fields { dirty: true, ..old(self).fields },
                ..*old(self)
            }),
    {
        self.text = text;
        self.fields.dirty = true;
    }

    /// Sets where the label's instructions are clipped; `None` stands for the
    /// label's own corner.
    pub fn set_clip_point(&mut self, clip_point: Option<Vector2D>)
        ensures
            *final(self) == (LabelWidget { clip_point: clip_point, ..*old(self) }),
    {
        self.clip_point = clip_point;
    }

    /// Sets the size of the clip rectangle; `None` stands for the label's own
    /// size.
    pub fn set_clip_size(&mut self, clip_size: Option<Vector2D>)
        ensures
            *final(self) == (LabelWidget { clip_size: clip_size, ..*old(self) }),
    {
        self.clip_size = clip_size;
    }

    pub fn on_event(&mut self, event: Event, now: u64, messages: &mut Queue<Message>) -> (r:
        Reaction)
        ensures
            *final(self) == old(self).reacted(event, now).widget,
            final(messages)@ == sent(old(messages)@, old(self).reacted(event, now).message),
            r == old(self).reacted(event, now).reaction,
    {
        Reaction::Stop
    }

    pub fn recipe(&self) -> (instructions: Vec<RenderInstruction>)
        ensures
            instructions@ == self.drawn(),
    {
        let clip_point = if let Some(clip_point) = self.clip_point {
            clip_point
        } else {
            self.fields.position
        };
        let clip_size = if let Some(clip_size) = self.clip_size {
            clip_size
        } else {
            self.fields.size
        };
        let mut instructions = Vec::new();
        instructions.push(
            RenderInstruction::DrawRect {
                point: self.fields.position,
                size: self.fields.size,
                color: self.background_color,
                clip_point: clip_point,
                clip_size: clip_size,
            },
        );
        instructions.push(
            RenderInstruction::DrawText {
                point: Vector2D::new(
                    self.fields.position.x,
                    add_clamped(self.fields.position.y, self.fields.size.y),
                ),
                font_size: self.font_size,
                string: self.text.clone(),
                color: self.foreground_color,
                clip_point: clip_point,
                clip_size: clip_size,
            },
        );
        assert(instructions@ =~= self.drawn());
        instructions
    }

    /// Whether `cursor_pos` lies on the label, its edges included.
    pub fn is_cursor_inside(&self, cursor_pos: Vector2D) -> (inside: bool)
        ensures
            inside == covers(self.fields.position, self.fields.size, cursor_pos),
    {
        hit(self.fields.position, self.fields.size, cursor_pos)
    }
}

} // verus!
