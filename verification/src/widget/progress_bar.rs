//! A bar that fills up from the left.

use crate::event::Event;
use crate::renderer::{Message, RenderInstruction};
use crate::util::{share, share_of, Color, Queue, Vector2D};
use crate::widget::{covers, hit, sent, Fields, Layout, Outcome, Reaction};
use vstd::prelude::*;

verus! {

/// A widget that shows how far something has come. It does not react to
/// events.
pub struct ProgressBarWidget {
    pub fields: Fields,
    /// How far, in percent.
    pub progress: i64,
    /// The size of the font.
    pub font_size: usize,
    /// The colour of the empty bar.
    pub background_color: Color,
    /// The colour of the filled part.
    pub foreground_color: Color,
}

impl ProgressBarWidget {
    /// A progress bar ignores every event, and keeps it from its children.
    pub open spec fn reacted(self, event: Event, now: u64) -> Outcome<ProgressBarWidget> {
        Outcome { widget: self, message: None, reaction: Reaction::Stop }
    }

    /// What the bar draws: the whole bar, as long as the widget asks to be, and
    /// over it the filled part, whose length is `progress` percent of that.
    pub open spec fn drawn(self) -> Seq<RenderInstruction> {
        seq![
            RenderInstruction::DrawRect {
                point: self.fields.position,
                size: self.fields.original_size,
                color: self.background_color,
                clip_point: self.fields.position,
                clip_size: self.fields.size,
            },
            RenderInstruction::DrawRect {
                point: self.fields.position,
                size: Vector2D {
                    x: share(self.fields.original_size.x, self.progress),
                    y: self.fields.original_size.y,
                },
                color: self.foreground_color,
                clip_point: self.fields.position,
                clip_size: self.fields.size,
            },
        ]
    }

    pub fn new(
        size: Vector2D,
        font_size: usize,
        progress: i64,
        background_color: Color,
        foreground_color: Color,
    ) -> (w: ProgressBarWidget)
        ensures
            w.fields.fresh(size, Layout::Stacked),
            w.font_size == font_size,
            w.progress == progress,
            w.background_color == background_color,
            w.foreground_color == foreground_color,
    {
        ProgressBarWidget {
            fields: Fields::new(size, Layout::Stacked),
            font_size: font_size,
            progress: progress,
            background_color: background_color,
            foreground_color: foreground_color,
        }
    }

    /// Sets how far the bar is filled, in percent. The bar must be drawn anew.
    pub fn set_progress(&mut self, value: i64)
        ensures
            *final(self) == (ProgressBarWidget {
                progress: value,
                fields: Fields { dirty: true, ..old(self).fields },
                ..*old(self)
            }),
    {
        self.progress = value;
        self.fields.dirty = true;
    }

    pub fn on_event(&mut self, event: Event, now: u64, messages: &mut Queue<Message>) -> (r:
        Reaction)
        ensures
            *final(self) == old(self).reacted(event, now).widget,
            final(messages)@ == sent(old(messages)@, old(self).reacted(event, now).message),
            r == old(self).reacted(event, now).reaction,
    {
        Reaction::Stop
    }

    pub fn recipe(&self) -> (instructions: Vec<RenderInstruction>)
        ensures
            instructions@ == self.drawn(),
    {
        let filled = Vector2D::new(
            share_of(self.fields.original_size.x, self.progress),
            self.fields.original_size.y,
        );
        let mut instructions = Vec::new();
        instructions.push(
            RenderInstruction::DrawRect {
                point: self.fields.position,
                size: self.fields.original_size,
                color: self.background_color,
                clip_point: self.fields.position,
                clip_size: self.fields.size,
            },
        );
        instructions.push(
            RenderInstruction::DrawRect {
                point: self.fields.position,
                size: filled,
                color: self.foreground_color,
                clip_point: self.fields.position,
                clip_size: self.fields.size,
            },
        );
        assert(instructions@ =~= self.drawn());
        instructions
    }

    /// Whether `cursor_pos` lies on the progress bar, its edges included.
    pub fn is_cursor_inside(&self, cursor_pos: Vector2D) -> (inside: bool)
        ensures
            inside == covers(self.fields.position, self.fields.size, cursor_pos),
    {
        hit(self.fields.position, self.fields.size, cursor_pos)
    }
}

} // verus!
