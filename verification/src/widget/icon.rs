//! A picture of fixed size.

use crate::event::Event;
use crate::renderer::{DrawImageOptions, Message, RenderInstruction};
use crate::util::{Color, Queue, Vector2D};
use crate::widget::{covers, hit, sent, Fields, Layout, Outcome, Reaction};
use vstd::prelude::*;

verus! {

/// A widget that shows an image. It does not react to events.
pub struct IconWidget {
    pub fields: Fields,
    /// The path of the image file.
    pub path: String,
    /// How the image is scaled.
    pub options: DrawImageOptions,
    /// The colour behind the image.
    pub background_color: Color,
}

impl IconWidget {
    /// An icon ignores every event, and keeps it from its children.
    pub open spec fn reacted(self, event: Event, now: u64) -> Outcome<IconWidget> {
        Outcome { widget: self, message: None, reaction: Reaction::Stop }
    }

    /// What the icon draws: its background, then its image.
    pub open spec fn drawn(self) -> Seq<RenderInstruction> {
        seq![
            RenderInstruction::DrawRect {
                point: self.fields.position,
                size: self.fields.size,
                color: self.background_color,
                clip_point: self.fields.position,
                clip_size: self.fields.size,
            },
            RenderInstruction::DrawImage {
                point: self.fields.position,
                path: self.path,
                options: self.options,
                clip_point: self.fields.position,
                clip_size: self.fields.size,
            },
        ]
    }

    pub fn new(path: String, size: Vector2D, options: DrawImageOptions, background_color: Color) -> (w:
        IconWidget)
        ensures
            w.fields.fresh(size, Layout::Stacked),
            w.path == path,
            w.options == options,
            w.background_color == background_color,
    {
        IconWidget {
            fields: Fields::new(size, Layout::Stacked),
            path: path,
            options: options,
            background_color: background_color,
        }
    }

    pub fn on_event(&mut self, event: Event, now: u64, messages: &mut Queue<Message>) -> (r:
        Reaction)
        ensures
            *final(self) == old(self).reacted(event, now).widget,
            final(messages)@ == sent(old(messages)@, old(self).reacted(event, now).message),
            r == old(self).reacted(event, now).reaction,
    {
        Reaction::Stop
    }

    pub fn recipe(&self) -> (instructions: Vec<RenderInstruction>)
        ensures
            instructions@ == self.drawn(),
    {
        let mut instructions = Vec::new();
        instructions.push(
            RenderInstruction::DrawRect {
                point: self.fields.position,
                size: self.fields.size,
                color: self.background_color,
                clip_point: self.fields.position,
                clip_size: self.fields.size,
            },
        );
        instructions.push(
            RenderInstruction::DrawImage {
                point: self.fields.position,
                path: self.path.clone(),
                options: self.options,
                clip_point: self.fields.position,
                clip_size: self.fields.size,
            },
        );
        assert(instructions@ =~= self.drawn());
        instructions
    }

    /// Whether `cursor_pos` lies on the icon, its edges included.
    pub fn is_cursor_inside(&self, cursor_pos: Vector2D) -> (inside: bool)
        ensures
            inside == covers(self.fields.position, self.fields.size, cursor_pos),
    {
        hit(self.fields.position, self.fields.size, cursor_pos)
    }
}

} // verus!
