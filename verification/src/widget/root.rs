//! The widget at the top of a tree.

use crate::event::Event;
use crate::renderer::{Message, RenderInstruction};
use crate::util::{Color, Queue, Vector2D};
use crate::widget::{covers, hit, sent, Fields, Layout, Outcome, Reaction};
use vstd::prelude::*;

verus! {

/// The widget that fills the window. It stands at the origin, keeps no margin,
/// and starts every frame by clearing the window to its colour.
pub struct RootWidget {
    pub fields: Fields,
    /// The colour of the window where no widget draws.
    pub background_color: Color,
}

impl RootWidget {
    /// Every event goes on to the children.
    pub open spec fn reacted(self, event: Event, now: u64) -> Outcome<RootWidget> {
        Outcome { widget: self, message: None, reaction: Reaction::Forward }
    }

    /// What the root draws: a cleared window.
    pub open spec fn drawn(self) -> Seq<RenderInstruction> {
        seq![RenderInstruction::Clear { color: self.background_color }]
    }

    pub fn new(size: Vector2D, background_color: Color, layout: Layout) -> (w: RootWidget)
        ensures
            w.fields.fresh(size, layout),
            w.background_color == background_color,
    {
        RootWidget { fields: Fields::new(size, layout), background_color: background_color }
    }

    pub fn on_event(&mut self, event: Event, now: u64, messages: &mut Queue<Message>) -> (r:
        Reaction)
        ensures
            *final(self) == old(self).reacted(event, now).widget,
            final(messages)@ == sent(old(messages)@, old(self).reacted(event, now).message),
            r == old(self).reacted(event, now).reaction,
    {
        Reaction::Forward
    }

    pub fn recipe(&self) -> (instructions: Vec<RenderInstruction>)
        ensures
            instructions@ == self.drawn(),
    {
        let mut instructions = Vec::new();
        instructions.push(RenderInstruction::Clear { color: self.background_color });
        assert(instructions@ =~= self.drawn());
        instructions
    }

    /// Whether `cursor_pos` lies on the root, its edges included. The root
    /// stands at the origin.
    pub fn is_cursor_inside(&self, cursor_pos: Vector2D) -> (inside: bool)
        ensures
            inside == covers(Vector2D { x: 0, y: 0 }, self.fields.size, cursor_pos),
    {
        hit(Vector2D::new(0, 0), self.fields.size, cursor_pos)
    }
}

} // verus!
