//! A row or a column of widgets, made for scrolling.

use crate::event::Event;
use crate::renderer::{Message, RenderInstruction};
use crate::util::{Queue, Vector2D};
use crate::widget::{covers, hit, sent, Axis, Fields, Layout, Outcome, Reaction};
use vstd::prelude::*;

verus! {

/// A container that lines its children up along an axis, as a list does; it does not scroll yet. It stands at the
/// origin of the window, keeps no margin and draws nothing itself.
pub struct SliverViewWidget {
    pub fields: Fields,
}

impl SliverViewWidget {
    /// Every event goes on to the children.
    pub open spec fn reacted(self, event: Event, now: u64) -> Outcome<SliverViewWidget> {
        Outcome { widget: self, message: None, reaction: Reaction::Forward }
    }

    pub fn new(size: Vector2D, axis: Axis) -> (w: SliverViewWidget)
        ensures
            w.fields.fresh(size, Layout::Box(axis)),
    {
        SliverViewWidget { fields: Fields::new(size, Layout::Box(axis)) }
    }

    pub fn on_event(&mut self, event: Event, now: u64, messages: &mut Queue<Message>) -> (r:
        Reaction)
        ensures
            *final(self) == old(self).reacted(event, now).widget,
            final(messages)@ == sent(old(messages)@, old(self).reacted(event, now).message),
            r == old(self).reacted(event, now).reaction,
    {
        Reaction::Forward
    }

    /// The container draws nothing.
    pub fn recipe(&self) -> (instructions: Vec<RenderInstruction>)
        ensures
            instructions@ == Seq::<RenderInstruction>::empty(),
    {
        Vec::new()
    }

    /// Whether `cursor_pos` lies on the container, its edges included. The container
    /// stands at the origin.
    pub fn is_cursor_inside(&self, cursor_pos: Vector2D) -> (inside: bool)
        ensures
            inside == covers(Vector2D { x: 0, y: 0 }, self.fields.size, cursor_pos),
    {
        hit(Vector2D::new(0, 0), self.fields.size, cursor_pos)
    }
}

} // verus!
