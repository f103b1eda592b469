//! A container that shows a tip while the cursor is on it.

use crate::event::{Event, Mouse};
use crate::renderer::{Message, RenderInstruction};
use crate::util::{Queue, Vector2D};
use crate::widget::{
    covers, cursor_at, cursor_point, hit, sent, Axis, Fields, Layout, Outcome, Reaction,
};
use vstd::prelude::*;

verus! {

/// A container with a tip: another widget, which is shown above all widgets of
/// the tree, at the cursor, for as long as the cursor is on the container.
/// The container keeps no margin and draws nothing itself.
pub struct TooltipViewWidget {
    pub fields: Fields,
    /// Where the cursor was seen last.
    pub cursor_pos: Vector2D,
    /// The handle of the widget that is shown as the tip.
    pub tooltip_widget: usize,
}

impl TooltipViewWidget {
    /// Whether the cursor is on the container.
    pub open spec fn hovered(self) -> bool {
        covers(self.fields.position, self.fields.size, self.cursor_pos)
    }

    /// The container follows the cursor: where the cursor comes to lie on it
    /// the tip is to be shown, where not, to be taken away. Every event goes on
    /// to the children.
    pub open spec fn reacted(self, event: Event, now: u64) -> Outcome<TooltipViewWidget> {
        match event {
            Event::Mouse(Mouse::CursorMoved { x, y }) => {
                let moved = TooltipViewWidget { cursor_pos: cursor_at(x, y), ..self };
                Outcome {
                    widget: moved,
                    message: None,
                    reaction: if moved.hovered() {
                        Reaction::Show
                    } else {
                        Reaction::Hide
                    },
                }
            },
            _ => Outcome { widget: self, message: None, reaction: Reaction::Forward },
        }
    }

    pub fn new(size: Vector2D, tooltip_widget: usize) -> (w: TooltipViewWidget)
        ensures
            w.fields.fresh(size, Layout::Box(Axis::Vertical)),
            w.cursor_pos == (Vector2D { x: -1i64, y: -1i64 }),
            w.tooltip_widget == tooltip_widget,
    {
        TooltipViewWidget {
            fields: Fields::new(size, Layout::Box(Axis::Vertical)),
            cursor_pos: Vector2D::new(-1, -1),
            tooltip_widget: tooltip_widget,
        }
    }

    fn is_mouse_inside(&self) -> (inside: bool)
        ensures
            inside == self.hovered(),
    {
        hit(self.fields.position, self.fields.size, self.cursor_pos)
    }

    pub fn on_event(&mut self, event: Event, now: u64, messages: &mut Queue<Message>) -> (r:
        Reaction)
        ensures
            *final(self) == old(self).reacted(event, now).widget,
            final(messages)@ == sent(old(messages)@, old(self).reacted(event, now).message),
            r == old(self).reacted(event, now).reaction,
    {
        match event {
            Event::Mouse(Mouse::CursorMoved { x, y }) => {
                self.cursor_pos = cursor_point(x, y);
                if self.is_mouse_inside() {
                    Reaction::Show
                } else {
                    Reaction::Hide
                }
            },
            _ => Reaction::Forward,
        }
    }

    /// The container draws nothing.
    pub fn recipe(&self) -> (instructions: Vec<RenderInstruction>)
        ensures
            instructions@ == Seq::<RenderInstruction>::empty(),
    {
        Vec::new()
    }

    /// Whether `cursor_pos` lies on the container, its edges included.
    pub fn is_cursor_inside(&self, cursor_pos: Vector2D) -> (inside: bool)
        ensures
            inside == covers(self.fields.position, self.fields.size, cursor_pos),
    {
        hit(self.fields.position, self.fields.size, cursor_pos)
    }
}

} // verus!
