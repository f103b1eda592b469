//! The handle of a tab, which can be clicked and dragged.

use crate::event::{Event, Mouse, MouseButton};
use crate::renderer::{Message, RenderInstruction};
use crate::util::{Color, Queue, Vector2D};
use crate::widget::{
    covers, cursor_at, cursor_point, elapsed, emit, hit, sent, stamped, Fields, Layout, Outcome,
    Reaction,
};
use vstd::prelude::*;

verus! {

/// The time that tells a click on a tab from a drag, in the unit of the clock.
pub const ON_LONG_PRESS_TIME: u64 = 300;

/// A widget that lets the user choose one of several views by a click, and
/// move it by a drag.
pub struct TabWidget {
    pub fields: Fields,
    /// The colour of the tab.
    pub background_color: Color,
    /// Sent when the tab is clicked.
    pub on_press: Option<Message>,
    /// Sent when the tab was dragged.
    pub tab_moved: Option<Message>,
    /// Whether the tab is held down.
    pub is_pressed: bool,
    /// When the tab was pressed last.
    pub click_time: u64,
    /// Where the cursor was seen last.
    pub cursor_pos: Vector2D,
    /// Where the last drag ended.
    pub moved_cursor_pos: Vector2D,
}

impl TabWidget {
    /// Whether the cursor is on the tab.
    pub open spec fn hovered(self) -> bool {
        covers(self.fields.position, self.fields.size, self.cursor_pos)
    }

    /// Whether a release at `now` ends a click.
    pub open spec fn clicked(self, now: u64) -> bool {
        self.is_pressed && self.hovered() && elapsed(now, self.click_time) < ON_LONG_PRESS_TIME
    }

    /// Whether a release at `now` ends a drag.
    pub open spec fn dragged(self, now: u64) -> bool {
        self.is_pressed && elapsed(now, self.click_time) > ON_LONG_PRESS_TIME
    }

    /// The tab follows the cursor and is armed by a press of the left button on
    /// it. A release of the left button before the threshold, on the tab, is a
    /// click; one after the threshold, wherever the cursor is, is a drag that
    /// ends at the cursor. Presses and releases of the left button end here;
    /// all else goes on to the children.
    pub open spec fn reacted(self, event: Event, now: u64) -> Outcome<TabWidget> {
        match event {
            Event::Mouse(Mouse::CursorMoved { x, y }) => Outcome {
                widget: TabWidget { cursor_pos: cursor_at(x, y), ..self },
                message: None,
                reaction: Reaction::Forward,
            },
            Event::Mouse(Mouse::ButtonPressed(MouseButton::Left)) => Outcome {
                widget: if self.hovered() {
                    TabWidget { is_pressed: true, click_time: now, ..self }
                } else {
                    self
                },
                message: None,
                reaction: Reaction::Stop,
            },
            Event::Mouse(Mouse::ButtonReleased(MouseButton::Left)) => Outcome {
                widget: TabWidget {
                    is_pressed: false,
                    moved_cursor_pos: if self.dragged(now) {
                        self.cursor_pos
                    } else {
                        self.moved_cursor_pos
                    },
                    ..self
                },
                message: if self.clicked(now) {
                    stamped(self.on_press, event)
                } else if self.dragged(now) {
                    stamped(self.tab_moved, event)
                } else {
                    None
                },
                reaction: Reaction::Stop,
            },
            _ => Outcome { widget: self, message: None, reaction: Reaction::Forward },
        }
    }

    /// What the tab draws: one rectangle.
    pub open spec fn drawn(self) -> Seq<RenderInstruction> {
        seq![
            RenderInstruction::DrawRect {
                point: self.fields.position,
                size: self.fields.size,
                color: self.background_color,
                clip_point: self.fields.position,
                clip_size: self.fields.size,
            },
        ]
    }

    pub fn new(
        size: Vector2D,
        background_color: Color,
        on_press: Option<Message>,
        tab_moved: Option<Message>,
    ) -> (w: TabWidget)
        ensures
            w.fields.fresh(size, Layout::Stacked),
            w.background_color == background_color,
            w.on_press == on_press,
            w.tab_moved == tab_moved,
            !w.is_pressed,
            w.click_time == 0,
            w.cursor_pos == (Vector2D { x: -1i64, y: -1i64 }),
            w.moved_cursor_pos == (Vector2D { x: -1i64, y: -1i64 }),
    {
        TabWidget {
            fields: Fields::new(size, Layout::Stacked),
            background_color: background_color,
            on_press: on_press,
            tab_moved: tab_moved,
            is_pressed: false,
            click_time: 0,
            cursor_pos: Vector2D::new(-1, -1),
            moved_cursor_pos: Vector2D::new(-1, -1),
        }
    }

    /// Sets the message that is sent when the tab was dragged.
    pub fn set_new_message_move(&mut self, new_message: Option<Message>)
        ensures
            *final(self) == (TabWidget { tab_moved: new_message, ..*old(self) }),
    {
        self.tab_moved = new_message;
    }

    /// Where the last drag ended.
    pub fn get_moved_cursor_pos(&self) -> (p: Vector2D)
        ensures
            p == self.moved_cursor_pos,
    {
        self.moved_cursor_pos
    }

    pub fn on_event(&mut self, event: Event, now: u64, messages: &mut Queue<Message>) -> (r:
        Reaction)
        ensures
            *final(self) == old(self).reacted(event, now).widget,
            final(messages)@ == sent(old(messages)@, old(self).reacted(event, now).message),
            r == old(self).reacted(event, now).reaction,
    {
        match event {
            Event::Mouse(Mouse::CursorMoved { x, y }) => {
                self.cursor_pos = cursor_point(x, y);
                Reaction::Forward
            },
            Event::Mouse(Mouse::ButtonPressed(MouseButton::Left)) => {
                if self.is_cursor_inside(self.cursor_pos) {
                    self.is_pressed = true;
                    self.click_time = now;
                }
                Reaction::Stop
            },
            Event::Mouse(Mouse::ButtonReleased(MouseButton::Left)) => {
                if self.is_pressed {
                    let held = now.saturating_sub(self.click_time);
                    if self.is_cursor_inside(self.cursor_pos) {
                        if held < ON_LONG_PRESS_TIME {
                            emit(self.on_press, event, messages);
                        }
                    }
                    if held > ON_LONG_PRESS_TIME {
                        self.moved_cursor_pos = self.cursor_pos;
                        emit(self.tab_moved, event, messages);
                    }
                    self.is_pressed = false;
                }
                Reaction::Stop
            },
            _ => Reaction::Forward,
        }
    }

    pub fn recipe(&self) -> (instructions: Vec<RenderInstruction>)
        ensures
            instructions@ == self.drawn(),
    {
        let mut instructions = Vec::new();
        instructions.push(
            RenderInstruction::DrawRect {
                point: self.fields.position,
                size: self.fields.size,
                color: self.background_color,
                clip_point: self.fields.position,
                clip_size: self.fields.size,
            },
        );
        assert(instructions@ =~= self.drawn());
        instructions
    }

    /// Whether `cursor_pos` lies on the tab, its edges included.
    pub fn is_cursor_inside(&self, cursor_pos: Vector2D) -> (inside: bool)
        ensures
            inside == covers(self.fields.position, self.fields.size, cursor_pos),
    {
        hit(self.fields.position, self.fields.size, cursor_pos)
    }
}

} // verus!
