//! A button that slides along a bar and rests at evenly spaced stops.

use crate::event::{Event, Mouse, MouseButton};
use crate::renderer::{Message, RenderInstruction};
use crate::util::{
    add_clamped, clamp, div_clamped, mul_clamped, quotient, sub_clamped, Color, Queue, Vector2D,
};
use crate::widget::{
    covers, cursor_at, cursor_point, emit, hit, sent, stamped, Fields, Layout, Outcome, Reaction,
};
use vstd::prelude::*;

verus! {

/// A stop of a slider: a value, and where on the bar the button shows it.
#[derive(Clone, Copy, Debug, PartialEq, Eq, Structural)]
pub struct Position {
    /// The value that the slider has at this stop.
    pub slider_value: i32,
    /// The x coordinate of the stop.
    pub x_coordinate: i64,
}

/// How many stops a slider from `start` to `end` has, one every `step`.
pub open spec fn stop_count(start: i32, end: i32, step: i32) -> nat {
    if step <= 0 || start > end {
        0
    } else {
        ((end - start) / (step as int) + 1) as nat
    }
}

/// The distance between two neighbouring stops on a bar of the given width:
/// the width is shared out evenly over the range.
pub open spec fn stride(start: i32, end: i32, step: i32, width: i64) -> i64 {
    if start < end {
        clamp(quotient(clamp(step * width) as int, end - start))
    } else {
        0
    }
}

/// The stops of a slider from `start` to `end`, one every `step`: the first is
/// at `left`, each further one `stride` behind the one before.
pub open spec fn stops_at(start: i32, end: i32, step: i32, left: i64, stride: i64) -> Seq<
    Position,
> {
    Seq::new(
        stop_count(start, end, step),
        |k: int|
            Position {
                slider_value: (start + k * step) as i32,
                x_coordinate: clamp(left + k * stride),
            },
    )
}

/// The stops of a slider from `start` to `end`, one every `step`, on a bar that
/// begins at `left` and has the given width. The first stop is at `left`.
pub open spec fn stops(start: i32, end: i32, step: i32, left: i64, width: i64) -> Seq<Position> {
    stops_at(start, end, step, left, stride(start, end, step, width))
}

/// Whether the values of the stops grow strictly from each to the next.
pub open spec fn values_ascend(positions: Seq<Position>) -> bool {
    forall|i: int, j: int|
        0 <= i < j < positions.len() ==> positions[i].slider_value < positions[j].slider_value
}

/// The stop at which a button comes to rest that is dragged to the right, to
/// `x`, past the stop before `from`: the first stop from `from` on that is not
/// left of `x`, and the last stop where there is none.
pub open spec fn rest_right(positions: Seq<Position>, from: int, x: i64) -> int
    decreases positions.len() - from,
{
    if from >= positions.len() - 1 {
        positions.len() - 1
    } else if positions[from].x_coordinate >= x {
        from
    } else {
        rest_right(positions, from + 1, x)
    }
}

/// The stop at which a button comes to rest that is dragged to the left, to
/// `x`, past the stop behind `from`: the first stop from `from` down that is
/// not right of `x`, and the first stop of all where there is none.
pub open spec fn rest_left(positions: Seq<Position>, from: int, x: i64) -> int
    decreases from,
{
    if from <= 0 {
        0
    } else if positions[from].x_coordinate <= x {
        from
    } else {
        rest_left(positions, from - 1, x)
    }
}

/// What `rest_right` finds: every stop that it passes lies left of `x`, and the
/// stop that it returns does not, unless it is the last.
pub proof fn lemma_rest_right(positions: Seq<Position>, from: int, x: i64)
    requires
        0 <= from < positions.len(),
    ensures
        from <= rest_right(positions, from, x) < positions.len(),
        forall|j: int|
            from <= j < rest_right(positions, from, x) ==> positions[j].x_coordinate < x,
        rest_right(positions, from, x) == positions.len() - 1 || positions[rest_right(
            positions,
            from,
            x,
        )].x_coordinate >= x,
    decreases positions.len() - from,
{
    if from < positions.len() - 1 && positions[from].x_coordinate < x {
        lemma_rest_right(positions, from + 1, x);
    }
}

/// What `rest_left` finds: every stop that it passes lies right of `x`, and the
/// stop that it returns does not, unless it is the first.
pub proof fn lemma_rest_left(positions: Seq<Position>, from: int, x: i64)
    requires
        0 <= from < positions.len(),
    ensures
        0 <= rest_left(positions, from, x) <= from,
        forall|j: int| rest_left(positions, from, x) < j <= from ==> positions[j].x_coordinate > x,
        rest_left(positions, from, x) == 0 || positions[rest_left(
            positions,
            from,
            x,
        )].x_coordinate <= x,
    decreases from,
{
    if from > 0 && positions[from].x_coordinate > x {
        lemma_rest_left(positions, from - 1, x);
    }
}

/// Half of `length`, rounded toward zero.
pub open spec fn half(length: i64) -> i64 {
    clamp(quotient(length as int, 2))
}

pub fn half_of(length: i64) -> (r: i64)
    ensures
        r == half(length),
{
    div_clamped(length, 2)
}

/// A widget that lets the user choose a value from a range by dragging a
/// button along a bar. The button rests only at the stops.
pub struct SliderWidget {
    pub fields: Fields,
    /// The colour of the bar.
    pub background_color: Color,
    /// The colour of the button.
    pub button_color: Color,
    /// The size of the button.
    pub button_size: Vector2D,
    /// The least and the greatest value.
    pub range: (i32, i32),
    /// The difference between the values of two neighbouring stops.
    pub step: i32,
    /// The value chosen.
    pub slider_value: i32,
    /// Sent when the button has come to rest at another stop.
    pub on_slide: Option<Message>,
    /// The x coordinate of the first stop.
    pub first_stop: i64,
    /// The distance between two neighbouring stops.
    pub stride: i64,
    /// Whether the button is held.
    pub is_pressed: bool,
    /// Where the cursor was seen last. While the button is held, the cursor is
    /// taken to be no further left or right than the bar reaches.
    pub cursor_pos: Vector2D,
    /// The index of the stop at which the button rests.
    pub slider_index: usize,
}

impl SliderWidget {
    /// The stops of the slider.
    pub open spec fn positions(self) -> Seq<Position> {
        stops_at(self.range.0, self.range.1, self.step, self.first_stop, self.stride)
    }

    /// The x coordinate on which the button is centred: the cursor while the
    /// button is held, else the stop at which it rests. A slider without that
    /// stop shows the button at its left edge.
    pub open spec fn anchor(self, held: bool) -> i64 {
        if held {
            self.cursor_pos.x
        } else if self.slider_index < self.positions().len() {
            self.positions()[self.slider_index as int].x_coordinate
        } else {
            self.fields.position.x
        }
    }

    /// The upper left corner of the button: centred on the anchor, half way
    /// down the bar.
    pub open spec fn button_corner(self, held: bool) -> Vector2D {
        Vector2D {
            x: clamp(self.anchor(held) - half(self.button_size.x)),
            y: clamp(
                clamp(self.fields.position.y + half(self.fields.size.y)) - half(
                    self.button_size.y,
                ),
            ),
        }
    }

    /// Whether `point` lies on the button as it rests at its stop.
    pub open spec fn on_button(self, point: Vector2D) -> bool {
        covers(self.button_corner(false), self.button_size, point)
    }

    /// The x coordinate `x`, brought onto the bar.
    pub open spec fn on_bar(self, x: i64) -> i64 {
        if x > clamp(self.fields.position.x + self.fields.size.x) {
            clamp(self.fields.position.x + self.fields.size.x)
        } else if x < self.fields.position.x {
            self.fields.position.x
        } else {
            x
        }
    }

    /// Half the distance between the first two stops.
    pub open spec fn half_stride(self) -> i64 {
        half(
            clamp(
                self.positions()[1].x_coordinate - self.positions()[0].x_coordinate,
            ),
        )
    }

    /// The index of the stop at which the button comes to rest when it is let
    /// go: the stop where it was, unless the cursor is more than half a stride
    /// away from it; then the nearest stop at or beyond the cursor, in the
    /// direction of the cursor. A slider with fewer than two stops does not
    /// move.
    pub open spec fn resting_index(self) -> int {
        let positions = self.positions();
        let index = self.slider_index as int;
        if positions.len() < 2 || index >= positions.len() {
            index
        } else if self.cursor_pos.x > clamp(positions[index].x_coordinate + self.half_stride()) {
            if index != positions.len() - 1 {
                rest_right(positions, index + 1, self.cursor_pos.x)
            } else {
                index
            }
        } else if self.cursor_pos.x < clamp(positions[index].x_coordinate - self.half_stride()) {
            if index != 0 {
                rest_left(positions, index - 1, self.cursor_pos.x)
            } else {
                index
            }
        } else {
            index
        }
    }

    /// The slider after the button was let go.
    pub open spec fn let_go(self) -> SliderWidget {
        let index = self.resting_index();
        SliderWidget {
            slider_index: index as usize,
            slider_value: if index != self.slider_index {
                self.positions()[index].slider_value
            } else {
                self.slider_value
            },
            is_pressed: false,
            fields: Fields { dirty: true, ..self.fields },
            ..self
        }
    }

    /// The slider follows the cursor. A press of the left button on the button
    /// takes hold of it. While it is held, it moves with the cursor along the
    /// bar, the slider is dirty, and cursor movements end here. A release of
    /// the left button lets it go: it comes to rest at a stop, and where that
    /// is another stop than before, the slider takes the value of the stop and
    /// sends its message. Presses and releases of the left button end here; all
    /// else goes on to the children.
    pub open spec fn reacted(self, event: Event, now: u64) -> Outcome<SliderWidget> {
        match event {
            Event::Mouse(Mouse::CursorMoved { x, y }) => if self.is_pressed {
                Outcome {
                    widget: SliderWidget {
                        cursor_pos: Vector2D {
                            x: self.on_bar(cursor_at(x, y).x),
                            y: cursor_at(x, y).y,
                        },
                        fields: Fields { dirty: true, ..self.fields },
                        ..self
                    },
                    message: None,
                    reaction: Reaction::Stop,
                }
            } else {
                Outcome {
                    widget: SliderWidget { cursor_pos: cursor_at(x, y), ..self },
                    message: None,
                    reaction: Reaction::Forward,
                }
            },
            Event::Mouse(Mouse::ButtonPressed(MouseButton::Left)) => Outcome {
                widget: if self.on_button(self.cursor_pos) {
                    SliderWidget { is_pressed: true, ..self }
                } else {
                    self
                },
                message: None,
                reaction: Reaction::Stop,
            },
            Event::Mouse(Mouse::ButtonReleased(MouseButton::Left)) => if self.is_pressed {
                Outcome {
                    widget: self.let_go(),
                    message: if self.resting_index() != self.slider_index {
                        stamped(self.on_slide, event)
                    } else {
                        None
                    },
                    reaction: Reaction::Stop,
                }
            } else {
                Outcome { widget: self, message: None, reaction: Reaction::Stop }
            },
            _ => Outcome { widget: self, message: None, reaction: Reaction::Forward },
        }
    }

    /// What the slider draws: the bar, and on it the button.
    pub open spec fn drawn(self) -> Seq<RenderInstruction> {
        seq![
            RenderInstruction::DrawRect {
                point: self.fields.position,
                size: self.fields.size,
                color: self.background_color,
                clip_point: self.fields.position,
                clip_size: self.fields.size,
            },
            RenderInstruction::DrawRect {
                point: self.button_corner(self.is_pressed),
                size: self.button_size,
                color: self.button_color,
                clip_point: self.fields.position,
                clip_size: self.fields.size,
            },
        ]
    }

    /// A slider with the given range and step, which rests at the stop with the
    /// value `slider_value`, or at the first stop if no stop has that value. A
    /// slider whose step is not positive, or whose range is empty, has no
    /// stop: it shows its button at its left edge and never moves.
    pub fn new(
        size: Vector2D,
        background_color: Color,
        button_color: Color,
        button_size: Vector2D,
        range: (i32, i32),
        step: i32,
        slider_value: i32,
        on_slide: Option<Message>,
    ) -> (w: SliderWidget)
        ensures
            w.fields.fresh(size, Layout::Stacked),
            w.background_color == background_color,
            w.button_color == button_color,
            w.button_size == button_size,
            w.range == range,
            w.step == step,
            w.slider_value == slider_value,
            w.on_slide == on_slide,
            w.first_stop == 0,
            w.stride == stride(range.0, range.1, step, size.x),
            w.positions() == stops(range.0, range.1, step, 0, size.x),
            w.slider_index < w.positions().len() || w.slider_index == 0,
            w.positions()[w.slider_index as int].slider_value == slider_value
                || w.slider_index == 0,
            (exists|i: int|
                0 <= i < w.positions().len() && w.positions()[i].slider_value
                    == slider_value) ==> w.positions()[w.slider_index as int].slider_value
                == slider_value,
            !w.is_pressed,
            w.cursor_pos == (Vector2D { x: -1i64, y: -1i64 }),
    {
        let slider_positions = SliderWidget::get_slider_positions(
            range.0,
            range.1,
            step,
            Vector2D::new(0, 0),
            size,
        );
        let slider_index = SliderWidget::get_slider_index(slider_value, &slider_positions);
        let stride = SliderWidget::stride_of(range.0, range.1, step, size.x);
        SliderWidget {
            fields: Fields::new(size, Layout::Stacked),
            background_color: background_color,
            button_color: button_color,
            button_size: button_size,
            slider_value: slider_value,
            range: range,
            step: step,
            on_slide: on_slide,
            slider_index: slider_index,
            first_stop: 0,
            stride: stride,
            is_pressed: false,
            cursor_pos: Vector2D::new(-1, -1),
        }
    }

    /// Sets the message that is sent when the button has come to rest at
    /// another stop.
    pub fn set_message(&mut self, on_slide: Option<Message>)
        ensures
            *final(self) == (SliderWidget { on_slide: on_slide, ..*old(self) }),
    {
        self.on_slide = on_slide;
    }

    /// The value chosen.
    pub fn get_slider_value(&self) -> (value: i32)
        ensures
            value == self.slider_value,
    {
        self.slider_value
    }

    /// The distance between two neighbouring stops on a bar of the given
    /// width.
    pub fn stride_of(start: i32, end: i32, step: i32, width: i64) -> (r: i64)
        ensures
            r == stride(start, end, step, width),
    {
        if start < end {
            div_clamped(mul_clamped(step as i64, width), end as i64 - start as i64)
        } else {
            0
        }
    }

    /// How many stops the slider has.
    pub fn count(&self) -> (n: u64)
        ensures
            n == self.positions().len(),
    {
        if self.step <= 0 || self.range.0 > self.range.1 {
            0
        } else {
            ((self.range.1 as i64 - self.range.0 as i64) / (self.step as i64)) as u64 + 1
        }
    }

    /// The stop with the given index.
    pub fn position_at(&self, index: u64) -> (p: Position)
        requires
            index < self.positions().len(),
        ensures
            p == self.positions()[index as int],
    {
        proof {
            lemma_stop_count(self.range.0, self.range.1, self.step, index as int);
            assert(index * self.step == (index as i64) * (self.step as i64));
            assert(-0x1_0000_0000_0000_0000_0000_0000 <= index * self.stride
                <= 0x1_0000_0000_0000_0000_0000_0000) by (nonlinear_arith)
                requires
                    0 <= index <= 0x1_0000_0000,
                    -0x8000_0000_0000_0000 <= self.stride <= 0x8000_0000_0000_0000,
            ;
        }
        let value = self.range.0 as i64 + (index as i64) * (self.step as i64);
        let x = self.first_stop as i128 + (index as i128) * (self.stride as i128);
        Position {
            slider_value: value as i32,
            x_coordinate: if x > i64::MAX as i128 {
                i64::MAX
            } else if x < i64::MIN as i128 {
                i64::MIN
            } else {
                x as i64
            },
        }
    }

    /// The stops of a slider from `start` to `end`, one every `step`, on a bar
    /// at `position` of the given `size`.
    pub fn get_slider_positions(
        start: i32,
        end: i32,
        step: i32,
        position: Vector2D,
        size: Vector2D,
    ) -> (positions: Vec<Position>)
        ensures
            positions@ == stops(start, end, step, position.x, size.x),
            values_ascend(positions@),
    {
        let mut slider_positions: Vec<Position> = Vec::new();
        if step <= 0 || start > end {
            assert(slider_positions@ =~= stops(start, end, step, position.x, size.x));
            return slider_positions;
        }
        let step_size = SliderWidget::stride_of(start, end, step, size.x);
        let ghost count = stop_count(start, end, step);
        let mut incremental_size = position.x;
        let mut i: i64 = start as i64;
        let ghost mut k: int = 0;
        proof {
            lemma_stop_count(start, end, step, 0);
        }
        while i <= end as i64
            invariant
                step > 0,
                start <= end,
                count == stop_count(start, end, step),
                step_size == stride(start, end, step, size.x),
                0 <= k <= count,
                i == start + k * step,
                i <= end + step,
                (i <= end) == (k < count),
                incremental_size == clamp(position.x + k * step_size),
                slider_positions@ == stops(start, end, step, position.x, size.x).take(k),
            decreases end + step - i,
        {
            slider_positions.push(
                Position { slider_value: i as i32, x_coordinate: incremental_size },
            );
            proof {
                lemma_clamped_walk(position.x as int, step_size as int, k);
                assert(slider_positions@ =~= stops(start, end, step, position.x, size.x).take(
                    k + 1,
                ));
                assert((k + 1) * step == k * step + step) by (nonlinear_arith);
                lemma_stop_count(start, end, step, k + 1);
                k = k + 1;
            }
            i = i + step as i64;
            incremental_size = add_clamped(incremental_size, step_size);
        }
        proof {
            let all = stops(start, end, step, position.x, size.x);
            assert(all.take(all.len() as int) =~= all);
            assert forall|a: int, b: int| 0 <= a < b < all.len() implies all[a].slider_value
                < all[b].slider_value by {
                lemma_stop_count(start, end, step, a);
                lemma_stop_count(start, end, step, b);
                assert(a * step < b * step) by (nonlinear_arith)
                    requires
                        a < b,
                        step > 0,
                ;
            }
        }
        slider_positions
    }

    /// The index of the stop with the value `value`, and 0 where no stop has
    /// it.
    pub fn get_slider_index(value: i32, vector: &Vec<Position>) -> (index: usize)
        requires
            values_ascend(vector@),
        ensures
            index < vector@.len() || index == 0,
            index < vector@.len() && vector@[index as int].slider_value == value || (index == 0
                && forall|i: int| 0 <= i < vector@.len() ==> vector@[i].slider_value != value),
    {
        let mut low: usize = 0;
        let mut high: usize = vector.len();
        while low < high
            invariant
                0 <= low <= high <= vector@.len(),
                values_ascend(vector@),
                forall|i: int| 0 <= i < low ==> vector@[i].slider_value < value,
                forall|i: int| high <= i < vector@.len() ==> vector@[i].slider_value > value,
            decreases high - low,
        {
            let middle = low + (high - low) / 2;
            let found = vector[middle].slider_value;
            if found == value {
                return middle;
            } else if found < value {
                low = middle + 1;
            } else {
                high = middle;
            }
        }
        0
    }

    /// Where the button comes to rest when it is let go.
    fn find_rest(&self) -> (index: usize)
        ensures
            index == self.resting_index(),
            index < self.positions().len() || index == self.slider_index,
    {
        let count = self.count();
        if count < 2 || self.slider_index as u64 >= count {
            return self.slider_index;
        }
        let half_step_size = half_of(
            sub_clamped(self.position_at(1).x_coordinate, self.position_at(0).x_coordinate),
        );
        let here = self.position_at(self.slider_index as u64).x_coordinate;
        let mut index = self.slider_index;
        if self.cursor_pos.x > add_clamped(here, half_step_size) {
            if index as u64 != count - 1 {
                index = index + 1;
                while (index as u64) < count - 1 && self.position_at(index as u64).x_coordinate
                    < self.cursor_pos.x
                    invariant
                        count == self.positions().len(),
                        self.slider_index < index < count,
                        rest_right(self.positions(), index as int, self.cursor_pos.x)
                            == rest_right(
                            self.positions(),
                            self.slider_index + 1,
                            self.cursor_pos.x,
                        ),
                    decreases count - index,
                {
                    index = index + 1;
                }
            }
        } else if self.cursor_pos.x < sub_clamped(here, half_step_size) {
            if index != 0 {
                index = index - 1;
                while index > 0 && self.position_at(index as u64).x_coordinate
                    > self.cursor_pos.x
                    invariant
                        count == self.positions().len(),
                        0 <= index < self.slider_index < count,
                        rest_left(self.positions(), index as int, self.cursor_pos.x)
                            == rest_left(
                            self.positions(),
                            self.slider_index - 1,
                            self.cursor_pos.x,
                        ),
                    decreases index,
                {
                    index = index - 1;
                }
            }
        }
        index
    }

    pub fn on_event(&mut self, event: Event, now: u64, messages: &mut Queue<Message>) -> (r:
        Reaction)
        ensures
            *final(self) == old(self).reacted(event, now).widget,
            final(messages)@ == sent(old(messages)@, old(self).reacted(event, now).message),
            r == old(self).reacted(event, now).reaction,
    {
        match event {
            Event::Mouse(Mouse::CursorMoved { x, y }) => {
                self.cursor_pos = cursor_point(x, y);
                if self.is_pressed {
                    let right = add_clamped(self.fields.position.x, self.fields.size.x);
                    if self.cursor_pos.x > right {
                        self.cursor_pos.x = right;
                    } else if self.cursor_pos.x < self.fields.position.x {
                        self.cursor_pos.x = self.fields.position.x;
                    }
                    self.fields.dirty = true;
                    Reaction::Stop
                } else {
                    Reaction::Forward
                }
            },
            Event::Mouse(Mouse::ButtonPressed(MouseButton::Left)) => {
                if self.is_cursor_inside(self.cursor_pos) {
                    self.is_pressed = true;
                }
                Reaction::Stop
            },
            Event::Mouse(Mouse::ButtonReleased(MouseButton::Left)) => {
                if self.is_pressed {
                    let index = self.find_rest();
                    if index != self.slider_index {
                        self.slider_index = index;
                        self.slider_value = self.position_at(index as u64).slider_value;
                        emit(self.on_slide, event, messages);
                    }
                    self.fields.dirty = true;
                    self.is_pressed = false;
                }
                Reaction::Stop
            },
            _ => Reaction::Forward,
        }
    }

    /// The upper left corner of the button.
    fn corner(&self, held: bool) -> (corner: Vector2D)
        ensures
            corner == self.button_corner(held),
    {
        let anchor = if held {
            self.cursor_pos.x
        } else if (self.slider_index as u64) < self.count() {
            self.position_at(self.slider_index as u64).x_coordinate
        } else {
            self.fields.position.x
        };
        Vector2D::new(
            sub_clamped(anchor, half_of(self.button_size.x)),
            sub_clamped(
                add_clamped(self.fields.position.y, half_of(self.fields.size.y)),
                half_of(self.button_size.y),
            ),
        )
    }

    pub fn recipe(&self) -> (instructions: Vec<RenderInstruction>)
        ensures
            instructions@ == self.drawn(),
    {
        let mut instructions = Vec::new();
        instructions.push(
            RenderInstruction::DrawRect {
                point: self.fields.position,
                size: self.fields.size,
                color: self.background_color,
                clip_point: self.fields.position,
                clip_size: self.fields.size,
            },
        );
        instructions.push(
            RenderInstruction::DrawRect {
                point: self.corner(self.is_pressed),
                size: self.button_size,
                color: self.button_color,
                clip_point: self.fields.position,
                clip_size: self.fields.size,
            },
        );
        assert(instructions@ =~= self.drawn());
        instructions
    }

    /// The slider with the size that its parent grants: dirty, its stops
    /// shared out anew from where the slider stands, over the new width.
    pub open spec fn resized(self, size: Vector2D) -> SliderWidget {
        SliderWidget {
            fields: Fields { dirty: true, size: size, ..self.fields },
            first_stop: self.fields.position.x,
            stride: stride(self.range.0, self.range.1, self.step, size.x),
            ..self
        }
    }

    /// Gives the slider the size that its parent grants, and shares the stops
    /// out anew over the new width.
    pub fn set_size(&mut self, size: Vector2D)
        ensures
            *final(self) == old(self).resized(size),
            final(self).positions() == stops(
                old(self).range.0,
                old(self).range.1,
                old(self).step,
                old(self).fields.position.x,
                size.x,
            ),
    {
        self.fields.dirty = true;
        self.fields.size = size;
        self.first_stop = self.fields.position.x;
        self.stride = SliderWidget::stride_of(self.range.0, self.range.1, self.step, size.x);
    }

    /// Whether `cursor_pos` lies on the button as it rests at its stop, the
    /// edges of the button included.
    pub fn is_cursor_inside(&self, cursor_pos: Vector2D) -> (inside: bool)
        ensures
            inside == self.on_button(cursor_pos),
    {
        hit(self.corner(false), self.button_size, cursor_pos)
    }
}

/// The `k`-th stop exists exactly where its value does not pass `end`.
proof fn lemma_stop_count(start: i32, end: i32, step: i32, k: int)
    requires
        step > 0,
        start <= end,
        k >= 0,
    ensures
        (start + k * step <= end) == (k < stop_count(start, end, step)),
        k < stop_count(start, end, step) ==> i32::MIN <= start + k * step <= i32::MAX,
{
    let d = end - start;
    let s = step as int;
    let q = d / s;
    assert(d == q * s + d % s && 0 <= d % s < s) by (nonlinear_arith)
        requires
            s > 0,
            d >= 0,
            q == d / s,
    ;
    assert(k * step == k * s);
    if k <= q {
        assert(0 <= k * s <= q * s) by (nonlinear_arith)
            requires
                0 <= k <= q,
                s > 0,
        ;
    } else {
        assert(k * s >= q * s + s) by (nonlinear_arith)
            requires
                k >= q + 1,
                s > 0,
        ;
    }
}

/// Steps of one length, each held at the bounds of `i64`, lead where one step
/// of the whole length leads.
proof fn lemma_clamped_walk(left: int, stride: int, k: int)
    requires
        i64::MIN <= left <= i64::MAX,
        i64::MIN <= stride <= i64::MAX,
        k >= 0,
    ensures
        clamp(clamp(left + k * stride) + stride) == clamp(left + (k + 1) * stride),
{
    assert((k + 1) * stride == k * stride + stride) by (nonlinear_arith);
    if left + k * stride > i64::MAX {
        assert(stride > 0) by (nonlinear_arith)
            requires
                k * stride > 0,
                k >= 0,
        ;
    } else if left + k * stride < i64::MIN {
        assert(stride < 0) by (nonlinear_arith)
            requires
                k * stride < 0,
                k >= 0,
        ;
    }
}

} // verus!
