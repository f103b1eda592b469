//! The widgets: what all of them hold, what each of them does with an event,
//! and what each of them draws.

use crate::event::Event;
use crate::renderer::{Message, RenderInstruction};
use crate::widget::button_view::ButtonViewWidget;
use crate::widget::checkbox::CheckBoxWidget;
use crate::widget::icon::IconWidget;
use crate::widget::label::LabelWidget;
use crate::widget::list_view::ListViewWidget;
use crate::widget::panel::PanelWidget;
use crate::widget::progress_bar::ProgressBarWidget;
use crate::widget::root::RootWidget;
use crate::widget::slider::SliderWidget;
use crate::widget::sliver_view::SliverViewWidget;
use crate::widget::tab::TabWidget;
use crate::widget::textbox::TextBoxWidget;
use crate::widget::tooltip_view::TooltipViewWidget;
use crate::util::{Queue, Vector2D};
use vstd::prelude::*;

pub mod button_view;
pub mod checkbox;
pub mod icon;
pub mod label;
pub mod list_view;
pub mod panel;
pub mod progress_bar;
pub mod root;
pub mod slider;
pub mod sliver_view;
pub mod tab;
pub mod textbox;
pub mod tooltip_view;

verus! {

/// A constraint that a parent puts on the size of a child.
#[derive(Clone, Copy, Debug, PartialEq, Eq, Structural)]
pub enum ConstraintType {
    /// The child has exactly this size.
    Tight {
        /// The size.
        size: Vector2D,
    },
    /// The child may choose a size between two bounds.
    Loose {
        /// The smallest size allowed.
        min: Vector2D,
        /// The greatest size allowed.
        max: Vector2D,
    },
}

/// A count that may be unbounded.
#[derive(Clone, Copy, Debug, PartialEq, Eq, Structural)]
pub enum Num {
    Num(usize),
    Infinity,
}

/// How a panel comes into view.
#[derive(Clone, Copy, Debug, PartialEq, Eq, Structural)]
pub enum Animation {
    Reveal,
    Push,
}

/// The direction along which widgets are lined up.
#[derive(Clone, Copy, Debug, PartialEq, Eq, Structural)]
pub enum Axis {
    /// Side by side, from left to right.
    Horizontal,
    /// One below the other, from top to bottom.
    Vertical,
}

/// How a widget arranges its children.
#[derive(Clone, Copy, Debug, PartialEq, Eq, Structural)]
pub enum Layout {
    /// The children stand in a row or in a column, each behind the one before.
    Box(Axis),
    /// The children fill the cells of a grid. The number says how many cells
    /// lie across the axis: the columns of a vertical grid, the rows of a
    /// horizontal one.
    Grid(Axis, usize),
    /// A part of a scrollable area. No widget tree can be built with it.
    Sliver(Axis),
    /// Every child is placed where the parent is.
    Stacked,
}

impl Layout {
    /// Whether a tree may hold a widget with this layout: a sliver cannot be
    /// laid out, and neither can a grid without cells.
    pub open spec fn supported(self) -> bool {
        match self {
            Layout::Sliver(_) => false,
            Layout::Grid(_, across) => across > 0,
            _ => true,
        }
    }

    pub fn is_supported(&self) -> (b: bool)
        ensures
            b == self.supported(),
    {
        match self {
            Layout::Sliver(_) => false,
            Layout::Grid(_, across) => *across > 0,
            _ => true,
        }
    }
}

/// The answer of a widget that is asked for what its kind cannot do.
#[derive(Clone, Copy, Debug, PartialEq, Eq, Structural)]
pub struct NotSupported;

/// What every widget holds, whatever its kind. A child is named by its handle
/// in the tree that holds both widgets.
pub struct Fields {
    /// The key of the widget's instructions; 0 while the widget is not drawn.
    pub id: usize,
    /// Whether the instructions drawn last are out of date.
    pub dirty: bool,
    /// The handles of the children, in layout order.
    pub children: Vec<usize>,
    /// The upper left corner.
    pub position: Vector2D,
    /// The size that the parent has granted.
    pub size: Vector2D,
    /// The size that the widget asks for. A parent never grants more.
    pub original_size: Vector2D,
    /// How the children are arranged.
    pub layout: Layout,
    /// The margin kept free on each side before the children are placed.
    pub offset: Vector2D,
}

impl Fields {
    /// The fields of a widget that was just made: without identity, dirty,
    /// childless, at the origin.
    pub open spec fn fresh(self, size: Vector2D, layout: Layout) -> bool {
        &&& self.id == 0
        &&& self.dirty
        &&& self.children@ == Seq::<usize>::empty()
        &&& self.position == Vector2D { x: 0, y: 0 }
        &&& self.size == size
        &&& self.original_size == size
        &&& self.layout == layout
        &&& self.offset == Vector2D { x: 0, y: 0 }
    }

    pub fn new(size: Vector2D, layout: Layout) -> (f: Fields)
        ensures
            f.fresh(size, layout),
    {
        Fields {
            id: 0,
            dirty: true,
            children: Vec::new(),
            position: Vector2D { x: 0, y: 0 },
            size: size,
            original_size: size,
            layout: layout,
            offset: Vector2D { x: 0, y: 0 },
        }
    }
}

/// Whether `point` lies in the rectangle at `position` of the given `size`,
/// its four edges included.
pub open spec fn covers(position: Vector2D, size: Vector2D, point: Vector2D) -> bool {
    &&& position.x <= point.x <= position.x + size.x
    &&& position.y <= point.y <= position.y + size.y
}

/// The hit test of every widget that can be clicked.
pub fn hit(position: Vector2D, size: Vector2D, point: Vector2D) -> (inside: bool)
    ensures
        inside == covers(position, size, point),
{
    point.x >= position.x && point.x as i128 <= position.x as i128 + size.x as i128 && point.y
        >= position.y && point.y as i128 <= position.y as i128 + size.y as i128
}

/// A window coordinate as a coordinate of the pixel grid.
pub open spec fn coordinate(v: usize) -> i64 {
    if v > i64::MAX {
        i64::MAX
    } else {
        v as i64
    }
}

/// The point of the pixel grid at which the display reports the cursor.
pub open spec fn cursor_at(x: usize, y: usize) -> Vector2D {
    Vector2D { x: coordinate(x), y: coordinate(y) }
}

pub fn cursor_point(x: usize, y: usize) -> (p: Vector2D)
    ensures
        p == cursor_at(x, y),
{
    Vector2D {
        x: if x as u64 > i64::MAX as u64 {
            i64::MAX
        } else {
            x as i64
        },
        y: if y as u64 > i64::MAX as u64 {
            i64::MAX
        } else {
            y as i64
        },
    }
}

/// The time that has passed at `now` since `then`, in the unit of the clock.
/// A clock that ran backwards counts as one that stood still.
pub open spec fn elapsed(now: u64, then: u64) -> int {
    if now >= then {
        now - then
    } else {
        0
    }
}

/// What a widget does with an event besides changing itself.
#[derive(Clone, Copy, Debug, PartialEq, Eq, Structural)]
pub enum Reaction {
    /// The event ends here: the children do not see it.
    Stop,
    /// The event goes on to every child.
    Forward,
    /// The widget's overlay is to be shown; the event goes on to every child.
    Show,
    /// The widget's overlay is to be taken away; the event goes on to every
    /// child.
    Hide,
}

/// What an event makes of a widget: the widget afterwards, the message that it
/// sends, and what becomes of the event.
pub struct Outcome<W> {
    pub widget: W,
    pub message: Option<Message>,
    pub reaction: Reaction,
}

/// The message of `slot`, if it holds one, with `event` recorded in it.
pub open spec fn stamped(slot: Option<Message>, event: Event) -> Option<Message> {
    match slot {
        Some(m) => Some(Message { key: m.key, event: Some(event) }),
        None => None,
    }
}

/// The queue `queue` after a widget has sent `message`, if it sent one.
pub open spec fn sent(queue: Seq<Message>, message: Option<Message>) -> Seq<Message> {
    match message {
        Some(m) => queue.push(m),
        None => queue,
    }
}

/// Queues a copy of the message in `slot`, with `event` recorded in it. An
/// empty slot queues nothing.
pub fn emit(slot: Option<Message>, event: Event, messages: &mut Queue<Message>)
    ensures
        final(messages)@ == sent(old(messages)@, stamped(slot, event)),
{
    if let Some(mut message) = slot {
        message.set_event(event);
        messages.enqueue(message);
    }
}

/// A widget of any kind.
pub enum Widget {
    /// A button.
    Button(ButtonViewWidget),
    /// A check box.
    CheckBox(CheckBoxWidget),
    /// An icon.
    Icon(IconWidget),
    /// A label.
    Label(LabelWidget),
    /// A list.
    List(ListViewWidget),
    /// A panel.
    Panel(PanelWidget),
    /// A progress bar.
    ProgressBar(ProgressBarWidget),
    /// The root of a tree.
    Root(RootWidget),
    /// A slider.
    Slider(SliderWidget),
    /// A scrollable list.
    Sliver(SliverViewWidget),
    /// A tab.
    Tab(TabWidget),
    /// A text box.
    TextBox(TextBoxWidget),
    /// A container with a tip.
    Tooltip(TooltipViewWidget),
}

impl Widget {
    /// What the widget holds in common with all others.
    pub open spec fn fields(self) -> Fields {
        match self {
            Widget::Button(w) => w.fields,
            Widget::CheckBox(w) => w.fields,
            Widget::Icon(w) => w.fields,
            Widget::Label(w) => w.fields,
            Widget::List(w) => w.fields,
            Widget::Panel(w) => w.fields,
            Widget::ProgressBar(w) => w.fields,
            Widget::Root(w) => w.fields,
            Widget::Slider(w) => w.fields,
            Widget::Sliver(w) => w.fields,
            Widget::Tab(w) => w.fields,
            Widget::TextBox(w) => w.fields,
            Widget::Tooltip(w) => w.fields,
        }
    }

    /// The widget with `fields` in place of its own.
    pub open spec fn with_fields(self, fields: Fields) -> Widget {
        match self {
            Widget::Button(w) => Widget::Button(ButtonViewWidget { fields: fields, ..w }),
            Widget::CheckBox(w) => Widget::CheckBox(CheckBoxWidget { fields: fields, ..w }),
            Widget::Icon(w) => Widget::Icon(IconWidget { fields: fields, ..w }),
            Widget::Label(w) => Widget::Label(LabelWidget { fields: fields, ..w }),
            Widget::List(w) => Widget::List(ListViewWidget { fields: fields, ..w }),
            Widget::Panel(w) => Widget::Panel(PanelWidget { fields: fields, ..w }),
            Widget::ProgressBar(w) => Widget::ProgressBar(ProgressBarWidget { fields: fields, ..w }),
            Widget::Root(w) => Widget::Root(RootWidget { fields: fields, ..w }),
            Widget::Slider(w) => Widget::Slider(SliderWidget { fields: fields, ..w }),
            Widget::Sliver(w) => Widget::Sliver(SliverViewWidget { fields: fields, ..w }),
            Widget::Tab(w) => Widget::Tab(TabWidget { fields: fields, ..w }),
            Widget::TextBox(w) => Widget::TextBox(TextBoxWidget { fields: fields, ..w }),
            Widget::Tooltip(w) => Widget::Tooltip(TooltipViewWidget { fields: fields, ..w }),
        }
    }

    /// Whether the widget stands at the origin whatever position it is given.
    pub open spec fn pinned(self) -> bool {
        self is Root || self is List || self is Sliver
    }

    /// Whether the widget keeps no margin whatever offset it is given.
    pub open spec fn unmargined(self) -> bool {
        self.pinned() || self is Tooltip
    }

    /// Whether the widget, when it is marked dirty, marks its children too.
    pub open spec fn spreads_dirt(self) -> bool {
        self is List || self is Sliver || self is Tab || self is Tooltip
    }

    /// Whether a new size marks the children of the widget dirty too.
    pub open spec fn resizing_spreads_dirt(self) -> bool {
        self is List || self is Sliver || self is Tooltip
    }

    /// Where the widget stands.
    pub open spec fn corner(self) -> Vector2D {
        if self.pinned() {
            Vector2D { x: 0, y: 0 }
        } else {
            self.fields().position
        }
    }

    /// The margin that the widget keeps.
    pub open spec fn margin(self) -> Vector2D {
        if self.unmargined() {
            Vector2D { x: 0, y: 0 }
        } else {
            self.fields().offset
        }
    }

    /// The widget with the dirty flag set to `value`.
    pub open spec fn flagged(self, value: bool) -> Widget {
        self.with_fields(Fields { dirty: value, ..self.fields() })
    }

    /// The widget under the identity `id`.
    pub open spec fn named(self, id: usize) -> Widget {
        self.with_fields(Fields { id: id, ..self.fields() })
    }

    /// The widget moved to `position`. A pinned widget stays.
    pub open spec fn placed(self, position: Vector2D) -> Widget {
        if self.pinned() {
            self
        } else {
            self.with_fields(Fields { position: position, ..self.fields() })
        }
    }

    /// The widget with the size `size`, and dirty. A slider shares out its
    /// stops anew.
    pub open spec fn sized(self, size: Vector2D) -> Widget {
        match self {
            Widget::Slider(w) => Widget::Slider(w.resized(size)),
            _ => self.with_fields(Fields { dirty: true, size: size, ..self.fields() }),
        }
    }

    /// The widget asking for the size `size`, and dirty.
    pub open spec fn asking(self, size: Vector2D) -> Widget {
        self.with_fields(Fields { dirty: true, original_size: size, ..self.fields() })
    }

    /// The widget with the margin `offset`. An unmargined widget stays as it
    /// is.
    pub open spec fn margined(self, offset: Vector2D) -> Widget {
        if self.unmargined() {
            self
        } else {
            self.with_fields(Fields { offset: offset, ..self.fields() })
        }
    }

    /// The overlay of the widget: the handle of the widget that is shown as
    /// its tip, and where the cursor was seen last. Only a container with a
    /// tip has one.
    pub open spec fn tip(self) -> Option<(usize, Vector2D)> {
        match self {
            Widget::Tooltip(w) => Some((w.tooltip_widget, w.cursor_pos)),
            _ => None,
        }
    }

    /// What the widget draws.
    pub open spec fn drawn(self) -> Seq<RenderInstruction> {
        match self {
            Widget::Button(w) => Seq::empty(),
            Widget::CheckBox(w) => w.drawn(),
            Widget::Icon(w) => w.drawn(),
            Widget::Label(w) => w.drawn(),
            Widget::List(w) => Seq::empty(),
            Widget::Panel(w) => Seq::empty(),
            Widget::ProgressBar(w) => w.drawn(),
            Widget::Root(w) => w.drawn(),
            Widget::Slider(w) => w.drawn(),
            Widget::Sliver(w) => Seq::empty(),
            Widget::Tab(w) => w.drawn(),
            Widget::TextBox(w) => w.drawn(),
            Widget::Tooltip(w) => Seq::empty(),
        }
    }

    /// Whether `point` hits the widget: whether it lies in the rectangle that
    /// the widget takes up where it stands, the edges included. A slider is
    /// hit on its button.
    pub open spec fn hit_by(self, point: Vector2D) -> bool {
        match self {
            Widget::Slider(w) => w.on_button(point),
            _ => covers(self.corner(), self.fields().size, point),
        }
    }

    /// What the event `event`, which arrives at the time `now`, makes of the
    /// widget.
    pub open spec fn reacted(self, event: Event, now: u64) -> Outcome<Widget> {
        match self {
            Widget::Button(w) => Outcome {
                widget: Widget::Button(w.reacted(event, now).widget),
                message: w.reacted(event, now).message,
                reaction: w.reacted(event, now).reaction,
            },
            Widget::CheckBox(w) => Outcome {
                widget: Widget::CheckBox(w.reacted(event, now).widget),
                message: w.reacted(event, now).message,
                reaction: w.reacted(event, now).reaction,
            },
            Widget::Icon(w) => Outcome {
                widget: Widget::Icon(w.reacted(event, now).widget),
                message: w.reacted(event, now).message,
                reaction: w.reacted(event, now).reaction,
            },
            Widget::Label(w) => Outcome {
                widget: Widget::Label(w.reacted(event, now).widget),
                message: w.reacted(event, now).message,
                reaction: w.reacted(event, now).reaction,
            },
            Widget::List(w) => Outcome {
                widget: Widget::List(w.reacted(event, now).widget),
                message: w.reacted(event, now).message,
                reaction: w.reacted(event, now).reaction,
            },
            Widget::Panel(w) => Outcome {
                widget: Widget::Panel(w.reacted(event, now).widget),
                message: w.reacted(event, now).message,
                reaction: w.reacted(event, now).reaction,
            },
            Widget::ProgressBar(w) => Outcome {
                widget: Widget::ProgressBar(w.reacted(event, now).widget),
                message: w.reacted(event, now).message,
                reaction: w.reacted(event, now).reaction,
            },
            Widget::Root(w) => Outcome {
                widget: Widget::Root(w.reacted(event, now).widget),
                message: w.reacted(event, now).message,
                reaction: w.reacted(event, now).reaction,
            },
            Widget::Slider(w) => Outcome {
                widget: Widget::Slider(w.reacted(event, now).widget),
                message: w.reacted(event, now).message,
                reaction: w.reacted(event, now).reaction,
            },
            Widget::Sliver(w) => Outcome {
                widget: Widget::Sliver(w.reacted(event, now).widget),
                message: w.reacted(event, now).message,
                reaction: w.reacted(event, now).reaction,
            },
            Widget::Tab(w) => Outcome {
                widget: Widget::Tab(w.reacted(event, now).widget),
                message: w.reacted(event, now).message,
                reaction: w.reacted(event, now).reaction,
            },
            Widget::TextBox(w) => Outcome {
                widget: Widget::TextBox(w.reacted(event, now).widget),
                message: w.reacted(event, now).message,
                reaction: w.reacted(event, now).reaction,
            },
            Widget::Tooltip(w) => Outcome {
                widget: Widget::Tooltip(w.reacted(event, now).widget),
                message: w.reacted(event, now).message,
                reaction: w.reacted(event, now).reaction,
            },
        }
    }

    /// The overlay of the widget, if it has one.
    pub fn overlay(&self) -> (tip: Option<(usize, Vector2D)>)
        ensures
            tip == self.tip(),
    {
        match self {
            Widget::Tooltip(w) => Some((w.tooltip_widget, w.cursor_pos)),
            _ => None,
        }
    }

    pub fn marks_children(&self) -> (b: bool)
        ensures
            b == self.spreads_dirt(),
    {
        match self {
            Widget::List(_) | Widget::Sliver(_) | Widget::Tab(_) | Widget::Tooltip(_) => true,
            _ => false,
        }
    }

    pub fn resizing_marks_children(&self) -> (b: bool)
        ensures
            b == self.resizing_spreads_dirt(),
    {
        match self {
            Widget::List(_) | Widget::Sliver(_) | Widget::Tooltip(_) => true,
            _ => false,
        }
    }

    pub fn fields_ref(&self) -> (fields: &Fields)
        ensures
            *fields == self.fields(),
    {
        match self {
            Widget::Button(w) => &w.fields,
            Widget::CheckBox(w) => &w.fields,
            Widget::Icon(w) => &w.fields,
            Widget::Label(w) => &w.fields,
            Widget::List(w) => &w.fields,
            Widget::Panel(w) => &w.fields,
            Widget::ProgressBar(w) => &w.fields,
            Widget::Root(w) => &w.fields,
            Widget::Slider(w) => &w.fields,
            Widget::Sliver(w) => &w.fields,
            Widget::Tab(w) => &w.fields,
            Widget::TextBox(w) => &w.fields,
            Widget::Tooltip(w) => &w.fields,
        }
    }

    /// The fields of the widget, to be changed in place.
    pub fn fields_mut(&mut self) -> (fields: &mut Fields)
        ensures
            *fields == old(self).fields(),
            *final(self) == old(self).with_fields(*final(fields)),
    {
        match self {
            Widget::Button(w) => &mut w.fields,
            Widget::CheckBox(w) => &mut w.fields,
            Widget::Icon(w) => &mut w.fields,
            Widget::Label(w) => &mut w.fields,
            Widget::List(w) => &mut w.fields,
            Widget::Panel(w) => &mut w.fields,
            Widget::ProgressBar(w) => &mut w.fields,
            Widget::Root(w) => &mut w.fields,
            Widget::Slider(w) => &mut w.fields,
            Widget::Sliver(w) => &mut w.fields,
            Widget::Tab(w) => &mut w.fields,
            Widget::TextBox(w) => &mut w.fields,
            Widget::Tooltip(w) => &mut w.fields,
        }
    }


    /// The key of the widget's instructions; 0 while the widget is not drawn.
    pub fn id(&self) -> (id: usize)
        ensures
            id == self.fields().id,
    {
        self.fields_ref().id
    }

    pub fn set_id(&mut self, id: usize)
        ensures
            *final(self) == old(self).named(id),
    {
        self.fields_mut().id = id;
    }

    /// Sets the dirty flag of this widget. What becomes of the children is the
    /// business of the tree that holds them.
    pub fn set_dirty(&mut self, value: bool)
        ensures
            *final(self) == old(self).flagged(value),
    {
        self.fields_mut().dirty = value;
    }

    pub fn is_dirty(&self) -> (dirty: bool)
        ensures
            dirty == self.fields().dirty,
    {
        self.fields_ref().dirty
    }

    /// Adds the widget with the handle `child` behind the children that the
    /// widget has.
    pub fn add_as_child(&mut self, child: usize)
        ensures
            final(self).fields().children@ == old(self).fields().children@.push(child),
            *final(self) == old(self).with_fields(final(self).fields()),
            final(self).fields() == (Fields {
                children: final(self).fields().children,
                ..old(self).fields()
            }),
    {
        self.fields_mut().children.push(child);
    }

    /// The handles of the children, to be changed in place.
    pub fn get_children(&mut self) -> (children: &mut Vec<usize>)
        ensures
            *children == old(self).fields().children,
            *final(self) == old(self).with_fields(
                Fields { children: *final(children), ..old(self).fields() },
            ),
    {
        &mut self.fields_mut().children
    }

    pub fn position(&self) -> (position: Vector2D)
        ensures
            position == self.corner(),
    {
        match self {
            Widget::Root(_) | Widget::List(_) | Widget::Sliver(_) => Vector2D::new(0, 0),
            _ => self.fields_ref().position,
        }
    }

    pub fn size(&self) -> (size: Vector2D)
        ensures
            size == self.fields().size,
    {
        self.fields_ref().size
    }

    pub fn original_size(&self) -> (size: Vector2D)
        ensures
            size == self.fields().original_size,
    {
        self.fields_ref().original_size
    }

    pub fn layout(&self) -> (layout: Layout)
        ensures
            layout == self.fields().layout,
    {
        self.fields_ref().layout
    }

    pub fn offset(&self) -> (offset: Vector2D)
        ensures
            offset == self.margin(),
    {
        match self {
            Widget::Root(_) | Widget::List(_) | Widget::Sliver(_) | Widget::Tooltip(_) => {
                Vector2D::new(0, 0)
            },
            _ => self.fields_ref().offset,
        }
    }

    /// The dirty flag, the position, the size, the size asked for, the layout
    /// and the margin, in one. The position of a container with a tip is given
    /// as the origin.
    pub fn get_fields(&self) -> (bundle: (bool, Vector2D, Vector2D, Vector2D, Layout, Vector2D))
        ensures
            bundle.0 == self.fields().dirty,
            bundle.1 == if self is Tooltip {
                Vector2D { x: 0, y: 0 }
            } else {
                self.corner()
            },
            bundle.2 == self.fields().size,
            bundle.3 == self.fields().original_size,
            bundle.4 == self.fields().layout,
            bundle.5 == self.margin(),
    {
        let fields = self.fields_ref();
        let position = match self {
            Widget::Tooltip(_) => Vector2D::new(0, 0),
            _ => self.position(),
        };
        (fields.dirty, position, fields.size, fields.original_size, fields.layout, self.offset())
    }

    pub fn set_position(&mut self, position: Vector2D)
        ensures
            *final(self) == old(self).placed(position),
    {
        match self {
            Widget::Root(_) | Widget::List(_) | Widget::Sliver(_) => {},
            _ => {
                self.fields_mut().position = position;
            },
        }
    }

    /// Gives this widget the size `size` and marks it dirty. What becomes of
    /// the children is the business of the tree that holds them.
    pub fn set_size(&mut self, size: Vector2D)
        ensures
            *final(self) == old(self).sized(size),
    {
        match self {
            Widget::Slider(w) => {
                w.set_size(size);
            },
            _ => {
                let fields = self.fields_mut();
                fields.dirty = true;
                fields.size = size;
            },
        }
    }

    /// Lets this widget ask for the size `size` and marks it dirty. What
    /// becomes of the children is the business of the tree that holds them.
    pub fn set_original_size(&mut self, size: Vector2D)
        ensures
            *final(self) == old(self).asking(size),
    {
        let fields = self.fields_mut();
        fields.dirty = true;
        fields.original_size = size;
    }

    pub fn set_offset(&mut self, offset: Vector2D)
        ensures
            *final(self) == old(self).margined(offset),
    {
        match self {
            Widget::Root(_) | Widget::List(_) | Widget::Sliver(_) | Widget::Tooltip(_) => {},
            _ => {
                self.fields_mut().offset = offset;
            },
        }
    }

    /// Whether the widget can be told where its instructions are clipped: a
    /// label can, and the root, which has nothing to clip, lets itself be told.
    pub open spec fn clippable(self) -> bool {
        self is Label || self is Root
    }

    /// Sets the corner of the rectangle in which the instructions of the
    /// widget are clipped; `None` stands for the corner of the widget. Only a
    /// label keeps it; the root takes it and changes nothing; every other
    /// kind refuses.
    pub fn set_clip_point(&mut self, clip_point: Option<Vector2D>) -> (r: Result<(), NotSupported>)
        ensures
            r.is_ok() == old(self).clippable(),
            *final(self) == match *old(self) {
                Widget::Label(w) => Widget::Label(LabelWidget { clip_point: clip_point, ..w }),
                _ => *old(self),
            },
    {
        match self {
            Widget::Label(w) => {
                w.set_clip_point(clip_point);
                Ok(())
            },
            Widget::Root(_) => Ok(()),
            _ => Err(NotSupported),
        }
    }

    /// Sets the size of the rectangle in which the instructions of the widget
    /// are clipped; `None` stands for the size of the widget. Only a label
    /// keeps it; the root takes it and changes nothing; every other kind
    /// refuses.
    pub fn set_clip_size(&mut self, clip_size: Option<Vector2D>) -> (r: Result<(), NotSupported>)
        ensures
            r.is_ok() == old(self).clippable(),
            *final(self) == match *old(self) {
                Widget::Label(w) => Widget::Label(LabelWidget { clip_size: clip_size, ..w }),
                _ => *old(self),
            },
    {
        match self {
            Widget::Label(w) => {
                w.set_clip_size(clip_size);
                Ok(())
            },
            Widget::Root(_) => Ok(()),
            _ => Err(NotSupported),
        }
    }

    /// The instructions that draw the widget as it is now.
    pub fn recipe(&self) -> (instructions: Vec<RenderInstruction>)
        ensures
            instructions@ == self.drawn(),
    {
        match self {
            Widget::Button(w) => w.recipe(),
            Widget::CheckBox(w) => w.recipe(),
            Widget::Icon(w) => w.recipe(),
            Widget::Label(w) => w.recipe(),
            Widget::List(w) => w.recipe(),
            Widget::Panel(w) => w.recipe(),
            Widget::ProgressBar(w) => w.recipe(),
            Widget::Root(w) => w.recipe(),
            Widget::Slider(w) => w.recipe(),
            Widget::Sliver(w) => w.recipe(),
            Widget::Tab(w) => w.recipe(),
            Widget::TextBox(w) => w.recipe(),
            Widget::Tooltip(w) => w.recipe(),
        }
    }

    /// Whether `cursor_pos` hits the widget.
    pub fn is_cursor_inside(&self, cursor_pos: Vector2D) -> (inside: bool)
        ensures
            inside == self.hit_by(cursor_pos),
    {
        match self {
            Widget::Button(w) => w.is_cursor_inside(cursor_pos),
            Widget::CheckBox(w) => w.is_cursor_inside(cursor_pos),
            Widget::Icon(w) => w.is_cursor_inside(cursor_pos),
            Widget::Label(w) => w.is_cursor_inside(cursor_pos),
            Widget::List(w) => w.is_cursor_inside(cursor_pos),
            Widget::Panel(w) => w.is_cursor_inside(cursor_pos),
            Widget::ProgressBar(w) => w.is_cursor_inside(cursor_pos),
            Widget::Root(w) => w.is_cursor_inside(cursor_pos),
            Widget::Slider(w) => w.is_cursor_inside(cursor_pos),
            Widget::Sliver(w) => w.is_cursor_inside(cursor_pos),
            Widget::Tab(w) => w.is_cursor_inside(cursor_pos),
            Widget::TextBox(w) => w.is_cursor_inside(cursor_pos),
            Widget::Tooltip(w) => w.is_cursor_inside(cursor_pos),
        }
    }

    /// Lets the widget react to `event`, which arrives at the time `now`. The
    /// widget changes itself and may queue a message; the result says what
    /// becomes of the event.
    pub fn on_event(&mut self, event: Event, now: u64, messages: &mut Queue<Message>) -> (r:
        Reaction)
        ensures
            *final(self) == old(self).reacted(event, now).widget,
            final(messages)@ == sent(old(messages)@, old(self).reacted(event, now).message),
            r == old(self).reacted(event, now).reaction,
    {
        match self {
            Widget::Button(w) => w.on_event(event, now, messages),
            Widget::CheckBox(w) => w.on_event(event, now, messages),
            Widget::Icon(w) => w.on_event(event, now, messages),
            Widget::Label(w) => w.on_event(event, now, messages),
            Widget::List(w) => w.on_event(event, now, messages),
            Widget::Panel(w) => w.on_event(event, now, messages),
            Widget::ProgressBar(w) => w.on_event(event, now, messages),
            Widget::Root(w) => w.on_event(event, now, messages),
            Widget::Slider(w) => w.on_event(event, now, messages),
            Widget::Sliver(w) => w.on_event(event, now, messages),
            Widget::Tab(w) => w.on_event(event, now, messages),
            Widget::TextBox(w) => w.on_event(event, now, messages),
            Widget::Tooltip(w) => w.on_event(event, now, messages),
        }
    }
}

} // verus!
