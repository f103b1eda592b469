use hyber::display::DisplayDescritor;
use hyber::event::{Event, Keyboard, ModifiersState, Mouse, MouseButton, ScrollDelta, Window};
use hyber::key_code::KeyCode;
use hyber::renderer::{DrawImageOptions, Message, RenderInstruction};
use hyber::util::{Color, Queue, Vector2D};
use hyber::widget::button_view::ButtonViewWidget;
use hyber::widget::checkbox::CheckBoxWidget;
use hyber::widget::icon::IconWidget;
use hyber::widget::label::LabelWidget;
use hyber::widget::list_view::ListViewWidget;
use hyber::widget::panel::PanelWidget;
use hyber::widget::progress_bar::ProgressBarWidget;
use hyber::widget::root::RootWidget;
use hyber::widget::slider::{Position, SliderWidget};
use hyber::widget::sliver_view::SliverViewWidget;
use hyber::widget::tab::TabWidget;
use hyber::widget::textbox::TextBoxWidget;
use hyber::widget::tooltip_view::TooltipViewWidget;
use hyber::widget::{Axis, Layout, NotSupported, Reaction, Widget};

const BLACK: Color = Color { a: 0xff, r: 0, g: 0, b: 0 };
const RED: Color = Color { a: 0xff, r: 0xff, g: 0, b: 0 };
const BLUE: Color = Color { a: 0xff, r: 0, g: 0, b: 0xff };

fn moved(x: usize, y: usize) -> Event {
    Event::Mouse(Mouse::CursorMoved { x, y })
}

fn pressed(button: MouseButton) -> Event {
    Event::Mouse(Mouse::ButtonPressed(button))
}

fn released(button: MouseButton) -> Event {
    Event::Mouse(Mouse::ButtonReleased(button))
}

fn button_at(x: i64, y: i64, width: i64, height: i64) -> Widget {
    let mut w = Widget::Button(ButtonViewWidget::new(
        Vector2D::new(width, height),
        true,
        RED,
        Some(Message::new(1)),
        Some(Message::new(2)),
    ));
    w.set_position(Vector2D::new(x, y));
    w
}

#[test]
fn hit_test_includes_both_edges() {
    let w = button_at(10, 10, 20, 20);
    assert!(w.is_cursor_inside(Vector2D::new(10, 10)));
    assert!(w.is_cursor_inside(Vector2D::new(30, 30)));
    assert!(w.is_cursor_inside(Vector2D::new(30, 10)));
    assert!(w.is_cursor_inside(Vector2D::new(20, 15)));
    assert!(!w.is_cursor_inside(Vector2D::new(9, 10)));
    assert!(!w.is_cursor_inside(Vector2D::new(31, 10)));
    assert!(!w.is_cursor_inside(Vector2D::new(10, 9)));
    assert!(!w.is_cursor_inside(Vector2D::new(10, 31)));
}

#[test]
fn hit_test_does_not_overflow_at_the_rim_of_the_grid() {
    let w = button_at(i64::MAX - 5, 0, 100, 10);
    assert!(w.is_cursor_inside(Vector2D::new(i64::MAX, 5)));
    assert!(!w.is_cursor_inside(Vector2D::new(i64::MAX - 6, 5)));
}

#[test]
fn every_kind_is_hit_on_its_rectangle() {
    let mut label = Widget::Label(LabelWidget::new(String::from("x"), Vector2D::new(20, 20), 12, BLACK, BLUE));
    label.set_position(Vector2D::new(10, 10));
    assert!(label.is_cursor_inside(Vector2D::new(30, 30)));
    assert!(label.is_cursor_inside(Vector2D::new(10, 10)));
    assert!(!label.is_cursor_inside(Vector2D::new(9, 10)));
    assert!(!label.is_cursor_inside(Vector2D::new(31, 10)));

    let mut icon = Widget::Icon(IconWidget::new(
        String::from("a.png"),
        Vector2D::new(20, 20),
        DrawImageOptions::OriginalSize,
        RED,
    ));
    let mut bar = Widget::ProgressBar(ProgressBarWidget::new(Vector2D::new(20, 20), 1, 50, RED, BLUE));
    icon.set_position(Vector2D::new(10, 10));
    bar.set_position(Vector2D::new(10, 10));
    for w in [icon, bar] {
        assert!(w.is_cursor_inside(Vector2D::new(10, 10)));
        assert!(w.is_cursor_inside(Vector2D::new(30, 30)));
        assert!(!w.is_cursor_inside(Vector2D::new(9, 10)));
        assert!(!w.is_cursor_inside(Vector2D::new(10, 31)));
    }
}

#[test]
fn pinned_kinds_are_hit_on_their_rectangle_at_the_origin() {
    let mut root = Widget::Root(RootWidget::new(Vector2D::new(20, 20), RED, Layout::Stacked));
    let mut list = Widget::List(ListViewWidget::new(Vector2D::new(20, 20), Axis::Vertical));
    let mut sliver = Widget::Sliver(SliverViewWidget::new(Vector2D::new(20, 20), Axis::Vertical));
    root.set_position(Vector2D::new(10, 10));
    list.set_position(Vector2D::new(10, 10));
    sliver.set_position(Vector2D::new(10, 10));
    for w in [root, list, sliver] {
        assert!(w.is_cursor_inside(Vector2D::new(0, 0)));
        assert!(w.is_cursor_inside(Vector2D::new(20, 20)));
        assert!(!w.is_cursor_inside(Vector2D::new(21, 20)));
        assert!(!w.is_cursor_inside(Vector2D::new(30, 30)));
    }
}

#[test]
fn new_widgets_are_dirty_and_without_identity() {
    let w = button_at(0, 0, 30, 40);
    assert!(w.is_dirty());
    assert_eq!(w.id(), 0);
    assert_eq!(w.size(), Vector2D::new(30, 40));
    assert_eq!(w.original_size(), Vector2D::new(30, 40));
    assert_eq!(w.layout(), Layout::Stacked);
    assert_eq!(w.offset(), Vector2D::new(0, 0));
    assert!(w.fields_ref().children.is_empty());
    let list = Widget::List(ListViewWidget::new(Vector2D::new(10, 10), Axis::Horizontal));
    assert_eq!(list.layout(), Layout::Box(Axis::Horizontal));
    let tip = Widget::Tooltip(TooltipViewWidget::new(Vector2D::new(10, 10), 3));
    assert_eq!(tip.layout(), Layout::Box(Axis::Vertical));
    assert_eq!(tip.overlay(), Some((3, Vector2D::new(-1, -1))));
}

#[test]
fn setters_change_what_they_name() {
    let mut w = button_at(0, 0, 30, 40);
    w.set_dirty(false);
    w.set_id(9);
    w.set_offset(Vector2D::new(2, 3));
    w.add_as_child(4);
    w.get_children().push(5);
    assert_eq!(w.id(), 9);
    assert_eq!(w.offset(), Vector2D::new(2, 3));
    assert_eq!(w.fields_ref().children, vec![4, 5]);
    assert!(!w.is_dirty());
    w.set_size(Vector2D::new(1, 2));
    assert!(w.is_dirty());
    assert_eq!(w.size(), Vector2D::new(1, 2));
    assert_eq!(w.original_size(), Vector2D::new(30, 40));
    w.set_dirty(false);
    w.set_original_size(Vector2D::new(7, 8));
    assert!(w.is_dirty());
    assert_eq!(w.original_size(), Vector2D::new(7, 8));
    assert_eq!(
        w.get_fields(),
        (true, Vector2D::new(0, 0), Vector2D::new(1, 2), Vector2D::new(7, 8), Layout::Stacked, Vector2D::new(2, 3))
    );
}

#[test]
fn pinned_widgets_stay_at_the_origin_without_margin() {
    let mut root = Widget::Root(RootWidget::new(Vector2D::new(10, 10), RED, Layout::Box(Axis::Vertical)));
    root.set_position(Vector2D::new(5, 5));
    root.set_offset(Vector2D::new(5, 5));
    assert_eq!(root.position(), Vector2D::new(0, 0));
    assert_eq!(root.offset(), Vector2D::new(0, 0));
    let mut list = Widget::List(ListViewWidget::new(Vector2D::new(10, 10), Axis::Vertical));
    list.set_position(Vector2D::new(5, 5));
    assert_eq!(list.position(), Vector2D::new(0, 0));
    let mut tip = Widget::Tooltip(TooltipViewWidget::new(Vector2D::new(10, 10), 0));
    tip.set_position(Vector2D::new(5, 6));
    tip.set_offset(Vector2D::new(1, 1));
    assert_eq!(tip.position(), Vector2D::new(5, 6));
    assert_eq!(tip.offset(), Vector2D::new(0, 0));
    assert_eq!(tip.get_fields().1, Vector2D::new(0, 0));
}

#[test]
fn label_draws_background_then_text() {
    let mut label = LabelWidget::new(String::from("hi"), Vector2D::new(100, 30), 14, RED, BLUE);
    label.fields.position = Vector2D::new(3, 4);
    assert_eq!(
        label.recipe(),
        vec![
            RenderInstruction::DrawRect {
                point: Vector2D::new(3, 4),
                size: Vector2D::new(100, 30),
                color: RED,
                clip_point: Vector2D::new(3, 4),
                clip_size: Vector2D::new(100, 30),
            },
            RenderInstruction::DrawText {
                point: Vector2D::new(3, 34),
                font_size: 14,
                string: String::from("hi"),
                color: BLUE,
                clip_point: Vector2D::new(3, 4),
                clip_size: Vector2D::new(100, 30),
            },
        ]
    );
    label.set_clip_point(Some(Vector2D::new(0, 0)));
    label.set_clip_size(Some(Vector2D::new(50, 10)));
    match &label.recipe()[1] {
        RenderInstruction::DrawText { clip_point, clip_size, .. } => {
            assert_eq!(*clip_point, Vector2D::new(0, 0));
            assert_eq!(*clip_size, Vector2D::new(50, 10));
        }
        _ => panic!("a label draws its text second"),
    }
}

#[test]
fn label_ignores_events() {
    let mut label = LabelWidget::new(String::from("hi"), Vector2D::new(100, 30), 14, RED, BLUE);
    let mut messages: Queue<Message> = Queue::new();
    label.fields.dirty = false;
    assert_eq!(label.on_event(pressed(MouseButton::Left), 0, &mut messages), Reaction::Stop);
    assert!(messages.is_empty());
    assert!(!label.fields.dirty);
}

#[test]
fn icon_and_root_and_tab_draw_what_they_are() {
    let icon = IconWidget::new(
        String::from("a.png"),
        Vector2D::new(16, 16),
        DrawImageOptions::Resize { width: 8, height: 8 },
        RED,
    );
    assert_eq!(
        icon.recipe()[1],
        RenderInstruction::DrawImage {
            point: Vector2D::new(0, 0),
            path: String::from("a.png"),
            options: DrawImageOptions::Resize { width: 8, height: 8 },
            clip_point: Vector2D::new(0, 0),
            clip_size: Vector2D::new(16, 16),
        }
    );
    let root = RootWidget::new(Vector2D::new(16, 16), BLUE, Layout::Stacked);
    assert_eq!(root.recipe(), vec![RenderInstruction::Clear { color: BLUE }]);
    let tab = TabWidget::new(Vector2D::new(16, 16), RED, None, None);
    assert_eq!(tab.recipe().len(), 1);
    let button = ButtonViewWidget::new(Vector2D::new(16, 16), true, RED, None, None);
    assert!(button.recipe().is_empty());
}

#[test]
fn button_without_messages_or_switched_off_is_not_armed() {
    let mut messages: Queue<Message> = Queue::new();
    let mut plain = ButtonViewWidget::new(Vector2D::new(10, 10), true, RED, None, None);
    plain.on_event(moved(5, 5), 0, &mut messages);
    plain.on_event(pressed(MouseButton::Left), 0, &mut messages);
    assert!(!plain.is_pressed);

    let mut off = ButtonViewWidget::new(Vector2D::new(10, 10), false, RED, Some(Message::new(1)), None);
    off.on_event(moved(5, 5), 0, &mut messages);
    off.on_event(pressed(MouseButton::Left), 0, &mut messages);
    assert!(!off.is_pressed);
    off.set_is_clickable(true);
    off.on_event(pressed(MouseButton::Left), 7, &mut messages);
    assert!(off.is_pressed);
    assert_eq!(off.click_time, 7);
}

#[test]
fn button_released_outside_sends_nothing() {
    let mut messages: Queue<Message> = Queue::new();
    let mut button = ButtonViewWidget::new(
        Vector2D::new(10, 10),
        true,
        RED,
        Some(Message::new(1)),
        Some(Message::new(2)),
    );
    assert_eq!(button.on_event(moved(5, 5), 0, &mut messages), Reaction::Forward);
    assert_eq!(button.on_event(pressed(MouseButton::Left), 0, &mut messages), Reaction::Stop);
    button.on_event(moved(50, 5), 10, &mut messages);
    assert_eq!(button.on_event(released(MouseButton::Left), 20, &mut messages), Reaction::Stop);
    assert!(messages.is_empty());
    assert!(!button.is_pressed);
    assert_eq!(
        button.on_event(Event::Window(Window::Resized { width: 1, height: 1 }), 0, &mut messages),
        Reaction::Forward
    );
}

#[test]
fn long_press_starts_exactly_at_the_threshold() {
    let mut messages: Queue<Message> = Queue::new();
    let mut button = ButtonViewWidget::new(
        Vector2D::new(10, 10),
        true,
        RED,
        Some(Message::new(1)),
        Some(Message::new(2)),
    );
    button.on_event(moved(5, 5), 0, &mut messages);
    button.on_event(pressed(MouseButton::Left), 100, &mut messages);
    button.on_event(released(MouseButton::Left), 599, &mut messages);
    button.on_event(pressed(MouseButton::Left), 100, &mut messages);
    button.on_event(released(MouseButton::Left), 600, &mut messages);
    // A clock that ran backwards counts as one that stood still.
    button.on_event(pressed(MouseButton::Left), 100, &mut messages);
    button.on_event(released(MouseButton::Left), 50, &mut messages);
    assert_eq!(messages.dequeue().key, 1);
    assert_eq!(messages.dequeue().key, 2);
    assert_eq!(messages.dequeue().key, 1);
    assert!(messages.is_empty());
}

#[test]
fn panel_takes_the_right_button_beside_it() {
    let mut messages: Queue<Message> = Queue::new();
    let mut panel = PanelWidget::new(
        Vector2D::new(10, 10),
        true,
        RED,
        Some(Message::new(1)),
        Some(Message::new(2)),
    );
    panel.on_event(moved(50, 50), 0, &mut messages);
    assert_eq!(panel.on_event(pressed(MouseButton::Left), 0, &mut messages), Reaction::Stop);
    assert!(!panel.is_pressed);
    panel.on_event(pressed(MouseButton::Right), 0, &mut messages);
    assert!(panel.is_pressed);
    panel.on_event(released(MouseButton::Right), 10, &mut messages);
    assert_eq!(messages.dequeue(), Message { key: 1, event: Some(released(MouseButton::Right)) });

    panel.on_event(moved(5, 5), 0, &mut messages);
    panel.on_event(pressed(MouseButton::Right), 0, &mut messages);
    assert!(!panel.is_pressed);
    panel.on_event(pressed(MouseButton::Left), 0, &mut messages);
    assert!(panel.is_pressed);
    panel.on_event(released(MouseButton::Left), 500, &mut messages);
    assert_eq!(messages.dequeue().key, 2);
    assert_eq!(panel.on_event(pressed(MouseButton::Middle), 0, &mut messages), Reaction::Forward);
    assert_eq!(panel.on_event(released(MouseButton::Other(4)), 0, &mut messages), Reaction::Forward);
    panel.set_is_clickable(false);
    panel.on_event(pressed(MouseButton::Left), 0, &mut messages);
    assert!(!panel.is_pressed);
    assert!(panel.recipe().is_empty());
}

#[test]
fn checkbox_flips_and_reports() {
    let mut messages: Queue<Message> = Queue::new();
    let mut boxed = CheckBoxWidget::new(Vector2D::new(20, 20), BLUE, RED, Some(Message::new(4)), false, 2, 10);
    boxed.fields.dirty = false;
    assert_eq!(boxed.on_event(pressed(MouseButton::Left), 0, &mut messages), Reaction::Stop);
    assert!(!boxed.get_is_checked());
    assert!(messages.is_empty());
    assert_eq!(boxed.on_event(moved(20, 0), 0, &mut messages), Reaction::Forward);
    boxed.on_event(pressed(MouseButton::Left), 0, &mut messages);
    assert!(boxed.get_is_checked());
    assert!(boxed.fields.dirty);
    assert_eq!(messages.dequeue(), Message { key: 4, event: Some(pressed(MouseButton::Left)) });
    boxed.set_message(None);
    boxed.on_event(pressed(MouseButton::Left), 0, &mut messages);
    assert!(!boxed.get_is_checked());
    assert!(messages.is_empty());
    assert_eq!(boxed.on_event(released(MouseButton::Left), 0, &mut messages), Reaction::Forward);
    assert!(boxed.is_cursor_inside(Vector2D::new(20, 20)));
    assert!(!boxed.is_cursor_inside(Vector2D::new(21, 20)));
}

#[test]
fn checkbox_draws_its_border_by_state() {
    let mut boxed = CheckBoxWidget::new(Vector2D::new(200, 100), BLUE, RED, None, false, 3, 10);
    boxed.fields.position = Vector2D::new(10, 20);
    let clip = (Vector2D::new(10, 20), Vector2D::new(200, 100));
    assert_eq!(
        boxed.recipe(),
        vec![
            RenderInstruction::DrawRect {
                point: Vector2D::new(10, 20),
                size: Vector2D::new(200, 100),
                color: BLACK,
                clip_point: clip.0,
                clip_size: clip.1,
            },
            RenderInstruction::DrawRect {
                point: Vector2D::new(13, 23),
                size: Vector2D::new(194, 94),
                color: BLUE,
                clip_point: clip.0,
                clip_size: clip.1,
            },
        ]
    );
    boxed.is_checked = true;
    assert_eq!(
        boxed.recipe(),
        vec![
            RenderInstruction::DrawRect {
                point: Vector2D::new(10, 20),
                size: Vector2D::new(200, 100),
                color: RED,
                clip_point: clip.0,
                clip_size: clip.1,
            },
            RenderInstruction::DrawRect {
                point: Vector2D::new(30, 30),
                size: Vector2D::new(160, 80),
                color: BLUE,
                clip_point: clip.0,
                clip_size: clip.1,
            },
        ]
    );
}

#[test]
fn progress_bar_fills_its_share() {
    let mut bar = ProgressBarWidget::new(Vector2D::new(200, 10), 12, 25, RED, BLUE);
    bar.fields.dirty = false;
    match &bar.recipe()[1] {
        RenderInstruction::DrawRect { size, color, .. } => {
            assert_eq!(*size, Vector2D::new(50, 10));
            assert_eq!(*color, BLUE);
        }
        _ => panic!("a progress bar draws rectangles"),
    }
    bar.set_progress(33);
    assert!(bar.fields.dirty);
    match &bar.recipe()[1] {
        RenderInstruction::DrawRect { size, .. } => assert_eq!(*size, Vector2D::new(66, 10)),
        _ => panic!("a progress bar draws rectangles"),
    }
    match &bar.recipe()[0] {
        RenderInstruction::DrawRect { size, color, .. } => {
            assert_eq!(*size, Vector2D::new(200, 10));
            assert_eq!(*color, RED);
        }
        _ => panic!("a progress bar draws rectangles"),
    }
}

#[test]
fn textbox_takes_and_loses_the_focus() {
    let mut messages: Queue<Message> = Queue::new();
    let mut text = TextBoxWidget::new(Vector2D::new(100, 30), BLUE, RED, 2, String::from("abc"), None);
    text.on_event(moved(10, 10), 0, &mut messages);
    assert_eq!(text.on_event(pressed(MouseButton::Left), 0, &mut messages), Reaction::Stop);
    assert!(text.is_focused);
    text.on_event(moved(200, 10), 0, &mut messages);
    text.on_event(pressed(MouseButton::Left), 0, &mut messages);
    assert!(!text.is_focused);
    text.set_message(Some(Message::new(3)));
    assert_eq!(text.on_text_change, Some(Message::new(3)));
    let key = Event::Keyboard(Keyboard::KeyPressed {
        key_code: KeyCode::A,
        modifiers: ModifiersState { shift: false, control: false, alt: false, logo: false },
    });
    assert_eq!(text.on_event(key, 0, &mut messages), Reaction::Forward);
    assert!(messages.is_empty());
}

#[test]
fn textbox_draws_frame_ground_and_text() {
    let mut text = TextBoxWidget::new(Vector2D::new(100, 30), BLUE, RED, 2, String::from("abc"), None);
    text.fields.position = Vector2D::new(5, 6);
    let clip = (Vector2D::new(5, 6), Vector2D::new(100, 30));
    assert_eq!(
        text.recipe(),
        vec![
            RenderInstruction::DrawRect {
                point: Vector2D::new(5, 6),
                size: Vector2D::new(100, 30),
                color: BLACK,
                clip_point: clip.0,
                clip_size: clip.1,
            },
            RenderInstruction::DrawRect {
                point: Vector2D::new(7, 8),
                size: Vector2D::new(96, 26),
                color: BLUE,
                clip_point: clip.0,
                clip_size: clip.1,
            },
            RenderInstruction::DrawText {
                point: Vector2D::new(15, 26),
                font_size: 22,
                string: String::from("abc"),
                color: RED,
                clip_point: clip.0,
                clip_size: clip.1,
            },
        ]
    );
}

#[test]
fn tab_tells_a_click_from_a_drag() {
    let mut messages: Queue<Message> = Queue::new();
    let mut tab = TabWidget::new(Vector2D::new(50, 20), RED, Some(Message::new(1)), Some(Message::new(2)));
    tab.on_event(moved(10, 10), 0, &mut messages);
    tab.on_event(pressed(MouseButton::Left), 1_000, &mut messages);
    tab.on_event(released(MouseButton::Left), 1_299, &mut messages);
    assert_eq!(messages.dequeue().key, 1);
    assert_eq!(tab.get_moved_cursor_pos(), Vector2D::new(-1, -1));

    // Exactly at the threshold the release is neither.
    tab.on_event(pressed(MouseButton::Left), 1_000, &mut messages);
    tab.on_event(released(MouseButton::Left), 1_300, &mut messages);
    assert!(messages.is_empty());
    assert!(!tab.is_pressed);

    tab.on_event(pressed(MouseButton::Left), 1_000, &mut messages);
    tab.on_event(moved(300, 40), 1_100, &mut messages);
    tab.on_event(released(MouseButton::Left), 1_301, &mut messages);
    assert_eq!(messages.dequeue(), Message { key: 2, event: Some(released(MouseButton::Left)) });
    assert_eq!(tab.get_moved_cursor_pos(), Vector2D::new(300, 40));

    tab.set_new_message_move(None);
    tab.on_event(moved(10, 10), 0, &mut messages);
    tab.on_event(pressed(MouseButton::Left), 0, &mut messages);
    tab.on_event(released(MouseButton::Left), 1_000, &mut messages);
    assert!(messages.is_empty());
    assert_eq!(tab.get_moved_cursor_pos(), Vector2D::new(10, 10));

    // A press beside the tab does not arm it.
    tab.on_event(moved(300, 40), 0, &mut messages);
    tab.on_event(pressed(MouseButton::Left), 0, &mut messages);
    assert!(!tab.is_pressed);
}

#[test]
fn tooltip_asks_for_its_tip_while_hovered() {
    let mut messages: Queue<Message> = Queue::new();
    let mut tip = TooltipViewWidget::new(Vector2D::new(50, 20), 7);
    assert_eq!(tip.on_event(moved(10, 10), 0, &mut messages), Reaction::Show);
    assert_eq!(tip.cursor_pos, Vector2D::new(10, 10));
    assert_eq!(tip.on_event(moved(51, 10), 0, &mut messages), Reaction::Hide);
    assert_eq!(tip.on_event(pressed(MouseButton::Left), 0, &mut messages), Reaction::Forward);
    assert!(tip.recipe().is_empty());
    assert!(tip.is_cursor_inside(Vector2D::new(50, 20)));
}

#[test]
fn slider_stops_are_spread_evenly() {
    let stops = SliderWidget::get_slider_positions(0, 10, 2, Vector2D::new(5, 0), Vector2D::new(100, 20));
    assert_eq!(
        stops,
        vec![
            Position { slider_value: 0, x_coordinate: 5 },
            Position { slider_value: 2, x_coordinate: 25 },
            Position { slider_value: 4, x_coordinate: 45 },
            Position { slider_value: 6, x_coordinate: 65 },
            Position { slider_value: 8, x_coordinate: 85 },
            Position { slider_value: 10, x_coordinate: 105 },
        ]
    );
    assert_eq!(SliderWidget::get_slider_index(6, &stops), 3);
    assert_eq!(SliderWidget::get_slider_index(10, &stops), 5);
    assert_eq!(SliderWidget::get_slider_index(0, &stops), 0);
    assert_eq!(SliderWidget::get_slider_index(5, &stops), 0);
    assert_eq!(SliderWidget::get_slider_index(11, &stops), 0);
    assert_eq!(SliderWidget::stride_of(0, 3, 1, 100), 33);
    assert_eq!(SliderWidget::stride_of(5, 5, 1, 100), 0);
    let uneven = SliderWidget::get_slider_positions(1, 8, 3, Vector2D::new(0, 0), Vector2D::new(70, 20));
    assert_eq!(uneven.len(), 3);
    assert_eq!(uneven[2], Position { slider_value: 7, x_coordinate: 60 });
    assert!(SliderWidget::get_slider_positions(3, 2, 1, Vector2D::new(0, 0), Vector2D::new(70, 20)).is_empty());
    assert!(SliderWidget::get_slider_positions(0, 2, 0, Vector2D::new(0, 0), Vector2D::new(70, 20)).is_empty());
    let wide = SliderWidget::get_slider_positions(
        i32::MAX - 1,
        i32::MAX,
        1,
        Vector2D::new(i64::MAX - 1, 0),
        Vector2D::new(50, 20),
    );
    assert_eq!(
        wide,
        vec![
            Position { slider_value: i32::MAX - 1, x_coordinate: i64::MAX - 1 },
            Position { slider_value: i32::MAX, x_coordinate: i64::MAX },
        ]
    );
}

fn slider() -> SliderWidget {
    SliderWidget::new(
        Vector2D::new(100, 20),
        BLUE,
        RED,
        Vector2D::new(10, 10),
        (0, 10),
        2,
        4,
        Some(Message::new(9)),
    )
}

#[test]
fn slider_starts_at_the_stop_of_its_value() {
    let s = slider();
    assert_eq!(s.slider_index, 2);
    assert_eq!(s.get_slider_value(), 4);
    assert_eq!(s.count(), 6);
    assert_eq!(s.position_at(2), Position { slider_value: 4, x_coordinate: 40 });
    let off = SliderWidget::new(Vector2D::new(100, 20), BLUE, RED, Vector2D::new(10, 10), (0, 10), 2, 5, None);
    assert_eq!(off.slider_index, 0);
    assert_eq!(off.get_slider_value(), 5);
}

#[test]
fn slider_without_a_positive_step_has_no_stop_and_stays() {
    let mut messages: Queue<Message> = Queue::new();
    for step in [0, -3] {
        let mut s = SliderWidget::new(
            Vector2D::new(100, 20),
            BLUE,
            RED,
            Vector2D::new(10, 10),
            (0, 10),
            step,
            4,
            Some(Message::new(9)),
        );
        s.fields.position = Vector2D::new(50, 0);
        assert_eq!(s.count(), 0);
        assert_eq!(s.slider_index, 0);
        assert_eq!(s.get_slider_value(), 4);
        // The button is centred on the left edge of the slider.
        match &s.recipe()[1] {
            RenderInstruction::DrawRect { point, .. } => assert_eq!(*point, Vector2D::new(45, 5)),
            _ => panic!("a slider draws rectangles"),
        }
        s.on_event(moved(50, 10), 0, &mut messages);
        s.on_event(pressed(MouseButton::Left), 0, &mut messages);
        assert!(s.is_pressed);
        s.on_event(moved(90, 10), 0, &mut messages);
        s.on_event(released(MouseButton::Left), 0, &mut messages);
        assert_eq!(s.slider_index, 0);
        assert_eq!(s.get_slider_value(), 4);
        assert!(messages.is_empty());
    }
}

#[test]
fn slider_button_is_hit_where_it_rests() {
    let s = slider();
    // The button is 10 by 10 and is centred on (40, 10).
    assert!(s.is_cursor_inside(Vector2D::new(35, 5)));
    assert!(s.is_cursor_inside(Vector2D::new(45, 15)));
    assert!(!s.is_cursor_inside(Vector2D::new(34, 5)));
    assert!(!s.is_cursor_inside(Vector2D::new(46, 15)));
    assert!(!s.is_cursor_inside(Vector2D::new(40, 16)));
    match &s.recipe()[1] {
        RenderInstruction::DrawRect { point, size, color, .. } => {
            assert_eq!(*point, Vector2D::new(35, 5));
            assert_eq!(*size, Vector2D::new(10, 10));
            assert_eq!(*color, RED);
        }
        _ => panic!("a slider draws rectangles"),
    }
}

#[test]
fn slider_follows_the_cursor_and_rests_at_a_stop() {
    let mut messages: Queue<Message> = Queue::new();
    let mut s = slider();
    s.fields.dirty = false;
    assert_eq!(s.on_event(moved(40, 10), 0, &mut messages), Reaction::Forward);
    assert_eq!(s.on_event(pressed(MouseButton::Left), 0, &mut messages), Reaction::Stop);
    assert!(s.is_pressed);
    assert_eq!(s.on_event(moved(77, 10), 0, &mut messages), Reaction::Stop);
    assert!(s.fields.dirty);
    match &s.recipe()[1] {
        RenderInstruction::DrawRect { point, .. } => assert_eq!(*point, Vector2D::new(72, 5)),
        _ => panic!("a slider draws rectangles"),
    }
    assert_eq!(s.on_event(released(MouseButton::Left), 0, &mut messages), Reaction::Stop);
    assert!(!s.is_pressed);
    assert_eq!(s.slider_index, 4);
    assert_eq!(s.get_slider_value(), 8);
    assert_eq!(messages.dequeue(), Message { key: 9, event: Some(released(MouseButton::Left)) });

    // Back to the left, past the first stop: the cursor counts as on the bar.
    s.on_event(moved(80, 10), 0, &mut messages);
    s.on_event(pressed(MouseButton::Left), 0, &mut messages);
    s.on_event(moved(0, 10), 0, &mut messages);
    s.on_event(released(MouseButton::Left), 0, &mut messages);
    assert_eq!(s.slider_index, 0);
    assert_eq!(s.get_slider_value(), 0);
    assert_eq!(messages.lenght(), 1);
    messages.dequeue();

    // Far to the right: the last stop.
    s.on_event(moved(0, 10), 0, &mut messages);
    s.on_event(pressed(MouseButton::Left), 0, &mut messages);
    s.on_event(moved(5_000, 10), 0, &mut messages);
    assert_eq!(s.cursor_pos, Vector2D::new(100, 10));
    s.on_event(released(MouseButton::Left), 0, &mut messages);
    assert_eq!(s.slider_index, 5);
    assert_eq!(s.get_slider_value(), 10);
}

#[test]
fn slider_that_is_let_go_near_its_stop_stays() {
    let mut messages: Queue<Message> = Queue::new();
    let mut s = slider();
    s.on_event(moved(40, 10), 0, &mut messages);
    s.on_event(pressed(MouseButton::Left), 0, &mut messages);
    s.on_event(moved(50, 10), 0, &mut messages);
    s.on_event(released(MouseButton::Left), 0, &mut messages);
    assert_eq!(s.slider_index, 2);
    assert!(messages.is_empty());
    s.on_event(moved(40, 10), 0, &mut messages);
    s.on_event(pressed(MouseButton::Left), 0, &mut messages);
    s.on_event(moved(51, 10), 0, &mut messages);
    s.on_event(released(MouseButton::Left), 0, &mut messages);
    assert_eq!(s.slider_index, 3);
    assert_eq!(messages.lenght(), 1);
    // A release without a press does nothing.
    s.fields.dirty = false;
    s.on_event(released(MouseButton::Left), 0, &mut messages);
    assert!(!s.fields.dirty);
    s.set_message(None);
    assert_eq!(s.on_slide, None);
}

#[test]
fn slider_shares_its_stops_out_anew_when_resized() {
    let mut s = Widget::Slider(slider());
    s.set_position(Vector2D::new(10, 0));
    s.set_dirty(false);
    s.set_size(Vector2D::new(50, 20));
    assert!(s.is_dirty());
    match &s {
        Widget::Slider(inner) => {
            assert_eq!(inner.first_stop, 10);
            assert_eq!(inner.stride, 10);
            assert_eq!(inner.position_at(5), Position { slider_value: 10, x_coordinate: 60 });
        }
        _ => unreachable!(),
    }
}

#[test]
fn modifiers_match_when_all_required_are_held() {
    let none = ModifiersState { shift: false, control: false, alt: false, logo: false };
    let shift = ModifiersState { shift: true, ..none };
    let both = ModifiersState { shift: true, control: true, ..none };
    assert!(both.matches(shift));
    assert!(both.matches(both));
    assert!(both.matches(none));
    assert!(!shift.matches(both));
    assert!(!none.matches(ModifiersState { alt: true, ..none }));
    assert!(!none.matches(ModifiersState { logo: true, ..none }));
    assert!(ModifiersState { logo: true, alt: true, ..none }.matches(ModifiersState { logo: true, ..none }));
}

#[test]
fn display_settings_have_their_defaults() {
    let d = DisplayDescritor::default();
    assert!(d.border && d.titled && d.minimizable);
    assert!(!d.resizable && !d.topmost);
}

#[test]
fn message_records_its_event() {
    let mut m = Message::new(5);
    assert_eq!(m.event, None);
    let e = Event::Mouse(Mouse::WheelScrolled { delta: ScrollDelta::Pixels { x: 0, y: -3 } });
    m.set_event(e);
    assert_eq!(m, Message { key: 5, event: Some(e) });
}

#[test]
fn only_labels_and_the_root_take_a_clip() {
    let mut label = Widget::Label(LabelWidget::new(String::from("a"), Vector2D::new(10, 10), 1, RED, BLUE));
    assert_eq!(label.set_clip_point(Some(Vector2D::new(1, 2))), Ok(()));
    assert_eq!(label.set_clip_size(Some(Vector2D::new(3, 4))), Ok(()));
    match &label {
        Widget::Label(l) => {
            assert_eq!(l.clip_point, Some(Vector2D::new(1, 2)));
            assert_eq!(l.clip_size, Some(Vector2D::new(3, 4)));
        }
        _ => unreachable!(),
    }
    let mut root = Widget::Root(RootWidget::new(Vector2D::new(10, 10), RED, Layout::Stacked));
    assert_eq!(root.set_clip_point(Some(Vector2D::new(1, 2))), Ok(()));
    assert_eq!(root.set_clip_size(None), Ok(()));
    let mut button = button_at(0, 0, 10, 10);
    assert_eq!(button.set_clip_point(None), Err(NotSupported));
    assert_eq!(button.set_clip_size(Some(Vector2D::new(1, 2))), Err(NotSupported));
}
