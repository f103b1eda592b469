use hyber::event::{Event, Mouse, MouseButton};
use hyber::renderer::{
    frame, AbsoluteWidgetCollection, Message, RenderInstruction, RenderInstructionCollection,
};
use hyber::tree::WidgetTree;
use hyber::util::{Color, IDMachine, Queue, Vector2D};
use hyber::widget::button_view::ButtonViewWidget;
use hyber::widget::label::LabelWidget;
use hyber::widget::root::RootWidget;
use hyber::widget::{Axis, Layout, Widget};

fn label(text: &str, width: i64, height: i64) -> Widget {
    Widget::Label(LabelWidget::new(
        String::from(text),
        Vector2D::new(width, height),
        12,
        Color::from_hex(0xff101010),
        Color::from_hex(0xffeeeeee),
    ))
}

fn position_of(tree: &WidgetTree, h: usize) -> Vector2D {
    tree.get(h).unwrap().position()
}

#[test]
fn label_is_drawn_and_redrawn_under_one_identity() {
    let mut tree = WidgetTree::new();
    let mut machine = IDMachine::new();
    let mut collection = RenderInstructionCollection::new();
    let h = tree.insert(label("0", 100, 30)).unwrap();

    tree.build(h, Vector2D::new(0, 0), Vector2D::new(100, 30), &mut machine, &mut collection);

    assert_eq!(collection.pairs.len(), 1);
    let id = tree.get(h).unwrap().id();
    assert_eq!(id, 1);
    let drawn = collection.pairs.get(&id).unwrap();
    assert_eq!(drawn.len(), 2);
    assert!(matches!(drawn[0], RenderInstruction::DrawRect { .. }));
    match &drawn[1] {
        RenderInstruction::DrawText { string, .. } => assert_eq!(string, "0"),
        _ => panic!("the second instruction of a label draws its text"),
    }
    assert!(!tree.get(h).unwrap().is_dirty());

    match tree.widget_mut(h) {
        Widget::Label(l) => l.set_text(String::from("1")),
        _ => unreachable!(),
    }
    assert!(tree.get(h).unwrap().is_dirty());

    tree.build(h, Vector2D::new(0, 0), Vector2D::new(100, 30), &mut machine, &mut collection);

    assert_eq!(tree.get(h).unwrap().id(), id);
    assert_eq!(collection.pairs.len(), 1);
    match &collection.pairs.get(&id).unwrap()[1] {
        RenderInstruction::DrawText { string, .. } => assert_eq!(string, "1"),
        _ => panic!("the second instruction of a label draws its text"),
    }
    assert!(!tree.get(h).unwrap().is_dirty());
}

#[test]
fn long_press_sends_the_long_press_message_once() {
    let mut tree = WidgetTree::new();
    let mut machine = IDMachine::new();
    let mut collection = RenderInstructionCollection::new();
    let mut absolute = AbsoluteWidgetCollection::new();
    let mut messages: Queue<Message> = Queue::new();

    let text = tree.insert(label("click", 80, 20)).unwrap();
    let button = tree
        .insert(Widget::Button(ButtonViewWidget::new(
            Vector2D::new(100, 40),
            true,
            Color::from_hex(0xff00ff00),
            Some(Message::new(1)),
            Some(Message::new(2)),
        )))
        .unwrap();
    assert_eq!(tree.add_as_child(button, text), Ok(()));
    tree.build(button, Vector2D::new(10, 10), Vector2D::new(100, 40), &mut machine, &mut collection);

    let moved = Event::Mouse(Mouse::CursorMoved { x: 50, y: 30 });
    let pressed = Event::Mouse(Mouse::ButtonPressed(MouseButton::Left));
    let released = Event::Mouse(Mouse::ButtonReleased(MouseButton::Left));
    tree.on_event(button, moved, 1_000, &mut messages, &mut collection, &mut absolute);
    tree.on_event(button, pressed, 1_000, &mut messages, &mut collection, &mut absolute);
    assert!(messages.is_empty());
    tree.on_event(button, released, 1_600, &mut messages, &mut collection, &mut absolute);

    assert_eq!(messages.lenght(), 1);
    assert_eq!(messages.dequeue(), Message { key: 2, event: Some(released) });
}

#[test]
fn short_press_sends_the_press_message_once() {
    let mut tree = WidgetTree::new();
    let mut collection = RenderInstructionCollection::new();
    let mut absolute = AbsoluteWidgetCollection::new();
    let mut messages: Queue<Message> = Queue::new();
    let button = tree
        .insert(Widget::Button(ButtonViewWidget::new(
            Vector2D::new(100, 40),
            true,
            Color::from_hex(0xff00ff00),
            Some(Message::new(1)),
            Some(Message::new(2)),
        )))
        .unwrap();

    let moved = Event::Mouse(Mouse::CursorMoved { x: 50, y: 30 });
    let pressed = Event::Mouse(Mouse::ButtonPressed(MouseButton::Left));
    let released = Event::Mouse(Mouse::ButtonReleased(MouseButton::Left));
    tree.on_event(button, moved, 0, &mut messages, &mut collection, &mut absolute);
    tree.on_event(button, pressed, 100, &mut messages, &mut collection, &mut absolute);
    tree.on_event(button, released, 599, &mut messages, &mut collection, &mut absolute);

    assert_eq!(messages.lenght(), 1);
    assert_eq!(messages.dequeue(), Message { key: 1, event: Some(released) });

    tree.on_event(button, pressed, 1_000, &mut messages, &mut collection, &mut absolute);
    tree.on_event(button, released, 1_500, &mut messages, &mut collection, &mut absolute);
    assert_eq!(messages.dequeue(), Message { key: 2, event: Some(released) });
}

#[test]
fn grid_places_four_children_in_two_lines() {
    let mut tree = WidgetTree::new();
    let mut machine = IDMachine::new();
    let mut collection = RenderInstructionCollection::new();
    let root = tree
        .insert(Widget::Root(RootWidget::new(
            Vector2D::new(100, 100),
            Color::from_hex(0xffffffff),
            Layout::Grid(Axis::Vertical, 2),
        )))
        .unwrap();
    let mut children = Vec::new();
    for name in ["a", "b", "c", "d"] {
        let child = tree.insert(label(name, 50, 50)).unwrap();
        assert_eq!(tree.add_as_child(root, child), Ok(()));
        children.push(child);
    }

    tree.build(root, Vector2D::new(0, 0), Vector2D::new(100, 100), &mut machine, &mut collection);

    assert_eq!(position_of(&tree, children[0]), Vector2D::new(0, 0));
    assert_eq!(position_of(&tree, children[1]), Vector2D::new(50, 0));
    assert_eq!(position_of(&tree, children[2]), Vector2D::new(0, 50));
    assert_eq!(position_of(&tree, children[3]), Vector2D::new(50, 50));
    for child in children {
        assert_eq!(tree.get(child).unwrap().size(), Vector2D::new(50, 50));
    }
}

#[test]
fn grid_with_a_line_that_is_not_full_rounds_the_lines_up() {
    let mut tree = WidgetTree::new();
    let mut machine = IDMachine::new();
    let mut collection = RenderInstructionCollection::new();
    let root = tree
        .insert(Widget::Root(RootWidget::new(
            Vector2D::new(90, 60),
            Color::from_hex(0xffffffff),
            Layout::Grid(Axis::Horizontal, 2),
        )))
        .unwrap();
    let mut children = Vec::new();
    for name in ["a", "b", "c"] {
        let child = tree.insert(label(name, 100, 100)).unwrap();
        assert_eq!(tree.add_as_child(root, child), Ok(()));
        children.push(child);
    }

    tree.build(root, Vector2D::new(0, 0), Vector2D::new(90, 60), &mut machine, &mut collection);

    // Two cells high, and two columns for three children: cells of 45 by 30.
    assert_eq!(position_of(&tree, children[0]), Vector2D::new(0, 0));
    assert_eq!(position_of(&tree, children[1]), Vector2D::new(0, 30));
    assert_eq!(position_of(&tree, children[2]), Vector2D::new(45, 0));
    assert_eq!(tree.get(children[2]).unwrap().size(), Vector2D::new(45, 30));
}

#[test]
fn frame_routes_events_builds_and_keeps_messages() {
    let mut tree = WidgetTree::new();
    let mut machine = IDMachine::new();
    let mut collection = RenderInstructionCollection::new();
    let mut absolute = AbsoluteWidgetCollection::new();
    let mut messages: Queue<Message> = Queue::new();
    let mut events: Queue<Event> = Queue::new();

    let root = tree
        .insert(Widget::Root(RootWidget::new(
            Vector2D::new(640, 360),
            Color::from_hex(0xffffffff),
            Layout::Box(Axis::Horizontal),
        )))
        .unwrap();
    let button = tree
        .insert(Widget::Button(ButtonViewWidget::new(
            Vector2D::new(200, 200),
            true,
            Color::from_hex(0x36bd2b00),
            Some(Message::new(7)),
            None,
        )))
        .unwrap();
    let text = tree.insert(label("Teste1!", 200, 200)).unwrap();
    assert_eq!(tree.add_as_child(button, text), Ok(()));
    assert_eq!(tree.add_as_child(root, button), Ok(()));

    frame(
        &mut tree,
        root,
        &mut events,
        0,
        &mut messages,
        Vector2D::new(640, 360),
        &mut machine,
        &mut collection,
        &mut absolute,
    );
    assert_eq!(collection.ordered_ids(), vec![1, 2, 3]);
    assert_eq!(
        collection.pairs.get(&1).unwrap()[0],
        RenderInstruction::Clear { color: Color::from_hex(0xffffffff) }
    );
    assert!(collection.pairs.get(&2).unwrap().is_empty());

    events.enqueue(Event::Mouse(Mouse::CursorMoved { x: 20, y: 20 }));
    events.enqueue(Event::Mouse(Mouse::ButtonPressed(MouseButton::Left)));
    events.enqueue(Event::Mouse(Mouse::ButtonReleased(MouseButton::Left)));
    frame(
        &mut tree,
        root,
        &mut events,
        16,
        &mut messages,
        Vector2D::new(640, 360),
        &mut machine,
        &mut collection,
        &mut absolute,
    );
    assert!(events.is_empty());
    assert_eq!(messages.lenght(), 1);
    assert_eq!(messages.peek().unwrap().key, 7);
    assert_eq!(
        messages.peek().unwrap().event,
        Some(Event::Mouse(Mouse::ButtonReleased(MouseButton::Left)))
    );
}
