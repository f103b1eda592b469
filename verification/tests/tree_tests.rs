use hyber::event::{Event, Mouse};
use hyber::renderer::{
    build_overlays, handle_events, AbsoluteWidgetCollection, Message, RenderInstruction,
    RenderInstructionCollection,
};
use hyber::tree::{TreeError, WidgetTree};
use hyber::util::{Color, IDMachine, Queue, Vector2D};
use hyber::widget::label::LabelWidget;
use hyber::widget::list_view::ListViewWidget;
use hyber::widget::panel::PanelWidget;
use hyber::widget::root::RootWidget;
use hyber::widget::tab::TabWidget;
use hyber::widget::tooltip_view::TooltipViewWidget;
use hyber::widget::{Axis, Layout, Widget};

const RED: Color = Color { a: 0xff, r: 0xff, g: 0, b: 0 };
const BLUE: Color = Color { a: 0xff, r: 0, g: 0, b: 0xff };

fn label(width: i64, height: i64) -> Widget {
    Widget::Label(LabelWidget::new(String::from("x"), Vector2D::new(width, height), 12, RED, BLUE))
}

fn list(width: i64, height: i64, axis: Axis) -> Widget {
    Widget::List(ListViewWidget::new(Vector2D::new(width, height), axis))
}

fn dirty(tree: &WidgetTree, h: usize) -> bool {
    tree.get(h).unwrap().is_dirty()
}

fn clean_all(tree: &mut WidgetTree) {
    for h in 0..tree.len() {
        if tree.get(h).is_some() {
            tree.widget_mut(h).set_dirty(false);
        }
    }
}

#[test]
fn tree_refuses_layouts_that_cannot_be_carried_out() {
    let mut tree = WidgetTree::new();
    let sliver = Widget::Root(RootWidget::new(Vector2D::new(1, 1), RED, Layout::Sliver(Axis::Vertical)));
    assert_eq!(tree.insert(sliver), Err(TreeError::NotSupported));
    let grid = Widget::Root(RootWidget::new(Vector2D::new(1, 1), RED, Layout::Grid(Axis::Vertical, 0)));
    assert_eq!(tree.insert(grid), Err(TreeError::NotSupported));
    assert_eq!(tree.len(), 0);
    let good = Widget::Root(RootWidget::new(Vector2D::new(1, 1), RED, Layout::Grid(Axis::Vertical, 1)));
    assert_eq!(tree.insert(good), Ok(0));
    assert!(Layout::Box(Axis::Horizontal).is_supported());
    assert!(Layout::Stacked.is_supported());
    assert!(!Layout::Sliver(Axis::Horizontal).is_supported());
}

#[test]
fn tree_refuses_children_that_are_no_slots() {
    let mut tree = WidgetTree::new();
    let mut orphan = label(1, 1);
    orphan.add_as_child(0);
    assert_eq!(tree.insert(orphan), Err(TreeError::UnknownChild));
    let first = tree.insert(label(1, 1)).unwrap();
    let mut parent = label(1, 1);
    parent.add_as_child(first);
    let second = tree.insert(parent).unwrap();
    assert_eq!(second, 1);
    assert_eq!(tree.child(second, 0), first);
    assert_eq!(tree.add_as_child(first, 2), Err(TreeError::UnknownChild));
    assert_eq!(tree.add_as_child(2, first), Err(TreeError::Released));
}

#[test]
fn tree_refuses_cycles() {
    let mut tree = WidgetTree::new();
    let a = tree.insert(label(1, 1)).unwrap();
    let b = tree.insert(label(1, 1)).unwrap();
    let c = tree.insert(label(1, 1)).unwrap();
    assert_eq!(tree.add_as_child(a, a), Err(TreeError::Cycle));
    assert_eq!(tree.add_as_child(a, b), Ok(()));
    assert_eq!(tree.add_as_child(b, c), Ok(()));
    assert_eq!(tree.add_as_child(c, a), Err(TreeError::Cycle));
    assert_eq!(tree.add_as_child(b, a), Err(TreeError::Cycle));
    // The same widget may hang below two others.
    assert_eq!(tree.add_as_child(a, c), Ok(()));
    assert!(tree.reaches(a, c));
    assert!(tree.reaches(b, c));
    assert!(tree.reaches(c, c));
    assert!(!tree.reaches(c, a));
    assert!(!tree.reaches(b, a));
    assert!(tree.reaches(7, 7));
    assert!(!tree.reaches(7, a));
}

#[test]
fn released_widgets_are_passed_over() {
    let mut tree = WidgetTree::new();
    let mut machine = IDMachine::new();
    let mut collection = RenderInstructionCollection::new();
    let row = tree.insert(list(100, 20, Axis::Horizontal)).unwrap();
    let a = tree.insert(label(30, 20)).unwrap();
    let b = tree.insert(label(30, 20)).unwrap();
    let c = tree.insert(label(30, 20)).unwrap();
    for child in [a, b, c] {
        tree.add_as_child(row, child).unwrap();
    }
    let gone = tree.remove(b);
    assert!(matches!(gone, Some(Widget::Label(_))));
    assert!(tree.remove(b).is_none());
    assert!(tree.remove(99).is_none());
    assert!(tree.get(b).is_none());
    assert_eq!(tree.len(), 4);
    assert_eq!(tree.add_as_child(b, a), Err(TreeError::Released));

    tree.build(row, Vector2D::new(0, 0), Vector2D::new(100, 20), &mut machine, &mut collection);

    assert_eq!(tree.get(a).unwrap().position(), Vector2D::new(0, 0));
    assert_eq!(tree.get(c).unwrap().position(), Vector2D::new(30, 0));
    assert_eq!(collection.ordered_ids(), vec![1, 2, 3]);

    // Building or marking a handle that leads nowhere changes nothing.
    tree.build(b, Vector2D::new(0, 0), Vector2D::new(100, 20), &mut machine, &mut collection);
    tree.set_dirty(b, true);
    tree.set_size(b, Vector2D::new(1, 1));
    tree.set_id(99, 4);
    assert_eq!(collection.ordered_ids(), vec![1, 2, 3]);
    assert!(!dirty(&tree, a));
}

#[test]
fn identities_rise_in_the_order_of_the_walk_and_stay() {
    let mut tree = WidgetTree::new();
    let mut machine = IDMachine::new();
    let mut collection = RenderInstructionCollection::new();
    let a = tree.insert(label(30, 20)).unwrap();
    let b = tree.insert(label(30, 20)).unwrap();
    let row = tree.insert(list(100, 20, Axis::Horizontal)).unwrap();
    tree.add_as_child(row, b).unwrap();
    tree.add_as_child(row, a).unwrap();

    tree.build(row, Vector2D::new(0, 0), Vector2D::new(100, 20), &mut machine, &mut collection);
    assert_eq!(tree.get(row).unwrap().id(), 1);
    assert_eq!(tree.get(b).unwrap().id(), 2);
    assert_eq!(tree.get(a).unwrap().id(), 3);
    assert_eq!(machine.remaining(), usize::MAX - 3);

    tree.set_dirty(a, true);
    tree.build(row, Vector2D::new(0, 0), Vector2D::new(100, 20), &mut machine, &mut collection);
    assert_eq!(tree.get(a).unwrap().id(), 3);
    assert_eq!(machine.fetch_id(), 4);
}

#[test]
fn clean_widgets_are_not_drawn_anew() {
    let mut tree = WidgetTree::new();
    let mut machine = IDMachine::new();
    let mut collection = RenderInstructionCollection::new();
    let a = tree.insert(label(30, 20)).unwrap();
    tree.build(a, Vector2D::new(0, 0), Vector2D::new(30, 20), &mut machine, &mut collection);
    tree.build(a, Vector2D::new(50, 50), Vector2D::new(10, 10), &mut machine, &mut collection);
    assert_eq!(tree.get(a).unwrap().position(), Vector2D::new(0, 0));
    assert_eq!(tree.get(a).unwrap().size(), Vector2D::new(30, 20));
}

#[test]
fn dirt_spreads_to_the_children_behind_a_dirty_child() {
    let mut tree = WidgetTree::new();
    let mut machine = IDMachine::new();
    let mut collection = RenderInstructionCollection::new();
    let mut holder = PanelWidget::new(Vector2D::new(200, 20), false, RED, None, None);
    holder.fields.layout = Layout::Box(Axis::Horizontal);
    let row = tree.insert(Widget::Panel(holder)).unwrap();
    let mut children = Vec::new();
    for _ in 0..4 {
        let child = tree.insert(label(30, 20)).unwrap();
        tree.add_as_child(row, child).unwrap();
        children.push(child);
    }
    tree.build(row, Vector2D::new(0, 0), Vector2D::new(200, 20), &mut machine, &mut collection);
    assert_eq!(tree.get(children[3]).unwrap().position(), Vector2D::new(90, 0));

    // The second child grows: it is dirty, the others are clean.
    tree.set_original_size(children[1], Vector2D::new(50, 20));
    assert!(!dirty(&tree, row));
    assert!(!dirty(&tree, children[0]));
    assert!(dirty(&tree, children[1]));
    assert!(!dirty(&tree, children[2]));
    assert!(!dirty(&tree, children[3]));

    tree.build(row, Vector2D::new(0, 0), Vector2D::new(200, 20), &mut machine, &mut collection);

    for child in &children {
        assert!(!dirty(&tree, *child));
    }
    // The children behind it were drawn anew at their new places.
    assert_eq!(tree.get(children[0]).unwrap().position(), Vector2D::new(0, 0));
    assert_eq!(tree.get(children[1]).unwrap().size(), Vector2D::new(50, 20));
    assert_eq!(tree.get(children[2]).unwrap().position(), Vector2D::new(80, 0));
    assert_eq!(tree.get(children[3]).unwrap().position(), Vector2D::new(110, 0));
    match &collection.pairs.get(&tree.get(children[3]).unwrap().id()).unwrap()[0] {
        RenderInstruction::DrawRect { point, .. } => assert_eq!(*point, Vector2D::new(110, 0)),
        _ => panic!("a label draws its background first"),
    }
}

#[test]
fn stacked_children_are_not_marked_by_a_dirty_sibling() {
    let mut tree = WidgetTree::new();
    let mut machine = IDMachine::new();
    let mut collection = RenderInstructionCollection::new();
    let holder = tree
        .insert(Widget::Panel(PanelWidget::new(Vector2D::new(200, 20), false, RED, None, None)))
        .unwrap();
    let a = tree.insert(label(30, 20)).unwrap();
    let b = tree.insert(label(30, 20)).unwrap();
    tree.add_as_child(holder, a).unwrap();
    tree.add_as_child(holder, b).unwrap();
    tree.build(holder, Vector2D::new(0, 0), Vector2D::new(200, 20), &mut machine, &mut collection);
    tree.set_dirty(a, true);
    tree.build(holder, Vector2D::new(7, 7), Vector2D::new(200, 20), &mut machine, &mut collection);
    assert_eq!(tree.get(a).unwrap().position(), Vector2D::new(7, 7));
    assert_eq!(tree.get(b).unwrap().position(), Vector2D::new(0, 0));
}

#[test]
fn a_dirty_list_marks_its_children_up_to_the_first_dirty_one() {
    let mut tree = WidgetTree::new();
    let column = tree.insert(list(100, 100, Axis::Vertical)).unwrap();
    let inner = tree.insert(list(100, 50, Axis::Vertical)).unwrap();
    let deep = tree.insert(label(10, 10)).unwrap();
    let a = tree.insert(label(10, 10)).unwrap();
    let b = tree.insert(label(10, 10)).unwrap();
    let c = tree.insert(label(10, 10)).unwrap();
    tree.add_as_child(inner, deep).unwrap();
    for child in [inner, a, b, c] {
        tree.add_as_child(column, child).unwrap();
    }
    clean_all(&mut tree);
    tree.set_dirty(b, true);

    tree.set_dirty(column, true);

    assert!(dirty(&tree, column));
    assert!(dirty(&tree, inner));
    assert!(dirty(&tree, deep));
    assert!(dirty(&tree, a));
    assert!(dirty(&tree, b));
    assert!(!dirty(&tree, c));

    tree.set_dirty(column, false);
    assert!(!dirty(&tree, column));
    assert!(dirty(&tree, inner));
}

#[test]
fn a_label_keeps_its_dirt_to_itself_and_a_tab_does_not() {
    let mut tree = WidgetTree::new();
    let parent = tree.insert(label(10, 10)).unwrap();
    let tab = tree.insert(Widget::Tab(TabWidget::new(Vector2D::new(10, 10), RED, None, None))).unwrap();
    let a = tree.insert(label(10, 10)).unwrap();
    let b = tree.insert(label(10, 10)).unwrap();
    tree.add_as_child(parent, a).unwrap();
    tree.add_as_child(tab, b).unwrap();
    clean_all(&mut tree);
    tree.set_dirty(parent, true);
    assert!(!dirty(&tree, a));
    tree.set_dirty(tab, true);
    assert!(dirty(&tree, b));

    // A new size marks the children of a list, not those of a tab.
    clean_all(&mut tree);
    tree.set_size(tab, Vector2D::new(5, 5));
    assert!(dirty(&tree, tab));
    assert!(!dirty(&tree, b));
    let column = tree.insert(list(100, 100, Axis::Vertical)).unwrap();
    tree.add_as_child(column, a).unwrap();
    clean_all(&mut tree);
    tree.set_size(column, Vector2D::new(5, 5));
    assert!(dirty(&tree, column));
    assert!(dirty(&tree, a));
    assert_eq!(tree.get(column).unwrap().size(), Vector2D::new(5, 5));
}

#[test]
fn removing_instructions_twice_is_removing_them_once() {
    let mut collection = RenderInstructionCollection::new();
    collection.replace_or_insert(3, vec![RenderInstruction::Clear { color: RED }]);
    collection.replace_or_insert(5, vec![RenderInstruction::Clear { color: BLUE }]);
    collection.remove(4);
    assert_eq!(collection.ordered_ids(), vec![3, 5]);
    collection.remove(3);
    assert_eq!(collection.ordered_ids(), vec![5]);
    collection.remove(3);
    assert_eq!(collection.ordered_ids(), vec![5]);
    assert_eq!(collection.pairs.get(&5).unwrap(), &vec![RenderInstruction::Clear { color: BLUE }]);
    collection.replace_or_insert(5, vec![]);
    assert!(collection.pairs.get(&5).unwrap().is_empty());
    assert_eq!(collection.pairs.len(), 1);
}

#[test]
fn overlays_are_painted_after_the_widgets_of_the_tree() {
    let mut tree = WidgetTree::new();
    let mut machine = IDMachine::new();
    let mut collection = RenderInstructionCollection::new();
    let mut absolute = AbsoluteWidgetCollection::new();
    let a = tree.insert(label(30, 20)).unwrap();
    let b = tree.insert(label(40, 10)).unwrap();

    assert!(absolute.insert(&mut tree, b, Vector2D::new(9, 9), Vector2D::new(40, 10)));
    assert_eq!(tree.get(b).unwrap().id(), usize::MAX);
    assert_eq!(absolute.peek_key(), usize::MAX - 1);
    tree.build(a, Vector2D::new(0, 0), Vector2D::new(30, 20), &mut machine, &mut collection);
    build_overlays(&mut tree, &absolute, &mut collection);

    assert_eq!(collection.ordered_ids(), vec![1, usize::MAX]);
    assert_eq!(tree.get(b).unwrap().position(), Vector2D::new(9, 9));
    assert!(!dirty(&tree, b));
    match &collection.pairs.get(&usize::MAX).unwrap()[0] {
        RenderInstruction::DrawRect { point, size, .. } => {
            assert_eq!(*point, Vector2D::new(9, 9));
            assert_eq!(*size, Vector2D::new(40, 10));
        }
        _ => panic!("a label draws its background first"),
    }
    assert_eq!(absolute.get(usize::MAX), Some((b, Vector2D::new(9, 9), Vector2D::new(40, 10))));
    assert_eq!(absolute.ordered_keys(), vec![usize::MAX]);
    absolute.remove(usize::MAX);
    absolute.remove(usize::MAX);
    assert_eq!(absolute.get(usize::MAX), None);
    assert!(absolute.ordered_keys().is_empty());
    assert!(!absolute.insert(&mut tree, 99, Vector2D::new(0, 0), Vector2D::new(1, 1)));
    assert_eq!(absolute.peek_key(), usize::MAX - 1);
}

#[test]
fn tip_appears_under_the_cursor_and_goes_away() {
    let mut tree = WidgetTree::new();
    let mut machine = IDMachine::new();
    let mut collection = RenderInstructionCollection::new();
    let mut absolute = AbsoluteWidgetCollection::new();
    let mut messages: Queue<Message> = Queue::new();
    let mut events: Queue<Event> = Queue::new();
    let tip = tree.insert(label(60, 15)).unwrap();
    let holder = tree.insert(Widget::Tooltip(TooltipViewWidget::new(Vector2D::new(100, 50), tip))).unwrap();
    let inside = tree.insert(label(100, 50)).unwrap();
    tree.add_as_child(holder, inside).unwrap();
    tree.build(holder, Vector2D::new(0, 0), Vector2D::new(100, 50), &mut machine, &mut collection);
    tree.widget_mut(tip).set_dirty(false);
    assert_eq!(collection.ordered_ids(), vec![1, 2]);

    events.enqueue(Event::Mouse(Mouse::CursorMoved { x: 20, y: 30 }));
    handle_events(&mut tree, holder, &mut events, 0, &mut messages, &mut collection, &mut absolute);
    assert!(events.is_empty());
    assert_eq!(tree.get(tip).unwrap().id(), usize::MAX);
    assert!(dirty(&tree, tip));
    assert_eq!(absolute.get(usize::MAX), Some((tip, Vector2D::new(20, 30), Vector2D::new(60, 15))));
    build_overlays(&mut tree, &absolute, &mut collection);
    assert_eq!(collection.ordered_ids(), vec![1, 2, usize::MAX]);
    assert_eq!(tree.get(tip).unwrap().position(), Vector2D::new(20, 30));

    // While the tip is shown, further movements on the holder leave it alone.
    events.enqueue(Event::Mouse(Mouse::CursorMoved { x: 25, y: 30 }));
    handle_events(&mut tree, holder, &mut events, 0, &mut messages, &mut collection, &mut absolute);
    assert_eq!(absolute.ordered_keys(), vec![usize::MAX]);
    assert_eq!(absolute.peek_key(), usize::MAX - 1);

    events.enqueue(Event::Mouse(Mouse::CursorMoved { x: 200, y: 30 }));
    handle_events(&mut tree, holder, &mut events, 0, &mut messages, &mut collection, &mut absolute);
    assert_eq!(tree.get(tip).unwrap().id(), 0);
    assert!(absolute.ordered_keys().is_empty());
    assert_eq!(collection.ordered_ids(), vec![1, 2]);

    // The next time the tip takes the next key.
    events.enqueue(Event::Mouse(Mouse::CursorMoved { x: 1, y: 1 }));
    handle_events(&mut tree, holder, &mut events, 0, &mut messages, &mut collection, &mut absolute);
    assert_eq!(tree.get(tip).unwrap().id(), usize::MAX - 1);
    assert!(messages.is_empty());
}

#[test]
fn events_reach_the_children_of_containers_only() {
    let mut tree = WidgetTree::new();
    let mut collection = RenderInstructionCollection::new();
    let mut absolute = AbsoluteWidgetCollection::new();
    let mut messages: Queue<Message> = Queue::new();
    let deep = tree.insert(Widget::Tab(TabWidget::new(Vector2D::new(10, 10), RED, None, None))).unwrap();
    let hidden = tree.insert(Widget::Tab(TabWidget::new(Vector2D::new(10, 10), RED, None, None))).unwrap();
    let wall = tree.insert(label(10, 10)).unwrap();
    let row = tree.insert(list(100, 20, Axis::Horizontal)).unwrap();
    tree.add_as_child(wall, hidden).unwrap();
    tree.add_as_child(row, wall).unwrap();
    tree.add_as_child(row, deep).unwrap();

    let moved = Event::Mouse(Mouse::CursorMoved { x: 3, y: 4 });
    tree.on_event(row, moved, 0, &mut messages, &mut collection, &mut absolute);

    let cursor_of = |h: usize| match tree.get(h).unwrap() {
        Widget::Tab(t) => t.cursor_pos,
        _ => unreachable!(),
    };
    assert_eq!(cursor_of(deep), Vector2D::new(3, 4));
    assert_eq!(cursor_of(hidden), Vector2D::new(-1, -1));
}

#[test]
fn a_released_widget_leaves_the_screen() {
    let mut tree = WidgetTree::new();
    let mut machine = IDMachine::new();
    let mut collection = RenderInstructionCollection::new();
    let mut absolute = AbsoluteWidgetCollection::new();
    let row = tree.insert(list(100, 20, Axis::Horizontal)).unwrap();
    let a = tree.insert(label(30, 20)).unwrap();
    let tip = tree.insert(label(30, 20)).unwrap();
    tree.add_as_child(row, a).unwrap();
    tree.build(row, Vector2D::new(0, 0), Vector2D::new(100, 20), &mut machine, &mut collection);
    assert!(absolute.insert(&mut tree, tip, Vector2D::new(1, 1), Vector2D::new(30, 20)));
    build_overlays(&mut tree, &absolute, &mut collection);
    assert_eq!(collection.ordered_ids(), vec![1, 2, usize::MAX]);

    assert!(tree.release(a, &mut collection, &mut absolute).is_some());
    assert_eq!(collection.ordered_ids(), vec![1, usize::MAX]);
    assert!(tree.get(a).is_none());
    assert!(tree.release(a, &mut collection, &mut absolute).is_none());
    assert_eq!(collection.ordered_ids(), vec![1, usize::MAX]);

    assert!(tree.release(tip, &mut collection, &mut absolute).is_some());
    assert_eq!(collection.ordered_ids(), vec![1]);
    assert!(absolute.ordered_keys().is_empty());

    tree.set_dirty(row, true);
    tree.build(row, Vector2D::new(0, 0), Vector2D::new(100, 20), &mut machine, &mut collection);
    assert_eq!(collection.ordered_ids(), vec![1]);
}

#[test]
fn children_before_the_dirty_child_keep_what_they_had() {
    let mut tree = WidgetTree::new();
    let mut machine = IDMachine::new();
    let mut collection = RenderInstructionCollection::new();
    let mut holder = PanelWidget::new(Vector2D::new(200, 20), false, RED, None, None);
    holder.fields.layout = Layout::Box(Axis::Vertical);
    let column = tree.insert(Widget::Panel(holder)).unwrap();
    let mut children = Vec::new();
    for _ in 0..3 {
        let child = tree.insert(label(30, 20)).unwrap();
        tree.add_as_child(column, child).unwrap();
        children.push(child);
    }
    tree.build(column, Vector2D::new(0, 0), Vector2D::new(200, 100), &mut machine, &mut collection);
    let ids: Vec<usize> = children.iter().map(|c| tree.get(*c).unwrap().id()).collect();

    // The pass comes again with another place. Only the second child is dirty.
    tree.set_dirty(children[1], true);
    tree.build(column, Vector2D::new(5, 5), Vector2D::new(200, 100), &mut machine, &mut collection);

    assert_eq!(tree.get(children[0]).unwrap().position(), Vector2D::new(0, 0));
    assert_eq!(tree.get(children[1]).unwrap().position(), Vector2D::new(5, 25));
    assert_eq!(tree.get(children[2]).unwrap().position(), Vector2D::new(5, 45));
    for (child, id) in children.iter().zip(ids) {
        assert_eq!(tree.get(*child).unwrap().id(), id);
        assert!(!dirty(&tree, *child));
    }
    match &collection.pairs.get(&tree.get(children[0]).unwrap().id()).unwrap()[0] {
        RenderInstruction::DrawRect { point, .. } => assert_eq!(*point, Vector2D::new(0, 0)),
        _ => panic!("a label draws its background first"),
    }
}

#[test]
fn a_dirty_list_has_all_its_children_drawn_anew() {
    let mut tree = WidgetTree::new();
    let mut machine = IDMachine::new();
    let mut collection = RenderInstructionCollection::new();
    let row = tree.insert(list(100, 20, Axis::Horizontal)).unwrap();
    let a = tree.insert(label(30, 50)).unwrap();
    let b = tree.insert(label(30, 10)).unwrap();
    tree.add_as_child(row, a).unwrap();
    tree.add_as_child(row, b).unwrap();
    tree.build(row, Vector2D::new(0, 0), Vector2D::new(100, 20), &mut machine, &mut collection);
    assert_eq!(tree.get(a).unwrap().size(), Vector2D::new(30, 20));

    // A new size for the list marks its children, so both are laid out anew.
    tree.widget_mut(row).set_dirty(true);
    tree.build(row, Vector2D::new(0, 0), Vector2D::new(40, 60), &mut machine, &mut collection);
    assert_eq!(tree.get(a).unwrap().size(), Vector2D::new(30, 50));
    assert_eq!(tree.get(b).unwrap().size(), Vector2D::new(10, 10));
    assert_eq!(tree.get(b).unwrap().position(), Vector2D::new(30, 0));
}
