use hyber::layout::{advance, cell_of, first_cursor_of, slot_of, Cursor};
use hyber::renderer::RenderInstructionCollection;
use hyber::tree::WidgetTree;
use hyber::util::{Color, IDMachine, Vector2D};
use hyber::widget::label::LabelWidget;
use hyber::widget::list_view::ListViewWidget;
use hyber::widget::panel::PanelWidget;
use hyber::widget::{Axis, Layout, Widget};

fn label(width: i64, height: i64) -> Widget {
    Widget::Label(LabelWidget::new(
        String::from("x"),
        Vector2D::new(width, height),
        12,
        Color::from_hex(0xff101010),
        Color::from_hex(0xffeeeeee),
    ))
}

fn panel(width: i64, height: i64) -> Widget {
    Widget::Panel(PanelWidget::new(
        Vector2D::new(width, height),
        false,
        Color::from_hex(0xff000000),
        None,
        None,
    ))
}

#[test]
fn child_gets_the_smaller_of_wish_and_room() {
    let mut tree = WidgetTree::new();
    let mut machine = IDMachine::new();
    let mut collection = RenderInstructionCollection::new();
    let parent = tree.insert(panel(100, 50)).unwrap();
    let wide = tree.insert(label(200, 10)).unwrap();
    let high = tree.insert(label(30, 80)).unwrap();
    tree.add_as_child(parent, wide).unwrap();
    tree.add_as_child(parent, high).unwrap();

    tree.build(parent, Vector2D::new(5, 6), Vector2D::new(100, 50), &mut machine, &mut collection);

    assert_eq!(tree.get(wide).unwrap().size(), Vector2D::new(100, 10));
    assert_eq!(tree.get(high).unwrap().size(), Vector2D::new(30, 50));
    assert_eq!(tree.get(wide).unwrap().position(), Vector2D::new(5, 6));
    assert_eq!(tree.get(high).unwrap().position(), Vector2D::new(5, 6));
}

#[test]
fn slot_takes_the_minimum_in_each_dimension() {
    let cursor = Cursor { position: Vector2D::new(3, 4), max: Vector2D::new(10, 20), index: 0 };
    let slot = slot_of(Layout::Stacked, cursor, Vector2D::new(0, 0), Vector2D::new(15, 5));
    assert_eq!(slot, (Vector2D::new(3, 4), Vector2D::new(10, 5)));
    let slot = slot_of(Layout::Box(Axis::Vertical), cursor, Vector2D::new(0, 0), Vector2D::new(7, 70));
    assert_eq!(slot, (Vector2D::new(3, 4), Vector2D::new(7, 20)));
}

#[test]
fn box_keeps_its_margin_free_on_both_sides() {
    let cursor = first_cursor_of(
        Layout::Box(Axis::Horizontal),
        Vector2D::new(10, 20),
        Vector2D::new(100, 50),
        Vector2D::new(3, 4),
    );
    assert_eq!(cursor.position, Vector2D::new(13, 24));
    assert_eq!(cursor.max, Vector2D::new(94, 42));
    let plain = first_cursor_of(
        Layout::Stacked,
        Vector2D::new(10, 20),
        Vector2D::new(100, 50),
        Vector2D::new(3, 4),
    );
    assert_eq!(plain.position, Vector2D::new(10, 20));
    assert_eq!(plain.max, Vector2D::new(100, 50));
}

#[test]
fn cursor_moves_along_the_axis_of_a_box() {
    let cursor = Cursor { position: Vector2D::new(0, 0), max: Vector2D::new(100, 50), index: 0 };
    let right = advance(Layout::Box(Axis::Horizontal), cursor, Vector2D::new(30, 10));
    assert_eq!(right.position, Vector2D::new(30, 0));
    assert_eq!(right.max, Vector2D::new(70, 50));
    let down = advance(Layout::Box(Axis::Vertical), cursor, Vector2D::new(30, 10));
    assert_eq!(down.position, Vector2D::new(0, 10));
    assert_eq!(down.max, Vector2D::new(100, 40));
    let next = advance(Layout::Grid(Axis::Vertical, 2), cursor, Vector2D::new(30, 10));
    assert_eq!(next, Cursor { index: 1, ..cursor });
}

#[test]
fn grid_cells_divide_the_size_evenly() {
    assert_eq!(
        cell_of(Layout::Grid(Axis::Vertical, 2), Vector2D::new(100, 100), 4),
        Vector2D::new(50, 50)
    );
    assert_eq!(
        cell_of(Layout::Grid(Axis::Vertical, 3), Vector2D::new(90, 100), 4),
        Vector2D::new(30, 50)
    );
    assert_eq!(
        cell_of(Layout::Grid(Axis::Horizontal, 2), Vector2D::new(90, 60), 3),
        Vector2D::new(45, 30)
    );
    assert_eq!(
        cell_of(Layout::Grid(Axis::Vertical, 2), Vector2D::new(100, 100), 0),
        Vector2D::new(0, 0)
    );
    assert_eq!(cell_of(Layout::Stacked, Vector2D::new(100, 100), 4), Vector2D::new(0, 0));
}

#[test]
fn horizontal_box_places_children_side_by_side() {
    let mut tree = WidgetTree::new();
    let mut machine = IDMachine::new();
    let mut collection = RenderInstructionCollection::new();
    let row = tree.insert(Widget::List(ListViewWidget::new(Vector2D::new(300, 40), Axis::Horizontal))).unwrap();
    let widths = [50, 70, 30, 90];
    let mut children = Vec::new();
    for width in widths {
        let child = tree.insert(label(width, 20)).unwrap();
        tree.add_as_child(row, child).unwrap();
        children.push(child);
    }

    tree.build(row, Vector2D::new(0, 0), Vector2D::new(300, 40), &mut machine, &mut collection);

    let mut x = 0;
    for (child, width) in children.iter().zip(widths) {
        let widget = tree.get(*child).unwrap();
        assert_eq!(widget.position(), Vector2D::new(x, 0));
        assert_eq!(widget.size(), Vector2D::new(width, 20));
        x += width;
    }
}

#[test]
fn box_with_a_margin_starts_behind_the_margin() {
    let mut tree = WidgetTree::new();
    let mut machine = IDMachine::new();
    let mut collection = RenderInstructionCollection::new();
    let mut holder = PanelWidget::new(Vector2D::new(200, 100), false, Color::from_hex(0), None, None);
    holder.fields.layout = Layout::Box(Axis::Horizontal);
    let parent = tree.insert(Widget::Panel(holder)).unwrap();
    tree.set_offset(parent, Vector2D::new(5, 7));
    let first = tree.insert(label(40, 20)).unwrap();
    let second = tree.insert(label(300, 200)).unwrap();
    tree.add_as_child(parent, first).unwrap();
    tree.add_as_child(parent, second).unwrap();

    tree.build(parent, Vector2D::new(10, 20), Vector2D::new(200, 100), &mut machine, &mut collection);

    assert_eq!(tree.get(first).unwrap().position(), Vector2D::new(15, 27));
    assert_eq!(tree.get(first).unwrap().size(), Vector2D::new(40, 20));
    assert_eq!(tree.get(second).unwrap().position(), Vector2D::new(55, 27));
    // 200 - 2 * 5 - 40 are left in width, 100 - 2 * 7 in height.
    assert_eq!(tree.get(second).unwrap().size(), Vector2D::new(150, 86));
}

#[test]
fn vertical_box_stacks_children_downwards() {
    let mut tree = WidgetTree::new();
    let mut machine = IDMachine::new();
    let mut collection = RenderInstructionCollection::new();
    let column = tree.insert(Widget::List(ListViewWidget::new(Vector2D::new(100, 100), Axis::Vertical))).unwrap();
    let first = tree.insert(label(100, 30)).unwrap();
    let second = tree.insert(label(100, 30)).unwrap();
    let third = tree.insert(label(100, 60)).unwrap();
    tree.add_as_child(column, first).unwrap();
    tree.add_as_child(column, second).unwrap();
    tree.add_as_child(column, third).unwrap();

    tree.build(column, Vector2D::new(0, 0), Vector2D::new(100, 100), &mut machine, &mut collection);

    assert_eq!(tree.get(first).unwrap().position(), Vector2D::new(0, 0));
    assert_eq!(tree.get(second).unwrap().position(), Vector2D::new(0, 30));
    assert_eq!(tree.get(third).unwrap().position(), Vector2D::new(0, 60));
    assert_eq!(tree.get(third).unwrap().size(), Vector2D::new(100, 40));
}
