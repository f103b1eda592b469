//! Where a widget places its children, and how much room it grants each of
//! them.

use crate::util::{add_clamped, clamp, least, sub_clamped, Vector2D};
use crate::widget::{coordinate, Axis, Layout};
use vstd::prelude::*;

verus! {

/// What a widget knows while it places its children one after the other.
#[derive(Clone, Copy, Debug, PartialEq, Eq, Structural)]
pub struct Cursor {
    /// Where the next child of a box is placed; for the other layouts, where
    /// the widget itself stands.
    pub position: Vector2D,
    /// The room that is left for the next child of a box; for the other
    /// layouts, the room of the widget itself.
    pub max: Vector2D,
    /// How many children were placed.
    pub index: usize,
}

/// The cursor with which a widget at `position`, to which `max` was granted
/// and which keeps the margin `offset`, begins to place its children. A box
/// keeps its margin free on every side; the other layouts have none.
pub open spec fn first_cursor(
    layout: Layout,
    position: Vector2D,
    max: Vector2D,
    offset: Vector2D,
) -> Cursor {
    match layout {
        Layout::Box(_) => Cursor {
            position: position.plus(offset),
            max: max.minus(offset.times(Vector2D::splat(2))),
            index: 0,
        },
        _ => Cursor { position: position, max: max, index: 0 },
    }
}

/// How many lines along the axis a grid of `count` cells has that is `across`
/// cells wide: as many as it takes to hold them all.
pub open spec fn lines(count: nat, across: usize) -> nat {
    if across == 0 {
        0
    } else if count % (across as nat) == 0 {
        count / (across as nat)
    } else {
        count / (across as nat) + 1
    }
}

/// By how many cells a grid divides its width and its height: a vertical grid
/// is `across` cells wide and as many cells high as it has lines; a horizontal
/// grid is `across` cells high.
pub open spec fn divisions(axis: Axis, across: usize, count: nat) -> Vector2D {
    match axis {
        Axis::Vertical => Vector2D {
            x: coordinate(across),
            y: coordinate(lines(count, across) as usize),
        },
        Axis::Horizontal => Vector2D {
            x: coordinate(lines(count, across) as usize),
            y: coordinate(across),
        },
    }
}

/// The size of one cell of a grid of the size `size` with `count` children.
/// The cells are all alike. Other layouts have no cells, nor has a grid
/// without children.
pub open spec fn cell(layout: Layout, size: Vector2D, count: nat) -> Vector2D {
    match layout {
        Layout::Grid(axis, across) => if across > 0 && 0 < count <= usize::MAX {
            size.over(divisions(axis, across, count))
        } else {
            Vector2D { x: 0, y: 0 }
        },
        _ => Vector2D { x: 0, y: 0 },
    }
}

/// The column and the line of the `index`-th cell of a grid: a vertical grid
/// is filled line by line from the top, a horizontal grid column by column
/// from the left.
pub open spec fn grid_place(axis: Axis, across: usize, index: usize) -> Vector2D
    recommends
        across > 0,
{
    match axis {
        Axis::Vertical => Vector2D {
            x: coordinate((index % across) as usize),
            y: coordinate((index / across) as usize),
        },
        Axis::Horizontal => Vector2D {
            x: coordinate((index / across) as usize),
            y: coordinate((index % across) as usize),
        },
    }
}

/// The room out of which the next child is granted its size: a cell in a grid,
/// else what the cursor has left.
pub open spec fn room(layout: Layout, cursor: Cursor, cell: Vector2D) -> Vector2D {
    match layout {
        Layout::Grid(_, _) => cell,
        _ => cursor.max,
    }
}

/// Where the next child is placed: in its cell in a grid, else at the cursor.
pub open spec fn spot(layout: Layout, cursor: Cursor, cell: Vector2D) -> Vector2D {
    match layout {
        Layout::Grid(axis, across) => if across > 0 {
            cursor.position.plus(cell.times(grid_place(axis, across, cursor.index)))
        } else {
            cursor.position
        },
        _ => cursor.position,
    }
}

/// The size that is granted to a child that asks for `asked`: what it asks
/// for, but in neither dimension more than there is room.
pub open spec fn granted(layout: Layout, cursor: Cursor, cell: Vector2D, asked: Vector2D) -> Vector2D {
    asked.least(room(layout, cursor, cell))
}

/// The cursor after a child was granted the size `size`. In a box the room
/// shrinks and the position moves on by the extent of the child along the axis.
/// A grid goes on to the next cell. Else nothing changes.
pub open spec fn advanced(layout: Layout, cursor: Cursor, size: Vector2D) -> Cursor {
    match layout {
        Layout::Box(Axis::Horizontal) => Cursor {
            position: Vector2D { x: clamp(cursor.position.x + size.x), y: cursor.position.y },
            max: Vector2D { x: clamp(cursor.max.x - size.x), y: cursor.max.y },
            index: cursor.index,
        },
        Layout::Box(Axis::Vertical) => Cursor {
            position: Vector2D { x: cursor.position.x, y: clamp(cursor.position.y + size.y) },
            max: Vector2D { x: cursor.max.x, y: clamp(cursor.max.y - size.y) },
            index: cursor.index,
        },
        Layout::Grid(_, _) => Cursor { index: (cursor.index + 1) as usize, ..cursor },
        _ => cursor,
    }
}

/// The cursor after the first `placed` of the children were placed, where
/// `asked` holds the sizes that the children ask for.
pub open spec fn walked(
    layout: Layout,
    start: Cursor,
    cell: Vector2D,
    asked: Seq<Vector2D>,
    placed: nat,
) -> Cursor
    decreases placed,
{
    if placed == 0 {
        start
    } else {
        let before = walked(layout, start, cell, asked, (placed - 1) as nat);
        advanced(layout, before, granted(layout, before, cell, asked[placed - 1]))
    }
}

/// The sum of the first `n` widths of `asked`.
pub open spec fn width_of(asked: Seq<Vector2D>, n: nat) -> int
    decreases n,
{
    if n == 0 {
        0
    } else {
        width_of(asked, (n - 1) as nat) + asked[n - 1].x
    }
}

pub fn first_cursor_of(layout: Layout, position: Vector2D, max: Vector2D, offset: Vector2D) -> (c:
    Cursor)
    ensures
        c == first_cursor(layout, position, max, offset),
{
    match layout {
        Layout::Box(_) => Cursor {
            position: position + offset,
            max: max - offset * Vector2D::new(2, 2),
            index: 0,
        },
        _ => Cursor { position: position, max: max, index: 0 },
    }
}

fn coordinate_of(v: usize) -> (r: i64)
    ensures
        r == coordinate(v),
{
    if v as u64 > i64::MAX as u64 {
        i64::MAX
    } else {
        v as i64
    }
}

pub fn cell_of(layout: Layout, size: Vector2D, count: usize) -> (c: Vector2D)
    ensures
        c == cell(layout, size, count as nat),
{
    match layout {
        Layout::Grid(axis, across) => {
            if across > 0 && count > 0 {
                assert(count / across < usize::MAX || count % across == 0) by (nonlinear_arith)
                    requires
                        0 < count <= usize::MAX,
                        across > 0,
                ;
                let high = if count % across == 0 {
                    count / across
                } else {
                    count / across + 1
                };
                assert(high == lines(count as nat, across));
                assert(high >= 1) by (nonlinear_arith)
                    requires
                        count > 0,
                        across > 0,
                        count % across != 0 || high == count / across,
                        count % across == 0 || high == count / across + 1,
                ;
                let divisions = match axis {
                    Axis::Vertical => Vector2D::new(coordinate_of(across), coordinate_of(high)),
                    Axis::Horizontal => Vector2D::new(coordinate_of(high), coordinate_of(across)),
                };
                size / divisions
            } else {
                Vector2D::new(0, 0)
            }
        },
        _ => Vector2D::new(0, 0),
    }
}

/// Where the next child is placed and what size it is granted.
pub fn slot_of(layout: Layout, cursor: Cursor, cell: Vector2D, asked: Vector2D) -> (slot: (
    Vector2D,
    Vector2D,
))
    ensures
        slot.0 == spot(layout, cursor, cell),
        slot.1 == granted(layout, cursor, cell, asked),
{
    match layout {
        Layout::Grid(axis, across) => {
            let position = if across > 0 {
                let place = match axis {
                    Axis::Vertical => Vector2D::new(
                        coordinate_of(cursor.index % across),
                        coordinate_of(cursor.index / across),
                    ),
                    Axis::Horizontal => Vector2D::new(
                        coordinate_of(cursor.index / across),
                        coordinate_of(cursor.index % across),
                    ),
                };
                cursor.position + cell * place
            } else {
                cursor.position
            };
            (position, asked.min(cell))
        },
        _ => (cursor.position, asked.min(cursor.max)),
    }
}

/// Moves the cursor past a child that was granted the size `size`.
pub fn advance(layout: Layout, cursor: Cursor, size: Vector2D) -> (c: Cursor)
    requires
        cursor.index < usize::MAX,
    ensures
        c == advanced(layout, cursor, size),
{
    match layout {
        Layout::Box(Axis::Horizontal) => Cursor {
            position: Vector2D::new(add_clamped(cursor.position.x, size.x), cursor.position.y),
            max: Vector2D::new(sub_clamped(cursor.max.x, size.x), cursor.max.y),
            index: cursor.index,
        },
        Layout::Box(Axis::Vertical) => Cursor {
            position: Vector2D::new(cursor.position.x, add_clamped(cursor.position.y, size.y)),
            max: Vector2D::new(cursor.max.x, sub_clamped(cursor.max.y, size.y)),
            index: cursor.index,
        },
        Layout::Grid(_, _) => Cursor {
            position: cursor.position,
            max: cursor.max,
            index: cursor.index + 1,
        },
        _ => cursor,
    }
}

/// Whatever the layout, a child is granted the smaller of what it asks for and
/// what there is room for, in width and in height.
pub proof fn lemma_child_is_clamped(layout: Layout, cursor: Cursor, cell: Vector2D, asked: Vector2D)
    ensures
        granted(layout, cursor, cell, asked).x == least(
            asked.x as int,
            room(layout, cursor, cell).x as int,
        ),
        granted(layout, cursor, cell, asked).y == least(
            asked.y as int,
            room(layout, cursor, cell).y as int,
        ),
{
}

/// In a horizontal box that is wide enough for all its children, each child
/// gets the width that it asks for and stands right behind the one before it:
/// the first behind the left margin, the `k`-th as far to the right of it as
/// the children before it are wide together, and the room that is left for it
/// is what the children before it have left. This holds of children that ask
/// for no negative width, in a box whose right edge is a coordinate of the
/// pixel grid.
pub proof fn lemma_box_places_children_in_a_row(
    position: Vector2D,
    max: Vector2D,
    offset: Vector2D,
    asked: Seq<Vector2D>,
    k: nat,
)
    requires
        k < asked.len(),
        forall|i: int| 0 <= i < asked.len() ==> asked[i].x >= 0,
        i64::MIN <= position.x + offset.x <= i64::MAX,
        i64::MIN <= 2 * offset.x <= i64::MAX,
        i64::MIN <= max.x - 2 * offset.x <= i64::MAX,
        position.x + offset.x + (max.x - 2 * offset.x) <= i64::MAX,
        width_of(asked, asked.len()) <= max.x - 2 * offset.x,
    ensures
        ({
            let layout = Layout::Box(Axis::Horizontal);
            let start = first_cursor(layout, position, max, offset);
            let cell = Vector2D { x: 0, y: 0 };
            let cursor = walked(layout, start, cell, asked, k);
            &&& spot(layout, cursor, cell).x == position.x + offset.x + width_of(asked, k)
            &&& spot(layout, cursor, cell).y == start.position.y
            &&& granted(layout, cursor, cell, asked[k as int]).x == asked[k as int].x
            &&& cursor.max.x == max.x - 2 * offset.x - width_of(asked, k)
            &&& cursor.max.y == start.max.y
        }),
{
    let layout = Layout::Box(Axis::Horizontal);
    let start = first_cursor(layout, position, max, offset);
    let cell = Vector2D { x: 0, y: 0 };
    assert(offset.times(Vector2D::splat(2)).x == 2 * offset.x);
    assert(start.position.x == position.x + offset.x);
    assert(start.max.x == max.x - 2 * offset.x);
    lemma_row(start, asked, k);
    lemma_widths_grow(asked, k + 1, asked.len());
    lemma_widths_grow(asked, k, k + 1);
}

/// The widths of the children grow with their number.
proof fn lemma_widths_grow(asked: Seq<Vector2D>, m: nat, n: nat)
    requires
        m <= n <= asked.len(),
        forall|i: int| 0 <= i < asked.len() ==> asked[i].x >= 0,
    ensures
        0 <= width_of(asked, m) <= width_of(asked, n),
    decreases n,
{
    if m < n {
        lemma_widths_grow(asked, m, (n - 1) as nat);
    } else if m > 0 {
        lemma_widths_grow(asked, (m - 1) as nat, (m - 1) as nat);
    }
}

proof fn lemma_row(start: Cursor, asked: Seq<Vector2D>, k: nat)
    requires
        k <= asked.len(),
        forall|i: int| 0 <= i < asked.len() ==> asked[i].x >= 0,
        start.position.x + start.max.x <= i64::MAX,
        width_of(asked, asked.len()) <= start.max.x,
    ensures
        ({
            let layout = Layout::Box(Axis::Horizontal);
            let cursor = walked(layout, start, Vector2D { x: 0, y: 0 }, asked, k);
            &&& cursor.position.x == start.position.x + width_of(asked, k)
            &&& cursor.position.y == start.position.y
            &&& cursor.max.x == start.max.x - width_of(asked, k)
            &&& cursor.max.y == start.max.y
        }),
    decreases k,
{
    lemma_widths_grow(asked, k, asked.len());
    if k > 0 {
        lemma_row(start, asked, (k - 1) as nat);
        lemma_widths_grow(asked, (k - 1) as nat, k);
        lemma_widths_grow(asked, 0, (k - 1) as nat);
    }
}

/// In a vertical grid that is `across` cells wide, the child with the index
/// `index` stands in the column `index % across` of the line `index / across`,
/// each cell as wide and as high as every other. This holds where neither the
/// index nor the products leave the pixel grid.
pub proof fn lemma_grid_places_children_in_cells(
    across: usize,
    position: Vector2D,
    cell: Vector2D,
    index: usize,
)
    requires
        across > 0,
        index <= i64::MAX,
        i64::MIN <= cell.x * (index % across) <= i64::MAX,
        i64::MIN <= cell.y * (index / across) <= i64::MAX,
        i64::MIN <= position.x + cell.x * (index % across) <= i64::MAX,
        i64::MIN <= position.y + cell.y * (index / across) <= i64::MAX,
    ensures
        spot(
            Layout::Grid(Axis::Vertical, across),
            Cursor { position: position, max: cell, index: index },
            cell,
        ) == (Vector2D {
            x: (position.x + cell.x * (index % across)) as i64,
            y: (position.y + cell.y * (index / across)) as i64,
        }),
{
    assert(0 <= index % across <= index && 0 <= index / across <= index) by (nonlinear_arith)
        requires
            across > 0,
            index >= 0,
    ;
}

} // verus!
