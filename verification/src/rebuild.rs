//! The build pass: the walk over a tree that gives every widget its place and
//! draws anew what is out of date.

use crate::layout::{
    advance, advanced, cell, cell_of, first_cursor, first_cursor_of, granted,
    lemma_box_places_children_in_a_row, room, slot_of, spot, walked, width_of, Cursor,
};
use crate::renderer::{RenderInstruction, RenderInstructionCollection};
use crate::tree::{
    clean_below, height, kids, lemma_clean_from_children, lemma_clean_stays,
    lemma_marked_is_dirty, lemma_nothing_below_released, lemma_reach_falls,
    lemma_reach_same_shape, lemma_stays_untouched, lemma_untouched_twice, marked, node, put, reach, resized, resolves,
    same_ids, same_shape, untouched_outside, Nodes, WidgetTree,
};
use crate::util::{clamp, least, IDMachine, Vector2D};
use crate::widget::{Axis, Layout, Widget};
use vstd::prelude::*;

verus! {

/// What a build pass works on: the widgets, the identity handed out last, and
/// the instructions on screen.
pub struct Scene {
    pub nodes: Nodes,
    pub issued: usize,
    pub pairs: Map<usize, Seq<RenderInstruction>>,
}

/// The identity under which a widget is drawn that had the identity `id`: its
/// own, and if it had none, the next unused one. Once every identity is handed
/// out, a widget without identity stays without.
pub open spec fn drawn_under(id: usize, issued: usize) -> usize {
    if id != 0 {
        id
    } else if issued < usize::MAX {
        (issued + 1) as usize
    } else {
        0
    }
}

/// The scene after the dirty widget `h` was drawn anew at `position` with the
/// size `max`: the widget stands there and has that size, the instructions
/// that were under its identity are gone, it has an identity, what it draws now
/// is in the collection under that identity, and it is clean.
pub open spec fn redrawn(
    scene: Scene,
    rank: Seq<nat>,
    h: usize,
    position: Vector2D,
    max: Vector2D,
) -> Scene
    recommends
        resolves(scene.nodes, h),
{
    let placed = put(scene.nodes, h, node(scene.nodes, h).placed(position));
    let sized = resized(placed, rank, h, max);
    let stale = node(sized, h).fields().id;
    let id = drawn_under(stale, scene.issued);
    let named = node(sized, h).named(id);
    Scene {
        nodes: sized.update(h as int, Some(named.flagged(false))),
        issued: if stale == 0 && scene.issued < usize::MAX {
            (scene.issued + 1) as usize
        } else {
            scene.issued
        },
        pairs: scene.pairs.remove(stale).insert(id, named.drawn()),
    }
}

/// The scene after the build pass went over the widget `h` and all that is
/// below it: the widget was drawn anew at `position` with the size `max` if it
/// was dirty, and then each of its children was built in turn, at the place and
/// with the size that the layout of the widget gives it. A handle that leads
/// nowhere changes nothing.
pub open spec fn built(scene: Scene, rank: Seq<nat>, h: usize, position: Vector2D, max: Vector2D) -> Scene
    decreases height(rank, h), 1nat, 0nat,
{
    if !resolves(scene.nodes, h) {
        scene
    } else {
        let own = if node(scene.nodes, h).fields().dirty {
            redrawn(scene, rank, h, position, max)
        } else {
            scene
        };
        let widget = node(own.nodes, h);
        let layout = widget.fields().layout;
        let children = widget.fields().children@;
        built_from(
            own,
            rank,
            height(rank, h),
            children,
            0,
            layout,
            cell(layout, widget.fields().size, children.len()),
            first_cursor(layout, position, max, widget.margin()),
            false,
        )
    }
}

/// The scene after the children `children`, from the `k`-th on, of a widget
/// with the number `above` were built in turn. A child that does not resolve
/// is passed over, and so is one whose number is not below `above`; a ranked
/// arena has no such child. In a box, once a child was found dirty, every
/// child after it is marked dirty before it is built: what moves one child
/// moves all that follow.
pub open spec fn built_from(
    scene: Scene,
    rank: Seq<nat>,
    above: nat,
    children: Seq<usize>,
    k: int,
    layout: Layout,
    cell: Vector2D,
    cursor: Cursor,
    dirt_seen: bool,
) -> Scene
    decreases above, 0nat, children.len() - k,
{
    if k < 0 || k >= children.len() {
        scene
    } else if !resolves(scene.nodes, children[k]) || height(rank, children[k]) >= above {
        built_from(scene, rank, above, children, k + 1, layout, cell, cursor, dirt_seen)
    } else {
        let child = children[k];
        let boxed = layout is Box;
        let nodes = if boxed && dirt_seen {
            marked(scene.nodes, rank, child)
        } else {
            scene.nodes
        };
        let size = granted(layout, cursor, cell, node(nodes, child).fields().original_size);
        built_from(
            built(
                Scene { nodes: nodes, ..scene },
                rank,
                child,
                spot(layout, cursor, cell),
                size,
            ),
            rank,
            above,
            children,
            k + 1,
            layout,
            cell,
            advanced(layout, cursor, size),
            boxed && (dirt_seen || node(scene.nodes, child).fields().dirty),
        )
    }
}

/// Whether the widget `after` is the widget `before` moved to `position` and
/// given the size `max`: it has that size, it stands there unless it is
/// pinned, and it is of the same kind and asks for the same size as before.
pub open spec fn laid(before: Widget, after: Widget, position: Vector2D, max: Vector2D) -> bool {
    &&& after.fields().size == max
    &&& after.pinned() == before.pinned()
    &&& !after.pinned() ==> after.fields().position == position
    &&& after.fields().original_size == before.fields().original_size
}

/// How a widget ends a build pass that reached it as `before`, with the place
/// `position` and the size `max`: a dirty widget stands at `position` (unless
/// it is pinned), has the size `max` and is clean; a clean widget is what it
/// was, whatever became of its descendants.
pub open spec fn settled(before: Widget, after: Widget, position: Vector2D, max: Vector2D) -> bool {
    if before.fields().dirty {
        laid(before, after, position, max) && !after.fields().dirty
    } else {
        after == before
    }
}

/// Whether no child of `children` is another child or descends from one.
/// Where this holds, every child is reached once in a pass, and what is built
/// below one child leaves the other children alone.
pub open spec fn apart(nodes: Nodes, children: Seq<usize>) -> bool {
    forall|j: int, k: int|
        0 <= j < children.len() && 0 <= k < children.len() && j != k ==> !#[trigger] reach(
            nodes,
            children[j],
            children[k],
        )
}

/// The cursor with which the `k`-th child of `children` is reached in a pass
/// that begins with the cursor `start`: each child before it that resolves
/// was granted its size, and the cursor has moved on past it.
pub open spec fn child_cursor(
    nodes: Nodes,
    children: Seq<usize>,
    layout: Layout,
    cell: Vector2D,
    start: Cursor,
    k: nat,
) -> Cursor
    decreases k,
{
    if k == 0 {
        start
    } else {
        let before = child_cursor(nodes, children, layout, cell, start, (k - 1) as nat);
        if resolves(nodes, children[k - 1]) {
            advanced(
                layout,
                before,
                granted(
                    layout,
                    before,
                    cell,
                    node(nodes, children[k - 1]).fields().original_size,
                ),
            )
        } else {
            before
        }
    }
}

/// Whether one of the first `k` children of `children` resolves and is dirty.
pub open spec fn dirt_before(nodes: Nodes, children: Seq<usize>, k: nat) -> bool
    decreases k,
{
    k > 0 && (dirt_before(nodes, children, (k - 1) as nat) || (resolves(nodes, children[k - 1])
        && node(nodes, children[k - 1]).fields().dirty))
}

/// Where the `k`-th child of `children` is placed in a pass that begins with
/// the cursor `start`.
pub open spec fn child_place(
    nodes: Nodes,
    children: Seq<usize>,
    layout: Layout,
    cell: Vector2D,
    start: Cursor,
    k: int,
) -> Vector2D {
    spot(layout, child_cursor(nodes, children, layout, cell, start, k as nat), cell)
}

/// The size that the `k`-th child of `children` is granted in a pass that
/// begins with the cursor `start`: what it asks for, but in neither dimension
/// more than there is room when it is reached.
pub open spec fn child_size(
    nodes: Nodes,
    children: Seq<usize>,
    layout: Layout,
    cell: Vector2D,
    start: Cursor,
    k: int,
) -> Vector2D {
    granted(
        layout,
        child_cursor(nodes, children, layout, cell, start, k as nat),
        cell,
        node(nodes, children[k]).fields().original_size,
    )
}

/// Whether the `k`-th child of `children` is marked dirty before it is built:
/// in a box, when a child before it was dirty.
pub open spec fn child_is_marked(nodes: Nodes, children: Seq<usize>, layout: Layout, k: int) -> bool {
    layout is Box && dirt_before(nodes, children, k as nat)
}

/// What a pass over the children `children` makes of the `k`-th of them, where
/// `own` holds the widgets as the pass over the children found them and `after`
/// as it left them. A child that was dirty, or was marked dirty because a
/// child before it was, stands at its place, has the size it was granted and
/// is clean. A child that was clean and was not marked is what it was.
pub open spec fn child_outcome(
    own: Nodes,
    after: Nodes,
    children: Seq<usize>,
    layout: Layout,
    cell: Vector2D,
    start: Cursor,
    k: int,
) -> bool {
    let child = children[k];
    if node(own, child).fields().dirty || child_is_marked(own, children, layout, k) {
        &&& laid(
            node(own, child),
            node(after, child),
            child_place(own, children, layout, cell, start, k),
            child_size(own, children, layout, cell, start, k),
        )
        &&& !node(after, child).fields().dirty
    } else {
        node(after, child) == node(own, child)
    }
}

/// What holds while a pass goes over the children `children` and has come to
/// the `k`-th: the cursor and the memory of dirt are what the children before
/// made them, the children still to come are as they were, and the children
/// before have their outcome.
pub open spec fn pass_inv(
    own: Nodes,
    now: Nodes,
    children: Seq<usize>,
    layout: Layout,
    cell: Vector2D,
    start: Cursor,
    cursor: Cursor,
    dirt_seen: bool,
    k: int,
) -> bool {
    &&& cursor == child_cursor(own, children, layout, cell, start, k as nat)
    &&& dirt_seen == child_is_marked(own, children, layout, k)
    &&& forall|j: int|
        k <= j < children.len() && resolves(own, #[trigger] children[j]) ==> now[children[j] as int]
            == own[children[j] as int]
    &&& forall|j: int|
        0 <= j < k && resolves(own, #[trigger] children[j]) ==> child_outcome(
            own,
            now,
            children,
            layout,
            cell,
            start,
            j,
        )
}

/// What a pass over a widget and its descendants makes of the children of
/// the widget, where `own` holds the widgets after the widget itself was gone
/// over and `after` holds them at the end of the pass: if no child is another
/// child or descends from one, every child that resolves has its outcome.
pub open spec fn pass_outcome(
    own: Nodes,
    after: Nodes,
    h: usize,
    position: Vector2D,
    max: Vector2D,
) -> bool {
    let widget = node(own, h);
    let layout = widget.fields().layout;
    let children = widget.fields().children@;
    apart(own, children) ==> forall|k: int|
        0 <= k < children.len() && resolves(own, #[trigger] children[k]) ==> child_outcome(
            own,
            after,
            children,
            layout,
            cell(layout, widget.fields().size, children.len()),
            first_cursor(layout, position, max, widget.margin()),
            k,
        )
}

/// Whether every child of `children` resolves.
pub open spec fn all_resolve(nodes: Nodes, children: Seq<usize>) -> bool {
    forall|k: int| 0 <= k < children.len() ==> resolves(nodes, #[trigger] children[k])
}

/// The sizes that the children of `children` ask for, in their order.
pub open spec fn wishes(nodes: Nodes, children: Seq<usize>) -> Seq<Vector2D> {
    Seq::new(children.len(), |k: int| node(nodes, children[k]).fields().original_size)
}

/// Where all children resolve, the cursor that reaches a child is the cursor
/// that has walked past the sizes that the children before it ask for.
pub proof fn lemma_child_cursor_is_walked(
    nodes: Nodes,
    children: Seq<usize>,
    layout: Layout,
    cell: Vector2D,
    start: Cursor,
    k: nat,
)
    requires
        all_resolve(nodes, children),
        k <= children.len(),
    ensures
        child_cursor(nodes, children, layout, cell, start, k) == walked(
            layout,
            start,
            cell,
            wishes(nodes, children),
            k,
        ),
    decreases k,
{
    if k > 0 {
        lemma_child_cursor_is_walked(nodes, children, layout, cell, start, (k - 1) as nat);
        assert(resolves(nodes, children[k - 1]));
    }
}

/// Where the children are stacked, every child is reached with the cursor
/// with which the first is reached: each is placed where the widget stands and
/// has the whole room of the widget to take its size from.
pub proof fn lemma_stacked_children_share_the_room(
    nodes: Nodes,
    children: Seq<usize>,
    cell: Vector2D,
    start: Cursor,
    k: nat,
)
    ensures
        child_cursor(nodes, children, Layout::Stacked, cell, start, k) == start,
    decreases k,
{
    if k > 0 {
        lemma_stacked_children_share_the_room(nodes, children, cell, start, (k - 1) as nat);
    }
}

/// In a box, the room that is left for a child is the room that was left for
/// the child before it, less the extent along the axis that was granted to
/// that child if it resolves; and the child stands behind it by that extent.
pub proof fn lemma_box_room_shrinks(
    nodes: Nodes,
    children: Seq<usize>,
    axis: Axis,
    cell: Vector2D,
    start: Cursor,
    k: int,
)
    requires
        0 <= k < children.len(),
    ensures
        ({
            let layout = Layout::Box(axis);
            let before = child_cursor(nodes, children, layout, cell, start, k as nat);
            let after = child_cursor(nodes, children, layout, cell, start, (k + 1) as nat);
            let size = child_size(nodes, children, layout, cell, start, k);
            &&& !resolves(nodes, children[k]) ==> after == before
            &&& resolves(nodes, children[k]) && axis == Axis::Horizontal ==> after.max == (Vector2D {
                x: clamp(before.max.x - size.x),
                y: before.max.y,
            }) && after.position == (Vector2D {
                x: clamp(before.position.x + size.x),
                y: before.position.y,
            })
            &&& resolves(nodes, children[k]) && axis == Axis::Vertical ==> after.max == (Vector2D {
                x: before.max.x,
                y: clamp(before.max.y - size.y),
            }) && after.position == (Vector2D {
                x: before.position.x,
                y: clamp(before.position.y + size.y),
            })
        }),
{
    let layout = Layout::Box(axis);
    assert(child_cursor(nodes, children, layout, cell, start, (k + 1) as nat) == if resolves(
        nodes,
        children[k],
    ) {
        advanced(
            layout,
            child_cursor(nodes, children, layout, cell, start, k as nat),
            child_size(nodes, children, layout, cell, start, k),
        )
    } else {
        child_cursor(nodes, children, layout, cell, start, k as nat)
    });
}

/// The size of a child after a pass, whatever the layout: a child that was
/// dirty when the pass reached it, or was marked dirty then, has in width and
/// in height the smaller of what it asks for and what there was room for when
/// it was reached. In a box that room is what the children before it have
/// left; where the children are stacked it is the whole room of the widget.
pub proof fn lemma_pass_clamps_children(
    own: Nodes,
    after: Nodes,
    h: usize,
    position: Vector2D,
    max: Vector2D,
    k: int,
)
    requires
        resolves(own, h),
        pass_outcome(own, after, h, position, max),
        apart(own, kids(own, h)),
        0 <= k < kids(own, h).len(),
        resolves(own, kids(own, h)[k]),
        node(own, kids(own, h)[k]).fields().dirty || child_is_marked(
            own,
            kids(own, h),
            node(own, h).fields().layout,
            k,
        ),
    ensures
        ({
            let widget = node(own, h);
            let layout = widget.fields().layout;
            let children = kids(own, h);
            let cell = cell(layout, widget.fields().size, children.len());
            let start = first_cursor(layout, position, max, widget.margin());
            let cursor = child_cursor(own, children, layout, cell, start, k as nat);
            let asked = node(own, children[k]).fields().original_size;
            let size = node(after, children[k]).fields().size;
            &&& size == child_size(own, children, layout, cell, start, k)
            &&& size.x == least(asked.x as int, room(layout, cursor, cell).x as int)
            &&& size.y == least(asked.y as int, room(layout, cursor, cell).y as int)
            &&& layout is Box ==> room(layout, cursor, cell) == cursor.max
            &&& layout is Stacked ==> room(layout, cursor, cell) == max
        }),
{
    let widget = node(own, h);
    let layout = widget.fields().layout;
    let children = kids(own, h);
    let cell = cell(layout, widget.fields().size, children.len());
    let start = first_cursor(layout, position, max, widget.margin());
    assert(child_outcome(own, after, children, layout, cell, start, k));
    if layout is Stacked {
        lemma_stacked_children_share_the_room(own, children, cell, start, k as nat);
    }
}

/// The row of a horizontal box after a pass: where all children resolve, ask
/// for no negative width, and are together no wider than the box has room
/// between its margins, every child from the first dirty one on stands right
/// behind the child before it, the first behind the left margin and below the
/// upper one, and has the size that it asks for. This holds of children that
/// are not pinned and no higher than the box has room, in a box whose edges
/// are coordinates of the pixel grid.
pub proof fn lemma_pass_places_children_in_a_row(
    own: Nodes,
    after: Nodes,
    h: usize,
    position: Vector2D,
    max: Vector2D,
    k: int,
)
    requires
        resolves(own, h),
        node(own, h).fields().layout == Layout::Box(Axis::Horizontal),
        pass_outcome(own, after, h, position, max),
        apart(own, kids(own, h)),
        all_resolve(own, kids(own, h)),
        0 <= k < kids(own, h).len(),
        dirt_before(own, kids(own, h), (k + 1) as nat),
        !node(own, kids(own, h)[k]).pinned(),
        forall|i: int|
            0 <= i < kids(own, h).len() ==> (#[trigger] wishes(own, kids(own, h))[i]).x >= 0,
        wishes(own, kids(own, h))[k].y <= max.y - 2 * node(own, h).margin().y,
        width_of(wishes(own, kids(own, h)), kids(own, h).len()) <= max.x - 2 * node(
            own,
            h,
        ).margin().x,
        i64::MIN <= position.x + node(own, h).margin().x <= i64::MAX,
        i64::MIN <= position.y + node(own, h).margin().y <= i64::MAX,
        i64::MIN <= 2 * node(own, h).margin().x <= i64::MAX,
        i64::MIN <= 2 * node(own, h).margin().y <= i64::MAX,
        i64::MIN <= max.x - 2 * node(own, h).margin().x <= i64::MAX,
        i64::MIN <= max.y - 2 * node(own, h).margin().y <= i64::MAX,
        position.x + node(own, h).margin().x + (max.x - 2 * node(own, h).margin().x) <= i64::MAX,
    ensures
        node(after, kids(own, h)[k]).fields().position.x == position.x + node(own, h).margin().x
            + width_of(wishes(own, kids(own, h)), k as nat),
        node(after, kids(own, h)[k]).fields().position.y == position.y + node(own, h).margin().y,
        node(after, kids(own, h)[k]).fields().size == wishes(own, kids(own, h))[k],
        !node(after, kids(own, h)[k]).fields().dirty,
{
    let widget = node(own, h);
    let layout = Layout::Box(Axis::Horizontal);
    let children = kids(own, h);
    let offset = widget.margin();
    let none = Vector2D { x: 0, y: 0 };
    let start = first_cursor(layout, position, max, offset);
    let asked = wishes(own, children);
    assert(cell(layout, widget.fields().size, children.len()) == none);
    assert(child_outcome(own, after, children, layout, none, start, k));
    assert(dirt_before(own, children, (k + 1) as nat) == (dirt_before(own, children, k as nat)
        || node(own, children[k]).fields().dirty));
    lemma_child_cursor_is_walked(own, children, layout, none, start, k as nat);
    assert forall|i: int| 0 <= i < asked.len() implies asked[i].x >= 0 by {
        assert(wishes(own, children)[i].x >= 0);
    }
    lemma_box_places_children_in_a_row(position, max, offset, asked, k as nat);
    assert(offset.times(Vector2D::splat(2)).y == 2 * offset.y);
    assert(start.max.y == max.y - 2 * offset.y);
    assert(start.position.y == position.y + offset.y);
}

/// The dirt of a box in a pass: where all children resolve and the `i`-th is
/// the first that is dirty, no child up to the `i`-th is marked and every
/// child behind it is. The children before the `i`-th are after the pass what
/// they were before, with their places, their sizes and their identities. The
/// `i`-th and every child behind it, dirty or clean, stands at its place, has
/// the size it was granted, and is clean.
pub proof fn lemma_pass_spreads_dirt(
    own: Nodes,
    after: Nodes,
    h: usize,
    position: Vector2D,
    max: Vector2D,
    i: int,
    k: int,
)
    requires
        resolves(own, h),
        node(own, h).fields().layout is Box,
        pass_outcome(own, after, h, position, max),
        apart(own, kids(own, h)),
        all_resolve(own, kids(own, h)),
        0 <= i < kids(own, h).len(),
        0 <= k < kids(own, h).len(),
        node(own, kids(own, h)[i]).fields().dirty,
        forall|j: int| 0 <= j < i ==> !node(own, #[trigger] kids(own, h)[j]).fields().dirty,
    ensures
        ({
            let widget = node(own, h);
            let layout = widget.fields().layout;
            let children = kids(own, h);
            let cell = cell(layout, widget.fields().size, children.len());
            let start = first_cursor(layout, position, max, widget.margin());
            &&& child_is_marked(own, children, layout, k) == (k > i)
            &&& k < i ==> node(after, children[k]) == node(own, children[k])
            &&& k >= i ==> !node(after, children[k]).fields().dirty && laid(
                node(own, children[k]),
                node(after, children[k]),
                child_place(own, children, layout, cell, start, k),
                child_size(own, children, layout, cell, start, k),
            )
        }),
{
    let widget = node(own, h);
    let layout = widget.fields().layout;
    let children = kids(own, h);
    let cell = cell(layout, widget.fields().size, children.len());
    let start = first_cursor(layout, position, max, widget.margin());
    lemma_dirt_before(own, children, i, k as nat);
    assert(child_outcome(own, after, children, layout, cell, start, k));
}

/// Where the `i`-th child is the first that is dirty, there is dirt before a
/// child exactly if the child comes behind the `i`-th.
proof fn lemma_dirt_before(nodes: Nodes, children: Seq<usize>, i: int, k: nat)
    requires
        0 <= i < children.len(),
        k <= children.len(),
        all_resolve(nodes, children),
        node(nodes, children[i]).fields().dirty,
        forall|j: int| 0 <= j < i ==> !node(nodes, #[trigger] children[j]).fields().dirty,
    ensures
        dirt_before(nodes, children, k) == (k > i),
    decreases k,
{
    if k > 0 {
        lemma_dirt_before(nodes, children, i, (k - 1) as nat);
        assert(resolves(nodes, children[k - 1]));
    }
}

/// What the pass over a dirty widget makes of the widgets before it goes on
/// to the children: where the widget is of a kind whose children do not
/// follow its size, only the widget itself has changed; it has the size `max`,
/// and its children, its layout and its margin are what they were.
pub proof fn lemma_redraw_leaves_the_others(
    scene: Scene,
    rank: Seq<nat>,
    h: usize,
    position: Vector2D,
    max: Vector2D,
)
    requires
        resolves(scene.nodes, h),
        !node(scene.nodes, h).resizing_spreads_dirt(),
    ensures
        ({
            let own = redrawn(scene, rank, h, position, max).nodes;
            &&& own.len() == scene.nodes.len()
            &&& forall|n: usize| n != h && n < own.len() ==> #[trigger] own[n as int] == scene.nodes[n as int]
            &&& resolves(own, h)
            &&& laid(node(scene.nodes, h), node(own, h), position, max)
            &&& kids(own, h) == kids(scene.nodes, h)
            &&& node(own, h).fields().layout == node(scene.nodes, h).fields().layout
            &&& node(own, h).margin() == node(scene.nodes, h).margin()
        }),
{
}

/// A child that does not resolve leaves a pass where it was.
proof fn lemma_pass_skips(
    own: Nodes,
    now: Nodes,
    children: Seq<usize>,
    layout: Layout,
    cell: Vector2D,
    start: Cursor,
    cursor: Cursor,
    dirt_seen: bool,
    k: int,
)
    requires
        0 <= k < children.len(),
        !resolves(own, children[k]),
        pass_inv(own, now, children, layout, cell, start, cursor, dirt_seen, k),
    ensures
        pass_inv(own, now, children, layout, cell, start, cursor, dirt_seen, k + 1),
{
    assert(child_cursor(own, children, layout, cell, start, (k + 1) as nat) == cursor);
    assert(dirt_before(own, children, (k + 1) as nat) == dirt_before(own, children, k as nat));
}

/// A child that was marked if it had to be, and then built, has its outcome,
/// and the pass goes on to the next child.
proof fn lemma_pass_steps(
    own: Nodes,
    before: Nodes,
    marked: Nodes,
    after: Nodes,
    children: Seq<usize>,
    layout: Layout,
    cell: Vector2D,
    start: Cursor,
    cursor: Cursor,
    dirt_seen: bool,
    k: int,
    size: Vector2D,
)
    requires
        same_shape(own, before),
        same_shape(before, marked),
        same_shape(marked, after),
        apart(own, children),
        0 <= k < children.len(),
        resolves(own, children[k]),
        pass_inv(own, before, children, layout, cell, start, cursor, dirt_seen, k),
        untouched_outside(before, marked, children[k]),
        untouched_outside(marked, after, children[k]),
        node(marked, children[k]) == if layout is Box && dirt_seen {
            node(before, children[k]).flagged(true)
        } else {
            node(before, children[k])
        },
        size == granted(layout, cursor, cell, node(marked, children[k]).fields().original_size),
        settled(
            node(marked, children[k]),
            node(after, children[k]),
            spot(layout, cursor, cell),
            size,
        ),
    ensures
        pass_inv(
            own,
            after,
            children,
            layout,
            cell,
            start,
            advanced(layout, cursor, size),
            layout is Box && (dirt_seen || node(before, children[k]).fields().dirty),
            k + 1,
        ),
{
    let child = children[k];
    lemma_reach_same_shape(own, before);
    lemma_reach_same_shape(before, marked);
    assert(before[child as int] == own[child as int]);
    assert(child_cursor(own, children, layout, cell, start, (k + 1) as nat) == advanced(
        layout,
        cursor,
        size,
    ));
    assert(dirt_before(own, children, (k + 1) as nat) == (dirt_before(own, children, k as nat)
        || node(own, child).fields().dirty));
    assert forall|j: int| 0 <= j < children.len() && j != k && resolves(
        own,
        #[trigger] children[j],
    ) implies after[children[j] as int] == before[children[j] as int] by {
        assert(!reach(own, children[k], children[j]));
        assert(!reach(before, children[k], children[j]));
        assert(!reach(marked, children[k], children[j]));
        assert(marked[children[j] as int] == before[children[j] as int]);
    }
    assert(child_outcome(own, after, children, layout, cell, start, k));
    assert forall|j: int| 0 <= j < k + 1 && resolves(own, #[trigger] children[j]) implies child_outcome(
        own,
        after,
        children,
        layout,
        cell,
        start,
        j,
    ) by {
        if j < k {
            assert(child_outcome(own, before, children, layout, cell, start, j));
        }
    }
}

/// Whether every widget has in `after` the identity that it has in `before`,
/// or one that was handed out in between: one above `issued_before` and not
/// above `issued_after`.
pub open spec fn ids_kept_or_fresh(
    before: Nodes,
    issued_before: usize,
    after: Nodes,
    issued_after: usize,
) -> bool {
    &&& issued_before <= issued_after
    &&& forall|h: usize|
        #[trigger] resolves(after, h) && resolves(before, h) ==> node(after, h).fields().id
            == node(before, h).fields().id || issued_before < node(after, h).fields().id
            <= issued_after
}

/// Identities that are kept or fresh from one arena to a second, and from the
/// second to a third, are kept or fresh from the first to the third.
pub proof fn lemma_ids_compose(
    a: Nodes,
    issued_a: usize,
    b: Nodes,
    issued_b: usize,
    c: Nodes,
    issued_c: usize,
)
    requires
        same_shape(a, b),
        ids_kept_or_fresh(a, issued_a, b, issued_b),
        ids_kept_or_fresh(b, issued_b, c, issued_c),
    ensures
        ids_kept_or_fresh(a, issued_a, c, issued_c),
{
    assert forall|h: usize| #[trigger] resolves(c, h) && resolves(a, h) implies node(
        c,
        h,
    ).fields().id == node(a, h).fields().id || issued_a < node(c, h).fields().id <= issued_c by {
        assert(resolves(b, h));
    }
}

/// In a box, a child that is found dirty makes every child behind it dirty:
/// the children behind it are built as children behind a dirty child are,
/// whether or not a dirty child was seen before.
pub proof fn lemma_dirty_child_spreads_dirt(
    scene: Scene,
    rank: Seq<nat>,
    above: nat,
    children: Seq<usize>,
    k: int,
    axis: Axis,
    cell: Vector2D,
    cursor: Cursor,
)
    requires
        0 <= k < children.len(),
        resolves(scene.nodes, children[k]),
        height(rank, children[k]) < above,
        node(scene.nodes, children[k]).fields().dirty,
    ensures
        ({
            let layout = Layout::Box(axis);
            let size = granted(
                layout,
                cursor,
                cell,
                node(scene.nodes, children[k]).fields().original_size,
            );
            built_from(scene, rank, above, children, k, layout, cell, cursor, false) == built_from(
                built(scene, rank, children[k], spot(layout, cursor, cell), size),
                rank,
                above,
                children,
                k + 1,
                layout,
                cell,
                advanced(layout, cursor, size),
                true,
            )
        }),
{
}

/// In a box, a child behind a dirty child passes through a dirty state,
/// whether it was dirty or clean: it is marked dirty, and so it is drawn anew
/// at its place before its own children are built.
pub proof fn lemma_child_behind_dirt_is_redrawn(
    scene: Scene,
    rank: Seq<nat>,
    above: nat,
    children: Seq<usize>,
    k: int,
    axis: Axis,
    cell: Vector2D,
    cursor: Cursor,
)
    requires
        0 <= k < children.len(),
        resolves(scene.nodes, children[k]),
        height(rank, children[k]) < above,
    ensures
        ({
            let layout = Layout::Box(axis);
            let child = children[k];
            let dirtied = Scene { nodes: marked(scene.nodes, rank, child), ..scene };
            let size = granted(layout, cursor, cell, node(dirtied.nodes, child).fields().original_size);
            let place = spot(layout, cursor, cell);
            let anew = redrawn(dirtied, rank, child, place, size);
            &&& resolves(dirtied.nodes, child)
            &&& node(dirtied.nodes, child).fields().dirty
            &&& built_from(scene, rank, above, children, k, layout, cell, cursor, true)
                == built_from(
                built(dirtied, rank, child, place, size),
                rank,
                above,
                children,
                k + 1,
                layout,
                cell,
                advanced(layout, cursor, size),
                true,
            )
            &&& built(dirtied, rank, child, place, size) == built_from(
                anew,
                rank,
                height(rank, child),
                node(anew.nodes, child).fields().children@,
                0,
                node(anew.nodes, child).fields().layout,
                crate::layout::cell(
                    node(anew.nodes, child).fields().layout,
                    node(anew.nodes, child).fields().size,
                    node(anew.nodes, child).fields().children@.len(),
                ),
                first_cursor(
                    node(anew.nodes, child).fields().layout,
                    place,
                    size,
                    node(anew.nodes, child).margin(),
                ),
                false,
            )
        }),
{
    lemma_marked_is_dirty(scene.nodes, rank, children[k]);
}

impl WidgetTree {
    /// Moves the widget `h` to `position` and gives it the size `max`.
    fn lay(&mut self, h: usize, position: Vector2D, max: Vector2D)
        requires
            old(self).wf(),
            resolves(old(self)@, h),
        ensures
            final(self).wf(),
            final(self).rank@ == old(self).rank@,
            same_shape(old(self)@, final(self)@),
            untouched_outside(old(self)@, final(self)@, h),
            same_ids(old(self)@, final(self)@),
            laid(node(old(self)@, h), node(final(self)@, h), position, max),
            final(self)@ == resized(
                put(old(self)@, h, node(old(self)@, h).placed(position)),
                old(self).rank@,
                h,
                max,
            ),
    {
        self.set_position(h, position);
        let ghost placed = self@;
        self.set_size(h, max);
        proof {
            lemma_marked_is_dirty(placed, self.rank@, h);
            assert(same_shape(old(self)@, self@)) by {
                assert(same_shape(old(self)@, placed));
                assert(same_shape(placed, self@));
            }
            lemma_untouched_twice(old(self)@, placed, self@, h);
            assert forall|g: usize|
                #[trigger] resolves(old(self)@, g) && resolves(self@, g) implies node(
                old(self)@,
                g,
            ).fields().id == node(self@, g).fields().id by {
                assert(resolves(placed, g));
            }
        }
    }

    /// Gives the widget `h` the identity `id`, marks it clean, and returns what
    /// it draws.
    fn settle(&mut self, h: usize, id: usize) -> (recipe: Vec<RenderInstruction>)
        requires
            old(self).wf(),
            resolves(old(self)@, h),
        ensures
            final(self).wf(),
            final(self).rank@ == old(self).rank@,
            same_shape(old(self)@, final(self)@),
            untouched_outside(old(self)@, final(self)@, h),
            recipe@ == node(old(self)@, h).named(id).drawn(),
            final(self)@ == old(self)@.update(
                h as int,
                Some(node(old(self)@, h).named(id).flagged(false)),
            ),
    {
        self.set_id(h, id);
        let recipe = match self.get(h) {
            Some(w) => w.recipe(),
            None => Vec::new(),
        };
        let ghost named = self@;
        self.set_dirty(h, false);
        proof {
            assert(same_shape(old(self)@, self@)) by {
                assert(same_shape(old(self)@, named));
                assert(same_shape(named, self@));
            }
            assert(self@ =~= old(self)@.update(
                h as int,
                Some(node(old(self)@, h).named(id).flagged(false)),
            ));
            lemma_untouched_twice(old(self)@, named, self@, h);
        }
        recipe
    }

    /// Moves the widget `h` to `position`, gives it the size `max` and the
    /// identity `id`, marks it clean, and returns what it draws.
    fn renew(&mut self, h: usize, position: Vector2D, max: Vector2D, id: usize) -> (recipe: Vec<
        RenderInstruction,
    >)
        requires
            old(self).wf(),
            resolves(old(self)@, h),
        ensures
            final(self).wf(),
            final(self).rank@ == old(self).rank@,
            same_shape(old(self)@, final(self)@),
            untouched_outside(old(self)@, final(self)@, h),
            !node(final(self)@, h).fields().dirty,
            laid(node(old(self)@, h), node(final(self)@, h), position, max),
            node(final(self)@, h).fields().id == id,
            forall|g: usize|
                g != h && #[trigger] resolves(final(self)@, g) ==> node(final(self)@, g).fields().id
                    == node(old(self)@, g).fields().id,
            ({
                let sized = resized(
                    put(old(self)@, h, node(old(self)@, h).placed(position)),
                    old(self).rank@,
                    h,
                    max,
                );
                &&& node(sized, h).fields().id == node(old(self)@, h).fields().id
                &&& recipe@ == node(sized, h).named(id).drawn()
                &&& final(self)@ == sized.update(
                    h as int,
                    Some(node(sized, h).named(id).flagged(false)),
                )
            }),
    {
        self.lay(h, position, max);
        let ghost sized = self@;
        let recipe = self.settle(h, id);
        proof {
            assert(same_shape(old(self)@, self@)) by {
                assert(same_shape(old(self)@, sized));
                assert(same_shape(sized, self@));
            }
            lemma_untouched_twice(old(self)@, sized, self@, h);
            assert forall|g: usize| g != h && #[trigger] resolves(self@, g) implies node(
                self@,
                g,
            ).fields().id == node(old(self)@, g).fields().id by {
                assert(resolves(old(self)@, g));
                assert(resolves(sized, g));
            }
        }
        recipe
    }

    /// Draws the dirty widget `h` anew at `position` with the size `max`.
    fn redraw(
        &mut self,
        h: usize,
        position: Vector2D,
        max: Vector2D,
        id_machine: &mut IDMachine,
        instruction_collection: &mut RenderInstructionCollection,
    )
        requires
            old(self).wf(),
            resolves(old(self)@, h),
        ensures
            final(self).wf(),
            final(self).rank@ == old(self).rank@,
            same_shape(old(self)@, final(self)@),
            untouched_outside(old(self)@, final(self)@, h),
            !node(final(self)@, h).fields().dirty,
            laid(node(old(self)@, h), node(final(self)@, h), position, max),
            ids_kept_or_fresh(
                old(self)@,
                old(id_machine).issued(),
                final(self)@,
                final(id_machine).issued(),
            ),
            (Scene {
                nodes: final(self)@,
                issued: final(id_machine).issued(),
                pairs: final(instruction_collection)@,
            }) == redrawn(
                Scene {
                    nodes: old(self)@,
                    issued: old(id_machine).issued(),
                    pairs: old(instruction_collection)@,
                },
                old(self).rank@,
                h,
                position,
                max,
            ),
    {
        let stale = match self.get(h) {
            Some(w) => w.id(),
            None => 0,
        };
        instruction_collection.remove(stale);
        let id = if stale != 0 {
            stale
        } else if id_machine.remaining() > 0 {
            id_machine.fetch_id()
        } else {
            0
        };
        let recipe = self.renew(h, position, max, id);
        instruction_collection.replace_or_insert(id, recipe);
    }

    /// Goes over the widget `h` and all that is below it: draws the widget
    /// anew at `position` with the size `max` if it is dirty, then builds each
    /// of its children at the place and with the size that the layout of the
    /// widget gives it. A widget that is drawn for the first time takes its
    /// identity from `id_machine`; what a widget draws goes into
    /// `instruction_collection` under its identity.
    ///
    /// Afterwards the widget and all its descendants are clean, no other
    /// widget has changed, and every widget has the identity it had or one
    /// that `id_machine` has handed out in the pass. The widget itself stands
    /// at `position` with the size `max` if it was dirty, and is what it was
    /// if it was clean. Where no child of the widget is another child or
    /// descends from one, every child has its outcome: a child that was dirty
    /// when the pass reached it, or that stands in a box behind a child that
    /// was, stands at the place and has the size that the layout gives it;
    /// every other child is what it was.
    pub fn build(
        &mut self,
        h: usize,
        position: Vector2D,
        max: Vector2D,
        id_machine: &mut IDMachine,
        instruction_collection: &mut RenderInstructionCollection,
    )
        requires
            old(self).wf(),
        ensures
            final(self).wf(),
            final(self).rank@ == old(self).rank@,
            same_shape(old(self)@, final(self)@),
            untouched_outside(old(self)@, final(self)@, h),
            clean_below(final(self)@, h),
            resolves(old(self)@, h) ==> settled(
                node(old(self)@, h),
                node(final(self)@, h),
                position,
                max,
            ),
            resolves(old(self)@, h) ==> pass_outcome(
                if node(old(self)@, h).fields().dirty {
                    redrawn(
                        Scene {
                            nodes: old(self)@,
                            issued: old(id_machine).issued(),
                            pairs: old(instruction_collection)@,
                        },
                        old(self).rank@,
                        h,
                        position,
                        max,
                    ).nodes
                } else {
                    old(self)@
                },
                final(self)@,
                h,
                position,
                max,
            ),
            ids_kept_or_fresh(
                old(self)@,
                old(id_machine).issued(),
                final(self)@,
                final(id_machine).issued(),
            ),
            (Scene {
                nodes: final(self)@,
                issued: final(id_machine).issued(),
                pairs: final(instruction_collection)@,
            }) == built(
                Scene {
                    nodes: old(self)@,
                    issued: old(id_machine).issued(),
                    pairs: old(instruction_collection)@,
                },
                old(self).rank@,
                h,
                position,
                max,
            ),
        decreases height(old(self).rank@, h),
    {
        let dirty = match self.get(h) {
            Some(w) => w.is_dirty(),
            None => {
                proof {
                    lemma_nothing_below_released(self@, h);
                }
                return ;
            },
        };
        let ghost rank = self.rank@;
        let ghost start = Scene {
            nodes: old(self)@,
            issued: old(id_machine).issued(),
            pairs: old(instruction_collection)@,
        };
        if dirty {
            self.redraw(h, position, max, id_machine, instruction_collection);
        }
        let (layout, size, offset, count) = match self.get(h) {
            Some(w) => (w.layout(), w.size(), w.offset(), w.fields_ref().children.len()),
            None => { return ; },
        };
        let ghost children = kids(self@, h);
        let ghost own = self@;
        let cell = cell_of(layout, size, count);
        let mut cursor = first_cursor_of(layout, position, max, offset);
        let ghost first = cursor;
        let mut dirt_seen = false;
        let mut k: usize = 0;
        while k < count
            invariant
                self.wf(),
                self.rank@ == rank,
                rank == old(self).rank@,
                same_shape(old(self)@, self@),
                resolves(old(self)@, h),
                children == kids(old(self)@, h),
                count == children.len(),
                0 <= k <= count,
                cursor.index <= k,
                dirt_seen ==> layout is Box,
                untouched_outside(old(self)@, self@, h),
                !node(self@, h).fields().dirty,
                self@[h as int] == own[h as int],
                same_shape(own, self@),
                apart(own, children) ==> pass_inv(
                    own,
                    self@,
                    children,
                    layout,
                    cell,
                    first,
                    cursor,
                    dirt_seen,
                    k as int,
                ),
                forall|j: int| 0 <= j < k ==> clean_below(self@, #[trigger] children[j]),
                ids_kept_or_fresh(
                    old(self)@,
                    old(id_machine).issued(),
                    self@,
                    id_machine.issued(),
                ),
                built_from(
                    Scene {
                        nodes: self@,
                        issued: id_machine.issued(),
                        pairs: instruction_collection@,
                    },
                    rank,
                    height(rank, h),
                    children,
                    k as int,
                    layout,
                    cell,
                    cursor,
                    dirt_seen,
                ) == built(start, rank, h, position, max),
            decreases count - k,
        {
            let c = self.child(h, k);
            assert(c == kids(self@, h)[k as int]);
            let ghost scene = Scene {
                nodes: self@,
                issued: id_machine.issued(),
                pairs: instruction_collection@,
            };
            let ghost cursor_before = cursor;
            let ghost seen_before = dirt_seen;
            let child_dirty = match self.get(c) {
                Some(w) => Some(w.is_dirty()),
                None => None,
            };
            if let Some(was_dirty) = child_dirty {
                let ghost before = self@;
                if let Layout::Box(_) = layout {
                    if dirt_seen {
                        self.set_dirty(c, true);
                    } else if was_dirty {
                        dirt_seen = true;
                    }
                }
                let ghost marked = self@;
                let ghost issued = id_machine.issued();
                let asked = match self.get(c) {
                    Some(w) => w.original_size(),
                    None => Vector2D::new(0, 0),
                };
                let slot = slot_of(layout, cursor, cell, asked);
                self.build(c, slot.0, slot.1, id_machine, instruction_collection);
                cursor = advance(layout, cursor, slot.1);
                proof {
                    assert(same_shape(old(self)@, marked)) by {
                        assert(same_shape(before, marked));
                    }
                    assert(same_shape(old(self)@, self@)) by {
                        assert(same_shape(marked, self@));
                    }
                    assert(height(rank, c) < height(rank, h));
                    if apart(own, children) {
                        lemma_marked_is_dirty(before, rank, c);
                        lemma_pass_steps(
                            own,
                            before,
                            marked,
                            self@,
                            children,
                            layout,
                            cell,
                            first,
                            cursor_before,
                            seen_before,
                            k as int,
                            slot.1,
                        );
                    }
                    assert(ids_kept_or_fresh(before, issued, marked, issued));
                    lemma_ids_compose(
                        old(self)@,
                        old(id_machine).issued(),
                        before,
                        issued,
                        marked,
                        issued,
                    );
                    lemma_ids_compose(
                        old(self)@,
                        old(id_machine).issued(),
                        marked,
                        issued,
                        self@,
                        id_machine.issued(),
                    );
                    lemma_stays_untouched(old(self)@, before, marked, h, k as int);
                    lemma_stays_untouched(old(self)@, marked, self@, h, k as int);
                    if reach(before, c, h) {
                        lemma_reach_falls(before, rank, c, h);
                    }
                    if reach(marked, c, h) {
                        lemma_reach_falls(marked, rank, c, h);
                    }
                    assert forall|j: int| 0 <= j < k + 1 implies clean_below(
                        self@,
                        #[trigger] children[j],
                    ) by {
                        if j < k {
                            lemma_clean_stays(before, marked, self@, children[j], c);
                        }
                    }
                    assert(built_from(
                        scene,
                        rank,
                        height(rank, h),
                        children,
                        k as int,
                        layout,
                        cell,
                        cursor_before,
                        seen_before,
                    ) == built_from(
                        Scene {
                            nodes: self@,
                            issued: id_machine.issued(),
                            pairs: instruction_collection@,
                        },
                        rank,
                        height(rank, h),
                        children,
                        k + 1,
                        layout,
                        cell,
                        cursor,
                        dirt_seen,
                    ));
                }
            } else {
                assert(!resolves(scene.nodes, children[k as int]));
                proof {
                    lemma_nothing_below_released(self@, c);
                    if apart(own, children) {
                        lemma_pass_skips(
                            own,
                            self@,
                            children,
                            layout,
                            cell,
                            first,
                            cursor,
                            dirt_seen,
                            k as int,
                        );
                    }
                }
            }
            k = k + 1;
        }
        proof {
            assert(kids(self@, h) == children);
            lemma_clean_from_children(self@, h);
        }
    }
}

} // verus!
