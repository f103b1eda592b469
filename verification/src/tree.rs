//! The arena that holds the widgets of an interface and the links between
//! them.

use crate::util::Vector2D;
use crate::widget::{Fields, Widget};
use vstd::prelude::*;

verus! {

/// The slots of an arena: a widget, or nothing where the widget was released.
pub type Nodes = Seq<Option<Widget>>;

/// Whether the handle `h` leads to a widget.
pub open spec fn resolves(nodes: Nodes, h: usize) -> bool {
    h < nodes.len() && nodes[h as int] is Some
}

/// The widget that the handle `h` leads to.
pub open spec fn node(nodes: Nodes, h: usize) -> Widget
    recommends
        resolves(nodes, h),
{
    nodes[h as int].unwrap()
}

/// The handles of the children of the widget `h`.
pub open spec fn kids(nodes: Nodes, h: usize) -> Seq<usize>
    recommends
        resolves(nodes, h),
{
    node(nodes, h).fields().children@
}

/// Whether every child is a slot of the arena, and `rank` gives every widget a
/// greater number than each of its children. Where such numbers exist, no
/// widget is its own descendant.
pub open spec fn ranked(nodes: Nodes, rank: Seq<nat>) -> bool {
    &&& rank.len() == nodes.len()
    &&& forall|h: usize, k: int|
        #![trigger kids(nodes, h)[k]]
        resolves(nodes, h) && 0 <= k < kids(nodes, h).len() ==> kids(nodes, h)[k] < nodes.len()
            && rank[kids(nodes, h)[k] as int] < rank[h as int]
}

/// Whether every widget has a layout that can be carried out.
pub open spec fn laid_out(nodes: Nodes) -> bool {
    forall|h: usize| #[trigger] resolves(nodes, h) ==> node(nodes, h).fields().layout.supported()
}

/// Whether two widgets have the same children and the same layout.
pub open spec fn alike(a: Widget, b: Widget) -> bool {
    &&& a.fields().children@ == b.fields().children@
    &&& a.fields().layout == b.fields().layout
}

/// Whether two arenas hold widgets in the same slots, with the same children
/// and the same layouts.
pub open spec fn same_shape(a: Nodes, b: Nodes) -> bool {
    &&& a.len() == b.len()
    &&& forall|h: usize|
        h < a.len() ==> (#[trigger] resolves(a, h) <==> resolves(b, h)) && (resolves(a, h)
            ==> alike(node(a, h), node(b, h)))
}

/// Whether the widgets that two arenas both hold have the same identities in
/// both.
pub open spec fn same_ids(a: Nodes, b: Nodes) -> bool {
    forall|h: usize|
        #[trigger] resolves(a, h) && resolves(b, h) ==> node(a, h).fields().id == node(
            b,
            h,
        ).fields().id
}

/// Whether the widget `a` has the widget `b` among its children.
pub open spec fn parent_of(nodes: Nodes, a: usize, b: usize) -> bool {
    resolves(nodes, a) && exists|k: int| 0 <= k < kids(nodes, a).len() && kids(nodes, a)[k] == b
}

/// Whether each widget of `path` is the parent of the next.
pub open spec fn descends(nodes: Nodes, path: Seq<usize>) -> bool {
    &&& path.len() > 0
    &&& forall|i: int| 0 <= i < path.len() - 1 ==> parent_of(nodes, #[trigger] path[i], path[i + 1])
}

/// Whether the widget `to` is the widget `from` or one of its descendants.
pub open spec fn reach(nodes: Nodes, from: usize, to: usize) -> bool {
    exists|path: Seq<usize>| #[trigger]
        descends(nodes, path) && path[0] == from && path.last() == to
}

/// Every widget reaches itself.
pub proof fn lemma_reach_self(nodes: Nodes, h: usize)
    ensures
        reach(nodes, h, h),
{
    let path = seq![h];
    assert(descends(nodes, path) && path[0] == h && path.last() == h);
}

/// A widget reaches what a child of it reaches.
pub proof fn lemma_reach_through(nodes: Nodes, from: usize, k: int, to: usize)
    requires
        resolves(nodes, from),
        0 <= k < kids(nodes, from).len(),
        reach(nodes, kids(nodes, from)[k], to),
    ensures
        reach(nodes, from, to),
{
    let child = kids(nodes, from)[k];
    let rest = choose|path: Seq<usize>| #[trigger]
        descends(nodes, path) && path[0] == child && path.last() == to;
    let path = seq![from] + rest;
    assert forall|i: int| 0 <= i < path.len() - 1 implies parent_of(
        nodes,
        #[trigger] path[i],
        path[i + 1],
    ) by {
        if i == 0 {
            assert(path[1] == rest[0]);
        } else {
            assert(path[i] == rest[i - 1] && path[i + 1] == rest[i]);
            assert(parent_of(nodes, rest[i - 1], rest[i - 1 + 1]));
        }
    }
    assert(descends(nodes, path) && path[0] == from && path.last() == to);
}

/// What a widget reaches besides itself, a child of it reaches.
pub proof fn lemma_reach_beyond(nodes: Nodes, from: usize, to: usize)
    requires
        reach(nodes, from, to),
        from != to,
    ensures
        resolves(nodes, from),
        exists|k: int|
            0 <= k < kids(nodes, from).len() && #[trigger] reach(nodes, kids(nodes, from)[k], to),
{
    let path = choose|path: Seq<usize>| #[trigger]
        descends(nodes, path) && path[0] == from && path.last() == to;
    assert(path.len() >= 2);
    assert(parent_of(nodes, path[0int], path[0int + 1]));
    let k = choose|k: int| 0 <= k < kids(nodes, from).len() && kids(nodes, from)[k] == path[1];
    let rest = path.subrange(1, path.len() as int);
    assert forall|i: int| 0 <= i < rest.len() - 1 implies parent_of(
        nodes,
        #[trigger] rest[i],
        rest[i + 1],
    ) by {
        assert(rest[i] == path[i + 1] && rest[i + 1] == path[i + 1 + 1]);
        assert(parent_of(nodes, path[i + 1], path[i + 1 + 1]));
    }
    assert(descends(nodes, rest) && rest[0] == kids(nodes, from)[k] && rest.last() == to);
    assert(reach(nodes, kids(nodes, from)[k], to));
}

/// Whether the arena `after` holds, outside of the widget `h` and its
/// descendants, what the arena `before` holds.
pub open spec fn untouched_outside(before: Nodes, after: Nodes, h: usize) -> bool {
    forall|n: usize|
        n < before.len() && !#[trigger] reach(before, h, n) ==> after[n as int] == before[n as int]
}

/// Whether the widget `h` and all its descendants are clean.
pub open spec fn clean_below(nodes: Nodes, h: usize) -> bool {
    forall|n: usize|
        #[trigger] reach(nodes, h, n) && resolves(nodes, n) ==> !node(nodes, n).fields().dirty
}

/// In arenas of the same shape the same widgets descend from each other.
pub proof fn lemma_reach_same_shape(a: Nodes, b: Nodes)
    requires
        same_shape(a, b),
    ensures
        forall|x: usize, y: usize| #[trigger] reach(a, x, y) == reach(b, x, y),
{
    assert forall|x: usize, y: usize| #[trigger] reach(a, x, y) == reach(b, x, y) by {
        if reach(a, x, y) {
            let path = choose|path: Seq<usize>| #[trigger]
                descends(a, path) && path[0] == x && path.last() == y;
            assert forall|i: int| 0 <= i < path.len() - 1 implies parent_of(
                b,
                #[trigger] path[i],
                path[i + 1],
            ) by {
                assert(parent_of(a, path[i], path[i + 1]));
                assert(resolves(a, path[i]));
                let k = choose|k: int|
                    0 <= k < kids(a, path[i]).len() && kids(a, path[i])[k] == path[i + 1];
                assert(kids(b, path[i])[k] == path[i + 1]);
            }
            assert(descends(b, path) && path[0] == x && path.last() == y);
        }
        if reach(b, x, y) {
            let path = choose|path: Seq<usize>| #[trigger]
                descends(b, path) && path[0] == x && path.last() == y;
            assert forall|i: int| 0 <= i < path.len() - 1 implies parent_of(
                a,
                #[trigger] path[i],
                path[i + 1],
            ) by {
                assert(parent_of(b, path[i], path[i + 1]));
                assert(path[i] < a.len());
                assert(resolves(a, path[i]));
                let k = choose|k: int|
                    0 <= k < kids(b, path[i]).len() && kids(b, path[i])[k] == path[i + 1];
                assert(kids(a, path[i])[k] == path[i + 1]);
            }
            assert(descends(a, path) && path[0] == x && path.last() == y);
        }
    }
}

/// Along a path that leads from a widget to another, the numbers fall.
proof fn lemma_path_falls(nodes: Nodes, rank: Seq<nat>, path: Seq<usize>)
    requires
        ranked(nodes, rank),
        descends(nodes, path),
        path.len() >= 2,
    ensures
        path.last() < nodes.len(),
        path[0] < nodes.len(),
        rank[path.last() as int] < rank[path[0] as int],
    decreases path.len(),
{
    let shorter = path.drop_last();
    let before = path[path.len() - 2];
    assert(parent_of(nodes, path[path.len() - 2], path[path.len() - 2 + 1]));
    let k = choose|k: int| 0 <= k < kids(nodes, before).len() && kids(nodes, before)[k] == path.last();
    assert(kids(nodes, before)[k] < nodes.len());
    if shorter.len() >= 2 {
        assert forall|i: int| 0 <= i < shorter.len() - 1 implies parent_of(
            nodes,
            #[trigger] shorter[i],
            shorter[i + 1],
        ) by {
            assert(parent_of(nodes, path[i], path[i + 1]));
        }
        lemma_path_falls(nodes, rank, shorter);
    }
}

/// No widget of a ranked arena descends from a widget with a smaller number,
/// nor from another with its own number.
pub proof fn lemma_reach_falls(nodes: Nodes, rank: Seq<nat>, from: usize, to: usize)
    requires
        ranked(nodes, rank),
        reach(nodes, from, to),
        from != to,
    ensures
        height(rank, to) < height(rank, from),
{
    let path = choose|path: Seq<usize>| #[trigger]
        descends(nodes, path) && path[0] == from && path.last() == to;
    lemma_path_falls(nodes, rank, path);
}

/// In a ranked arena no widget is its own descendant: two widgets that
/// descend from each other are one.
pub proof fn lemma_ranked_has_no_cycle(nodes: Nodes, rank: Seq<nat>, a: usize, b: usize)
    requires
        ranked(nodes, rank),
        reach(nodes, a, b),
        reach(nodes, b, a),
    ensures
        a == b,
{
    if a != b {
        lemma_reach_falls(nodes, rank, a, b);
        lemma_reach_falls(nodes, rank, b, a);
    }
}

/// The number of the slot `h`.
pub open spec fn height(rank: Seq<nat>, h: usize) -> nat {
    if h < rank.len() {
        rank[h as int]
    } else {
        0
    }
}

/// A number greater than every number of `rank`.
pub open spec fn above(rank: Seq<nat>) -> nat
    decreases rank.len(),
{
    if rank.len() == 0 {
        0
    } else if rank.last() >= above(rank.drop_last()) {
        rank.last() + 1
    } else {
        above(rank.drop_last())
    }
}

proof fn lemma_above(rank: Seq<nat>, i: int)
    requires
        0 <= i < rank.len(),
    ensures
        rank[i] < above(rank),
    decreases rank.len(),
{
    if i < rank.len() - 1 {
        lemma_above(rank.drop_last(), i);
    }
}

/// The arena after the widget `h` was marked dirty: the widget is dirty, and
/// if it is of a kind that spreads dirt, so is each of its children in turn,
/// up to the first child that was dirty already.
pub open spec fn marked(nodes: Nodes, rank: Seq<nat>, h: usize) -> Nodes
    decreases height(rank, h), 1nat, 0nat,
{
    if !resolves(nodes, h) {
        nodes
    } else {
        let flagged = nodes.update(h as int, Some(node(nodes, h).flagged(true)));
        if node(nodes, h).spreads_dirt() {
            marked_from(flagged, rank, height(rank, h), kids(nodes, h), 0)
        } else {
            flagged
        }
    }
}

/// The arena after the children `children`, from the `k`-th on, of a widget
/// with the number `above` were marked dirty in turn, up to the first that was
/// dirty already. A child that does not resolve is passed over. The marking
/// also ends at a child whose number is not below `above`; a ranked arena has
/// no such child.
pub open spec fn marked_from(
    nodes: Nodes,
    rank: Seq<nat>,
    above: nat,
    children: Seq<usize>,
    k: int,
) -> Nodes
    decreases above, 0nat, children.len() - k,
{
    if k < 0 || k >= children.len() {
        nodes
    } else if !resolves(nodes, children[k]) {
        marked_from(nodes, rank, above, children, k + 1)
    } else if node(nodes, children[k]).fields().dirty || height(rank, children[k]) >= above {
        nodes
    } else {
        marked_from(marked(nodes, rank, children[k]), rank, above, children, k + 1)
    }
}

/// The arena after the widget `h` was given the size `size`: the widget has
/// the size and is dirty, and if it is of a kind whose children follow its
/// size, it has marked them as a dirty widget of its kind does.
pub open spec fn resized(nodes: Nodes, rank: Seq<nat>, h: usize, size: Vector2D) -> Nodes {
    if !resolves(nodes, h) {
        nodes
    } else {
        let spread = if node(nodes, h).resizing_spreads_dirt() {
            marked(nodes, rank, h)
        } else {
            nodes
        };
        spread.update(h as int, Some(node(spread, h).sized(size)))
    }
}

/// The arena after the widget `h` was made to ask for the size `size`: as
/// after it was given a size.
pub open spec fn asked(nodes: Nodes, rank: Seq<nat>, h: usize, size: Vector2D) -> Nodes {
    if !resolves(nodes, h) {
        nodes
    } else {
        let spread = if node(nodes, h).resizing_spreads_dirt() {
            marked(nodes, rank, h)
        } else {
            nodes
        };
        spread.update(h as int, Some(node(spread, h).asking(size)))
    }
}

/// The arena with the widget `widget` in place of the widget `h`.
pub open spec fn put(nodes: Nodes, h: usize, widget: Widget) -> Nodes {
    if !resolves(nodes, h) {
        nodes
    } else {
        nodes.update(h as int, Some(widget))
    }
}

/// Why the widget `child` cannot become a child of the widget `parent`, if it
/// cannot.
pub open spec fn refusal(nodes: Nodes, parent: usize, child: usize) -> Option<TreeError> {
    if !resolves(nodes, parent) {
        Some(TreeError::Released)
    } else if child >= nodes.len() {
        Some(TreeError::UnknownChild)
    } else if reach(nodes, child, parent) {
        Some(TreeError::Cycle)
    } else {
        None
    }
}

/// Why the widget `widget` cannot be put into an arena of `len` slots, if it
/// cannot.
pub open spec fn unfit(widget: Widget, len: nat) -> Option<TreeError> {
    if !widget.fields().layout.supported() {
        Some(TreeError::NotSupported)
    } else if exists|k: int|
        0 <= k < widget.fields().children@.len() && #[trigger] widget.fields().children@[k]
            >= len {
        Some(TreeError::UnknownChild)
    } else {
        None
    }
}

/// Why a change of a tree was refused.
#[derive(Clone, Copy, Debug, PartialEq, Eq, Structural)]
pub enum TreeError {
    /// The layout of the widget cannot be carried out.
    NotSupported,
    /// The handle leads to no widget.
    Released,
    /// A child is named that is no slot of the arena.
    UnknownChild,
    /// The widget would become its own descendant.
    Cycle,
}

/// The widgets of an interface. A widget is named by its handle: the number of
/// its slot. A handle stays valid for as long as the tree lives; once the
/// widget is released it leads nowhere, and whoever follows it passes on.
pub struct WidgetTree {
    /// The slots.
    pub nodes: Vec<Option<Widget>>,
    /// For every slot a number that is greater than that of each child.
    pub rank: Ghost<Seq<nat>>,
}

impl View for WidgetTree {
    type V = Nodes;

    open spec fn view(&self) -> Nodes {
        self.nodes@
    }
}

impl WidgetTree {
    /// Whether the tree can be walked: every child is a slot, no widget is its
    /// own descendant, and every layout can be carried out.
    pub open spec fn wf(&self) -> bool {
        ranked(self@, self.rank@) && laid_out(self@)
    }

    /// An empty tree.
    pub fn new() -> (tree: WidgetTree)
        ensures
            tree.wf(),
            tree@.len() == 0,
    {
        WidgetTree { nodes: Vec::new(), rank: Ghost(Seq::empty()) }
    }

    /// The number of slots.
    pub fn len(&self) -> (n: usize)
        ensures
            n == self@.len(),
    {
        self.nodes.len()
    }

    /// The widget that `h` leads to.
    pub fn get(&self, h: usize) -> (widget: Option<&Widget>)
        ensures
            resolves(self@, h) ==> widget == Some(&node(self@, h)),
            !resolves(self@, h) ==> widget.is_none(),
    {
        if h < self.nodes.len() {
            self.nodes[h].as_ref()
        } else {
            None
        }
    }

    /// The widget that `h` leads to, to be changed in place. The tree stays
    /// well formed if the widget keeps its children and its layout.
    pub fn widget_mut(&mut self, h: usize) -> (widget: &mut Widget)
        requires
            resolves(old(self)@, h),
        ensures
            *widget == node(old(self)@, h),
            final(self)@ == old(self)@.update(h as int, Some(*final(widget))),
            final(self).rank@ == old(self).rank@,
    {
        self.nodes[h].as_mut().unwrap()
    }

    /// The `k`-th child of the widget `h`.
    pub fn child(&self, h: usize, k: usize) -> (c: usize)
        requires
            resolves(self@, h),
            k < kids(self@, h).len(),
        ensures
            c == kids(self@, h)[k as int],
    {
        match &self.nodes[h] {
            Some(w) => w.fields_ref().children[k],
            None => 0,
        }
    }

    /// Puts `widget` into a new slot and returns its handle. A widget whose
    /// layout cannot be carried out is refused, and so is one with a child that
    /// is no slot of the tree.
    pub fn insert(&mut self, widget: Widget) -> (r: Result<usize, TreeError>)
        requires
            old(self).wf(),
        ensures
            final(self).wf(),
            match r {
                Ok(h) => unfit(widget, old(self)@.len()).is_none() && h == old(self)@.len()
                    && final(self)@ == old(self)@.push(Some(widget)),
                Err(e) => unfit(widget, old(self)@.len()) == Some(e) && final(self)@ == old(
                    self,
                )@ && final(self).rank@ == old(self).rank@,
            },
    {
        if !widget.fields_ref().layout.is_supported() {
            return Err(TreeError::NotSupported);
        }
        let len = self.nodes.len();
        let count = widget.fields_ref().children.len();
        let mut k: usize = 0;
        while k < count
            invariant
                *self == *old(self),
                self.wf(),
                len == self@.len(),
                widget.fields().layout.supported(),
                0 <= k <= count,
                count == widget.fields().children@.len(),
                forall|j: int| 0 <= j < k ==> widget.fields().children@[j] < len,
            decreases count - k,
        {
            if widget.fields_ref().children[k] >= len {
                assert(widget.fields().children@[k as int] >= len);
                return Err(TreeError::UnknownChild);
            }
            k = k + 1;
        }
        let ghost rank = self.rank@;
        self.nodes.push(Some(widget));
        proof {
            self.rank@ = rank.push(above(rank));
            assert forall|h: usize, k: int|
                #![trigger kids(self@, h)[k]]
                resolves(self@, h) && 0 <= k < kids(self@, h).len() implies kids(self@, h)[k]
                < self@.len() && self.rank@[kids(self@, h)[k] as int] < self.rank@[h as int] by {
                if h == len {
                    lemma_above(rank, kids(self@, h)[k] as int);
                } else {
                    assert(resolves(old(self)@, h));
                    assert(kids(old(self)@, h)[k] == kids(self@, h)[k]);
                }
            }
            assert forall|h: usize| #[trigger] resolves(self@, h) implies node(
                self@,
                h,
            ).fields().layout.supported() by {
                if h != len {
                    assert(resolves(old(self)@, h));
                }
            }
        }
        Ok(len)
    }

    /// Releases the widget `h` and hands it out. From now on the handle leads
    /// nowhere.
    pub fn remove(&mut self, h: usize) -> (widget: Option<Widget>)
        requires
            old(self).wf(),
        ensures
            final(self).wf(),
            final(self).rank@ == old(self).rank@,
            resolves(old(self)@, h) ==> widget == Some(node(old(self)@, h)) && final(self)@
                == old(self)@.update(h as int, None),
            !resolves(old(self)@, h) ==> widget.is_none() && final(self)@ == old(self)@,
    {
        if h >= self.nodes.len() {
            return None;
        }
        let widget = self.nodes[h].take();
        proof {
            assert(self@ =~= old(self)@.update(h as int, None));
            if !resolves(old(self)@, h) {
                assert(self@ =~= old(self)@);
            }
            assert forall|g: usize, k: int|
                #![trigger kids(self@, g)[k]]
                resolves(self@, g) && 0 <= k < kids(self@, g).len() implies kids(self@, g)[k]
                < self@.len() && self.rank@[kids(self@, g)[k] as int] < self.rank@[g as int] by {
                assert(resolves(old(self)@, g));
                assert(kids(old(self)@, g)[k] == kids(self@, g)[k]);
            }
            assert forall|g: usize| #[trigger] resolves(self@, g) implies node(
                self@,
                g,
            ).fields().layout.supported() by {
                assert(resolves(old(self)@, g));
            }
        }
        widget
    }

    /// Whether the widget `to` is the widget `from` or one of its descendants.
    pub fn reaches(&self, from: usize, to: usize) -> (b: bool)
        requires
            self.wf(),
        ensures
            b == reach(self@, from, to),
        decreases height(self.rank@, from),
    {
        if from == to {
            proof {
                lemma_reach_self(self@, from);
            }
            return true;
        }
        let count = match self.get(from) {
            Some(w) => w.fields_ref().children.len(),
            None => {
                proof {
                    if reach(self@, from, to) {
                        lemma_reach_beyond(self@, from, to);
                    }
                }
                return false;
            },
        };
        let mut k: usize = 0;
        while k < count
            invariant
                self.wf(),
                from != to,
                resolves(self@, from),
                count == kids(self@, from).len(),
                0 <= k <= count,
                forall|j: int| 0 <= j < k ==> !#[trigger] reach(self@, kids(self@, from)[j], to),
            decreases count - k,
        {
            let c = self.child(from, k);
            assert(c == kids(self@, from)[k as int]);
            if self.reaches(c, to) {
                proof {
                    lemma_reach_through(self@, from, k as int, to);
                }
                return true;
            }
            k = k + 1;
        }
        proof {
            if reach(self@, from, to) {
                lemma_reach_beyond(self@, from, to);
            }
        }
        false
    }

    /// Makes the widget `child` the last child of the widget `parent`. The
    /// link is refused where `parent` leads nowhere, where `child` is no slot
    /// of the tree, and where `parent` is `child` or one of its descendants.
    pub fn add_as_child(&mut self, parent: usize, child: usize) -> (r: Result<(), TreeError>)
        requires
            old(self).wf(),
        ensures
            final(self).wf(),
            match r {
                Ok(()) => {
                    &&& refusal(old(self)@, parent, child).is_none()
                    &&& resolves(final(self)@, parent)
                    &&& final(self)@ == old(self)@.update(
                        parent as int,
                        Some(node(final(self)@, parent)),
                    )
                    &&& kids(final(self)@, parent) == kids(old(self)@, parent).push(child)
                    &&& reach(final(self)@, parent, child)
                    &&& node(final(self)@, parent) == node(old(self)@, parent).with_fields(
                        Fields {
                            children: node(final(self)@, parent).fields().children,
                            ..node(old(self)@, parent).fields()
                        },
                    )
                },
                Err(e) => refusal(old(self)@, parent, child) == Some(e)
                    && final(self)@ == old(self)@ && final(self).rank@ == old(self).rank@,
            },
    {
        if parent >= self.nodes.len() || self.nodes[parent].is_none() {
            return Err(TreeError::Released);
        }
        if child >= self.nodes.len() {
            return Err(TreeError::UnknownChild);
        }
        if self.reaches(child, parent) {
            return Err(TreeError::Cycle);
        }
        let ghost rank = self.rank@;
        let ghost bump = rank[child as int] + 1;
        self.widget_mut(parent).add_as_child(child);
        proof {
            let before = old(self)@;
            self.rank@ = Seq::new(
                rank.len(),
                |i: int|
                    if reach(before, i as usize, parent) {
                        rank[i] + bump
                    } else {
                        rank[i]
                    },
            );
            assert forall|h: usize, k: int|
                #![trigger kids(self@, h)[k]]
                resolves(self@, h) && 0 <= k < kids(self@, h).len() implies kids(self@, h)[k]
                < self@.len() && self.rank@[kids(self@, h)[k] as int] < self.rank@[h as int] by {
                let c = kids(self@, h)[k];
                assert(resolves(before, h));
                if h == parent && k == kids(before, h).len() {
                    assert(c == child);
                    lemma_reach_self(before, parent);
                } else {
                    assert(kids(before, h)[k] == c);
                    if reach(before, c, parent) {
                        lemma_reach_through(before, h, k, parent);
                    }
                }
            }
            assert forall|h: usize| #[trigger] resolves(self@, h) implies node(
                self@,
                h,
            ).fields().layout.supported() by {
                assert(resolves(before, h));
            }
            lemma_reach_self(self@, child);
            lemma_reach_through(self@, parent, kids(before, parent).len() as int, child);
        }
        Ok(())
    }

    /// Gives the widget `h` the identity `id`. A handle that leads nowhere
    /// changes nothing.
    pub fn set_id(&mut self, h: usize, id: usize)
        requires
            old(self).wf(),
        ensures
            final(self).wf(),
            final(self).rank@ == old(self).rank@,
            same_shape(old(self)@, final(self)@),
            untouched_outside(old(self)@, final(self)@, h),
            final(self)@ == put(old(self)@, h, node(old(self)@, h).named(id)),
    {
        if h < self.nodes.len() && self.nodes[h].is_some() {
            self.widget_mut(h).set_id(id);
            proof {
                lemma_reach_self(old(self)@, h);
                assert(same_shape(old(self)@, self@));
                lemma_same_shape_keeps_wf(old(self)@, self@, self.rank@);
            }
        }
    }

    /// Moves the widget `h` to `position`. A pinned widget stays, and a handle
    /// that leads nowhere changes nothing.
    pub fn set_position(&mut self, h: usize, position: Vector2D)
        requires
            old(self).wf(),
        ensures
            final(self).wf(),
            final(self).rank@ == old(self).rank@,
            same_shape(old(self)@, final(self)@),
            untouched_outside(old(self)@, final(self)@, h),
            same_ids(old(self)@, final(self)@),
            final(self)@ == put(old(self)@, h, node(old(self)@, h).placed(position)),
    {
        if h < self.nodes.len() && self.nodes[h].is_some() {
            self.widget_mut(h).set_position(position);
            proof {
                lemma_reach_self(old(self)@, h);
                assert(same_shape(old(self)@, self@));
                lemma_same_shape_keeps_wf(old(self)@, self@, self.rank@);
            }
        }
    }

    /// Sets the margin of the widget `h`. An unmargined widget stays as it is,
    /// and a handle that leads nowhere changes nothing.
    pub fn set_offset(&mut self, h: usize, offset: Vector2D)
        requires
            old(self).wf(),
        ensures
            final(self).wf(),
            final(self).rank@ == old(self).rank@,
            same_shape(old(self)@, final(self)@),
            untouched_outside(old(self)@, final(self)@, h),
            same_ids(old(self)@, final(self)@),
            final(self)@ == put(old(self)@, h, node(old(self)@, h).margined(offset)),
    {
        if h < self.nodes.len() && self.nodes[h].is_some() {
            self.widget_mut(h).set_offset(offset);
            proof {
                lemma_reach_self(old(self)@, h);
                assert(same_shape(old(self)@, self@));
                lemma_same_shape_keeps_wf(old(self)@, self@, self.rank@);
            }
        }
    }

    /// Gives the widget `h` the size `size` and marks it dirty. A widget whose
    /// children follow its size marks them too. A handle that leads nowhere
    /// changes nothing.
    pub fn set_size(&mut self, h: usize, size: Vector2D)
        requires
            old(self).wf(),
        ensures
            final(self).wf(),
            final(self).rank@ == old(self).rank@,
            same_shape(old(self)@, final(self)@),
            untouched_outside(old(self)@, final(self)@, h),
            same_ids(old(self)@, final(self)@),
            final(self)@ == resized(old(self)@, old(self).rank@, h, size),
    {
        if h < self.nodes.len() && self.nodes[h].is_some() {
            let spreads = match self.get(h) {
                Some(w) => w.resizing_marks_children(),
                None => false,
            };
            if spreads {
                self.set_dirty(h, true);
            }
            let ghost spread = self@;
            self.widget_mut(h).set_size(size);
            proof {
                assert(same_shape(spread, self@));
                assert(same_shape(old(self)@, self@));
                lemma_same_shape_keeps_wf(old(self)@, self@, self.rank@);
                lemma_reach_self(old(self)@, h);
                assert forall|g: usize|
                    #[trigger] resolves(old(self)@, g) && resolves(self@, g) implies node(
                    old(self)@,
                    g,
                ).fields().id == node(self@, g).fields().id by {
                    assert(resolves(spread, g));
                }
            }
        }
    }

    /// Lets the widget `h` ask for the size `size` and marks it dirty. A
    /// widget whose children follow its size marks them too. A handle that
    /// leads nowhere changes nothing.
    pub fn set_original_size(&mut self, h: usize, size: Vector2D)
        requires
            old(self).wf(),
        ensures
            final(self).wf(),
            final(self).rank@ == old(self).rank@,
            same_shape(old(self)@, final(self)@),
            untouched_outside(old(self)@, final(self)@, h),
            same_ids(old(self)@, final(self)@),
            final(self)@ == asked(old(self)@, old(self).rank@, h, size),
    {
        if h < self.nodes.len() && self.nodes[h].is_some() {
            let spreads = match self.get(h) {
                Some(w) => w.resizing_marks_children(),
                None => false,
            };
            if spreads {
                self.set_dirty(h, true);
            }
            let ghost spread = self@;
            self.widget_mut(h).set_original_size(size);
            proof {
                assert(same_shape(spread, self@));
                assert(same_shape(old(self)@, self@));
                lemma_same_shape_keeps_wf(old(self)@, self@, self.rank@);
                lemma_reach_self(old(self)@, h);
                assert forall|g: usize|
                    #[trigger] resolves(old(self)@, g) && resolves(self@, g) implies node(
                    old(self)@,
                    g,
                ).fields().id == node(self@, g).fields().id by {
                    assert(resolves(spread, g));
                }
            }
        }
    }

    /// Marks the widget `h` dirty or clean. A widget of a kind that spreads
    /// dirt marks its children dirty with it, one after the other, up to the
    /// first that is dirty already. A handle that leads nowhere changes
    /// nothing.
    pub fn set_dirty(&mut self, h: usize, value: bool)
        requires
            old(self).wf(),
        ensures
            final(self).wf(),
            final(self).rank@ == old(self).rank@,
            same_shape(old(self)@, final(self)@),
            untouched_outside(old(self)@, final(self)@, h),
            same_ids(old(self)@, final(self)@),
            final(self)@ == if !resolves(old(self)@, h) {
                old(self)@
            } else if value {
                marked(old(self)@, old(self).rank@, h)
            } else {
                old(self)@.update(h as int, Some(node(old(self)@, h).flagged(false)))
            },
        decreases height(old(self).rank@, h),
    {
        if h >= self.nodes.len() || self.nodes[h].is_none() {
            return ;
        }
        let ghost children = kids(self@, h);
        let ghost rank = self.rank@;
        let widget = self.widget_mut(h);
        widget.set_dirty(value);
        let spreads = widget.marks_children();
        let count = widget.fields_ref().children.len();
        proof {
            assert(same_shape(old(self)@, self@));
            lemma_same_shape_keeps_wf(old(self)@, self@, rank);
            lemma_reach_self(old(self)@, h);
        }
        if !value || !spreads {
            return ;
        }
        let mut k: usize = 0;
        while k < count
            invariant
                value,
                self.wf(),
                self.rank@ == rank,
                rank == old(self).rank@,
                same_shape(old(self)@, self@),
                untouched_outside(old(self)@, self@, h),
                same_ids(old(self)@, self@),
                resolves(old(self)@, h),
                children == kids(old(self)@, h),
                count == children.len(),
                0 <= k <= count,
                marked_from(self@, rank, height(rank, h), children, k as int) == marked(
                    old(self)@,
                    rank,
                    h,
                ),
            decreases count - k,
        {
            let c = self.child(h, k);
            assert(c == kids(self@, h)[k as int]);
            let dirty = match self.get(c) {
                Some(w) => Some(w.is_dirty()),
                None => None,
            };
            match dirty {
                Some(true) => {
                    assert(node(self@, children[k as int]).fields().dirty);
                    return ;
                },
                Some(false) => {
                    let ghost before = self@;
                    self.set_dirty(c, true);
                    proof {
                        assert(same_shape(old(self)@, self@)) by {
                            assert(same_shape(before, self@));
                        }
                        lemma_stays_untouched(old(self)@, before, self@, h, k as int);
                        assert(same_ids(old(self)@, self@)) by {
                            assert(same_ids(before, self@));
                            assert forall|g: usize|
                                #[trigger] resolves(old(self)@, g) && resolves(
                                    self@,
                                    g,
                                ) implies node(old(self)@, g).fields().id == node(
                                self@,
                                g,
                            ).fields().id by {
                                assert(resolves(before, g));
                            }
                        }
                    }
                },
                None => {},
            }
            k = k + 1;
        }
    }
}

/// What changes only below a child of a widget changes only below the widget.
pub proof fn lemma_stays_untouched(start: Nodes, before: Nodes, after: Nodes, h: usize, k: int)
    requires
        same_shape(start, before),
        resolves(start, h),
        0 <= k < kids(start, h).len(),
        untouched_outside(start, before, h),
        untouched_outside(before, after, kids(start, h)[k]),
    ensures
        untouched_outside(start, after, h),
{
    lemma_reach_same_shape(start, before);
    assert forall|n: usize| n < start.len() && !#[trigger] reach(start, h, n) implies after[n as int]
        == start[n as int] by {
        if reach(start, kids(start, h)[k], n) {
            lemma_reach_through(start, h, k, n);
        }
        assert(!reach(before, kids(start, h)[k], n));
    }
}

/// A widget that was marked dirty is what it was before, but for the flag.
pub proof fn lemma_marked_is_dirty(nodes: Nodes, rank: Seq<nat>, h: usize)
    requires
        resolves(nodes, h),
    ensures
        resolves(marked(nodes, rank, h), h),
        node(marked(nodes, rank, h), h) == node(nodes, h).flagged(true),
        node(marked(nodes, rank, h), h).fields().dirty,
        marked(nodes, rank, h).len() == nodes.len(),
{
    let flagged = nodes.update(h as int, Some(node(nodes, h).flagged(true)));
    if node(nodes, h).spreads_dirt() {
        lemma_marked_from_keeps(flagged, rank, height(rank, h), kids(nodes, h), 0, h);
    }
}

/// Marking the children of a widget leaves alone every dirty widget whose
/// number is not below that of the widget.
proof fn lemma_marked_from_keeps(
    nodes: Nodes,
    rank: Seq<nat>,
    above: nat,
    children: Seq<usize>,
    k: int,
    h: usize,
)
    requires
        resolves(nodes, h),
        node(nodes, h).fields().dirty,
        height(rank, h) >= above,
    ensures
        marked_from(nodes, rank, above, children, k).len() == nodes.len(),
        marked_from(nodes, rank, above, children, k)[h as int] == nodes[h as int],
    decreases above, 0nat, children.len() - k,
{
    if 0 <= k < children.len() {
        let child = children[k];
        if !resolves(nodes, child) {
            lemma_marked_from_keeps(nodes, rank, above, children, k + 1, h);
        } else if node(nodes, child).fields().dirty || height(rank, child) >= above {
        } else {
            lemma_marked_keeps(nodes, rank, child, h);
            lemma_marked_from_keeps(marked(nodes, rank, child), rank, above, children, k + 1, h);
        }
    }
}

/// Marking a widget leaves alone every dirty widget whose number is above
/// that of the widget.
proof fn lemma_marked_keeps(nodes: Nodes, rank: Seq<nat>, c: usize, h: usize)
    requires
        resolves(nodes, h),
        node(nodes, h).fields().dirty,
        resolves(nodes, c),
        height(rank, h) > height(rank, c),
    ensures
        marked(nodes, rank, c).len() == nodes.len(),
        marked(nodes, rank, c)[h as int] == nodes[h as int],
    decreases height(rank, c), 1nat, 0nat,
{
    let flagged = nodes.update(c as int, Some(node(nodes, c).flagged(true)));
    if node(nodes, c).spreads_dirt() {
        lemma_marked_from_keeps(flagged, rank, height(rank, c), kids(nodes, c), 0, h);
    }
}

/// What changes twice only below a widget changes only below the widget.
pub proof fn lemma_untouched_twice(start: Nodes, before: Nodes, after: Nodes, h: usize)
    requires
        same_shape(start, before),
        untouched_outside(start, before, h),
        untouched_outside(before, after, h),
    ensures
        untouched_outside(start, after, h),
{
    lemma_reach_same_shape(start, before);
    assert forall|n: usize| n < start.len() && !#[trigger] reach(start, h, n) implies after[n as int]
        == start[n as int] by {
        assert(!reach(before, h, n));
    }
}

/// A widget that was released has no descendants, so all of them are clean.
pub proof fn lemma_nothing_below_released(nodes: Nodes, h: usize)
    requires
        !resolves(nodes, h),
    ensures
        clean_below(nodes, h),
{
    assert forall|n: usize| #[trigger] reach(nodes, h, n) && resolves(nodes, n) implies !node(
        nodes,
        n,
    ).fields().dirty by {
        if n != h {
            lemma_reach_beyond(nodes, h, n);
        }
    }
}

/// What was clean below one widget stays clean when another widget and its
/// descendants are marked and then cleaned, and nothing else changes.
pub proof fn lemma_clean_stays(before: Nodes, marked: Nodes, after: Nodes, done: usize, child: usize)
    requires
        same_shape(before, marked),
        same_shape(marked, after),
        clean_below(before, done),
        untouched_outside(before, marked, child),
        untouched_outside(marked, after, child),
        clean_below(after, child),
    ensures
        clean_below(after, done),
{
    lemma_reach_same_shape(before, marked);
    lemma_reach_same_shape(marked, after);
    assert forall|n: usize| #[trigger] reach(after, done, n) && resolves(after, n) implies !node(
        after,
        n,
    ).fields().dirty by {
        assert(reach(marked, done, n));
        assert(reach(before, done, n));
        if reach(after, child, n) {
        } else {
            assert(!reach(marked, child, n));
            assert(!reach(before, child, n));
            assert(after[n as int] == marked[n as int]);
            assert(marked[n as int] == before[n as int]);
            assert(resolves(before, n));
        }
    }
}

/// A clean widget whose children are clean with all their descendants is
/// clean with all its descendants.
pub proof fn lemma_clean_from_children(nodes: Nodes, h: usize)
    requires
        resolves(nodes, h),
        !node(nodes, h).fields().dirty,
        forall|k: int|
            0 <= k < kids(nodes, h).len() ==> clean_below(nodes, #[trigger] kids(nodes, h)[k]),
    ensures
        clean_below(nodes, h),
{
    assert forall|n: usize| #[trigger] reach(nodes, h, n) && resolves(nodes, n) implies !node(
        nodes,
        n,
    ).fields().dirty by {
        if n != h {
            lemma_reach_beyond(nodes, h, n);
            let k = choose|k: int|
                0 <= k < kids(nodes, h).len() && #[trigger] reach(nodes, kids(nodes, h)[k], n);
            assert(clean_below(nodes, kids(nodes, h)[k]));
        }
    }
}

/// A tree that is changed only in what leaves the children and the layouts as
/// they are stays well formed.
pub proof fn lemma_same_shape_keeps_wf(a: Nodes, b: Nodes, rank: Seq<nat>)
    requires
        ranked(a, rank),
        laid_out(a),
        same_shape(a, b),
    ensures
        ranked(b, rank),
        laid_out(b),
{
    assert forall|h: usize, k: int|
        #![trigger kids(b, h)[k]]
        resolves(b, h) && 0 <= k < kids(b, h).len() implies kids(b, h)[k] < b.len() && rank[kids(
        b,
        h,
    )[k] as int] < rank[h as int] by {
        assert(resolves(a, h));
        assert(kids(a, h)[k] == kids(b, h)[k]);
    }
    assert forall|h: usize| #[trigger] resolves(b, h) implies node(
        b,
        h,
    ).fields().layout.supported() by {
        assert(resolves(a, h));
    }
}

} // verus!
