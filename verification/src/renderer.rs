//! What the engine hands to a renderer: draw instructions, the ordered
//! collection that holds them, and the messages that widgets queue.

use crate::dispatch::{dispatched, Stage};
use crate::event::Event;
use crate::rebuild::{built, Scene};
use crate::tree::{node, put, resized, resolves, same_shape, WidgetTree};
use crate::util::{Color, IDMachine, Queue, Vector2D};
use std::collections::BTreeMap;
use vstd::prelude::*;
use vstd::std_specs::btree::*;
use vstd::std_specs::cmp::OrdSpec;
use vstd::std_specs::iter::IteratorSpec;

verus! {

broadcast use vstd::std_specs::btree::group_btree_axioms;

/// How an image is scaled before it is drawn.
#[derive(Clone, Copy, Debug, PartialEq, Eq, Structural)]
pub enum DrawImageOptions {
    /// The image keeps its own size.
    OriginalSize,
    /// The image is brought to the given size.
    Resize {
        /// The new width.
        width: usize,
        /// The new height.
        height: usize,
    },
    /// Both dimensions of the image are multiplied.
    ResizeMultiplier {
        /// The factor.
        mult: usize,
    },
}

/// One primitive for the renderer to draw. Every primitive but `Clear` carries
/// the rectangle outside which no pixel may be touched, so that instructions of
/// many widgets can stand in one flat list.
#[derive(Clone, Debug, PartialEq, Eq)]
pub enum RenderInstruction {
    /// Fill the whole buffer.
    Clear {
        /// The colour to fill with.
        color: Color,
    },
    /// Draw a point.
    DrawPoint {
        /// Where.
        point: Vector2D,
        /// The colour of the point.
        color: Color,
        /// The upper left corner of the clip rectangle.
        clip_point: Vector2D,
        /// The size of the clip rectangle.
        clip_size: Vector2D,
    },
    /// Draw a line between two points.
    DrawLine {
        /// Where the line starts.
        point_a: Vector2D,
        /// Where the line ends.
        point_b: Vector2D,
        /// The colour of the line.
        color: Color,
        /// The upper left corner of the clip rectangle.
        clip_point: Vector2D,
        /// The size of the clip rectangle.
        clip_size: Vector2D,
    },
    /// Draw an arc around a centre.
    DrawArc {
        /// The centre.
        point: Vector2D,
        /// The radius.
        r: usize,
        /// The angle at which the arc starts.
        s_ang: usize,
        /// The angle at which the arc ends.
        e_ang: usize,
        /// The colour of the arc.
        color: Color,
        /// The upper left corner of the clip rectangle.
        clip_point: Vector2D,
        /// The size of the clip rectangle.
        clip_size: Vector2D,
    },
    /// Draw a circle around a centre.
    DrawCircle {
        /// The centre.
        point: Vector2D,
        /// The radius.
        r: usize,
        /// The colour of the circle.
        color: Color,
        /// The upper left corner of the clip rectangle.
        clip_point: Vector2D,
        /// The size of the clip rectangle.
        clip_size: Vector2D,
    },
    /// Draw a rectangle.
    DrawRect {
        /// The upper left corner.
        point: Vector2D,
        /// Width and height.
        size: Vector2D,
        /// The colour of the rectangle.
        color: Color,
        /// The upper left corner of the clip rectangle.
        clip_point: Vector2D,
        /// The size of the clip rectangle.
        clip_size: Vector2D,
    },
    /// Draw a triangle.
    DrawTriangle {
        /// The first corner.
        point_a: Vector2D,
        /// The second corner.
        point_b: Vector2D,
        /// The third corner.
        point_c: Vector2D,
        /// The colour of the triangle.
        color: Color,
        /// The upper left corner of the clip rectangle.
        clip_point: Vector2D,
        /// The size of the clip rectangle.
        clip_size: Vector2D,
    },
    /// Draw an image.
    DrawImage {
        /// Where.
        point: Vector2D,
        /// The path of the image file.
        path: String,
        /// How the image is scaled.
        options: DrawImageOptions,
        /// The upper left corner of the clip rectangle.
        clip_point: Vector2D,
        /// The size of the clip rectangle.
        clip_size: Vector2D,
    },
    /// Draw text.
    DrawText {
        /// Where the text starts.
        point: Vector2D,
        /// The size of the font.
        font_size: usize,
        /// The text.
        string: String,
        /// The colour of the text.
        color: Color,
        /// The upper left corner of the clip rectangle.
        clip_point: Vector2D,
        /// The size of the clip rectangle.
        clip_size: Vector2D,
    },
}

/// A command that a widget queues when the user acts on it. The engine does
/// not know what a message does: `key` tells the program which of its commands
/// is meant, and `event` is the event that set it off.
#[derive(Clone, Copy, Debug, PartialEq, Eq, Structural)]
pub struct Message {
    /// Chosen by the program that made the message.
    pub key: usize,
    /// The event that set the message off, once there is one.
    pub event: Option<Event>,
}

impl Message {
    /// A message that no event has set off yet.
    pub fn new(key: usize) -> (m: Message)
        ensures
            m == (Message { key, event: None }),
    {
        Message { key, event: None }
    }

    /// Records the event that sets the message off.
    pub fn set_event(&mut self, event: Event)
        ensures
            *final(self) == (Message { key: old(self).key, event: Some(event) }),
    {
        self.event = Some(event);
    }
}

/// Whether the numbers of `ids` grow strictly from each to the next.
pub open spec fn ascending(ids: Seq<usize>) -> bool {
    forall|i: int, j: int| 0 <= i < j < ids.len() ==> ids[i] < ids[j]
}

/// The draw instructions of every widget that is on screen, under the
/// widget's identity. A renderer paints them in the ascending order of the
/// identities, so a widget with a greater identity is painted over one with a
/// smaller.
pub struct RenderInstructionCollection {
    pub pairs: BTreeMap<usize, Vec<RenderInstruction>>,
}

impl View for RenderInstructionCollection {
    type V = Map<usize, Seq<RenderInstruction>>;

    /// The instructions under each identity.
    open spec fn view(&self) -> Map<usize, Seq<RenderInstruction>> {
        Map::new(|id: usize| self.pairs@.contains_key(id), |id: usize| self.pairs@[id]@)
    }
}

impl RenderInstructionCollection {
    /// An empty collection.
    pub fn new() -> (c: RenderInstructionCollection)
        ensures
            c@ == Map::<usize, Seq<RenderInstruction>>::empty(),
    {
        let c = RenderInstructionCollection {
            pairs: BTreeMap::<usize, Vec<RenderInstruction>>::new(),
        };
        assert(c@ =~= Map::<usize, Seq<RenderInstruction>>::empty());
        c
    }

    /// Puts `instructions` under `id`, in place of what was there.
    pub fn replace_or_insert(&mut self, id: usize, instructions: Vec<RenderInstruction>)
        ensures
            final(self)@ == old(self)@.insert(id, instructions@),
    {
        self.pairs.insert(id, instructions);
        assert(self@ =~= old(self)@.insert(id, instructions@));
    }

    /// Takes out what is under `id`. Where nothing is, nothing changes.
    pub fn remove(&mut self, id: usize)
        ensures
            final(self)@ == old(self)@.remove(id),
            !old(self)@.contains_key(id) ==> final(self)@ == old(self)@,
    {
        self.pairs.remove(&id);
        assert(self@ =~= old(self)@.remove(id));
        assert(!old(self)@.contains_key(id) ==> old(self)@.remove(id) =~= old(self)@);
    }

    /// The identities that hold instructions, in the order in which a renderer
    /// paints them.
    pub fn ordered_ids(&self) -> (ids: Vec<usize>)
        ensures
            ids@.to_set() == self@.dom(),
            ascending(ids@),
    {
        let mut ids: Vec<usize> = Vec::new();
        let ghost keys = spec_keys_iter(&self.pairs).remaining();
        assert(key_obeys_cmp_spec::<usize>());
        for k in it: self.pairs.keys()
            invariant
                ids@.len() == it.index(),
                forall|i: int| 0 <= i < ids@.len() ==> ids@[i] == *it.seq()[i],
                it.seq() == keys,
        {
            ids.push(*k);
        }
        assert(ids@ =~= keys.unref());
        assert(self@.dom() =~= self.pairs@.dom());
        assert forall|i: int, j: int| 0 <= i < j < ids@.len() implies ids@[i] < ids@[j] by {
            axiom_increasing_seq_meaning::<&usize>(keys);
            let a: &usize = keys[i];
            let b: &usize = keys[j];
            assert(OrdSpec::cmp_spec(&a, &b) is Less);
        }
        ids
    }
}

/// The widgets that are shown above the widgets of the tree, such as tips.
/// Each is kept under a key of its own together with the place and the size at
/// which it is shown. The keys are handed out from the greatest number
/// downwards, and a widget takes its key as its identity: so whatever
/// identities the tree has handed out from 1 upwards, an overlay is painted
/// after the widgets of the tree. The key 0 is never handed out.
pub struct AbsoluteWidgetCollection {
    /// The key that is handed out next; 0 once none is left.
    pub counter: usize,
    /// Under each key the handle of the widget, its place and its size.
    pub widgets: BTreeMap<usize, (usize, Vector2D, Vector2D)>,
}

impl View for AbsoluteWidgetCollection {
    type V = Map<usize, (usize, Vector2D, Vector2D)>;

    /// Under each key the handle of the widget, its place and its size.
    open spec fn view(&self) -> Map<usize, (usize, Vector2D, Vector2D)> {
        self.widgets@
    }
}

impl AbsoluteWidgetCollection {
    /// The key that is handed out next; 0 once none is left. Every key handed
    /// out so far is greater.
    pub open spec fn next_key(&self) -> usize {
        self.counter
    }

    /// An empty collection, which hands out the greatest key first.
    pub fn new() -> (c: AbsoluteWidgetCollection)
        ensures
            c.next_key() == usize::MAX,
            c@ == Map::<usize, (usize, Vector2D, Vector2D)>::empty(),
    {
        AbsoluteWidgetCollection {
            counter: usize::MAX,
            widgets: BTreeMap::<usize, (usize, Vector2D, Vector2D)>::new(),
        }
    }

    /// The key that is handed out next; 0 once none is left.
    pub fn peek_key(&self) -> (key: usize)
        ensures
            key == self.next_key(),
    {
        self.counter
    }

    /// Makes the widget `widget_ptr` of `tree` an overlay that is shown at
    /// `position` with the size `size`: the widget takes the next key as its
    /// identity and is kept under it. Nothing happens where the handle leads
    /// nowhere, and where no key is left.
    pub fn insert(
        &mut self,
        tree: &mut WidgetTree,
        widget_ptr: usize,
        position: Vector2D,
        size: Vector2D,
    ) -> (inserted: bool)
        requires
            old(tree).wf(),
        ensures
            final(tree).wf(),
            final(tree).rank@ == old(tree).rank@,
            same_shape(old(tree)@, final(tree)@),
            inserted == (resolves(old(tree)@, widget_ptr) && old(self).next_key() > 0),
            inserted ==> final(tree)@ == old(tree)@.update(
                widget_ptr as int,
                Some(node(old(tree)@, widget_ptr).named(old(self).next_key())),
            ) && final(self)@ == old(self)@.insert(
                old(self).next_key(),
                (widget_ptr, position, size),
            ) && final(self).next_key() == old(self).next_key() - 1,
            !inserted ==> final(tree)@ == old(tree)@ && final(self)@ == old(self)@,
            !inserted ==> final(self).next_key() == old(self).next_key(),
    {
        if self.counter == 0 || tree.get(widget_ptr).is_none() {
            return false;
        }
        tree.set_id(widget_ptr, self.counter);
        self.widgets.insert(self.counter, (widget_ptr, position, size));
        self.counter = self.counter - 1;
        true
    }

    /// Takes out the overlay under `id`. Where none is, nothing changes.
    pub fn remove(&mut self, id: usize)
        ensures
            final(self)@ == old(self)@.remove(id),
            final(self).next_key() == old(self).next_key(),
    {
        self.widgets.remove(&id);
    }

    /// The overlay under `id`: the handle of the widget, its place and its
    /// size.
    pub fn get(&self, id: usize) -> (overlay: Option<(usize, Vector2D, Vector2D)>)
        ensures
            overlay == if self@.contains_key(id) {
                Some(self@[id])
            } else {
                None
            },
    {
        match self.widgets.get(&id) {
            Some(overlay) => Some(*overlay),
            None => None,
        }
    }

    /// The keys under which overlays are kept, in ascending order.
    pub fn ordered_keys(&self) -> (keys: Vec<usize>)
        ensures
            keys@.to_set() == self@.dom(),
            ascending(keys@),
    {
        let mut ids: Vec<usize> = Vec::new();
        let ghost keys = spec_keys_iter(&self.widgets).remaining();
        assert(key_obeys_cmp_spec::<usize>());
        for k in it: self.widgets.keys()
            invariant
                ids@.len() == it.index(),
                forall|i: int| 0 <= i < ids@.len() ==> ids@[i] == *it.seq()[i],
                it.seq() == keys,
        {
            ids.push(*k);
        }
        assert(ids@ =~= keys.unref());
        assert forall|i: int, j: int| 0 <= i < j < ids@.len() implies ids@[i] < ids@[j] by {
            axiom_increasing_seq_meaning::<&usize>(keys);
            let a: &usize = keys[i];
            let b: &usize = keys[j];
            assert(OrdSpec::cmp_spec(&a, &b) is Less);
        }
        ids
    }
}

/// The stage after the events `events`, from the `k`-th on, were handed to the
/// widget `root` one after the other.
pub open spec fn handled(
    stage: Stage,
    rank: Seq<nat>,
    root: usize,
    events: Seq<Event>,
    k: int,
    now: u64,
) -> Stage
    decreases events.len() - k,
{
    if k < 0 || k >= events.len() {
        stage
    } else {
        handled(dispatched(stage, rank, root, events[k], now), rank, root, events, k + 1, now)
    }
}

/// The scene after the dirty overlay `h`, which is kept under `key`, was drawn
/// anew at `position` with the size `size`: the widget stands there and has
/// that size, what it draws now is in the collection under the key, and it is
/// clean.
pub open spec fn overlay_drawn(
    scene: Scene,
    rank: Seq<nat>,
    key: usize,
    h: usize,
    position: Vector2D,
    size: Vector2D,
) -> Scene
    recommends
        resolves(scene.nodes, h),
{
    let placed = put(scene.nodes, h, node(scene.nodes, h).placed(position));
    let sized = resized(placed, rank, h, size);
    Scene {
        nodes: sized.update(h as int, Some(node(sized, h).flagged(false))),
        pairs: scene.pairs.remove(key).insert(key, node(sized, h).drawn()),
        ..scene
    }
}

/// The scene after the overlays under the keys `keys`, from the `k`-th on,
/// were gone over one after the other: each that is dirty was drawn anew. An
/// overlay whose widget was released is passed over.
pub open spec fn overlaid(
    scene: Scene,
    rank: Seq<nat>,
    overlays: Map<usize, (usize, Vector2D, Vector2D)>,
    keys: Seq<usize>,
    k: int,
) -> Scene
    decreases keys.len() - k,
{
    if k < 0 || k >= keys.len() {
        scene
    } else {
        let overlay = overlays[keys[k]];
        overlaid(
            if resolves(scene.nodes, overlay.0) && node(scene.nodes, overlay.0).fields().dirty {
                overlay_drawn(scene, rank, keys[k], overlay.0, overlay.1, overlay.2)
            } else {
                scene
            },
            rank,
            overlays,
            keys,
            k + 1,
        )
    }
}

/// Whether `keys` holds the keys of `overlays`, each once, in ascending order.
pub open spec fn in_paint_order(
    keys: Seq<usize>,
    overlays: Map<usize, (usize, Vector2D, Vector2D)>,
) -> bool {
    ascending(keys) && keys.to_set() == overlays.dom()
}

/// The keys of `overlays` in ascending order.
pub open spec fn paint_order(overlays: Map<usize, (usize, Vector2D, Vector2D)>) -> Seq<usize> {
    choose|keys: Seq<usize>| in_paint_order(keys, overlays)
}

/// Two ascending sequences of the same numbers are one sequence.
pub proof fn lemma_ascending_is_unique(a: Seq<usize>, b: Seq<usize>)
    requires
        ascending(a),
        ascending(b),
        a.to_set() == b.to_set(),
    ensures
        a == b,
    decreases a.len(),
{
    if a.len() == 0 {
        if b.len() > 0 {
            assert(b.to_set().contains(b[0]));
            assert(a.contains(b[0]));
        }
        assert(a =~= b);
    } else {
        let m = a.last();
        assert(a.to_set().contains(m));
        assert(b.contains(m));
        let n = b.last();
        assert(b.to_set().contains(n));
        assert(a.contains(n));
        assert(m == n);
        let shorter = a.drop_last();
        let other = b.drop_last();
        assert forall|x: usize| shorter.to_set().contains(x) <==> other.to_set().contains(x) by {
            if shorter.contains(x) {
                let i = choose|i: int| 0 <= i < shorter.len() && shorter[i] == x;
                assert(a[i] == x && x < m);
                assert(a.to_set().contains(x));
                assert(b.contains(x));
                let j = choose|j: int| 0 <= j < b.len() && b[j] == x;
                assert(other[j] == x);
            }
            if other.contains(x) {
                let j = choose|j: int| 0 <= j < other.len() && other[j] == x;
                assert(b[j] == x && x < n);
                assert(b.to_set().contains(x));
                assert(a.contains(x));
                let i = choose|i: int| 0 <= i < a.len() && a[i] == x;
                assert(shorter[i] == x);
            }
        }
        assert(shorter.to_set() =~= other.to_set());
        lemma_ascending_is_unique(shorter, other);
        assert(a =~= shorter.push(m));
        assert(b =~= other.push(n));
    }
}

/// Hands every event of `events` to the widget `root` of `tree`, in the order
/// of the queue, and leaves the queue empty. All events count as arriving at
/// the time `now`.
pub fn handle_events(
    tree: &mut WidgetTree,
    root: usize,
    events: &mut Queue<Event>,
    now: u64,
    messages: &mut Queue<Message>,
    instruction_collection: &mut RenderInstructionCollection,
    absolute: &mut AbsoluteWidgetCollection,
)
    requires
        old(tree).wf(),
    ensures
        final(tree).wf(),
        final(tree).rank@ == old(tree).rank@,
        same_shape(old(tree)@, final(tree)@),
        final(events)@ == Seq::<Event>::empty(),
        (Stage {
            nodes: final(tree)@,
            queue: final(messages)@,
            pairs: final(instruction_collection)@,
            overlays: final(absolute)@,
            next_key: final(absolute).next_key(),
        }) == handled(
            Stage {
                nodes: old(tree)@,
                queue: old(messages)@,
                pairs: old(instruction_collection)@,
                overlays: old(absolute)@,
                next_key: old(absolute).next_key(),
            },
            old(tree).rank@,
            root,
            old(events)@,
            0,
            now,
        ),
{
    let ghost start = Stage {
        nodes: old(tree)@,
        queue: old(messages)@,
        pairs: old(instruction_collection)@,
        overlays: old(absolute)@,
        next_key: old(absolute).next_key(),
    };
    let count = events.queue.len();
    let mut k: usize = 0;
    while k < count
        invariant
            tree.wf(),
            tree.rank@ == old(tree).rank@,
            same_shape(old(tree)@, tree@),
            events@ == old(events)@,
            count == events@.len(),
            0 <= k <= count,
            handled(
                Stage {
                    nodes: tree@,
                    queue: messages@,
                    pairs: instruction_collection@,
                    overlays: absolute@,
                    next_key: absolute.next_key(),
                },
                tree.rank@,
                root,
                events@,
                k as int,
                now,
            ) == handled(start, tree.rank@, root, events@, 0, now),
        decreases count - k,
    {
        let event = events.queue[k];
        let ghost before = tree@;
        tree.on_event(root, event, now, messages, instruction_collection, absolute);
        proof {
            assert(same_shape(old(tree)@, tree@)) by {
                assert(same_shape(before, tree@));
            }
        }
        k = k + 1;
    }
    events.queue.clear();
}

/// Goes over the overlays in the ascending order of their keys and draws each
/// anew that is dirty: at the place and with the size that is kept with it,
/// under its key.
pub fn build_overlays(
    tree: &mut WidgetTree,
    absolute: &AbsoluteWidgetCollection,
    instruction_collection: &mut RenderInstructionCollection,
)
    requires
        old(tree).wf(),
    ensures
        final(tree).wf(),
        final(tree).rank@ == old(tree).rank@,
        same_shape(old(tree)@, final(tree)@),
        forall|issued: usize|
            (Scene { nodes: final(tree)@, issued: issued, pairs: final(instruction_collection)@ })
                == #[trigger] overlaid(
                Scene { nodes: old(tree)@, issued: issued, pairs: old(instruction_collection)@ },
                old(tree).rank@,
                absolute@,
                paint_order(absolute@),
                0,
            ),
{
    let keys = absolute.ordered_keys();
    proof {
        assert(in_paint_order(keys@, absolute@));
        lemma_ascending_is_unique(keys@, paint_order(absolute@));
    }
    let count = keys.len();
    let mut k: usize = 0;
    while k < count
        invariant
            tree.wf(),
            tree.rank@ == old(tree).rank@,
            same_shape(old(tree)@, tree@),
            keys@ == paint_order(absolute@),
            keys@.to_set() == absolute@.dom(),
            count == keys@.len(),
            0 <= k <= count,
            forall|issued: usize|
                overlaid(
                    Scene { nodes: tree@, issued: issued, pairs: instruction_collection@ },
                    tree.rank@,
                    absolute@,
                    keys@,
                    k as int,
                ) == #[trigger] overlaid(
                    Scene {
                        nodes: old(tree)@,
                        issued: issued,
                        pairs: old(instruction_collection)@,
                    },
                    tree.rank@,
                    absolute@,
                    keys@,
                    0,
                ),
        decreases count - k,
    {
        let key = keys[k];
        assert(keys@.to_set().contains(keys@[k as int]));
        let ghost before = tree@;
        let ghost pairs = instruction_collection@;
        if let Some(overlay) = absolute.get(key) {
            let dirty = match tree.get(overlay.0) {
                Some(w) => w.is_dirty(),
                None => false,
            };
            if dirty {
                tree.set_position(overlay.0, overlay.1);
                let ghost placed = tree@;
                tree.set_size(overlay.0, overlay.2);
                let ghost sized = tree@;
                let recipe = match tree.get(overlay.0) {
                    Some(w) => w.recipe(),
                    None => Vec::new(),
                };
                instruction_collection.remove(key);
                instruction_collection.replace_or_insert(key, recipe);
                tree.set_dirty(overlay.0, false);
                proof {
                    assert(same_shape(old(tree)@, tree@)) by {
                        assert(same_shape(before, placed));
                        assert(same_shape(placed, sized));
                        assert(same_shape(sized, tree@));
                    }
                    assert forall|issued: usize|
                        (Scene { nodes: tree@, issued: issued, pairs: instruction_collection@ })
                            == #[trigger] overlay_drawn(
                            Scene { nodes: before, issued: issued, pairs: pairs },
                            tree.rank@,
                            key,
                            overlay.0,
                            overlay.1,
                            overlay.2,
                        ) by {
                        assert(tree@ =~= sized.update(
                            overlay.0 as int,
                            Some(node(sized, overlay.0).flagged(false)),
                        ));
                    }
                }
            }
        }
        proof {
            assert forall|issued: usize|
                overlaid(
                    Scene { nodes: tree@, issued: issued, pairs: instruction_collection@ },
                    tree.rank@,
                    absolute@,
                    keys@,
                    k + 1,
                ) == #[trigger] overlaid(
                    Scene {
                        nodes: old(tree)@,
                        issued: issued,
                        pairs: old(instruction_collection)@,
                    },
                    tree.rank@,
                    absolute@,
                    keys@,
                    0,
                ) by {
                assert(overlaid(
                    Scene { nodes: before, issued: issued, pairs: pairs },
                    tree.rank@,
                    absolute@,
                    keys@,
                    k as int,
                ) == overlaid(
                    Scene { nodes: tree@, issued: issued, pairs: instruction_collection@ },
                    tree.rank@,
                    absolute@,
                    keys@,
                    k + 1,
                ));
            }
        }
        k = k + 1;
    }
}

/// One round of the event loop, without what only the display and the renderer
/// can do: hands the queued events to the widget `root`, builds the tree from
/// the origin with the size of the display, and draws the dirty overlays anew.
/// What is left to the caller is to paint the collection and to carry out the
/// messages that were queued.
pub fn frame(
    tree: &mut WidgetTree,
    root: usize,
    events: &mut Queue<Event>,
    now: u64,
    messages: &mut Queue<Message>,
    display_size: Vector2D,
    id_machine: &mut IDMachine,
    instruction_collection: &mut RenderInstructionCollection,
    absolute: &mut AbsoluteWidgetCollection,
)
    requires
        old(tree).wf(),
    ensures
        final(tree).wf(),
        final(tree).rank@ == old(tree).rank@,
        same_shape(old(tree)@, final(tree)@),
        final(events)@ == Seq::<Event>::empty(),
        ({
            let rank = old(tree).rank@;
            let after_events = handled(
                Stage {
                    nodes: old(tree)@,
                    queue: old(messages)@,
                    pairs: old(instruction_collection)@,
                    overlays: old(absolute)@,
                    next_key: old(absolute).next_key(),
                },
                rank,
                root,
                old(events)@,
                0,
                now,
            );
            let after_build = built(
                Scene {
                    nodes: after_events.nodes,
                    issued: old(id_machine).issued(),
                    pairs: after_events.pairs,
                },
                rank,
                root,
                Vector2D { x: 0, y: 0 },
                display_size,
            );
            &&& final(messages)@ == after_events.queue
            &&& final(absolute)@ == after_events.overlays
            &&& final(absolute).next_key() == after_events.next_key
            &&& (Scene {
                nodes: final(tree)@,
                issued: final(id_machine).issued(),
                pairs: final(instruction_collection)@,
            }) == overlaid(
                after_build,
                rank,
                after_events.overlays,
                paint_order(after_events.overlays),
                0,
            )
        }),
{
    handle_events(tree, root, events, now, messages, instruction_collection, absolute);
    let ghost after_events = tree@;
    tree.build(root, Vector2D::new(0, 0), display_size, id_machine, instruction_collection);
    let ghost after_build = tree@;
    build_overlays(tree, absolute, instruction_collection);
    proof {
        assert(same_shape(old(tree)@, tree@)) by {
            assert(same_shape(old(tree)@, after_events));
            assert(same_shape(after_events, after_build));
            assert(same_shape(after_build, tree@));
        }
    }
}

/// Removing an identity a second time changes nothing, and neither does
/// removing one that was never there.
pub proof fn lemma_remove_is_idempotent(pairs: Map<usize, Seq<RenderInstruction>>, id: usize)
    ensures
        pairs.remove(id).remove(id) == pairs.remove(id),
        !pairs.contains_key(id) ==> pairs.remove(id) == pairs,
{
    assert(pairs.remove(id).remove(id) =~= pairs.remove(id));
    if !pairs.contains_key(id) {
        assert(pairs.remove(id) =~= pairs);
    }
}

/// An overlay is painted after every widget of the tree, for as long as the
/// identities that the tree hands out from 1 upwards have not met the keys
/// that the overlays are handed from the greatest number downwards: `a`
/// stands for an identity that a machine has handed out which has come to
/// `issued`, `b` for a key of a collection of overlays whose next key is
/// `next_key`, and `ids` for the order in which a renderer paints.
pub proof fn lemma_overlays_are_painted_last(
    ids: Seq<usize>,
    issued: usize,
    next_key: usize,
    a: usize,
    b: usize,
    i: int,
    j: int,
)
    requires
        ascending(ids),
        0 <= i < ids.len(),
        0 <= j < ids.len(),
        ids[i] == a,
        ids[j] == b,
        a <= issued,
        next_key < b,
        issued <= next_key,
    ensures
        i < j,
{
    lemma_smaller_id_is_painted_first(ids, i, j);
}

/// In an ascending order the smaller of two identities comes first.
pub proof fn lemma_smaller_id_is_painted_first(ids: Seq<usize>, i: int, j: int)
    requires
        ascending(ids),
        0 <= i < ids.len(),
        0 <= j < ids.len(),
        ids[i] < ids[j],
    ensures
        i < j,
{
    if j < i {
        assert(ids[j] < ids[i]);
    }
}

} // verus!
