//! The way of an event through a tree: from a widget down to its children,
//! unless a widget keeps it.

use crate::event::Event;
use crate::renderer::{
    AbsoluteWidgetCollection, Message, RenderInstruction, RenderInstructionCollection,
};
use crate::tree::{
    alike, height, kids, lemma_same_shape_keeps_wf, marked, node, resolves, same_shape, Nodes,
    WidgetTree,
};
use crate::util::{Queue, Vector2D};
use crate::widget::{sent, Reaction, Widget};
use vstd::prelude::*;

verus! {

/// What an event works on: the widgets, the queue of messages, the
/// instructions on screen, the overlays, and the key of the next overlay.
pub struct Stage {
    pub nodes: Nodes,
    pub queue: Seq<Message>,
    pub pairs: Map<usize, Seq<RenderInstruction>>,
    pub overlays: Map<usize, (usize, Vector2D, Vector2D)>,
    pub next_key: usize,
}

/// The stage after the widget `tip` was to be shown as an overlay at `at`. A
/// widget that has an identity is on screen already and stays as it is. One
/// that has none is marked dirty, takes the next key as its identity, and is
/// kept as an overlay under that key, to be shown at `at` with the size that it
/// asks for; where no key is left it is marked dirty and no more. A handle
/// that leads nowhere changes nothing.
pub open spec fn shown(stage: Stage, rank: Seq<nat>, tip: usize, at: Vector2D) -> Stage {
    if !resolves(stage.nodes, tip) || node(stage.nodes, tip).fields().id != 0 {
        stage
    } else {
        let nodes = marked(stage.nodes, rank, tip);
        if stage.next_key == 0 {
            Stage { nodes: nodes, ..stage }
        } else {
            Stage {
                nodes: nodes.update(tip as int, Some(node(nodes, tip).named(stage.next_key))),
                overlays: stage.overlays.insert(
                    stage.next_key,
                    (tip, at, node(nodes, tip).fields().original_size),
                ),
                next_key: (stage.next_key - 1) as usize,
                ..stage
            }
        }
    }
}

/// The stage after the widget `tip` was taken off the screen: neither
/// instructions nor an overlay are kept under its identity, and it has no
/// identity any more. A handle that leads nowhere changes nothing.
pub open spec fn hidden(stage: Stage, tip: usize) -> Stage {
    if !resolves(stage.nodes, tip) {
        stage
    } else {
        let id = node(stage.nodes, tip).fields().id;
        Stage {
            nodes: stage.nodes.update(tip as int, Some(node(stage.nodes, tip).named(0))),
            pairs: stage.pairs.remove(id),
            overlays: stage.overlays.remove(id),
            ..stage
        }
    }
}

/// The stage after the widget `h` has reacted to the event by itself: it has
/// changed, it has sent its message, and its overlay was shown or taken away
/// if it asked for that.
pub open spec fn reacted_at(stage: Stage, rank: Seq<nat>, h: usize, event: Event, now: u64) -> Stage
    recommends
        resolves(stage.nodes, h),
{
    let outcome = node(stage.nodes, h).reacted(event, now);
    let own = Stage {
        nodes: stage.nodes.update(h as int, Some(outcome.widget)),
        queue: sent(stage.queue, outcome.message),
        ..stage
    };
    match (outcome.reaction, outcome.widget.tip()) {
        (Reaction::Show, Some(tip)) => shown(own, rank, tip.0, tip.1),
        (Reaction::Hide, Some(tip)) => hidden(own, tip.0),
        _ => own,
    }
}

/// The stage after the event `event`, which arrives at the time `now`, was
/// handed to the widget `h`: the widget has reacted, and unless it kept the
/// event, each of its children was handed the event in turn. A handle that
/// leads nowhere changes nothing.
pub open spec fn dispatched(stage: Stage, rank: Seq<nat>, h: usize, event: Event, now: u64) -> Stage
    decreases height(rank, h), 1nat, 0nat,
{
    if !resolves(stage.nodes, h) {
        stage
    } else if node(stage.nodes, h).reacted(event, now).reaction == Reaction::Stop {
        reacted_at(stage, rank, h, event, now)
    } else {
        dispatched_from(
            reacted_at(stage, rank, h, event, now),
            rank,
            height(rank, h),
            kids(stage.nodes, h),
            0,
            event,
            now,
        )
    }
}

/// The stage after the children `children`, from the `k`-th on, of a widget
/// with the number `above` were handed the event in turn. A child that does
/// not resolve is passed over, and so is one whose number is not below
/// `above`; a ranked arena has no such child.
pub open spec fn dispatched_from(
    stage: Stage,
    rank: Seq<nat>,
    above: nat,
    children: Seq<usize>,
    k: int,
    event: Event,
    now: u64,
) -> Stage
    decreases above, 0nat, children.len() - k,
{
    if k < 0 || k >= children.len() {
        stage
    } else if height(rank, children[k]) >= above {
        dispatched_from(stage, rank, above, children, k + 1, event, now)
    } else {
        dispatched_from(
            dispatched(stage, rank, children[k], event, now),
            rank,
            above,
            children,
            k + 1,
            event,
            now,
        )
    }
}

/// Whatever the event, a widget keeps its children and its layout.
pub proof fn lemma_reaction_keeps_shape(widget: Widget, event: Event, now: u64)
    ensures
        alike(widget, widget.reacted(event, now).widget),
{
}

impl WidgetTree {
    /// Shows the widget `tip` as an overlay at `at`, unless it is on screen
    /// already.
    fn present(&mut self, tip: usize, at: Vector2D, absolute: &mut AbsoluteWidgetCollection)
        requires
            old(self).wf(),
        ensures
            final(self).wf(),
            final(self).rank@ == old(self).rank@,
            same_shape(old(self)@, final(self)@),
            forall|queue: Seq<Message>, pairs: Map<usize, Seq<RenderInstruction>>|
                (Stage {
                    nodes: final(self)@,
                    queue: queue,
                    pairs: pairs,
                    overlays: final(absolute)@,
                    next_key: final(absolute).next_key(),
                }) == #[trigger] shown(
                    Stage {
                        nodes: old(self)@,
                        queue: queue,
                        pairs: pairs,
                        overlays: old(absolute)@,
                        next_key: old(absolute).next_key(),
                    },
                    old(self).rank@,
                    tip,
                    at,
                ),
    {
        let fresh = match self.get(tip) {
            Some(w) => w.id() == 0,
            None => false,
        };
        if fresh {
            self.set_dirty(tip, true);
            let ghost marked = self@;
            let size = match self.get(tip) {
                Some(w) => w.original_size(),
                None => Vector2D::new(0, 0),
            };
            absolute.insert(self, tip, at, size);
            proof {
                assert(same_shape(old(self)@, self@)) by {
                    assert(same_shape(old(self)@, marked));
                    assert(same_shape(marked, self@));
                }
            }
        }
    }

    /// Takes the widget `tip` off the screen.
    fn withdraw(
        &mut self,
        tip: usize,
        instruction_collection: &mut RenderInstructionCollection,
        absolute: &mut AbsoluteWidgetCollection,
    )
        requires
            old(self).wf(),
        ensures
            final(self).wf(),
            final(self).rank@ == old(self).rank@,
            same_shape(old(self)@, final(self)@),
            forall|queue: Seq<Message>|
                (Stage {
                    nodes: final(self)@,
                    queue: queue,
                    pairs: final(instruction_collection)@,
                    overlays: final(absolute)@,
                    next_key: final(absolute).next_key(),
                }) == #[trigger] hidden(
                    Stage {
                        nodes: old(self)@,
                        queue: queue,
                        pairs: old(instruction_collection)@,
                        overlays: old(absolute)@,
                        next_key: old(absolute).next_key(),
                    },
                    tip,
                ),
    {
        let id = match self.get(tip) {
            Some(w) => w.id(),
            None => { return ; },
        };
        instruction_collection.remove(id);
        absolute.remove(id);
        self.set_id(tip, 0);
    }

    /// Releases the widget `h` for good and hands it out: its instructions
    /// leave the screen, it is no overlay any more, and its handle leads
    /// nowhere from now on. A handle that leads nowhere already changes
    /// nothing.
    pub fn release(
        &mut self,
        h: usize,
        instruction_collection: &mut RenderInstructionCollection,
        absolute: &mut AbsoluteWidgetCollection,
    ) -> (widget: Option<Widget>)
        requires
            old(self).wf(),
        ensures
            final(self).wf(),
            final(self).rank@ == old(self).rank@,
            final(absolute).next_key() == old(absolute).next_key(),
            resolves(old(self)@, h) ==> {
                &&& widget == Some(node(old(self)@, h))
                &&& final(self)@ == old(self)@.update(h as int, None)
                &&& final(instruction_collection)@ == old(instruction_collection)@.remove(
                    node(old(self)@, h).fields().id,
                )
                &&& final(absolute)@ == old(absolute)@.remove(node(old(self)@, h).fields().id)
            },
            !resolves(old(self)@, h) ==> {
                &&& widget.is_none()
                &&& final(self)@ == old(self)@
                &&& final(instruction_collection)@ == old(instruction_collection)@
                &&& final(absolute)@ == old(absolute)@
            },
    {
        let id = match self.get(h) {
            Some(w) => w.id(),
            None => { return None; },
        };
        instruction_collection.remove(id);
        absolute.remove(id);
        self.remove(h)
    }

    /// Hands the event `event`, which arrives at the time `now`, to the widget
    /// `h`. The widget reacts: it may change, queue a message in `messages`,
    /// and have its overlay shown or taken away. Unless it keeps the event,
    /// each of its children is handed the event in turn.
    pub fn on_event(
        &mut self,
        h: usize,
        event: Event,
        now: u64,
        messages: &mut Queue<Message>,
        instruction_collection: &mut RenderInstructionCollection,
        absolute: &mut AbsoluteWidgetCollection,
    )
        requires
            old(self).wf(),
        ensures
            final(self).wf(),
            final(self).rank@ == old(self).rank@,
            same_shape(old(self)@, final(self)@),
            (Stage {
                nodes: final(self)@,
                queue: final(messages)@,
                pairs: final(instruction_collection)@,
                overlays: final(absolute)@,
                next_key: final(absolute).next_key(),
            }) == dispatched(
                Stage {
                    nodes: old(self)@,
                    queue: old(messages)@,
                    pairs: old(instruction_collection)@,
                    overlays: old(absolute)@,
                    next_key: old(absolute).next_key(),
                },
                old(self).rank@,
                h,
                event,
                now,
            ),
        decreases height(old(self).rank@, h),
    {
        if h >= self.nodes.len() || self.nodes[h].is_none() {
            return ;
        }
        let ghost rank = self.rank@;
        let ghost start = Stage {
            nodes: old(self)@,
            queue: old(messages)@,
            pairs: old(instruction_collection)@,
            overlays: old(absolute)@,
            next_key: old(absolute).next_key(),
        };
        let ghost children = kids(self@, h);
        let widget = self.widget_mut(h);
        let reaction = widget.on_event(event, now, messages);
        let tip = widget.overlay();
        let count = widget.fields_ref().children.len();
        proof {
            lemma_reaction_keeps_shape(node(old(self)@, h), event, now);
            assert(same_shape(old(self)@, self@));
            lemma_same_shape_keeps_wf(old(self)@, self@, rank);
        }
        let ghost own = self@;
        match (reaction, tip) {
            (Reaction::Show, Some(tip)) => {
                self.present(tip.0, tip.1, absolute);
            },
            (Reaction::Hide, Some(tip)) => {
                self.withdraw(tip.0, instruction_collection, absolute);
            },
            _ => {},
        }
        proof {
            assert(same_shape(old(self)@, self@)) by {
                assert(same_shape(own, self@));
            }
        }
        assert((Stage {
            nodes: self@,
            queue: messages@,
            pairs: instruction_collection@,
            overlays: absolute@,
            next_key: absolute.next_key(),
        }) == reacted_at(start, rank, h, event, now));
        if let Reaction::Stop = reaction {
            return ;
        }
        let mut k: usize = 0;
        while k < count
            invariant
                self.wf(),
                self.rank@ == rank,
                rank == old(self).rank@,
                same_shape(old(self)@, self@),
                resolves(old(self)@, h),
                children == kids(old(self)@, h),
                count == children.len(),
                0 <= k <= count,
                dispatched_from(
                    Stage {
                        nodes: self@,
                        queue: messages@,
                        pairs: instruction_collection@,
                        overlays: absolute@,
                        next_key: absolute.next_key(),
                    },
                    rank,
                    height(rank, h),
                    children,
                    k as int,
                    event,
                    now,
                ) == dispatched(start, rank, h, event, now),
            decreases count - k,
        {
            let c = self.child(h, k);
            assert(c == kids(self@, h)[k as int]);
            assert(height(rank, c) < height(rank, h));
            let ghost before = self@;
            self.on_event(c, event, now, messages, instruction_collection, absolute);
            proof {
                assert(same_shape(old(self)@, self@)) by {
                    assert(same_shape(before, self@));
                }
            }
            k = k + 1;
        }
    }
}

} // verus!
