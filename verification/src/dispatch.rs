//! OSC traffic against the tree: packets that write to leaves, and the
//! message that reports what a leaf stores.

use vstd::prelude::*;
use crate::graph::{Graph, NodeHandle};
use crate::node::NodeView;
use crate::osc::{flatten, flattened, Message, Packet, TimeTag, Timed};

verus! {

/// A message has reached a leaf that takes writes. The leaf's handler is
/// owed a call with the message's arguments and this time tag.
#[derive(Clone, Copy, Debug)]
pub struct WriteEvent<'a> {
    pub node: NodeHandle,
    pub message: &'a Message,
    pub time: Option<TimeTag>,
}

impl Graph {
    /// The leaf that a message writes to: the node that its address leads
    /// to, if that is a leaf that takes writes.
    pub open spec fn addressee(self, message: &Message) -> Option<NodeHandle> {
        match self.resolved(message.addr@) {
            Some(h) => if self.node(h).kind.writable() {
                Some(h)
            } else {
                None
            },
            None => None,
        }
    }

    /// The node of `h` after the messages were dispatched in turn: each
    /// message whose address leads to the node has sent it its arguments.
    pub open spec fn node_after(self, h: NodeHandle, messages: Seq<Timed>) -> NodeView
        decreases messages.len(),
    {
        if messages.len() == 0 {
            self.node(h)
        } else {
            let prior = self.node_after(h, messages.drop_last());
            if self.resolved(messages.last().message.addr@) == Some(h) {
                prior.received(messages.last().message.args@)
            } else {
                prior
            }
        }
    }

    /// The writes that dispatching the messages in turn gives rise to: one
    /// for each message that has an addressee, in the order of the
    /// messages.
    pub open spec fn events_of<'a>(self, messages: Seq<Timed<'a>>) -> Seq<WriteEvent<'a>>
        decreases messages.len(),
    {
        if messages.len() == 0 {
            Seq::<WriteEvent<'a>>::empty()
        } else {
            let prior = self.events_of(messages.drop_last());
            let last = messages.last();
            match self.addressee(last.message) {
                Some(h) => prior.push(WriteEvent { node: h, message: last.message, time: last.time }),
                None => prior,
            }
        }
    }

    /// `post` is this tree after the messages were dispatched: it has the
    /// same shape, and each node is what the messages made of it.
    pub open spec fn after_dispatch(self, messages: Seq<Timed>, post: Graph) -> bool {
        &&& self.same_shape(post)
        &&& forall|k: NodeHandle|
            self.live(k) ==> #[trigger] post.node(k) == self.node_after(k, messages)
    }

    /// Dispatching changes nothing of a node but what its parameters
    /// store.
    pub proof fn lemma_node_after(self, h: NodeHandle, messages: Seq<Timed>)
        ensures
            self.node(h).same_but_values(self.node_after(h, messages)),
            self.node(h).kind.writable() == self.node_after(h, messages).kind.writable(),
            !self.node(h).kind.writable() ==> self.node_after(h, messages) == self.node(h),
        decreases messages.len(),
    {
        if messages.len() > 0 {
            self.lemma_node_after(h, messages.drop_last());
            self.node_after(h, messages.drop_last()).lemma_received(messages.last().message.args@);
        }
    }

    /// Dispatches a packet against the tree.
    ///
    /// The messages of the packet are taken in order, those of a bundle
    /// under the bundle's time tag and the others under `time`. A message
    /// whose address leads to a leaf that takes writes sends its arguments
    /// to that leaf, and is returned as a write, for the leaf's handler. A
    /// message whose address leads nowhere, to a container or to a leaf
    /// that can only be read changes nothing and is dropped.
    pub fn handle_osc_packet<'a>(&mut self, packet: &'a Packet, time: Option<TimeTag>) -> (events:
        Vec<WriteEvent<'a>>)
        requires
            old(self).wf(),
        ensures
            final(self).wf(),
            old(self).after_dispatch(flattened(packet, time), *final(self)),
            events@ == old(self).events_of(flattened(packet, time)),
    {
        let messages = flatten(packet, time);
        let mut events: Vec<WriteEvent<'a>> = Vec::new();
        let mut i: usize = 0;
        proof {
            assert forall|k: NodeHandle| old(self).live(k) implies old(self).node(
                k,
            ).same_but_values(old(self).node(k)) by {}
        }
        while i < messages.len()
            invariant
                i <= messages@.len(),
                old(self).wf(),
                self.wf(),
                old(self).after_dispatch(messages@.take(i as int), *self),
                events@ == old(self).events_of(messages@.take(i as int)),
            decreases messages@.len() - i,
        {
            let current = messages[i];
            let ghost start = *self;
            let ghost done = messages@.take(i as int);
            let ghost next = messages@.take(i + 1);
            proof {
                assert(next.drop_last() =~= done);
                old(self).lemma_same_shape_resolved(start, current.message.addr@);
                if old(self).resolved(current.message.addr@) is Some {
                    old(self).lemma_resolved_path(current.message.addr@);
                }
            }
            match self.resolve(current.message.addr.as_str()) {
                Some(h) => {
                    proof {
                        old(self).lemma_node_after(h, done);
                    }
                    if self.write(h, &current.message.args) {
                        events.push(
                            WriteEvent { node: h, message: current.message, time: current.time },
                        );
                    }
                    proof {
                        assert forall|k: NodeHandle| old(self).live(k) implies #[trigger] self.node(
                            k,
                        ) == old(self).node_after(k, next) by {
                            if k == h && !start.node(h).kind.writable() {
                                start.node(h).lemma_received(current.message.args@);
                            }
                        }
                        old(self).lemma_same_shape_chain(start, *self);
                    }
                },
                None => {
                    proof {
                        assert forall|k: NodeHandle| old(self).live(k) implies #[trigger] self.node(
                            k,
                        ) == old(self).node_after(k, next) by {}
                    }
                },
            }
            i += 1;
        }
        proof {
            assert(messages@.take(i as int) =~= messages@);
        }
        events
    }

    /// The message that reports what the leaf at `path` stores now: its
    /// address is the path, its arguments are the leaf's values in order.
    /// There is none where the path leads nowhere, to a container, or to a
    /// leaf that can only be written.
    pub fn trigger_path(&self, path: &str) -> (r: Option<Message>)
        requires
            self.wf(),
        ensures
            r is Some <==> (self.resolved(path@) matches Some(h) && self.node(h).kind.readable()),
            r matches Some(m) ==> m.addr@ == path@ && m.args@ == self.node(
                self.resolved(path@)->Some_0,
            ).kind.args(),
    {
        let h = match self.resolve(path) {
            Some(h) => h,
            None => {
                return None;
            },
        };
        proof {
            self.lemma_resolved_path(path@);
        }
        let node = match self.get(h) {
            Some(node) => node,
            None => {
                return None;
            },
        };
        match node.args() {
            Some(args) => Some(Message { addr: path.to_owned(), args }),
            None => None,
        }
    }
}

} // verus!
