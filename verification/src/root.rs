//! The root: the tree, the listeners and the destinations as one state,
//! and each operation on it with the notifications that it owes.
//!
//! Nothing here sends. An operation returns what is to be sent and to
//! whom, for its caller to send once the root is free again.

use vstd::prelude::*;
use crate::broadcast::{announce, report, report_writes, reportable, reports_write, Delivery, Notice};
use crate::destination::{Destinations, Peer};
use crate::dispatch::WriteEvent;
use crate::graph::{Graph, GraphError, NodeHandle};
use crate::node::Node;
use crate::osc::{flattened, Packet, TimeTag};
use crate::subscription::{ConnId, Subscriptions, SubscriptionsView};
use crate::websocket::ServerClientCmd;

verus! {

/// The single shared state of a server.
#[derive(Debug)]
pub struct Root {
    graph: Graph,
    subscriptions: Subscriptions,
    destinations: Destinations,
}

/// What a dispatch leaves to be done: the handlers to call, and the
/// reports to send.
#[derive(Debug)]
pub struct Dispatched<'a> {
    /// One write for each message that reached a leaf that takes writes.
    pub events: Vec<WriteEvent<'a>>,
    /// One report for each write to a leaf that can also be read.
    pub deliveries: Vec<Delivery>,
}

impl Root {
    /// The tree.
    pub closed spec fn graph(self) -> Graph {
        self.graph
    }

    /// Who listens at what.
    pub closed spec fn listeners(self) -> SubscriptionsView {
        self.subscriptions@
    }

    /// The peers of the OSC transport.
    pub closed spec fn peers(self) -> Set<Peer> {
        self.destinations@
    }

    /// The root is well formed when its tree is.
    pub open spec fn wf(self) -> bool {
        self.graph().wf()
    }

    /// `n` tells of `command` at `path` those who listen there.
    pub open spec fn tells(self, n: Notice, command: ServerClientCmd, path: Seq<char>) -> bool {
        &&& n.packet.command == command
        &&& n.packet.data@ == path
        &&& n.to@.no_duplicates()
        &&& forall|c: ConnId| n.to@.contains(c) <==> self.listeners().hears(c, path)
    }

    /// A root whose tree holds its root only, with no listeners and no
    /// destinations.
    pub fn new(description: Option<String>) -> (r: Root)
        ensures
            r.wf(),
            forall|h: NodeHandle| r.graph().live(h) <==> h == Graph::top(),
            r.listeners().pairs == Set::<(ConnId, Seq<char>)>::empty(),
            r.listeners().all == Set::<ConnId>::empty(),
            r.peers() == Set::<Peer>::empty(),
    {
        Root {
            graph: Graph::new(description),
            subscriptions: Subscriptions::new(),
            destinations: Destinations::new(),
        }
    }

    /// The tree, to read.
    pub fn tree(&self) -> (g: &Graph)
        ensures
            *g == self.graph(),
    {
        &self.graph
    }

    /// The listeners, to read.
    pub fn subscriptions(&self) -> (s: &Subscriptions)
        ensures
            s@ == self.listeners(),
    {
        &self.subscriptions
    }

    /// Puts `node` into the tree, as `Graph::add_node` does, and returns
    /// its handle with the notice `PATH_ADDED` of its path for those who
    /// listen there. Where the tree refuses, nothing changes.
    pub fn add_node(&mut self, node: Node, parent: Option<NodeHandle>) -> (r: Result<
        (NodeHandle, Notice),
        GraphError,
    >)
        requires
            old(self).wf(),
            node.wf(),
        ensures
            final(self).wf(),
            final(self).listeners() == old(self).listeners(),
            final(self).peers() == old(self).peers(),
            r is Err <==> old(self).graph().refusal(Graph::target(parent), node@.name) is Some,
            r matches Err(e) ==> *final(self) == *old(self) && old(self).graph().refusal(
                Graph::target(parent),
                node@.name,
            ) == Some(e),
            r matches Ok(added) ==> {
                &&& old(self).graph().after_insertion(
                    node@,
                    Graph::target(parent),
                    added.0,
                    final(self).graph(),
                )
                &&& final(self).tells(
                    added.1,
                    ServerClientCmd::PathAdded,
                    final(self).graph().path(added.0),
                )
            },
    {
        let h = match self.graph.add_node(node, parent) {
            Ok(h) => h,
            Err(e) => {
                return Err(e);
            },
        };
        match self.graph.path_of(h) {
            Some(path) => Ok((h, announce(&self.subscriptions, ServerClientCmd::PathAdded, path))),
            // Never taken: the node is in the tree, so it has a path.
            None => Err(GraphError::InvalidHandle),
        }
    }

    /// Takes the node of `handle` out of the tree, with all that lies
    /// under it, as `Graph::rm_node` does, and returns the notice
    /// `PATH_REMOVED` of the path it had for those who listen there. Where
    /// the tree refuses, nothing changes.
    pub fn rm_node(&mut self, handle: NodeHandle) -> (r: Result<Notice, GraphError>)
        requires
            old(self).wf(),
        ensures
            final(self).wf(),
            final(self).listeners() == old(self).listeners(),
            final(self).peers() == old(self).peers(),
            r is Ok <==> old(self).graph().live(handle) && handle != Graph::top(),
            r matches Err(e) ==> e == GraphError::InvalidHandle && *final(self) == *old(self),
            r matches Ok(n) ==> {
                &&& old(self).graph().after_removal(handle, final(self).graph())
                &&& final(self).graph().stale(handle)
                &&& final(self).tells(
                    n,
                    ServerClientCmd::PathRemoved,
                    old(self).graph().path(handle),
                )
            },
    {
        let path = match self.graph.path_of(handle) {
            Some(path) => path,
            None => {
                return Err(GraphError::InvalidHandle);
            },
        };
        match self.graph.rm_node(handle) {
            Ok(()) => Ok(announce(&self.subscriptions, ServerClientCmd::PathRemoved, path)),
            Err(e) => Err(e),
        }
    }

    /// Dispatches a packet against the tree, as `Graph::handle_osc_packet`
    /// does, and returns the writes, for the handlers of their leaves,
    /// with the reports of what the written leaves store afterwards, for
    /// those who listen at their paths.
    pub fn handle_osc_packet<'a>(&mut self, packet: &'a Packet, time: Option<TimeTag>) -> (r:
        Dispatched<'a>)
        requires
            old(self).wf(),
        ensures
            final(self).wf(),
            final(self).listeners() == old(self).listeners(),
            final(self).peers() == old(self).peers(),
            old(self).graph().after_dispatch(flattened(packet, time), final(self).graph()),
            r.events@ == old(self).graph().events_of(flattened(packet, time)),
            r.deliveries@.len() == reportable(final(self).graph(), r.events@).len(),
            forall|i: int|
                0 <= i < r.deliveries@.len() ==> reports_write(
                    final(self).graph(),
                    final(self).listeners(),
                    reportable(final(self).graph(), r.events@)[i],
                    #[trigger] r.deliveries@[i],
                ),
    {
        let events = self.graph.handle_osc_packet(packet, time);
        let deliveries = report_writes(&self.graph, &self.subscriptions, &events);
        Dispatched { events, deliveries }
    }

    /// The report of what the leaf at `path` stores now, for those who
    /// listen at `path`. There is none where the path leads to no leaf
    /// that can be read.
    pub fn trigger_path(&self, path: &String) -> (r: Option<Delivery>)
        requires
            self.wf(),
        ensures
            r is Some <==> (self.graph().resolved(path@) matches Some(h) && self.graph().node(
                h,
            ).kind.readable()),
            r matches Some(d) ==> {
                &&& d.message.addr@ == path@
                &&& d.message.args@ == self.graph().node(
                    self.graph().resolved(path@)->Some_0,
                ).kind.args()
                &&& d.to@.no_duplicates()
                &&& forall|c: ConnId| d.to@.contains(c) <==> self.listeners().hears(c, path@)
            },
    {
        report(&self.graph, &self.subscriptions, path)
    }

    /// The connection `conn` listens at `path` from now on.
    pub fn listen(&mut self, conn: ConnId, path: String)
        ensures
            final(self).listeners().pairs == old(self).listeners().pairs.insert((conn, path@)),
            final(self).listeners().all == old(self).listeners().all,
            final(self).graph() == old(self).graph(),
            final(self).peers() == old(self).peers(),
    {
        self.subscriptions.listen(conn, path);
    }

    /// The connection `conn` listens at every path from now on.
    pub fn listen_all(&mut self, conn: ConnId)
        ensures
            final(self).listeners().all == old(self).listeners().all.insert(conn),
            final(self).listeners().pairs == old(self).listeners().pairs,
            final(self).graph() == old(self).graph(),
            final(self).peers() == old(self).peers(),
    {
        self.subscriptions.listen_all(conn);
    }

    /// The connection `conn` no longer listens at `path`.
    pub fn ignore(&mut self, conn: ConnId, path: &String)
        ensures
            final(self).listeners().pairs == old(self).listeners().pairs.remove((conn, path@)),
            final(self).listeners().all == old(self).listeners().all,
            final(self).graph() == old(self).graph(),
            final(self).peers() == old(self).peers(),
    {
        self.subscriptions.ignore(conn, path);
    }

    /// The connection `conn` is gone: it listens at nothing any more.
    pub fn close(&mut self, conn: ConnId)
        ensures
            final(self).listeners().pairs == old(self).listeners().pairs.filter(
                |t: (ConnId, Seq<char>)| t.0 != conn,
            ),
            final(self).listeners().all == old(self).listeners().all.remove(conn),
            final(self).graph() == old(self).graph(),
            final(self).peers() == old(self).peers(),
    {
        self.subscriptions.close(conn);
    }

    /// Makes `peer` a destination of the OSC transport. Returns whether it
    /// was none before.
    pub fn add_destination(&mut self, peer: Peer) -> (added: bool)
        ensures
            final(self).peers() == old(self).peers().insert(peer),
            added == !old(self).peers().contains(peer),
            final(self).graph() == old(self).graph(),
            final(self).listeners() == old(self).listeners(),
    {
        self.destinations.add(peer)
    }

    /// Takes `peer` from the destinations of the OSC transport. Returns
    /// whether it was one.
    pub fn remove_destination(&mut self, peer: Peer) -> (removed: bool)
        ensures
            final(self).peers() == old(self).peers().remove(peer),
            removed == old(self).peers().contains(peer),
            final(self).graph() == old(self).graph(),
            final(self).listeners() == old(self).listeners(),
    {
        self.destinations.remove(peer)
    }

    /// The destinations of the OSC transport, each once.
    pub fn destinations(&self) -> (r: Vec<Peer>)
        ensures
            r@.no_duplicates(),
            forall|p: Peer| r@.contains(p) <==> self.peers().contains(p),
    {
        self.destinations.list()
    }
}

} // verus!
