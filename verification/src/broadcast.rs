//! Who is told of a change: the notifications that go to the connections
//! that listen at the path of the change.

use vstd::prelude::*;
use crate::dispatch::WriteEvent;
use crate::graph::Graph;
use crate::osc::Message;
use crate::subscription::{ConnId, Subscriptions, SubscriptionsView};
use crate::websocket::{ServerClientCmd, WSCommandPacket};

verus! {

/// A change of the tree's structure, to be sent as a text frame to each of
/// the connections in `to`.
#[derive(Debug)]
pub struct Notice {
    pub packet: WSCommandPacket<ServerClientCmd>,
    pub to: Vec<ConnId>,
}

/// The values of a leaf, to be sent as a binary frame to each of the
/// connections in `to`.
#[derive(Debug)]
pub struct Delivery {
    pub message: Message,
    pub to: Vec<ConnId>,
}

/// The notice of a change of the tree's structure at `path`: it goes to
/// the connections that listen at `path` or at every path, to each once.
pub fn announce(subscriptions: &Subscriptions, command: ServerClientCmd, path: String) -> (n:
    Notice)
    ensures
        n.packet.command == command,
        n.packet.data == path,
        n.to@.no_duplicates(),
        forall|c: ConnId| n.to@.contains(c) <==> subscriptions@.hears(c, path@),
{
    let to = subscriptions.recipients(&path);
    Notice { packet: WSCommandPacket { command, data: path }, to }
}

/// The report of what the leaf at `path` stores now, for the connections
/// that listen at `path` or at every path. There is none where the path
/// leads to no leaf that can be read.
pub fn report(graph: &Graph, subscriptions: &Subscriptions, path: &String) -> (r: Option<Delivery>)
    requires
        graph.wf(),
    ensures
        r is Some <==> (graph.resolved(path@) matches Some(h) && graph.node(h).kind.readable()),
        r matches Some(d) ==> {
            &&& d.message.addr@ == path@
            &&& d.message.args@ == graph.node(graph.resolved(path@)->Some_0).kind.args()
            &&& d.to@.no_duplicates()
            &&& forall|c: ConnId| d.to@.contains(c) <==> subscriptions@.hears(c, path@)
        },
{
    match graph.trigger_path(path.as_str()) {
        Some(message) => Some(Delivery { message, to: subscriptions.recipients(path) }),
        None => None,
    }
}

/// `d` reports what the leaf that `event` wrote to stores in `graph`, to
/// those that listen at its path.
pub open spec fn reports_write(
    graph: Graph,
    listeners: SubscriptionsView,
    event: WriteEvent,
    d: Delivery,
) -> bool {
    &&& d.message.addr@ == graph.path(event.node)
    &&& d.message.args@ == graph.node(event.node).kind.args()
    &&& d.to@.no_duplicates()
    &&& forall|c: ConnId| d.to@.contains(c) <==> listeners.hears(c, graph.path(event.node))
}

/// The writes among `events` whose leaf is still in the tree and can be
/// read.
pub open spec fn reportable(graph: Graph, events: Seq<WriteEvent>) -> Seq<WriteEvent> {
    events.filter(|e: WriteEvent| graph.live(e.node) && graph.node(e.node).kind.readable())
}

/// The reports that follow a dispatch: one for each write to a leaf that
/// can also be read, in the order of the writes, each with what the leaf
/// stores now.
pub fn report_writes(graph: &Graph, subscriptions: &Subscriptions, events: &Vec<WriteEvent>) -> (r:
    Vec<Delivery>)
    requires
        graph.wf(),
    ensures
        r@.len() == reportable(*graph, events@).len(),
        forall|i: int|
            0 <= i < r@.len() ==> reports_write(
                *graph,
                subscriptions@,
                reportable(*graph, events@)[i],
                #[trigger] r@[i],
            ),
{
    let mut out: Vec<Delivery> = Vec::new();
    let mut i: usize = 0;
    let ghost keep = |e: WriteEvent| graph.live(e.node) && graph.node(e.node).kind.readable();
    while i < events.len()
        invariant
            graph.wf(),
            i <= events@.len(),
            keep == |e: WriteEvent| graph.live(e.node) && graph.node(e.node).kind.readable(),
            out@.len() == events@.take(i as int).filter(keep).len(),
            forall|k: int|
                0 <= k < out@.len() ==> reports_write(
                    *graph,
                    subscriptions@,
                    events@.take(i as int).filter(keep)[k],
                    #[trigger] out@[k],
                ),
        decreases events@.len() - i,
    {
        let event = events[i];
        let ghost done = events@.take(i as int);
        proof {
            assert(events@.take(i + 1) =~= done.push(event));
            done.lemma_filter_push(event, keep);
        }
        match graph.path_of(event.node) {
            Some(path) => {
                proof {
                    graph.lemma_path_resolves(event.node);
                }
                match report(graph, subscriptions, &path) {
                    Some(d) => {
                        out.push(d);
                    },
                    None => {},
                }
            },
            None => {},
        }
        i += 1;
    }
    assert(events@.take(i as int) =~= events@);
    out
}

} // verus!
