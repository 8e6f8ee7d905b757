use oscquery::dispatch::WriteEvent;
use oscquery::graph::{Graph, NodeHandle};
use oscquery::node::{Kind, Node};
use oscquery::osc::{flatten, Arg, Bundle, Message, Packet};
use oscquery::param::{ParamGet, ParamGetSet, ParamSet};
use oscquery::value::{ClipMode, ValueBuilder};

fn message(addr: &str, args: Vec<Arg>) -> Packet {
    Packet::Message(Message {
        addr: addr.to_string(),
        args,
    })
}

fn stored(graph: &Graph, h: NodeHandle) -> Vec<Arg> {
    graph.get(h).unwrap().args().unwrap()
}

fn nodes(events: &[WriteEvent]) -> Vec<NodeHandle> {
    events.iter().map(|e| e.node).collect()
}

struct Fixture {
    graph: Graph,
    bar: NodeHandle,
    ro: NodeHandle,
    wo: NodeHandle,
    foo: NodeHandle,
}

fn fixture() -> Fixture {
    let mut graph = Graph::new(None);
    let foo = graph
        .add_node(Node::container("foo".to_string(), None).unwrap(), None)
        .unwrap();
    let bar = graph
        .add_node(
            Node::get_set(
                "bar".to_string(),
                None,
                vec![
                    ParamGetSet::Int(
                        ValueBuilder::new(2084)
                            .with_range(0, 10)
                            .with_clip_mode(ClipMode::Both)
                            .build(),
                    ),
                    ParamGetSet::String(ValueBuilder::new("init".to_string()).build()),
                ],
            )
            .unwrap(),
            Some(foo),
        )
        .unwrap();
    let ro = graph
        .add_node(
            Node::get(
                "ro".to_string(),
                None,
                vec![ParamGet::Int(ValueBuilder::new(1).build())],
            )
            .unwrap(),
            Some(foo),
        )
        .unwrap();
    let wo = graph
        .add_node(
            Node::set(
                "wo".to_string(),
                None,
                vec![ParamSet::Long(ValueBuilder::new(0).build())],
            )
            .unwrap(),
            None,
        )
        .unwrap();
    Fixture {
        graph,
        bar,
        ro,
        wo,
        foo,
    }
}

#[test]
fn a_message_writes_to_its_leaf() {
    let mut f = fixture();
    let packet = message("/foo/bar", vec![Arg::Int(7), Arg::String("s".to_string())]);
    let events = f.graph.handle_osc_packet(&packet, None);
    assert_eq!(nodes(&events), vec![f.bar]);
    assert_eq!(events[0].time, None);
    assert_eq!(events[0].message.addr, "/foo/bar");
    assert_eq!(
        events[0].message.args,
        vec![Arg::Int(7), Arg::String("s".to_string())]
    );
    assert_eq!(
        stored(&f.graph, f.bar),
        vec![Arg::Int(7), Arg::String("s".to_string())]
    );
}

#[test]
fn a_write_is_clipped() {
    let mut f = fixture();
    f.graph
        .handle_osc_packet(&message("/foo/bar", vec![Arg::Int(15)]), None);
    assert_eq!(
        stored(&f.graph, f.bar),
        vec![Arg::Int(10), Arg::String("init".to_string())]
    );
    f.graph
        .handle_osc_packet(&message("/foo/bar", vec![Arg::Int(-15)]), None);
    assert_eq!(
        stored(&f.graph, f.bar),
        vec![Arg::Int(0), Arg::String("init".to_string())]
    );
}

#[test]
fn a_read_only_leaf_is_left_alone() {
    let mut f = fixture();
    let packet = message("/foo/ro", vec![Arg::Int(99)]);
    let events = f.graph.handle_osc_packet(&packet, None);
    assert!(events.is_empty());
    assert_eq!(stored(&f.graph, f.ro), vec![Arg::Int(1)]);
    assert_eq!(
        f.graph.trigger_path("/foo/ro").unwrap().args,
        vec![Arg::Int(1)]
    );
}

#[test]
fn an_address_that_leads_nowhere_is_dropped() {
    let mut f = fixture();
    for addr in ["/nothing", "/foo", "/", "/foo/bar/baz", "foo/bar", ""] {
        let packet = message(addr, vec![Arg::Int(3)]);
        let events = f.graph.handle_osc_packet(&packet, None);
        assert!(events.is_empty(), "{:?}", addr);
    }
    assert_eq!(
        stored(&f.graph, f.bar),
        vec![Arg::Int(2084), Arg::String("init".to_string())]
    );
    assert!(f.graph.contains(f.foo));
}

#[test]
fn an_argument_of_another_type_is_dropped() {
    let mut f = fixture();
    let packet = message("/foo/bar", vec![Arg::Long(7), Arg::String("kept".to_string())]);
    let events = f.graph.handle_osc_packet(&packet, None);
    assert_eq!(nodes(&events), vec![f.bar]);
    assert_eq!(
        stored(&f.graph, f.bar),
        vec![Arg::Int(2084), Arg::String("kept".to_string())]
    );
}

#[test]
fn arguments_beyond_the_parameters_are_dropped() {
    let mut f = fixture();
    let packet = message(
        "/foo/bar",
        vec![
            Arg::Int(1),
            Arg::String("two".to_string()),
            Arg::Int(3),
            Arg::Nil,
        ],
    );
    f.graph.handle_osc_packet(&packet, None);
    assert_eq!(
        stored(&f.graph, f.bar),
        vec![Arg::Int(1), Arg::String("two".to_string())]
    );
    f.graph.handle_osc_packet(&message("/foo/bar", vec![]), None);
    assert_eq!(
        stored(&f.graph, f.bar),
        vec![Arg::Int(1), Arg::String("two".to_string())]
    );
}

#[test]
fn a_write_only_leaf_takes_writes_and_reports_nothing() {
    let mut f = fixture();
    let packet = message("/wo", vec![Arg::Long(5)]);
    let events = f.graph.handle_osc_packet(&packet, Some((1, 2)));
    assert_eq!(nodes(&events), vec![f.wo]);
    assert_eq!(events[0].time, Some((1, 2)));
    assert!(f.graph.trigger_path("/wo").is_none());
    match f.graph.get(f.wo).unwrap().kind() {
        Kind::SetOnly(params) => assert_eq!(params.len(), 1),
        _ => panic!("the node changed its kind"),
    }
}

#[test]
fn a_bundle_is_flattened_in_order() {
    let mut f = fixture();
    let packet = Packet::Bundle(Bundle {
        timetag: (10, 0),
        content: vec![
            message("/foo/bar", vec![Arg::Int(1)]),
            Packet::Bundle(Bundle {
                timetag: (20, 5),
                content: vec![
                    message("/wo", vec![Arg::Long(2)]),
                    message("/nowhere", vec![]),
                    message("/foo/bar", vec![Arg::Int(3)]),
                ],
            }),
            message("/foo/ro", vec![Arg::Int(4)]),
            message("/foo/bar", vec![Arg::Int(5)]),
            Packet::Bundle(Bundle {
                timetag: (30, 0),
                content: vec![],
            }),
        ],
    });
    let flat = flatten(&packet, Some((1, 1)));
    let addrs: Vec<&str> = flat.iter().map(|t| t.message.addr.as_str()).collect();
    assert_eq!(
        addrs,
        vec!["/foo/bar", "/wo", "/nowhere", "/foo/bar", "/foo/ro", "/foo/bar"]
    );
    let times: Vec<Option<(u32, u32)>> = flat.iter().map(|t| t.time).collect();
    assert_eq!(
        times,
        vec![
            Some((10, 0)),
            Some((20, 5)),
            Some((20, 5)),
            Some((20, 5)),
            Some((10, 0)),
            Some((10, 0))
        ]
    );
    let events = f.graph.handle_osc_packet(&packet, Some((1, 1)));
    assert_eq!(nodes(&events), vec![f.bar, f.wo, f.bar, f.bar]);
    let event_times: Vec<Option<(u32, u32)>> = events.iter().map(|e| e.time).collect();
    assert_eq!(
        event_times,
        vec![Some((10, 0)), Some((20, 5)), Some((20, 5)), Some((10, 0))]
    );
    assert_eq!(
        stored(&f.graph, f.bar),
        vec![Arg::Int(5), Arg::String("init".to_string())]
    );
}

#[test]
fn a_message_outside_a_bundle_keeps_the_given_time() {
    let packet = message("/a", vec![]);
    assert_eq!(flatten(&packet, None)[0].time, None);
    assert_eq!(flatten(&packet, Some((7, 9)))[0].time, Some((7, 9)));
    let empty = Packet::Bundle(Bundle {
        timetag: (1, 1),
        content: vec![],
    });
    assert!(flatten(&empty, None).is_empty());
}

#[test]
fn a_trigger_reports_what_is_stored() {
    let mut f = fixture();
    assert_eq!(
        f.graph.trigger_path("/foo/bar"),
        Some(Message {
            addr: "/foo/bar".to_string(),
            args: vec![Arg::Int(2084), Arg::String("init".to_string())],
        })
    );
    f.graph
        .handle_osc_packet(&message("/foo/bar", vec![Arg::Int(4)]), None);
    assert_eq!(
        f.graph.trigger_path("/foo/bar").unwrap().args,
        vec![Arg::Int(4), Arg::String("init".to_string())]
    );
    assert_eq!(f.graph.trigger_path("/foo"), None);
    assert_eq!(f.graph.trigger_path("/"), None);
    assert_eq!(f.graph.trigger_path("/foo/nothing"), None);
    assert_eq!(f.graph.trigger_path("foo/bar"), None);
}

#[test]
fn a_write_to_a_handle() {
    let mut f = fixture();
    assert!(f.graph.write(f.bar, &vec![Arg::Int(3)]));
    assert!(!f.graph.write(f.ro, &vec![Arg::Int(3)]));
    assert!(!f.graph.write(f.foo, &vec![Arg::Int(3)]));
    f.graph.rm_node(f.bar).unwrap();
    assert!(!f.graph.write(f.bar, &vec![Arg::Int(3)]));
    assert_eq!(stored(&f.graph, f.ro), vec![Arg::Int(1)]);
}

#[test]
fn a_removed_leaf_takes_no_more_writes() {
    let mut f = fixture();
    f.graph.rm_node(f.foo).unwrap();
    let packet = message("/foo/bar", vec![Arg::Int(1)]);
    let events = f.graph.handle_osc_packet(&packet, None);
    assert!(events.is_empty());
    assert_eq!(f.graph.trigger_path("/foo/bar"), None);
}
