use oscquery::broadcast::{announce, report, report_writes};
use oscquery::destination::{Destinations, Peer};
use oscquery::graph::Graph;
use oscquery::node::Node;
use oscquery::osc::{Arg, Message, Packet};
use oscquery::param::{ParamGetSet, ParamSet};
use oscquery::path::{is_valid_name, split};
use oscquery::subscription::Subscriptions;
use oscquery::value::ValueBuilder;
use oscquery::websocket::{step, Action, ConnState, Event, Frame, ServerClientCmd};

fn sorted(mut v: Vec<u64>) -> Vec<u64> {
    v.sort();
    v
}

fn path(s: &str) -> String {
    s.to_string()
}

#[test]
fn a_listener_hears_of_its_path_only() {
    let mut graph = Graph::new(None);
    let foo = graph
        .add_node(Node::container(path("foo"), None).unwrap(), None)
        .unwrap();
    graph
        .add_node(
            Node::get_set(
                path("bar"),
                None,
                vec![ParamGetSet::Int(ValueBuilder::new(0).build())],
            )
            .unwrap(),
            Some(foo),
        )
        .unwrap();
    let mut subscriptions = Subscriptions::new();
    subscriptions.listen(1, path("/foo/bar"));
    subscriptions.listen(2, path("/other"));

    let frame = Frame::Binary(b"/foo/bar\0\0\0\0,i\0\0\0\0\0\x2a".to_vec());
    let (_, action) = step(ConnState::Open, Event::Frame(frame));
    let packet = match action {
        Action::Dispatch(packet) => packet,
        other => panic!("{:?}", other),
    };
    let events = graph.handle_osc_packet(&packet, None);
    let deliveries = report_writes(&graph, &subscriptions, &events);
    assert_eq!(deliveries.len(), 1);
    assert_eq!(
        deliveries[0].message,
        Message {
            addr: path("/foo/bar"),
            args: vec![Arg::Int(42)],
        }
    );
    assert_eq!(deliveries[0].to, vec![1]);
}

#[test]
fn writes_to_write_only_leaves_are_not_reported() {
    let mut graph = Graph::new(None);
    graph
        .add_node(
            Node::set(
                path("wo"),
                None,
                vec![ParamSet::Int(ValueBuilder::new(0).build())],
            )
            .unwrap(),
            None,
        )
        .unwrap();
    graph
        .add_node(
            Node::get_set(
                path("rw"),
                None,
                vec![ParamGetSet::Int(ValueBuilder::new(0).build())],
            )
            .unwrap(),
            None,
        )
        .unwrap();
    let mut subscriptions = Subscriptions::new();
    subscriptions.listen_all(5);
    let packet = Packet::Bundle(oscquery::osc::Bundle {
        timetag: (0, 1),
        content: vec![
            Packet::Message(Message {
                addr: path("/wo"),
                args: vec![Arg::Int(1)],
            }),
            Packet::Message(Message {
                addr: path("/rw"),
                args: vec![Arg::Int(2)],
            }),
            Packet::Message(Message {
                addr: path("/rw"),
                args: vec![Arg::Int(3)],
            }),
        ],
    });
    let events = graph.handle_osc_packet(&packet, None);
    assert_eq!(events.len(), 3);
    let deliveries = report_writes(&graph, &subscriptions, &events);
    assert_eq!(deliveries.len(), 2);
    for d in &deliveries {
        assert_eq!(d.message.addr, "/rw");
        assert_eq!(d.message.args, vec![Arg::Int(3)]);
        assert_eq!(d.to, vec![5]);
    }
}

#[test]
fn a_report_goes_to_those_who_listen() {
    let mut graph = Graph::new(None);
    graph
        .add_node(
            Node::get_set(
                path("v"),
                None,
                vec![ParamGetSet::Bool(ValueBuilder::new(true).build())],
            )
            .unwrap(),
            None,
        )
        .unwrap();
    let mut subscriptions = Subscriptions::new();
    assert!(report(&graph, &subscriptions, &path("/v")).unwrap().to.is_empty());
    subscriptions.listen(3, path("/v"));
    subscriptions.listen(4, path("/v/"));
    subscriptions.listen(5, path("/"));
    subscriptions.listen_all(6);
    subscriptions.listen_all(3);
    let d = report(&graph, &subscriptions, &path("/v")).unwrap();
    assert_eq!(d.message.args, vec![Arg::Bool(true)]);
    assert_eq!(sorted(d.to), vec![3, 6]);
    assert!(report(&graph, &subscriptions, &path("/w")).is_none());
    assert!(report(&graph, &subscriptions, &path("/")).is_none());
}

#[test]
fn a_notice_carries_command_and_path() {
    let mut subscriptions = Subscriptions::new();
    subscriptions.listen(1, path("/foo"));
    subscriptions.listen(2, path("/foo/bar"));
    for command in [
        ServerClientCmd::PathAdded,
        ServerClientCmd::PathRemoved,
        ServerClientCmd::PathChanged,
        ServerClientCmd::PathRenamed,
    ] {
        let notice = announce(&subscriptions, command, path("/foo"));
        assert_eq!(notice.packet.command, command);
        assert_eq!(notice.packet.data, "/foo");
        assert_eq!(notice.to, vec![1]);
    }
    assert!(announce(&subscriptions, ServerClientCmd::PathAdded, path("/x"))
        .to
        .is_empty());
}

#[test]
fn to_listen_twice_is_to_listen_once() {
    let mut s = Subscriptions::new();
    s.listen(1, path("/a"));
    s.listen(1, path("/a"));
    assert_eq!(s.recipients(&path("/a")), vec![1]);
    s.ignore(1, &path("/a"));
    assert!(s.recipients(&path("/a")).is_empty());
    assert!(!s.listens(1, &path("/a")));
    assert!(!s.hears(1, &path("/a")));
}

#[test]
fn to_ignore_what_was_not_listened_at_changes_nothing() {
    let mut s = Subscriptions::new();
    s.listen(1, path("/a"));
    s.listen(2, path("/b"));
    s.ignore(1, &path("/b"));
    s.ignore(3, &path("/a"));
    s.ignore(2, &path("/a"));
    assert!(s.listens(1, &path("/a")));
    assert!(s.listens(2, &path("/b")));
    assert!(!s.listens(1, &path("/b")));
    assert_eq!(s.recipients(&path("/a")), vec![1]);
    assert_eq!(s.recipients(&path("/b")), vec![2]);
}

#[test]
fn several_listeners_at_one_path() {
    let mut s = Subscriptions::new();
    for conn in [4, 2, 9] {
        s.listen(conn, path("/a"));
    }
    s.listen(2, path("/b"));
    assert_eq!(sorted(s.recipients(&path("/a"))), vec![2, 4, 9]);
    s.ignore(4, &path("/a"));
    assert_eq!(sorted(s.recipients(&path("/a"))), vec![2, 9]);
    assert_eq!(s.recipients(&path("/b")), vec![2]);
}

#[test]
fn who_listens_at_every_path() {
    let mut s = Subscriptions::new();
    s.listen_all(7);
    s.listen_all(7);
    s.listen(7, path("/a"));
    s.listen(8, path("/a"));
    assert!(s.listens_all(7));
    assert!(!s.listens_all(8));
    assert_eq!(sorted(s.recipients(&path("/a"))), vec![7, 8]);
    assert_eq!(s.recipients(&path("/anything")), vec![7]);
    s.ignore(7, &path("/a"));
    assert!(s.hears(7, &path("/a")));
    assert_eq!(sorted(s.recipients(&path("/a"))), vec![7, 8]);
}

#[test]
fn a_closed_connection_listens_at_nothing() {
    let mut s = Subscriptions::new();
    s.listen(1, path("/a"));
    s.listen(1, path("/b"));
    s.listen_all(1);
    s.listen(2, path("/a"));
    s.listen_all(3);
    s.close(1);
    assert!(!s.hears(1, &path("/a")));
    assert!(!s.hears(1, &path("/b")));
    assert!(!s.listens_all(1));
    assert_eq!(sorted(s.recipients(&path("/a"))), vec![2, 3]);
    s.close(1);
    assert_eq!(sorted(s.recipients(&path("/a"))), vec![2, 3]);
    s.close(2);
    s.close(3);
    assert!(s.recipients(&path("/a")).is_empty());
}

#[test]
fn destinations_are_a_set() {
    let a = Peer::V4 {
        octets: 0x7f00_0001,
        port: 9000,
    };
    let b = Peer::V4 {
        octets: 0x7f00_0001,
        port: 9001,
    };
    let c = Peer::V6 {
        segments: 1,
        port: 9000,
        flowinfo: 0,
        scope_id: 0,
    };
    let mut d = Destinations::new();
    assert!(d.list().is_empty());
    assert!(d.add(a));
    assert!(!d.add(a));
    assert!(d.add(b));
    assert!(d.add(c));
    assert!(d.contains(a) && d.contains(b) && d.contains(c));
    assert_eq!(d.list().len(), 3);
    assert!(d.remove(b));
    assert!(!d.remove(b));
    assert!(!d.contains(b));
    let left = d.list();
    assert_eq!(left.len(), 2);
    assert!(left.contains(&a) && left.contains(&c));
    assert!(!d.remove(Peer::V6 {
        segments: 1,
        port: 9000,
        flowinfo: 0,
        scope_id: 1,
    }));
    assert!(d.remove(a));
    assert!(d.remove(c));
    assert!(d.list().is_empty());
}

#[test]
fn paths_split_at_their_slashes() {
    let strings = |v: &[&str]| -> Option<Vec<String>> { Some(v.iter().map(|s| s.to_string()).collect()) };
    assert_eq!(split(""), None);
    assert_eq!(split("foo"), None);
    assert_eq!(split("foo/bar"), None);
    assert_eq!(split("/"), strings(&[]));
    assert_eq!(split("/foo"), strings(&["foo"]));
    assert_eq!(split("/foo/bar"), strings(&["foo", "bar"]));
    assert_eq!(split("/foo/"), strings(&["foo", ""]));
    assert_eq!(split("//"), strings(&["", ""]));
    assert_eq!(split("//a"), strings(&["", "a"]));
    assert_eq!(split("/ä/ö/ü"), strings(&["ä", "ö", "ü"]));
}

#[test]
fn names_that_are_valid() {
    assert!(is_valid_name("foo"));
    assert!(is_valid_name("f"));
    assert!(is_valid_name("with blank"));
    assert!(is_valid_name("ünï"));
    assert!(!is_valid_name(""));
    assert!(!is_valid_name("/"));
    assert!(!is_valid_name("a/b"));
    assert!(!is_valid_name("/a"));
    assert!(!is_valid_name("a/"));
}

#[test]
fn the_root_announces_what_it_adds_and_removes() {
    let mut root = oscquery::root::Root::new(None);
    root.listen(1, path("/foo"));
    root.listen(2, path("/foo/bar"));
    root.listen_all(3);
    let (foo, notice) = root
        .add_node(Node::container(path("foo"), None).unwrap(), None)
        .unwrap();
    assert_eq!(notice.packet.command, ServerClientCmd::PathAdded);
    assert_eq!(notice.packet.data, "/foo");
    assert_eq!(sorted(notice.to), vec![1, 3]);
    let (bar, notice) = root
        .add_node(
            Node::get_set(
                path("bar"),
                None,
                vec![ParamGetSet::Int(ValueBuilder::new(1).build())],
            )
            .unwrap(),
            Some(foo),
        )
        .unwrap();
    assert_eq!(notice.packet.data, "/foo/bar");
    assert_eq!(sorted(notice.to), vec![2, 3]);
    assert!(root
        .add_node(Node::container(path("foo"), None).unwrap(), None)
        .is_err());
    assert_eq!(root.tree().resolve("/foo/bar"), Some(bar));

    let delivery = root.trigger_path(&path("/foo/bar")).unwrap();
    assert_eq!(delivery.message.args, vec![Arg::Int(1)]);
    assert_eq!(sorted(delivery.to), vec![2, 3]);

    let packet = Packet::Message(Message {
        addr: path("/foo/bar"),
        args: vec![Arg::Int(8)],
    });
    let dispatched = root.handle_osc_packet(&packet, None);
    assert_eq!(dispatched.events.len(), 1);
    assert_eq!(dispatched.events[0].node, bar);
    assert_eq!(dispatched.deliveries.len(), 1);
    assert_eq!(dispatched.deliveries[0].message.args, vec![Arg::Int(8)]);
    assert_eq!(sorted(dispatched.deliveries[0].to.clone()), vec![2, 3]);

    root.close(3);
    root.ignore(2, &path("/foo/bar"));
    let notice = root.rm_node(bar).unwrap();
    assert_eq!(notice.packet.command, ServerClientCmd::PathRemoved);
    assert_eq!(notice.packet.data, "/foo/bar");
    assert!(notice.to.is_empty());
    let notice = root.rm_node(foo).unwrap();
    assert_eq!(notice.packet.data, "/foo");
    assert_eq!(notice.to, vec![1]);
    assert!(root.rm_node(foo).is_err());
    assert!(root.rm_node(bar).is_err());
    assert!(root.trigger_path(&path("/foo/bar")).is_none());
    assert!(root.subscriptions().listens(1, &path("/foo")));
}

#[test]
fn the_root_keeps_the_destinations() {
    let mut root = oscquery::root::Root::new(Some(path("example")));
    let peer = Peer::V4 {
        octets: 0x0a00_0001,
        port: 3000,
    };
    assert!(root.destinations().is_empty());
    assert!(root.add_destination(peer));
    assert!(!root.add_destination(peer));
    assert_eq!(root.destinations(), vec![peer]);
    assert!(root.remove_destination(peer));
    assert!(!root.remove_destination(peer));
    assert!(root.destinations().is_empty());
}
