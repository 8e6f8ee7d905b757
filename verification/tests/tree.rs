use oscquery::graph::{Graph, GraphError, NodeHandle};
use oscquery::node::{Kind, Node, NodeError};
use oscquery::param::{ParamGet, ParamGetSet, ParamSet};
use oscquery::value::ValueBuilder;

fn container(name: &str) -> Node {
    Node::container(name.to_string(), None).unwrap()
}

fn int_leaf(name: &str, value: i32) -> Node {
    Node::get_set(
        name.to_string(),
        None,
        vec![ParamGetSet::Int(ValueBuilder::new(value).build())],
    )
    .unwrap()
}

fn sibling_names_differ(graph: &Graph, parent: NodeHandle) -> bool {
    let children = graph.children(parent);
    for (i, a) in children.iter().enumerate() {
        for b in children.iter().skip(i + 1) {
            if graph.get(*a).unwrap().name() == graph.get(*b).unwrap().name() {
                return false;
            }
        }
    }
    true
}

#[test]
fn remove_twice_fails_the_second_time() {
    let mut graph = Graph::new(None);
    let h = graph.add_node(container("foo"), None).unwrap();
    assert_eq!(graph.rm_node(h), Ok(()));
    assert_eq!(graph.rm_node(h), Err(GraphError::InvalidHandle));
}

#[test]
fn a_handle_that_never_existed_is_invalid() {
    let mut graph = Graph::new(None);
    let mut other = Graph::new(None);
    let a = other.add_node(container("a"), None).unwrap();
    let b = other.add_node(container("b"), Some(a)).unwrap();
    assert_eq!(graph.rm_node(b), Err(GraphError::InvalidHandle));
    assert_eq!(
        graph.add_node(container("x"), Some(b)),
        Err(GraphError::InvalidHandle)
    );
    assert!(!graph.contains(b));
}

#[test]
fn the_root_cannot_be_removed() {
    let mut graph = Graph::new(Some("example".to_string()));
    let root = graph.root();
    assert_eq!(graph.rm_node(root), Err(GraphError::InvalidHandle));
    assert!(graph.contains(root));
    assert_eq!(
        graph.get(root).unwrap().description(),
        &Some("example".to_string())
    );
}

#[test]
fn a_colliding_name_is_refused_and_changes_nothing() {
    let mut graph = Graph::new(None);
    let foo = graph.add_node(container("foo"), None).unwrap();
    let bar = graph.add_node(int_leaf("bar", 1), Some(foo)).unwrap();
    assert_eq!(
        graph.add_node(int_leaf("bar", 2), Some(foo)),
        Err(GraphError::NameCollision)
    );
    assert_eq!(graph.children(foo), vec![bar]);
    assert_eq!(graph.resolve("/foo/bar"), Some(bar));
    match graph.get(bar).unwrap().kind() {
        Kind::GetSet(params) => match &params[0] {
            ParamGetSet::Int(v) => assert_eq!(v.get(), 1),
            _ => panic!("the parameter changed its type"),
        },
        _ => panic!("the node changed its kind"),
    }
    assert_eq!(
        graph.add_node(container("foo"), None),
        Err(GraphError::NameCollision)
    );
    assert_eq!(graph.children(graph.root()), vec![foo]);
}

#[test]
fn the_same_name_is_free_under_another_parent() {
    let mut graph = Graph::new(None);
    let a = graph.add_node(container("a"), None).unwrap();
    let b = graph.add_node(container("b"), None).unwrap();
    let under_a = graph.add_node(container("x"), Some(a)).unwrap();
    let under_b = graph.add_node(container("x"), Some(b)).unwrap();
    assert_ne!(under_a, under_b);
    assert_eq!(graph.resolve("/a/x"), Some(under_a));
    assert_eq!(graph.resolve("/b/x"), Some(under_b));
}

#[test]
fn a_leaf_is_no_parent() {
    let mut graph = Graph::new(None);
    let leaf = graph.add_node(int_leaf("leaf", 0), None).unwrap();
    assert_eq!(
        graph.add_node(container("below"), Some(leaf)),
        Err(GraphError::NotAContainer)
    );
    assert_eq!(graph.children(leaf), Vec::<NodeHandle>::new());
}

#[test]
fn a_stale_handle_is_no_parent() {
    let mut graph = Graph::new(None);
    let foo = graph.add_node(container("foo"), None).unwrap();
    graph.rm_node(foo).unwrap();
    assert_eq!(
        graph.add_node(container("bar"), Some(foo)),
        Err(GraphError::InvalidHandle)
    );
    let again = graph.add_node(container("foo"), None).unwrap();
    assert_ne!(again, foo);
    assert!(!graph.contains(foo));
    assert_eq!(graph.rm_node(foo), Err(GraphError::InvalidHandle));
    assert_eq!(graph.resolve("/foo"), Some(again));
}

#[test]
fn removal_takes_the_whole_subtree() {
    let mut graph = Graph::new(None);
    let a = graph.add_node(container("a"), None).unwrap();
    let b = graph.add_node(container("b"), Some(a)).unwrap();
    let c = graph.add_node(int_leaf("c", 3), Some(b)).unwrap();
    let d = graph.add_node(container("d"), None).unwrap();
    let e = graph.add_node(int_leaf("e", 5), Some(a)).unwrap();
    assert_eq!(graph.rm_node(a), Ok(()));
    for gone in [a, b, c, e] {
        assert!(!graph.contains(gone));
        assert_eq!(graph.rm_node(gone), Err(GraphError::InvalidHandle));
        assert_eq!(graph.path_of(gone), None);
    }
    assert!(graph.contains(d));
    assert_eq!(graph.children(graph.root()), vec![d]);
    assert_eq!(graph.resolve("/a"), None);
    assert_eq!(graph.resolve("/a/b/c"), None);
    assert_eq!(graph.resolve("/d"), Some(d));
}

#[test]
fn removal_of_a_leaf_leaves_its_siblings() {
    let mut graph = Graph::new(None);
    let a = graph.add_node(container("a"), None).unwrap();
    let x = graph.add_node(int_leaf("x", 1), Some(a)).unwrap();
    let y = graph.add_node(int_leaf("y", 2), Some(a)).unwrap();
    let z = graph.add_node(int_leaf("z", 3), Some(a)).unwrap();
    assert_eq!(graph.rm_node(y), Ok(()));
    assert_eq!(graph.children(a), vec![x, z]);
    assert_eq!(graph.parent_of(x), Some(a));
    assert_eq!(graph.parent_of(y), None);
    assert_eq!(graph.path_of(z), Some("/a/z".to_string()));
}

#[test]
fn paths_lead_to_their_nodes() {
    let mut graph = Graph::new(None);
    let foo = graph.add_node(container("foo"), None).unwrap();
    let bar = graph.add_node(int_leaf("bar", 2084), Some(foo)).unwrap();
    assert_eq!(graph.resolve("/"), Some(graph.root()));
    assert_eq!(graph.resolve("/foo"), Some(foo));
    assert_eq!(graph.resolve("/foo/bar"), Some(bar));
    assert_eq!(graph.path_of(graph.root()), Some("/".to_string()));
    assert_eq!(graph.path_of(foo), Some("/foo".to_string()));
    assert_eq!(graph.path_of(bar), Some("/foo/bar".to_string()));
    for h in [graph.root(), foo, bar] {
        let path = graph.path_of(h).unwrap();
        assert_eq!(graph.resolve(&path), Some(h));
    }
}

#[test]
fn paths_that_lead_nowhere() {
    let mut graph = Graph::new(None);
    let foo = graph.add_node(container("foo"), None).unwrap();
    graph.add_node(int_leaf("bar", 0), Some(foo)).unwrap();
    for path in [
        "", "foo", "foo/bar", "/baz", "/foo/baz", "/foo/bar/baz", "/foo/", "//foo", "/foo//bar",
        "//", "/Foo", "/foo/bar/",
    ] {
        assert_eq!(graph.resolve(path), None, "{:?}", path);
    }
}

#[test]
fn names_beyond_ascii() {
    let mut graph = Graph::new(None);
    let a = graph.add_node(container("größe"), None).unwrap();
    let b = graph.add_node(int_leaf("音量", 1), Some(a)).unwrap();
    assert_eq!(graph.resolve("/größe/音量"), Some(b));
    assert_eq!(graph.path_of(b), Some("/größe/音量".to_string()));
    assert_eq!(graph.resolve("/grösse/音量"), None);
}

#[test]
fn the_parent_of_a_node() {
    let mut graph = Graph::new(None);
    let foo = graph.add_node(container("foo"), None).unwrap();
    let bar = graph.add_node(container("bar"), Some(foo)).unwrap();
    assert_eq!(graph.parent_of(graph.root()), None);
    assert_eq!(graph.parent_of(foo), Some(graph.root()));
    assert_eq!(graph.parent_of(bar), Some(foo));
    assert_eq!(graph.find_child(foo, &"bar".to_string()), Some(bar));
    assert_eq!(graph.find_child(foo, &"foo".to_string()), None);
    assert_eq!(graph.find_child(bar, &"bar".to_string()), None);
}

#[test]
fn many_distinct_names_under_one_parent() {
    let mut graph = Graph::new(None);
    let parent = graph.add_node(container("p"), None).unwrap();
    let mut handles = Vec::new();
    for i in 0..64 {
        let h = graph
            .add_node(container(&format!("child{}", i)), Some(parent))
            .unwrap();
        assert!(!handles.contains(&h));
        handles.push(h);
        assert!(sibling_names_differ(&graph, parent));
    }
    assert_eq!(graph.children(parent).len(), 64);
    assert_eq!(graph.children(parent), handles);
}

#[test]
fn sibling_names_differ_after_every_change() {
    let mut graph = Graph::new(None);
    let root = graph.root();
    let a = graph.add_node(container("a"), None).unwrap();
    assert!(sibling_names_differ(&graph, root));
    let b = graph.add_node(container("b"), None).unwrap();
    assert!(sibling_names_differ(&graph, root));
    assert!(graph.add_node(container("a"), None).is_err());
    assert!(sibling_names_differ(&graph, root));
    graph.rm_node(a).unwrap();
    assert!(sibling_names_differ(&graph, root));
    let a2 = graph.add_node(container("a"), None).unwrap();
    assert!(sibling_names_differ(&graph, root));
    assert!(graph.add_node(container("b"), None).is_err());
    assert_eq!(graph.children(root), vec![b, a2]);
    assert!(graph.add_node(container("a"), Some(a2)).is_ok());
    assert!(graph.add_node(container("a"), Some(a2)).is_err());
    assert!(sibling_names_differ(&graph, a2));
}

#[test]
fn names_that_are_refused() {
    assert_eq!(
        Node::container("".to_string(), None).err(),
        Some(NodeError::InvalidName)
    );
    assert_eq!(
        Node::container("a/b".to_string(), None).err(),
        Some(NodeError::InvalidName)
    );
    assert_eq!(
        Node::container("/".to_string(), None).err(),
        Some(NodeError::InvalidName)
    );
    assert!(Node::container("a b".to_string(), Some("with a blank".to_string())).is_ok());
}

#[test]
fn a_leaf_needs_a_parameter() {
    assert_eq!(
        Node::get("x".to_string(), None, Vec::<ParamGet>::new()).err(),
        Some(NodeError::NoParameters)
    );
    assert_eq!(
        Node::set("x".to_string(), None, Vec::<ParamSet>::new()).err(),
        Some(NodeError::NoParameters)
    );
    assert_eq!(
        Node::get_set("x".to_string(), None, Vec::<ParamGetSet>::new()).err(),
        Some(NodeError::NoParameters)
    );
    assert_eq!(
        Node::get("a/b".to_string(), None, Vec::<ParamGet>::new()).err(),
        Some(NodeError::InvalidName)
    );
}

#[test]
fn a_node_tells_what_it_is() {
    let node = Node::get(
        "speed".to_string(),
        Some("how fast".to_string()),
        vec![ParamGet::Int(ValueBuilder::new(7).build())],
    )
    .unwrap();
    assert_eq!(node.name(), "speed");
    assert_eq!(node.description(), &Some("how fast".to_string()));
    assert!(!node.is_container());
    assert!(node.is_named(&"speed".to_string()));
    assert!(!node.is_named(&"Speed".to_string()));
    assert!(container("c").is_container());
    assert!(container("c").args().is_none());
}
