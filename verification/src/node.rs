//! The nodes of the tree: containers, and leaves with their parameters.

use vstd::prelude::*;
use crate::osc::Arg;
use crate::param::{ParamGet, ParamGetSet, ParamSet};
use crate::path::{is_valid_name, valid_name};

verus! {

/// What a node is: a container, or a leaf under one access mode with its
/// parameters.
#[derive(Debug)]
pub enum Kind {
    Container,
    GetOnly(Vec<ParamGet>),
    SetOnly(Vec<ParamSet>),
    GetSet(Vec<ParamGetSet>),
}

/// A node before it is put into a tree, and as the tree holds it.
#[derive(Debug)]
pub struct Node {
    name: String,
    description: Option<String>,
    kind: Kind,
}

/// What a node is, with its parameters as a sequence.
pub enum KindView {
    Container,
    GetOnly(Seq<ParamGet>),
    SetOnly(Seq<ParamSet>),
    GetSet(Seq<ParamGetSet>),
}

/// A node as specifications see it.
pub struct NodeView {
    pub name: Seq<char>,
    pub description: Option<Seq<char>>,
    pub kind: KindView,
}

/// Why a node could not be made.
#[derive(Clone, Copy, Debug, PartialEq, Eq, Structural)]
pub enum NodeError {
    /// The name is empty or holds a slash.
    InvalidName,
    /// A leaf was given no parameter.
    NoParameters,
}

/// The text of a string that may be absent.
pub open spec fn text_of(s: Option<String>) -> Option<Seq<char>> {
    match s {
        Some(t) => Some(t@),
        None => None,
    }
}

/// The parameters after the arguments were sent to them, place by place.
/// Parameters beyond the last argument, and arguments beyond the last
/// parameter, have no part in it.
pub open spec fn applied_set(params: Seq<ParamSet>, args: Seq<Arg>) -> Seq<ParamSet> {
    Seq::new(
        params.len(),
        |i: int|
            if i < args.len() {
                params[i].applied(args[i])
            } else {
                params[i]
            },
    )
}

/// The parameters after the arguments were sent to them, place by place.
pub open spec fn applied_getset(params: Seq<ParamGetSet>, args: Seq<Arg>) -> Seq<ParamGetSet> {
    Seq::new(
        params.len(),
        |i: int|
            if i < args.len() {
                params[i].applied(args[i])
            } else {
                params[i]
            },
    )
}

impl KindView {
    /// A leaf that takes writes.
    pub open spec fn writable(self) -> bool {
        self is SetOnly || self is GetSet
    }

    /// A leaf that can be read.
    pub open spec fn readable(self) -> bool {
        self is GetOnly || self is GetSet
    }

    /// A container, or a leaf with at least one parameter.
    pub open spec fn populated(self) -> bool {
        match self {
            KindView::Container => true,
            KindView::GetOnly(params) => params.len() > 0,
            KindView::SetOnly(params) => params.len() > 0,
            KindView::GetSet(params) => params.len() > 0,
        }
    }

    /// This kind after the arguments of a message were sent to it. Only a
    /// leaf that takes writes changes.
    pub open spec fn received(self, args: Seq<Arg>) -> KindView {
        match self {
            KindView::SetOnly(params) => KindView::SetOnly(applied_set(params, args)),
            KindView::GetSet(params) => KindView::GetSet(applied_getset(params, args)),
            _ => self,
        }
    }

    /// The stored values of a leaf that can be read, each as an OSC
    /// argument.
    pub open spec fn args(self) -> Seq<Arg> {
        match self {
            KindView::GetOnly(params) => params.map_values(|p: ParamGet| p.arg()),
            KindView::GetSet(params) => params.map_values(|p: ParamGetSet| p.arg()),
            _ => Seq::<Arg>::empty(),
        }
    }
}

impl NodeView {
    /// This node after the arguments of a message were sent to it.
    pub open spec fn received(self, args: Seq<Arg>) -> NodeView {
        NodeView { kind: self.kind.received(args), ..self }
    }

    /// `other` is this node but for what its parameters store: the name,
    /// the description, what kind of node it is and the number of its
    /// parameters are the same.
    pub open spec fn same_but_values(self, other: NodeView) -> bool {
        &&& self.name == other.name
        &&& self.description == other.description
        &&& match self.kind {
            KindView::Container => other.kind is Container,
            KindView::GetOnly(params) => other.kind == self.kind,
            KindView::SetOnly(params) => other.kind is SetOnly && other.kind->SetOnly_0.len()
                == params.len(),
            KindView::GetSet(params) => other.kind is GetSet && other.kind->GetSet_0.len()
                == params.len(),
        }
    }

    /// Arguments change nothing of a node but what its parameters store.
    pub proof fn lemma_received(self, args: Seq<Arg>)
        ensures
            self.same_but_values(self.received(args)),
            !self.kind.writable() ==> self.received(args) == self,
    {
    }
}

impl View for Kind {
    type V = KindView;

    open spec fn view(&self) -> KindView {
        match self {
            Kind::Container => KindView::Container,
            Kind::GetOnly(params) => KindView::GetOnly(params@),
            Kind::SetOnly(params) => KindView::SetOnly(params@),
            Kind::GetSet(params) => KindView::GetSet(params@),
        }
    }
}

impl View for Node {
    type V = NodeView;

    closed spec fn view(&self) -> NodeView {
        NodeView {
            name: self.name@,
            description: text_of(self.description),
            kind: self.kind@,
        }
    }
}

fn apply_set(params: &mut Vec<ParamSet>, args: &Vec<Arg>)
    ensures
        final(params)@ == applied_set(old(params)@, args@),
{
    let mut i: usize = 0;
    while i < params.len() && i < args.len()
        invariant
            params@.len() == old(params)@.len(),
            forall|k: int| 0 <= k < i && k < params@.len() ==> params@[k] == old(params)@[k].applied(args@[k]),
            forall|k: int| i <= k < params@.len() ==> params@[k] == old(params)@[k],
            i <= args@.len(),
        decreases params@.len() - i,
    {
        params[i].apply(&args[i]);
        i += 1;
    }
}

fn apply_getset(params: &mut Vec<ParamGetSet>, args: &Vec<Arg>)
    ensures
        final(params)@ == applied_getset(old(params)@, args@),
{
    let mut i: usize = 0;
    while i < params.len() && i < args.len()
        invariant
            params@.len() == old(params)@.len(),
            forall|k: int| 0 <= k < i && k < params@.len() ==> params@[k] == old(params)@[k].applied(args@[k]),
            forall|k: int| i <= k < params@.len() ==> params@[k] == old(params)@[k],
            i <= args@.len(),
        decreases params@.len() - i,
    {
        params[i].apply(&args[i]);
        i += 1;
    }
}

fn args_get(params: &Vec<ParamGet>) -> (args: Vec<Arg>)
    ensures
        args@ == params@.map_values(|p: ParamGet| p.arg()),
{
    let mut args: Vec<Arg> = Vec::new();
    let mut i: usize = 0;
    while i < params.len()
        invariant
            i <= params@.len(),
            args@ == params@.take(i as int).map_values(|p: ParamGet| p.arg()),
        decreases params@.len() - i,
    {
        args.push(params[i].to_arg());
        i += 1;
    }
    args
}

fn args_getset(params: &Vec<ParamGetSet>) -> (args: Vec<Arg>)
    ensures
        args@ == params@.map_values(|p: ParamGetSet| p.arg()),
{
    let mut args: Vec<Arg> = Vec::new();
    let mut i: usize = 0;
    while i < params.len()
        invariant
            i <= params@.len(),
            args@ == params@.take(i as int).map_values(|p: ParamGetSet| p.arg()),
        decreases params@.len() - i,
    {
        args.push(params[i].to_arg());
        i += 1;
    }
    args
}

impl Node {
    /// The name is valid, and a leaf has at least one parameter.
    pub open spec fn wf(self) -> bool {
        valid_name(self@.name) && self@.kind.populated()
    }

    fn build(name: String, description: Option<String>, kind: Kind) -> (r: Result<
        Node,
        NodeError,
    >)
        ensures
            match r {
                Ok(node) => {
                    &&& valid_name(name@)
                    &&& kind@.populated()
                    &&& node@.name == name@
                    &&& node@.description == text_of(description)
                    &&& node@.kind == kind@
                    &&& node.wf()
                },
                Err(e) => e == if !valid_name(name@) {
                    NodeError::InvalidName
                } else {
                    NodeError::NoParameters
                } && !(valid_name(name@) && kind@.populated()),
            },
    {
        if !is_valid_name(name.as_str()) {
            return Err(NodeError::InvalidName);
        }
        let populated = match &kind {
            Kind::Container => true,
            Kind::GetOnly(params) => params.len() > 0,
            Kind::SetOnly(params) => params.len() > 0,
            Kind::GetSet(params) => params.len() > 0,
        };
        if !populated {
            return Err(NodeError::NoParameters);
        }
        Ok(Node { name, description, kind })
    }

    /// A container. The name must be valid.
    pub fn container(name: String, description: Option<String>) -> (r: Result<Node, NodeError>)
        ensures
            r is Ok <==> valid_name(name@),
            r matches Err(e) ==> e == NodeError::InvalidName,
            r matches Ok(node) ==> node.wf() && node@ == (NodeView {
                name: name@,
                description: text_of(description),
                kind: KindView::Container,
            }),
    {
        Node::build(name, description, Kind::Container)
    }

    /// A leaf that can only be read. The name must be valid, and there
    /// must be a parameter.
    pub fn get(name: String, description: Option<String>, params: Vec<ParamGet>) -> (r: Result<
        Node,
        NodeError,
    >)
        ensures
            r is Ok <==> valid_name(name@) && params@.len() > 0,
            r matches Err(e) ==> e == if !valid_name(name@) {
                NodeError::InvalidName
            } else {
                NodeError::NoParameters
            },
            r matches Ok(node) ==> node.wf() && node@ == (NodeView {
                name: name@,
                description: text_of(description),
                kind: KindView::GetOnly(params@),
            }),
    {
        Node::build(name, description, Kind::GetOnly(params))
    }

    /// A leaf that can only be written. The name must be valid, and there
    /// must be a parameter.
    pub fn set(name: String, description: Option<String>, params: Vec<ParamSet>) -> (r: Result<
        Node,
        NodeError,
    >)
        ensures
            r is Ok <==> valid_name(name@) && params@.len() > 0,
            r matches Err(e) ==> e == if !valid_name(name@) {
                NodeError::InvalidName
            } else {
                NodeError::NoParameters
            },
            r matches Ok(node) ==> node.wf() && node@ == (NodeView {
                name: name@,
                description: text_of(description),
                kind: KindView::SetOnly(params@),
            }),
    {
        Node::build(name, description, Kind::SetOnly(params))
    }

    /// A leaf that can be read and written. The name must be valid, and
    /// there must be a parameter.
    pub fn get_set(
        name: String,
        description: Option<String>,
        params: Vec<ParamGetSet>,
    ) -> (r: Result<Node, NodeError>)
        ensures
            r is Ok <==> valid_name(name@) && params@.len() > 0,
            r matches Err(e) ==> e == if !valid_name(name@) {
                NodeError::InvalidName
            } else {
                NodeError::NoParameters
            },
            r matches Ok(node) ==> node.wf() && node@ == (NodeView {
                name: name@,
                description: text_of(description),
                kind: KindView::GetSet(params@),
            }),
    {
        Node::build(name, description, Kind::GetSet(params))
    }

    /// The container at the top of a tree. It has no name.
    pub(crate) fn top(description: Option<String>) -> (node: Node)
        ensures
            node@ == (NodeView {
                name: Seq::<char>::empty(),
                description: text_of(description),
                kind: KindView::Container,
            }),
    {
        Node { name: String::new(), description, kind: Kind::Container }
    }

    /// The node's name.
    pub fn name(&self) -> (name: &String)
        ensures
            name@ == self@.name,
    {
        &self.name
    }

    /// What the node is for, in words, if that was said.
    pub fn description(&self) -> (description: &Option<String>)
        ensures
            text_of(*description) == self@.description,
    {
        &self.description
    }

    /// What kind of node this is, with its parameters.
    pub fn kind(&self) -> (kind: &Kind)
        ensures
            kind@ == self@.kind,
    {
        &self.kind
    }

    /// Whether this node is a container.
    pub fn is_container(&self) -> (r: bool)
        ensures
            r == (self@.kind is Container),
    {
        match &self.kind {
            Kind::Container => true,
            _ => false,
        }
    }

    /// Whether this node bears the name `name`.
    pub fn is_named(&self, name: &String) -> (r: bool)
        ensures
            r == (self@.name == name@),
    {
        self.name == *name
    }

    /// The stored values of a leaf that can be read, each as an OSC
    /// argument. A container and a leaf that can only be written give
    /// nothing.
    pub fn args(&self) -> (r: Option<Vec<Arg>>)
        ensures
            r is Some <==> self@.kind.readable(),
            r matches Some(args) ==> args@ == self@.kind.args(),
    {
        match &self.kind {
            Kind::GetOnly(params) => Some(args_get(params)),
            Kind::GetSet(params) => Some(args_getset(params)),
            _ => None,
        }
    }

    /// The arguments of a message are sent to this node: a leaf that takes
    /// writes stores them place by place, any other node is left as it is.
    /// Returns whether the node is such a leaf.
    pub fn receive(&mut self, args: &Vec<Arg>) -> (writable: bool)
        ensures
            writable == old(self)@.kind.writable(),
            final(self)@ == old(self)@.received(args@),
            old(self).wf() ==> final(self).wf(),
    {
        match &mut self.kind {
            Kind::SetOnly(params) => {
                apply_set(params, args);
                true
            },
            Kind::GetSet(params) => {
                apply_getset(params, args);
                true
            },
            _ => false,
        }
    }
}

} // verus!
