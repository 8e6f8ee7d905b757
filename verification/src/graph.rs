//! The tree of nodes: an arena of slots that handles point into.
//!
//! A slot is never used twice, so a handle whose node was removed stays
//! invalid for good, and a node always stands behind its parent in the
//! arena.

use vstd::prelude::*;
use vstd::string::StringExecFns;
use crate::node::{KindView, Node, NodeView};
use crate::osc::Arg;
use crate::path::{join_path, lemma_join_push, lemma_join_split, lemma_split_join, split, split_path, texts, valid_name};

verus! {

/// A reference to a node of one tree. It is valid from the insertion that
/// returned it until the node, or one of its ancestors, is removed.
#[derive(Clone, Copy, Debug, PartialEq, Eq, Hash, Structural)]
pub struct NodeHandle {
    index: usize,
}

/// Why the tree refused a change.
#[derive(Clone, Copy, Debug, PartialEq, Eq, Structural)]
pub enum GraphError {
    /// A sibling bears the name already.
    NameCollision,
    /// The handle refers to no node of the tree.
    InvalidHandle,
    /// The node that was to be the parent is a leaf.
    NotAContainer,
}

#[derive(Debug)]
struct Slot {
    node: Node,
    parent: usize,
}

/// The tree. Its root is a container without a name that is always there.
#[derive(Debug)]
pub struct Graph {
    slots: Vec<Option<Slot>>,
}

impl Graph {
    /// The handle of the root.
    pub closed spec fn top() -> NodeHandle {
        NodeHandle { index: 0 }
    }

    /// `h` was handed out by this tree at some time.
    pub closed spec fn knows(self, h: NodeHandle) -> bool {
        h.index < self.slots@.len()
    }

    /// `a` was handed out before `b`.
    pub closed spec fn older(a: NodeHandle, b: NodeHandle) -> bool {
        a.index < b.index
    }

    /// `h` refers to a node of the tree.
    pub closed spec fn live(self, h: NodeHandle) -> bool {
        h.index < self.slots@.len() && self.slots@[h.index as int] is Some
    }

    /// The node that `h` refers to.
    pub closed spec fn node(self, h: NodeHandle) -> NodeView {
        if self.live(h) {
            self.slots@[h.index as int]->Some_0.node@
        } else {
            arbitrary()
        }
    }

    /// The parent of the node that `h` refers to.
    pub closed spec fn parent(self, h: NodeHandle) -> NodeHandle {
        if self.live(h) {
            NodeHandle { index: self.slots@[h.index as int]->Some_0.parent }
        } else {
            arbitrary()
        }
    }

    /// `c` refers to a node whose parent is `p`.
    pub open spec fn is_child(self, c: NodeHandle, p: NodeHandle) -> bool {
        self.live(c) && c != Self::top() && self.parent(c) == p
    }

    /// No two children of one node bear the same name.
    pub open spec fn siblings_unique(self) -> bool {
        forall|a: NodeHandle, b: NodeHandle|
            #![trigger self.live(a), self.live(b)]
            self.is_child(a, self.parent(a)) && self.is_child(b, self.parent(a)) && a != b
                ==> self.node(a).name != self.node(b).name
    }

    /// The child of `p` that bears `name`, if there is one.
    pub open spec fn child_named(self, p: NodeHandle, name: Seq<char>) -> Option<NodeHandle> {
        if exists|c: NodeHandle| self.is_child(c, p) && self.node(c).name == name {
            Some(choose|c: NodeHandle| self.is_child(c, p) && self.node(c).name == name)
        } else {
            None
        }
    }

    /// Why a node named `name` cannot become a child of `p`, if it cannot.
    pub open spec fn refusal(self, p: NodeHandle, name: Seq<char>) -> Option<GraphError> {
        if !self.live(p) {
            Some(GraphError::InvalidHandle)
        } else if !(self.node(p).kind is Container) {
            Some(GraphError::NotAContainer)
        } else if self.child_named(p, name) is Some {
            Some(GraphError::NameCollision)
        } else {
            None
        }
    }

    spec fn slot_ok(self, i: int) -> bool {
        let s = self.slots@[i]->Some_0;
        self.slots@[i] is Some ==> {
            &&& s.parent < i
            &&& self.slots@[s.parent as int] is Some
            &&& self.slots@[s.parent as int]->Some_0.node@.kind is Container
            &&& s.node.wf()
        }
    }

    spec fn distinct(self, i: int, j: int) -> bool {
        self.slots@[i] is Some && self.slots@[j] is Some && self.slots@[i]->Some_0.parent
            == self.slots@[j]->Some_0.parent ==> self.slots@[i]->Some_0.node@.name
            != self.slots@[j]->Some_0.node@.name
    }

    /// The tree is well formed: the root is there; every other node is
    /// valid and hangs under a container that is there; siblings differ in
    /// their names.
    pub closed spec fn wf(self) -> bool {
        &&& 0 < self.slots@.len() <= usize::MAX
        &&& self.slots@[0] is Some
        &&& self.slots@[0]->Some_0.node@.kind is Container
        &&& self.slots@[0]->Some_0.parent == 0
        &&& forall|i: int| 0 < i < self.slots@.len() ==> #[trigger] self.slot_ok(i)
        &&& forall|i: int, j: int|
            0 < i < self.slots@.len() && 0 < j < self.slots@.len() && i != j
                ==> #[trigger] self.distinct(i, j)
    }

    /// In a well-formed tree the root is there and is a container; every
    /// other node is valid, was made after its parent, and its parent is a
    /// container of the tree; a handle of the tree is one that it handed
    /// out.
    pub proof fn lemma_shape(self, h: NodeHandle)
        requires
            self.wf(),
        ensures
            self.live(Self::top()),
            self.node(Self::top()).kind is Container,
            self.live(h) ==> self.knows(h),
            self.live(h) && h != Self::top() ==> {
                &&& self.live(self.parent(h))
                &&& self.node(self.parent(h)).kind is Container
                &&& crate::path::valid_name(self.node(h).name)
                &&& self.node(h).kind.populated()
                &&& self.parent(h) != h
            },
    {
        if self.live(h) && h != Self::top() {
            assert(self.slot_ok(h.index as int));
        }
    }

    /// In a well-formed tree, siblings differ in their names.
    pub proof fn lemma_siblings_unique(self)
        requires
            self.wf(),
        ensures
            self.siblings_unique(),
    {
        assert forall|a: NodeHandle, b: NodeHandle|
            #![trigger self.live(a), self.live(b)]
            self.is_child(a, self.parent(a)) && self.is_child(b, self.parent(a)) && a
                != b implies self.node(a).name != self.node(b).name by {
            assert(self.distinct(a.index as int, b.index as int));
        }
    }

    /// A tree that holds its root and nothing else.
    pub fn new(description: Option<String>) -> (g: Graph)
        ensures
            g.wf(),
            forall|h: NodeHandle| g.live(h) <==> h == Graph::top(),
            forall|h: NodeHandle| g.knows(h) <==> h == Graph::top(),
            g.node(Graph::top()) == (NodeView {
                name: Seq::<char>::empty(),
                description: crate::node::text_of(description),
                kind: KindView::Container,
            }),
            g.siblings_unique(),
    {
        let mut slots: Vec<Option<Slot>> = Vec::new();
        slots.push(Some(Slot { node: Node::top(description), parent: 0 }));
        let g = Graph { slots };
        proof {
            g.lemma_siblings_unique();
        }
        g
    }

    /// The handle of the root.
    pub fn root(&self) -> (h: NodeHandle)
        ensures
            h == Graph::top(),
    {
        NodeHandle { index: 0 }
    }

    /// Whether `h` refers to a node of the tree.
    pub fn contains(&self, h: NodeHandle) -> (r: bool)
        ensures
            r == self.live(h),
    {
        h.index < self.slots.len() && self.slots[h.index].is_some()
    }

    /// The node that `h` refers to.
    pub fn get(&self, h: NodeHandle) -> (r: Option<&Node>)
        ensures
            r is Some <==> self.live(h),
            r matches Some(node) ==> node@ == self.node(h),
            r matches Some(node) ==> (self.wf() && h != Graph::top() ==> node.wf()),
    {
        if h.index < self.slots.len() {
            match &self.slots[h.index] {
                Some(slot) => {
                    proof {
                        if self.wf() && h != Graph::top() {
                            assert(self.slot_ok(h.index as int));
                        }
                    }
                    Some(&slot.node)
                },
                None => None,
            }
        } else {
            None
        }
    }

    /// The parent of the node that `h` refers to. The root has none.
    pub fn parent_of(&self, h: NodeHandle) -> (r: Option<NodeHandle>)
        ensures
            r is Some <==> self.live(h) && h != Graph::top(),
            r matches Some(p) ==> p == self.parent(h),
    {
        if h.index == 0 || h.index >= self.slots.len() {
            return None;
        }
        match &self.slots[h.index] {
            Some(slot) => Some(NodeHandle { index: slot.parent }),
            None => None,
        }
    }

    /// The child of `p` that bears `name`.
    pub fn find_child(&self, p: NodeHandle, name: &String) -> (r: Option<NodeHandle>)
        requires
            self.wf(),
        ensures
            r == self.child_named(p, name@),
    {
        let mut i: usize = 1;
        while i < self.slots.len()
            invariant
                1 <= i,
                self.wf(),
                forall|c: NodeHandle|
                    #![trigger self.live(c)]
                    c.index < i ==> !(self.is_child(c, p) && self.node(c).name == name@),
            decreases self.slots@.len() - i,
        {
            match &self.slots[i] {
                Some(slot) => {
                    if slot.parent == p.index && slot.node.is_named(name) {
                        let found = NodeHandle { index: i };
                        proof {
                            assert(self.is_child(found, p) && self.node(found).name == name@);
                            let other = choose|c: NodeHandle|
                                self.is_child(c, p) && self.node(c).name == name@;
                            if other.index != i {
                                assert(self.distinct(other.index as int, i as int));
                            }
                        }
                        return Some(found);
                    }
                },
                None => {},
            }
            i += 1;
        }
        proof {
            assert forall|c: NodeHandle|
                !(self.is_child(c, p) && self.node(c).name == name@) by {}
        }
        None
    }

    /// Puts `node` into the tree as the last child of `parent`, or of the
    /// root where no parent is given, and returns its handle.
    ///
    /// The tree refuses, and stays as it was, where `parent` refers to no
    /// node of it (`InvalidHandle`), where it refers to a leaf
    /// (`NotAContainer`), and where a child of it bears the node's name
    /// already (`NameCollision`).
    pub fn add_node(&mut self, node: Node, parent: Option<NodeHandle>) -> (r: Result<
        NodeHandle,
        GraphError,
    >)
        requires
            old(self).wf(),
            node.wf(),
        ensures
            final(self).wf(),
            r is Err <==> old(self).refusal(Self::target(parent), node@.name) is Some,
            r matches Err(e) ==> *final(self) == *old(self) && old(self).refusal(
                Self::target(parent),
                node@.name,
            ) == Some(e),
            r matches Ok(h) ==> old(self).after_insertion(
                node@,
                Self::target(parent),
                h,
                *final(self),
            ),
            final(self).siblings_unique(),
    {
        let p = match parent {
            Some(h) => h,
            None => self.root(),
        };
        proof {
            self.lemma_siblings_unique();
        }
        let is_container = match self.get(p) {
            Some(holder) => holder.is_container(),
            None => {
                return Err(GraphError::InvalidHandle);
            },
        };
        if !is_container {
            return Err(GraphError::NotAContainer);
        }
        if self.find_child(p, node.name()).is_some() {
            return Err(GraphError::NameCollision);
        }
        let index = self.slots.len();
        let h = NodeHandle { index };
        self.slots.push(Some(Slot { node, parent: p.index }));
        proof {
            let before = old(self).slots@;
            let after = self.slots@;
            assert(after.len() == self.slots.len());
            assert forall|i: int| 0 < i < after.len() implies #[trigger] self.slot_ok(i) by {
                if i < before.len() {
                    assert(old(self).slot_ok(i));
                }
            }
            assert forall|i: int, j: int|
                0 < i < after.len() && 0 < j < after.len() && i != j implies #[trigger] self.distinct(
                i,
                j,
            ) by {
                if i < before.len() && j < before.len() {
                    assert(old(self).distinct(i, j));
                } else {
                    let k = if i < before.len() {
                        i
                    } else {
                        j
                    };
                    let c = NodeHandle { index: k as usize };
                    if before[k] is Some && before[k]->Some_0.parent == p.index {
                        assert(old(self).is_child(c, p));
                    }
                }
            }
            self.lemma_siblings_unique();
        }
        Ok(h)
    }

    /// Takes the node that `h` refers to out of the tree, with all that
    /// lies under it. Their handles are invalid from then on.
    ///
    /// A handle that refers to no node of the tree, because the node was
    /// removed before or never was in it, gives `InvalidHandle`, and so
    /// does the handle of the root, which cannot be removed; the tree then
    /// stays as it was.
    pub fn rm_node(&mut self, h: NodeHandle) -> (r: Result<(), GraphError>)
        requires
            old(self).wf(),
        ensures
            final(self).wf(),
            r is Ok <==> old(self).live(h) && h != Graph::top(),
            r matches Err(e) ==> e == GraphError::InvalidHandle && *final(self) == *old(self),
            r is Ok ==> old(self).after_removal(h, *final(self)) && final(self).stale(h),
            final(self).siblings_unique(),
    {
        proof {
            self.lemma_siblings_unique();
        }
        if h.index == 0 || !self.contains(h) {
            return Err(GraphError::InvalidHandle);
        }
        let n = self.slots.len();
        self.slots[h.index] = None;
        let mut i: usize = h.index + 1;
        proof {
            assert forall|j: int| 0 <= j < n implies #[trigger] self.slots@[j] == old(self).swept(
                j,
                h.index as int,
                i as int,
            ) by {
                old(self).lemma_under_behind(j, h.index as int);
            }
        }
        while i < n
            invariant
                old(self).wf(),
                0 < h.index < i <= n,
                n == old(self).slots@.len(),
                n == self.slots@.len(),
                forall|j: int|
                    0 <= j < n ==> #[trigger] self.slots@[j] == old(self).swept(j, h.index as int, i as int),
            decreases n - i,
        {
            proof {
                assert(old(self).slot_ok(i as int));
            }
            let orphan = match &self.slots[i] {
                Some(slot) => self.slots[slot.parent].is_none(),
                None => false,
            };
            if orphan {
                self.slots[i] = None;
            }
            proof {
                let from = old(self).slots@;
                if from[i as int] is Some {
                    let up = from[i as int]->Some_0.parent as int;
                    assert(old(self).under(i as int, h.index as int) == old(self).under(
                        up,
                        h.index as int,
                    ));
                }
                assert forall|j: int| 0 <= j < n implies #[trigger] self.slots@[j] == old(self).swept(
                    j,
                    h.index as int,
                    i + 1,
                ) by {}
            }
            i += 1;
        }
        proof {
            let after = self.slots@;
            assert forall|j: int| 0 < j < after.len() implies #[trigger] self.slot_ok(j) by {
                assert(old(self).slot_ok(j));
            }
            assert forall|a: int, b: int|
                0 < a < after.len() && 0 < b < after.len() && a != b implies #[trigger] self.distinct(
                a,
                b,
            ) by {
                assert(old(self).distinct(a, b));
            }
            assert forall|k: NodeHandle|
                {
                    &&& self.knows(k) == old(self).knows(k)
                    &&& #[trigger] self.live(k) == (old(self).live(k) && !old(self).within(k, h))
                    &&& self.live(k) ==> self.node(k) == old(self).node(k) && self.parent(k) == old(
                        self,
                    ).parent(k)
                } by {}
            self.lemma_siblings_unique();
        }
        Ok(())
    }

    /// `k` is `h`, or lies under it in the tree.
    pub closed spec fn within(self, k: NodeHandle, h: NodeHandle) -> bool {
        self.under(k.index as int, h.index as int)
    }

    spec fn under(self, k: int, h: int) -> bool
        decreases k,
    {
        k == h || (0 < k < self.slots@.len() && self.slots@[k] is Some && self.slots@[k]->Some_0.parent
            < k && self.under(self.slots@[k]->Some_0.parent as int, h))
    }

    /// Slot `j` once the slots before `i` have lost what lies under `h`.
    spec fn swept(self, j: int, h: int, i: int) -> Option<Slot> {
        if j < i && self.under(j, h) {
            None
        } else {
            self.slots@[j]
        }
    }

    /// What lies under `h` was put into the tree after it.
    proof fn lemma_under_behind(self, k: int, h: int)
        ensures
            self.under(k, h) ==> k >= h,
        decreases k,
    {
        if k != h && self.under(k, h) {
            self.lemma_under_behind(self.slots@[k]->Some_0.parent as int, h);
        }
    }

    /// A node lies under `h` if it is `h`, or if its parent lies under
    /// `h`; the root lies under nothing but itself.
    pub proof fn lemma_within(self, k: NodeHandle, h: NodeHandle)
        requires
            self.wf(),
            self.live(k),
        ensures
            self.within(k, h) <==> k == h || (k != Self::top() && self.within(self.parent(k), h)),
    {
        if k != Self::top() {
            assert(self.slot_ok(k.index as int));
        }
    }

    /// `post` is this tree with one node more: `h`, which the tree did not
    /// know, refers to `node` under `p`, and all else is unchanged.
    pub open spec fn after_insertion(
        self,
        node: NodeView,
        p: NodeHandle,
        h: NodeHandle,
        post: Graph,
    ) -> bool {
        &&& !self.knows(h)
        &&& post.knows(h)
        &&& post.live(h)
        &&& h != Self::top()
        &&& post.node(h) == node
        &&& post.parent(h) == p
        &&& forall|k: NodeHandle| self.knows(k) ==> #[trigger] Self::older(k, h)
        &&& forall|k: NodeHandle|
            k != h ==> {
                &&& post.knows(k) == self.knows(k)
                &&& #[trigger] post.live(k) == self.live(k)
                &&& post.node(k) == self.node(k)
                &&& post.parent(k) == self.parent(k)
            }
    }

    /// `h` was handed out by the tree and refers to no node of it any
    /// more.
    pub open spec fn stale(self, h: NodeHandle) -> bool {
        self.knows(h) && !self.live(h)
    }

    /// A removal leaves the handle of the removed node, and the handle of
    /// each node that lay under it, stale: to remove it again, or to put a
    /// node under it, is refused with `InvalidHandle`.
    pub proof fn lemma_removed_is_stale(self, h: NodeHandle, post: Graph, k: NodeHandle)
        requires
            self.wf(),
            self.live(h),
            self.after_removal(h, post),
            self.live(k),
            self.within(k, h),
        ensures
            post.stale(k),
            post.stale(h),
            forall|name: Seq<char>| post.refusal(k, name) == Some(GraphError::InvalidHandle),
    {
        assert(post.live(h) == (self.live(h) && !self.within(h, h)));
        self.lemma_shape(k);
        self.lemma_shape(h);
    }

    /// A stale handle stays stale when a node is put into the tree: no
    /// insertion hands out a handle a second time.
    pub proof fn lemma_stale_after_insertion(
        self,
        node: NodeView,
        p: NodeHandle,
        h: NodeHandle,
        post: Graph,
        k: NodeHandle,
    )
        requires
            self.after_insertion(node, p, h, post),
            self.stale(k),
        ensures
            post.stale(k),
            k != h,
    {
    }

    /// A stale handle stays stale when a node is removed.
    pub proof fn lemma_stale_after_removal(self, h: NodeHandle, post: Graph, k: NodeHandle)
        requires
            self.after_removal(h, post),
            self.stale(k),
        ensures
            post.stale(k),
    {
        assert(post.live(k) == (self.live(k) && !self.within(k, h)));
    }

    /// A stale handle stays stale in a tree of the same shape.
    pub proof fn lemma_stale_same_shape(self, post: Graph, k: NodeHandle)
        requires
            self.same_shape(post),
            self.stale(k),
        ensures
            post.stale(k),
    {
        assert(post.live(k) == self.live(k));
    }

    /// An insertion gives its parent exactly one child more, and takes
    /// room from no other name: a node that could be put under a container
    /// before can be put there afterwards, unless it bears the name of the
    /// new node and goes under the same parent.
    pub proof fn lemma_insertion_leaves_room(
        self,
        node: NodeView,
        p: NodeHandle,
        h: NodeHandle,
        post: Graph,
        q: NodeHandle,
        name: Seq<char>,
    )
        requires
            self.wf(),
            post.wf(),
            self.after_insertion(node, p, h, post),
            self.refusal(q, name) is None,
            !(q == p && name == node.name),
        ensures
            post.refusal(q, name) is None,
            forall|c: NodeHandle| post.is_child(c, p) <==> self.is_child(c, p) || c == h,
    {
        self.lemma_shape(q);
        if post.child_named(q, name) is Some {
            let c = post.child_named(q, name)->Some_0;
            if c != h {
                assert(self.is_child(c, q) && self.node(c).name == name);
            }
        }
        assert forall|c: NodeHandle| post.is_child(c, p) <==> self.is_child(c, p) || c == h by {
            if c == h {
                self.lemma_shape(c);
            }
        }
    }

    /// After an insertion the name of the new node is taken under its
    /// parent: a second node of that name is refused there with
    /// `NameCollision`.
    pub proof fn lemma_insertion_takes_name(
        self,
        node: NodeView,
        p: NodeHandle,
        h: NodeHandle,
        post: Graph,
    )
        requires
            self.wf(),
            self.after_insertion(node, p, h, post),
            self.refusal(p, node.name) is None,
        ensures
            post.refusal(p, node.name) == Some(GraphError::NameCollision),
    {
        self.lemma_shape(p);
        assert(post.is_child(h, p) && post.node(h).name == node.name);
    }

    /// `post` is this tree without the node of `h` and all that lies under
    /// it: the handles it knows are the same, and what stays is unchanged.
    pub open spec fn after_removal(self, h: NodeHandle, post: Graph) -> bool {
        forall|k: NodeHandle|
            {
                &&& post.knows(k) == self.knows(k)
                &&& #[trigger] post.live(k) == (self.live(k) && !self.within(k, h))
                &&& post.live(k) ==> post.node(k) == self.node(k) && post.parent(k) == self.parent(k)
            }
    }

    spec fn names_to(self, k: int) -> Seq<Seq<char>>
        decreases k,
    {
        if 0 < k < self.slots@.len() && self.slots@[k] is Some && self.slots@[k]->Some_0.parent < k {
            self.names_to(self.slots@[k]->Some_0.parent as int).push(
                self.slots@[k]->Some_0.node@.name,
            )
        } else {
            Seq::<Seq<char>>::empty()
        }
    }

    /// The names on the way from the root to the node of `h`, its own
    /// last. The root has none.
    pub closed spec fn segments(self, h: NodeHandle) -> Seq<Seq<char>> {
        self.names_to(h.index as int)
    }

    /// The path of the node of `h`: `/` for the root, and for any other
    /// node each name on the way to it behind a slash.
    pub open spec fn path(self, h: NodeHandle) -> Seq<char> {
        join_path(self.segments(h))
    }

    /// The node reached from `from` by going down the names in turn.
    pub open spec fn find(self, from: NodeHandle, names: Seq<Seq<char>>) -> Option<NodeHandle>
        decreases names.len(),
    {
        if names.len() == 0 {
            Some(from)
        } else {
            match self.child_named(from, names[0]) {
                Some(c) => self.find(c, names.skip(1)),
                None => None,
            }
        }
    }

    /// The node that `path` leads to: its segments are followed from the
    /// root, and there is none where a segment names no child.
    pub open spec fn resolved(self, path: Seq<char>) -> Option<NodeHandle> {
        match split_path(path) {
            Some(names) => self.find(Self::top(), names),
            None => None,
        }
    }

    /// The root has no segments; any other node has those of its parent,
    /// then its own name.
    pub proof fn lemma_segments(self, h: NodeHandle)
        requires
            self.wf(),
            self.live(h),
        ensures
            h == Self::top() ==> self.segments(h) == Seq::<Seq<char>>::empty(),
            h != Self::top() ==> self.segments(h) == self.segments(self.parent(h)).push(
                self.node(h).name,
            ),
    {
        if h != Self::top() {
            assert(self.slot_ok(h.index as int));
        }
    }

    /// In a well-formed tree, the child that bears a name is the only one.
    pub proof fn lemma_child_named(self, c: NodeHandle, p: NodeHandle)
        requires
            self.wf(),
            self.is_child(c, p),
        ensures
            self.child_named(p, self.node(c).name) == Some(c),
    {
        let name = self.node(c).name;
        let other = choose|x: NodeHandle| self.is_child(x, p) && self.node(x).name == name;
        if other != c {
            assert(self.distinct(other.index as int, c.index as int));
        }
    }

    /// Going down two rows of names is going down the first, then the
    /// second.
    pub proof fn lemma_find_concat(self, from: NodeHandle, a: Seq<Seq<char>>, b: Seq<Seq<char>>)
        ensures
            self.find(from, a + b) == match self.find(from, a) {
                Some(m) => self.find(m, b),
                None => None,
            },
        decreases a.len(),
    {
        if a.len() != 0 {
            assert((a + b).skip(1) =~= a.skip(1) + b);
            match self.child_named(from, a[0]) {
                Some(c) => {
                    self.lemma_find_concat(c, a.skip(1), b);
                },
                None => {},
            }
        }
    }

    proof fn lemma_names_lead_back(self, k: int)
        requires
            self.wf(),
            0 <= k < self.slots@.len(),
            self.slots@[k] is Some,
        ensures
            self.find(Self::top(), self.names_to(k)) == Some(NodeHandle { index: k as usize }),
            forall|i: int|
                0 <= i < self.names_to(k).len() ==> valid_name(#[trigger] self.names_to(k)[i]),
        decreases k,
    {
        if k > 0 {
            assert(self.slot_ok(k));
            let up = self.slots@[k]->Some_0.parent as int;
            let name = self.slots@[k]->Some_0.node@.name;
            self.lemma_names_lead_back(up);
            let me = NodeHandle { index: k as usize };
            let p = NodeHandle { index: up as usize };
            self.lemma_find_concat(Self::top(), self.names_to(up), seq![name]);
            assert(self.names_to(up) + seq![name] =~= self.names_to(k));
            self.lemma_child_named(me, p);
            assert(seq![name].skip(1) =~= Seq::<Seq<char>>::empty());
            assert(self.find(me, Seq::<Seq<char>>::empty()) == Some(me));
        }
    }

    /// Following the segments of a node from the root leads to that node,
    /// and each of them is a valid name.
    pub proof fn lemma_find_segments(self, h: NodeHandle)
        requires
            self.wf(),
            self.live(h),
        ensures
            self.find(Self::top(), self.segments(h)) == Some(h),
            forall|i: int|
                0 <= i < self.segments(h).len() ==> valid_name(#[trigger] self.segments(h)[i]),
    {
        self.lemma_names_lead_back(h.index as int);
    }

    /// Where going down names from a node of the tree leads somewhere, it
    /// leads to a node of the tree whose segments are those of the start,
    /// then the names.
    pub proof fn lemma_found_segments(self, from: NodeHandle, names: Seq<Seq<char>>)
        requires
            self.wf(),
            self.live(from),
            self.find(from, names) is Some,
        ensures
            self.live(self.find(from, names)->Some_0),
            self.segments(self.find(from, names)->Some_0) == self.segments(from) + names,
        decreases names.len(),
    {
        if names.len() != 0 {
            let c = self.child_named(from, names[0])->Some_0;
            self.lemma_segments(c);
            self.lemma_found_segments(c, names.skip(1));
            assert(self.segments(from).push(names[0]) + names.skip(1) =~= self.segments(from)
                + names);
        }
    }

    /// The path of a node leads to that node.
    pub proof fn lemma_path_resolves(self, h: NodeHandle)
        requires
            self.wf(),
            self.live(h),
        ensures
            self.resolved(self.path(h)) == Some(h),
    {
        self.lemma_find_segments(h);
        lemma_split_join(self.segments(h));
    }

    /// A path leads to no node but the one whose path it is.
    pub proof fn lemma_resolved_path(self, path: Seq<char>)
        requires
            self.wf(),
            self.resolved(path) is Some,
        ensures
            self.live(self.resolved(path)->Some_0),
            self.path(self.resolved(path)->Some_0) == path,
    {
        let names = split_path(path)->Some_0;
        self.lemma_shape(Self::top());
        self.lemma_found_segments(Self::top(), names);
        self.lemma_segments(Self::top());
        lemma_join_split(path);
    }

    /// The node that `path` leads to. A path begins with a slash; `/` is
    /// the root; each further slash begins the name of a child.
    pub fn resolve(&self, path: &str) -> (r: Option<NodeHandle>)
        requires
            self.wf(),
        ensures
            r == self.resolved(path@),
    {
        let names = match split(path) {
            Some(names) => names,
            None => {
                return None;
            },
        };
        let mut at = self.root();
        let mut i: usize = 0;
        assert(texts(names@).skip(0) =~= texts(names@));
        while i < names.len()
            invariant
                self.wf(),
                i <= names@.len(),
                self.resolved(path@) == self.find(at, texts(names@).skip(i as int)),
            decreases names@.len() - i,
        {
            let ghost rest = texts(names@).skip(i as int);
            proof {
                assert(rest.skip(1) =~= texts(names@).skip(i + 1));
            }
            match self.find_child(at, &names[i]) {
                Some(c) => {
                    at = c;
                },
                None => {
                    return None;
                },
            }
            i += 1;
        }
        Some(at)
    }

    /// `other` has the shape of this tree: the same handles refer to nodes
    /// in both, under the same parents, and the nodes differ at most in what
    /// their parameters store.
    pub open spec fn same_shape(self, other: Graph) -> bool {
        forall|k: NodeHandle|
            {
                &&& other.knows(k) == self.knows(k)
                &&& #[trigger] other.live(k) == self.live(k)
                &&& self.live(k) ==> other.parent(k) == self.parent(k) && self.node(
                    k,
                ).same_but_values(other.node(k))
            }
    }

    /// What has the shape of a tree of this shape has this shape.
    pub proof fn lemma_same_shape_chain(self, middle: Graph, other: Graph)
        requires
            self.same_shape(middle),
            middle.same_shape(other),
        ensures
            self.same_shape(other),
    {
        assert forall|k: NodeHandle|
            {
                &&& other.knows(k) == self.knows(k)
                &&& #[trigger] other.live(k) == self.live(k)
                &&& self.live(k) ==> other.parent(k) == self.parent(k) && self.node(
                    k,
                ).same_but_values(other.node(k))
            } by {}
    }

    /// Trees of one shape have the same children under the same names.
    pub proof fn lemma_same_shape_child(self, other: Graph, p: NodeHandle, name: Seq<char>)
        requires
            self.wf(),
            other.wf(),
            self.same_shape(other),
        ensures
            other.child_named(p, name) == self.child_named(p, name),
    {
        if self.child_named(p, name) is Some {
            let c = self.child_named(p, name)->Some_0;
            other.lemma_child_named(c, p);
        } else if other.child_named(p, name) is Some {
            let c = other.child_named(p, name)->Some_0;
            assert(self.is_child(c, p) && self.node(c).name == name);
        }
    }

    /// Trees of one shape lead from the same node down the same names to the
    /// same node.
    pub proof fn lemma_same_shape_find(self, other: Graph, from: NodeHandle, names: Seq<Seq<char>>)
        requires
            self.wf(),
            other.wf(),
            self.same_shape(other),
        ensures
            other.find(from, names) == self.find(from, names),
        decreases names.len(),
    {
        if names.len() > 0 {
            self.lemma_same_shape_child(other, from, names[0]);
            match self.child_named(from, names[0]) {
                Some(c) => self.lemma_same_shape_find(other, c, names.skip(1)),
                None => {},
            }
        }
    }

    /// In trees of one shape a path leads to the same node.
    pub proof fn lemma_same_shape_resolved(self, other: Graph, path: Seq<char>)
        requires
            self.wf(),
            other.wf(),
            self.same_shape(other),
        ensures
            other.resolved(path) == self.resolved(path),
    {
        if split_path(path) is Some {
            self.lemma_same_shape_find(other, Self::top(), split_path(path)->Some_0);
        }
    }

    /// Sends the arguments of a message to the node of `h`. A leaf that
    /// takes writes stores them place by place, each clipped as its value
    /// asks; an argument of another type than its parameter's, and one
    /// without a parameter, is dropped. Any other node is left as it is.
    /// Returns whether the node takes writes.
    pub fn write(&mut self, h: NodeHandle, args: &Vec<Arg>) -> (writable: bool)
        requires
            old(self).wf(),
        ensures
            final(self).wf(),
            writable == (old(self).live(h) && old(self).node(h).kind.writable()),
            old(self).same_shape(*final(self)),
            forall|k: NodeHandle|
                old(self).live(k) ==> #[trigger] final(self).node(k) == if k == h {
                    old(self).node(k).received(args@)
                } else {
                    old(self).node(k)
                },
    {
        if h.index >= self.slots.len() {
            return false;
        }
        let wrote = match &mut self.slots[h.index] {
            Some(slot) => slot.node.receive(args),
            None => false,
        };
        proof {
            let before = old(self).slots@;
            let after = self.slots@;
            let at = h.index as int;
            if before[at] is Some {
                before[at]->Some_0.node@.lemma_received(args@);
            }
            assert forall|i: int| 0 < i < after.len() implies #[trigger] self.slot_ok(i) by {
                assert(old(self).slot_ok(i));
            }
            assert forall|i: int, j: int|
                0 < i < after.len() && 0 < j < after.len() && i != j implies #[trigger] self.distinct(
                i,
                j,
            ) by {
                assert(old(self).distinct(i, j));
            }
        }
        wrote
    }

    /// The path of the node that `h` refers to.
    pub fn path_of(&self, h: NodeHandle) -> (r: Option<String>)
        requires
            self.wf(),
        ensures
            r is Some <==> self.live(h),
            r matches Some(path) ==> path@ == self.path(h),
    {
        if !self.contains(h) {
            return None;
        }
        let mut chain: Vec<usize> = Vec::new();
        let mut k: usize = h.index;
        while k != 0
            invariant
                self.wf(),
                k < self.slots@.len(),
                self.slots@[k as int] is Some,
                forall|t: int|
                    0 <= t < chain@.len() ==> 0 < #[trigger] chain@[t] < self.slots@.len()
                        && self.slots@[chain@[t] as int] is Some,
                forall|t: int|
                    0 <= t < chain@.len() - 1 ==> self.slots@[#[trigger] chain@[t] as int]->Some_0.parent
                        == chain@[t + 1],
                chain@.len() > 0 ==> chain@[0] == h.index && self.slots@[chain@.last() as int]->Some_0.parent
                    == k,
                chain@.len() == 0 ==> k == h.index,
            decreases k,
        {
            proof {
                assert(self.slot_ok(k as int));
            }
            let up = match &self.slots[k] {
                Some(slot) => slot.parent,
                None => 0,
            };
            chain.push(k);
            k = up;
        }
        let mut out = String::new();
        let mut j: usize = chain.len();
        if j == 0 {
            proof {
                reveal_strlit("/");
            }
            out.append("/");
            return Some(out);
        }
        while j > 0
            invariant
                self.wf(),
                j <= chain@.len(),
                chain@.len() > 0,
                chain@[0] == h.index,
                self.slots@[chain@.last() as int]->Some_0.parent == 0,
                forall|t: int|
                    0 <= t < chain@.len() ==> 0 < #[trigger] chain@[t] < self.slots@.len()
                        && self.slots@[chain@[t] as int] is Some,
                forall|t: int|
                    0 <= t < chain@.len() - 1 ==> self.slots@[#[trigger] chain@[t] as int]->Some_0.parent
                        == chain@[t + 1],
                j == chain@.len() ==> out@ == Seq::<char>::empty(),
                j < chain@.len() ==> out@ == join_path(self.names_to(chain@[j as int] as int)),
            decreases j,
        {
            j -= 1;
            let at = chain[j];
            proof {
                reveal_strlit("/");
                assert(self.slot_ok(at as int));
                let up = self.slots@[at as int]->Some_0.parent as int;
                let name = self.slots@[at as int]->Some_0.node@.name;
                lemma_join_push(self.names_to(up), name);
                if j + 1 != chain@.len() {
                    self.lemma_names_lead_back(up);
                }
            }
            match &self.slots[at] {
                Some(slot) => {
                    out.append("/");
                    out.append(slot.node.name().as_str());
                },
                None => {},
            }
        }
        Some(out)
    }

    /// The children of the node that `h` refers to, in the order in which
    /// they were put into the tree. A leaf has none, and neither has a
    /// handle that refers to no node.
    pub fn children(&self, h: NodeHandle) -> (r: Vec<NodeHandle>)
        requires
            self.wf(),
        ensures
            r@.no_duplicates(),
            forall|c: NodeHandle| r@.contains(c) <==> self.is_child(c, h),
            forall|s: int, t: int| 0 <= s < t < r@.len() ==> Self::older(r@[s], r@[t]),
    {
        let mut out: Vec<NodeHandle> = Vec::new();
        let mut i: usize = 1;
        while i < self.slots.len()
            invariant
                1 <= i,
                forall|t: int| 0 <= t < out@.len() ==> (#[trigger] out@[t]).index < i,
                forall|s: int, t: int| 0 <= s < t < out@.len() ==> Self::older(out@[s], out@[t]),
                out@.no_duplicates(),
                forall|c: NodeHandle|
                    out@.contains(c) <==> #[trigger] self.is_child(c, h) && c.index < i,
            decreases self.slots@.len() - i,
        {
            let here = NodeHandle { index: i };
            let is_child = match &self.slots[i] {
                Some(slot) => slot.parent == h.index,
                None => false,
            };
            if is_child {
                let ghost before = out@;
                out.push(here);
                proof {
                    assert forall|c: NodeHandle|
                        out@.contains(c) <==> #[trigger] self.is_child(c, h) && c.index < i + 1 by {
                        if self.is_child(c, h) && c.index < i + 1 {
                            if c.index < i {
                                let t = choose|t: int| 0 <= t < before.len() && before[t] == c;
                                assert(out@[t] == c);
                            } else {
                                assert(out@[before.len() as int] == c);
                            }
                        }
                    }
                }
            } else {
                proof {
                    assert forall|c: NodeHandle|
                        out@.contains(c) <==> #[trigger] self.is_child(c, h) && c.index < i + 1 by {}
                }
            }
            i += 1;
        }
        out
    }

    /// The node under which an insertion goes: the given parent, or the
    /// root where none is given.
    pub open spec fn target(parent: Option<NodeHandle>) -> NodeHandle {
        match parent {
            Some(p) => p,
            None => Self::top(),
        }
    }
}

} // verus!
