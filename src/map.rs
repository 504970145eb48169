//! An index-based tree store: nodes live in one vector and refer to each
//! other by position.
use vstd::prelude::*;

verus! {

/// The position of a node in its arena.
#[derive(Clone, Copy, Debug, PartialEq, Eq, Structural)]
pub struct NodeId {
    index: usize,
}

impl NodeId {
    /// The node's position in the arena.
    pub closed spec fn at(self) -> int {
        self.index as int
    }
}

/// A tree node with links to its relatives.
#[derive(Debug)]
pub struct Node<T> {
    parent: Option<NodeId>,
    previous_sibling: Option<NodeId>,
    next_sibling: Option<NodeId>,
    first_child: Option<NodeId>,
    last_child: Option<NodeId>,
    pub data: T,
}

impl<T> Node<T> {
    /// The value the node holds.
    pub closed spec fn value(&self) -> T {
        self.data
    }

    pub closed spec fn parent(&self) -> Option<NodeId> {
        self.parent
    }

    pub closed spec fn previous_sibling(&self) -> Option<NodeId> {
        self.previous_sibling
    }

    pub closed spec fn next_sibling(&self) -> Option<NodeId> {
        self.next_sibling
    }

    pub closed spec fn first_child(&self) -> Option<NodeId> {
        self.first_child
    }

    pub closed spec fn last_child(&self) -> Option<NodeId> {
        self.last_child
    }
}

/// Owns every node; nodes refer to each other by `NodeId`.
pub struct Arena<T> {
    pub nodes: Vec<Node<T>>,
}

impl<T> Arena<T> {
    pub fn new() -> (r: Self)
        ensures
            r.nodes@.len() == 0,
    {
        Self { nodes: Vec::new() }
    }

    /// The node at `node_id`, if there is one.
    pub fn get(&self, node_id: NodeId) -> (r: Option<&Node<T>>)
        ensures
            match r {
                Some(n) => 0 <= node_id.at() < self.nodes@.len() && *n == self.nodes@[node_id.at()],
                None => node_id.at() >= self.nodes@.len(),
            },
    {
        if node_id.index < self.nodes.len() {
            Some(&self.nodes[node_id.index])
        } else {
            None
        }
    }

    /// The leaf reached from `id` by following first children, taking at
    /// most `fuel` steps; `None` if the walk leaves the arena or runs out.
    pub open spec fn leftmost_leaf(&self, id: NodeId, fuel: nat) -> Option<NodeId>
        decreases fuel,
    {
        if !(0 <= id.at() < self.nodes@.len()) {
            None
        } else {
            match self.nodes@[id.at()].first_child() {
                None => Some(id),
                Some(c) => if fuel == 0 {
                    None
                } else {
                    self.leftmost_leaf(c, (fuel - 1) as nat)
                },
            }
        }
    }

    /// Adds a detached node holding `data`.
    pub fn new_node(&mut self, data: T) -> (r: NodeId)
        ensures
            r.at() == old(self).nodes@.len(),
            final(self).nodes@.len() == old(self).nodes@.len() + 1,
            forall|i: int| 0 <= i < old(self).nodes@.len() ==> #[trigger] final(self).nodes@[i] == old(self).nodes@[i],
            final(self).nodes@[r.at()].value() == data,
            final(self).nodes@[r.at()].parent() is None,
            final(self).nodes@[r.at()].previous_sibling() is None,
            final(self).nodes@[r.at()].next_sibling() is None,
            final(self).nodes@[r.at()].first_child() is None,
            final(self).nodes@[r.at()].last_child() is None,
    {
        let next_index = self.nodes.len();
        self.nodes.push(
            Node {
                parent: None,
                first_child: None,
                last_child: None,
                previous_sibling: None,
                next_sibling: None,
                data,
            },
        );
        NodeId { index: next_index }
    }

    fn leaves_within(&self, node_id: NodeId, fuel: usize) -> (r: Vec<NodeId>)
        ensures
            r@ == match self.leftmost_leaf(node_id, fuel as nat) {
                Some(l) => seq![l],
                None => Seq::<NodeId>::empty(),
            },
        decreases fuel,
    {
        let mut leaf_node_ids: Vec<NodeId> = Vec::new();
        if node_id.index >= self.nodes.len() {
            return leaf_node_ids;
        }
        let node = &self.nodes[node_id.index];
        match node.first_child {
            None => {
                leaf_node_ids.push(node_id);
                proof {
                    assert(leaf_node_ids@ =~= seq![node_id]);
                }
            },
            Some(left) => {
                if fuel > 0 {
                    let mut below = self.leaves_within(left, fuel - 1);
                    let ghost found = below@;
                    leaf_node_ids.append(&mut below);
                    proof {
                        assert(leaf_node_ids@ =~= found);
                    }
                }
            },
        }
        leaf_node_ids
    }

    /// The leaf under `node_id` found by following first children (a node
    /// without a first child is its own leaf). A walk that leaves the arena
    /// or does not end within as many steps as there are nodes (a cycle)
    /// gives no leaf.
    pub fn get_all_leaf_nodes(&self, node_id: NodeId) -> (r: Vec<NodeId>)
        requires
            0 <= node_id.at() < self.nodes@.len(),
        ensures
            r@ == match self.leftmost_leaf(node_id, self.nodes@.len()) {
                Some(l) => seq![l],
                None => Seq::<NodeId>::empty(),
            },
    {
        self.leaves_within(node_id, self.nodes.len())
    }
}

} // verus!
