use crate::soul::edge::Edge;
use crate::soul::node::Node;
use std::collections::HashMap;
use vstd::prelude::*;

verus! {

broadcast use vstd::std_specs::hash::group_hash_axioms;

/// Nodes by their identifier, and the relations between them in the order they were
/// added.
pub struct Graph {
    pub nodes: HashMap<u128, Node>,
    pub edges: Vec<Edge>,
}

/// The nodes that `edges` lead to from the node `id`, one for each edge that starts
/// there and points to a node of `nodes`, in the order of the edges.
pub open spec fn neighbors_of(nodes: Map<u128, Node>, edges: Seq<Edge>, id: u128) -> Seq<Node>
    decreases edges.len(),
{
    if edges.len() == 0 {
        Seq::<Node>::empty()
    } else {
        let before = neighbors_of(nodes, edges.drop_last(), id);
        let edge = edges.last();
        if edge.from == id && nodes.dom().contains(edge.to) {
            before.push(nodes[edge.to])
        } else {
            before
        }
    }
}

impl Graph {
    /// A graph without nodes and without edges.
    pub fn new() -> (graph: Self)
        ensures
            graph.nodes@ == Map::<u128, Node>::empty(),
            graph.edges@ == Seq::<Edge>::empty(),
    {
        Self { nodes: HashMap::new(), edges: Vec::new() }
    }

    /// Puts `node` under its identifier, in place of a node that had the same one.
    pub fn add_node(&mut self, node: Node)
        ensures
            final(self).nodes@ == old(self).nodes@.insert(node.id, node),
            final(self).edges == old(self).edges,
    {
        self.nodes.insert(node.id, node);
    }

    /// The nodes that an edge leads to from the node `node_id`, in the order of the
    /// edges. An edge that points to no node of the graph gives none.
    pub fn neighbors(&self, node_id: u128) -> (found: Vec<&Node>)
        ensures
            found@.map_values(|node: &Node| *node) == neighbors_of(
                self.nodes@,
                self.edges@,
                node_id,
            ),
    {
        let mut found: Vec<&Node> = Vec::new();
        let mut i: usize = 0;
        while i < self.edges.len()
            invariant
                i <= self.edges.len(),
                found@.map_values(|node: &Node| *node) == neighbors_of(
                    self.nodes@,
                    self.edges@.take(i as int),
                    node_id,
                ),
            decreases self.edges.len() - i,
        {
            let ghost seen = found@;
            let edge = &self.edges[i];
            if edge.from == node_id {
                match self.nodes.get(&edge.to) {
                    Some(node) => {
                        found.push(node);
                        assert(found@.map_values(|node: &Node| *node) =~= seen.map_values(
                            |node: &Node| *node,
                        ).push(*node));
                    },
                    None => {},
                }
            }
            proof {
                assert(self.edges@.take(i + 1).drop_last() =~= self.edges@.take(i as int));
            }
            i = i + 1;
        }
        proof {
            assert(self.edges@.take(i as int) =~= self.edges@);
        }
        found
    }
}

} // verus!
