use vstd::prelude::*;

verus! {

/// A note of the graph.
#[derive(Debug, Clone)]
pub struct Node {
    /// The identifier of the node: the 128 bits of its UUID.
    pub id: u128,
    pub label: String,
    /// What the node holds: a thought, a memory.
    pub data: String,
    /// The mood the node was written in, if any.
    pub emotion: Option<String>,
    pub tags: Vec<String>,
    /// When the node was made, in milliseconds since the Unix epoch, UTC.
    pub created_at: i64,
}

} // verus!
