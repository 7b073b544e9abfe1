use vstd::prelude::*;

verus! {

/// How one node relates to another.
#[derive(Debug, Clone, Copy, PartialEq, Eq, Hash, Structural)]
pub enum RelationType {
    Inspires,
    Contradicts,
    Extends,
    DreamedIn,
    ForgottenBy,
    MergesWith,
}

/// A directed relation between two nodes.
#[derive(Debug, Clone)]
pub struct Edge {
    /// The identifier of the node the relation starts at.
    pub from: u128,
    /// The identifier of the node the relation points to.
    pub to: u128,
    pub relation: RelationType,
    /// The strength of the relation: the bits of a single-precision number.
    pub weight: u32,
    /// When the relation last changed, in milliseconds since the Unix epoch, UTC.
    pub last_updated: i64,
}

} // verus!
