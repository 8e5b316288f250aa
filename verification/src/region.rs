use vstd::prelude::*;

verus! {

/// Tag naming which of the four queues currently owns a node.
///
/// The three access-order regions (`Window`, `MainProbation`, `MainProtected`)
/// order entries by recency of use; `WriteOrder` orders entries by the time
/// of their last write. A node's tag always equals the region of the queue
/// that holds it.
#[derive(Clone, Copy, Debug, PartialEq, Eq, Structural)]
pub enum CacheRegion {
    Window,
    MainProbation,
    MainProtected,
    WriteOrder,
}

} // verus!
