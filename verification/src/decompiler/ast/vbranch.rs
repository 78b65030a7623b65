use vstd::prelude::*;

use crate::decompiler::structure_analysis::region::RegionId;

verus! {

/// A branch to another region, left in a region that the structuring could not merge.
#[derive(Debug, PartialEq, Eq)]
pub struct VirtualBranchNode {
    /// The region to branch to.
    pub branch: RegionId,
}

impl VirtualBranchNode {
    /// Creates a branch to `branch`.
    pub fn new(branch: RegionId) -> (n: Self)
        ensures
            n.branch == branch,
    {
        VirtualBranchNode { branch }
    }

    /// Returns the region to branch to.
    pub fn branch(&self) -> (r: RegionId)
        ensures
            r == self.branch,
    {
        self.branch
    }
}

} // verus!
