use vstd::prelude::*;

use crate::decompiler::structure_analysis::region::RegionId;
use crate::decompiler::structure_analysis::ControlFlowEdgeType;

verus! {

/// A phi node of SSA form: a value merged from the regions that precede a block.
#[derive(Debug, PartialEq, Eq, Hash)]
pub struct PhiNode {
    /// Whether the node's value is known.
    pub resolved: bool,
    /// The predecessor regions, each with the kind of its edge.
    pub region_ids: Vec<(RegionId, ControlFlowEdgeType)>,
    /// The index of the node in its block.
    pub idx: usize,
}

impl PhiNode {
    /// Creates an unresolved phi node without predecessor regions.
    pub fn new(idx: usize) -> (n: Self)
        ensures
            n.idx == idx,
            !n.resolved,
            n.region_ids@ == Seq::<(RegionId, ControlFlowEdgeType)>::empty(),
    {
        PhiNode { idx, resolved: false, region_ids: Vec::new() }
    }

    /// Returns the index of the phi node.
    pub fn idx(&self) -> (i: usize)
        ensures
            i == self.idx,
    {
        self.idx
    }

    /// Adds a predecessor region.
    pub fn add_region(&mut self, region: RegionId, edge_type: ControlFlowEdgeType)
        ensures
            final(self).region_ids@ == old(self).region_ids@.push((region, edge_type)),
            final(self).idx == old(self).idx,
            final(self).resolved == old(self).resolved,
    {
        self.region_ids.push((region, edge_type));
    }

    /// Adds predecessor regions, in order.
    pub fn add_regions(&mut self, regions: Vec<(RegionId, ControlFlowEdgeType)>)
        ensures
            final(self).region_ids@ == old(self).region_ids@ + regions@,
            final(self).idx == old(self).idx,
            final(self).resolved == old(self).resolved,
    {
        let mut regions = regions;
        self.region_ids.append(&mut regions);
    }

    /// Returns the predecessor regions.
    pub fn regions(&self) -> (r: &[(RegionId, ControlFlowEdgeType)])
        ensures
            r@ == self.region_ids@,
    {
        self.region_ids.as_slice()
    }
}

} // verus!
