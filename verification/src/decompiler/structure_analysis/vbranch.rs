use vstd::prelude::*;

use crate::decompiler::ast::convert::IntoAst;
use crate::decompiler::ast::new_virtual_branch;
use crate::decompiler::ast::view::{AstV, StmtV};
use crate::decompiler::structure_analysis::region::{RegionId, RegionType, RegionV};
use crate::decompiler::structure_analysis::{
    first_edge, is_not_found, is_other, lemma_successor_edge, successors_of, AnalysisV,
    StructureAnalysis, StructureAnalysisError,
};

verus! {

/// The analysis after the linear region `region` ends in a branch to `succ`: the region
/// gains the branch node, becomes a tail, and loses its edge to `succ`.
pub open spec fn branched(a: AnalysisV, region: RegionId, succ: RegionId) -> AnalysisV {
    let reg = a.region(region);
    let b = a.with_region(
        region,
        RegionV {
            nodes: reg.nodes.push(AstV::Statement(Seq::empty(), StmtV::VirtualBranch(succ.index))),
            region_type: RegionType::Tail,
            ..reg
        },
    );
    AnalysisV { edges: b.edges.remove(first_edge(b.edges, region, succ)->Some_0 as int), ..b }
}

/// If a linear region has one successor, ends it with a branch to that successor.
pub struct VirtualBranchReducer;

impl VirtualBranchReducer {
    /// Ends linear region `region_id` with a branch to its only successor; gives whether it
    /// did.
    pub fn reduce_region(&mut self, analysis: &mut StructureAnalysis, region_id: RegionId) -> (r: Result<
        bool,
        StructureAnalysisError,
    >)
        requires
            old(analysis).wf(),
        ensures
            final(analysis).wf(),
            final(analysis)@.regions.len() == old(analysis)@.regions.len(),
            final(analysis)@.debug_mode == old(analysis)@.debug_mode,
            final(analysis)@.max_iterations == old(analysis)@.max_iterations,
            ({
                let a = old(analysis)@;
                let succs = successors_of(a.edges, region_id);
                if !a.has_slot(region_id) {
                    is_not_found(r, region_id) && final(analysis)@ == a
                } else if a.region(region_id).region_type != RegionType::Linear {
                    r == Ok::<bool, StructureAnalysisError>(false) && final(analysis)@ == a
                } else if !a.has_region(region_id) {
                    is_not_found(r, region_id) && final(analysis)@ == a
                } else if succs.len() != 1 {
                    is_other(r, "Linear region does not have exactly one successor"@) && final(analysis)@ == a
                } else {
                    r == Ok::<bool, StructureAnalysisError>(true) && final(analysis)@ == branched(
                        a,
                        region_id,
                        succs[0].0,
                    )
                }
            }),
    {
        let ghost a = analysis@;
        match analysis.get_region_type(region_id) {
            Ok(t) => if t != RegionType::Linear {
                return Ok(false);
            },
            Err(e) => return Err(e),
        }
        let successor_id = match analysis.get_single_successor(region_id) {
            Ok(Some(s)) => s,
            Ok(None) => {
                return Err(StructureAnalysisError::Other {
                    message: String::from_str("Linear region does not have exactly one successor"),
                });
            },
            Err(e) => return Err(e),
        };
        let vbranch = new_virtual_branch(successor_id);
        match analysis.get_region_mut(region_id) {
            Ok(region) => {
                region.push_node(vbranch.into_ast());
                region.set_region_type(RegionType::Tail);
            },
            Err(e) => return Err(e),
        }
        let ghost b = analysis@;
        proof {
            lemma_successor_edge(a.edges, region_id, 0);
            assert(b.edges == a.edges);
            assert(b.regions.len() == a.regions.len());
            assert forall|i: int| 0 <= i < b.edges.len() implies b.has_region(#[trigger] b.edges[i].from)
                && b.has_region(b.edges[i].to) by {
                assert(a.has_region(a.edges[i].from));
                assert(a.has_region(a.edges[i].to));
            }
            assert(analysis.wf());
        }
        match analysis.remove_edge(region_id, successor_id) {
            Ok(()) => {},
            Err(e) => return Err(e),
        }
        Ok(true)
    }
}

} // verus!
