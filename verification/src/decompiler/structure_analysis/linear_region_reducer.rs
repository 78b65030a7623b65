use vstd::prelude::*;

use crate::decompiler::ast::copies::copy_asts;
use crate::decompiler::structure_analysis::region::{RegionId, RegionType, RegionV};
use crate::decompiler::structure_analysis::{
    edges_from, is_not_found, is_other, lemma_neighbors_in_graph, predecessors_of, successors_of,
    AnalysisV, ControlFlowEdgeType, StructureAnalysis, StructureAnalysisError,
};

verus! {

/// `to` after taking over the nodes, jump expression and type of `from`.
pub open spec fn merged_region(to: RegionV, from: RegionV) -> RegionV {
    RegionV {
        nodes: to.nodes + from.nodes,
        jump_expr: from.jump_expr,
        region_type: from.region_type,
        ..to
    }
}

/// The analysis after `succ` is merged into `region`: the region takes over the successor's
/// nodes, jump expression and type and its outgoing edges, and the successor leaves the
/// graph.
pub open spec fn linear_merged(a: AnalysisV, region: RegionId, succ: RegionId) -> AnalysisV {
    let b = a.with_region(region, merged_region(a.region(region), a.region(succ)));
    AnalysisV { edges: b.edges + edges_from(region, successors_of(b.edges, succ)), ..b }.without_region(succ)
}

/// Merging keeps program order: the region's own nodes come first, unchanged, and the
/// successor's nodes follow them, unchanged.
pub proof fn law_linear_merge_keeps_order(a: AnalysisV, region: RegionId, succ: RegionId)
    requires
        region.index < a.regions.len(),
        succ.index < a.regions.len(),
    ensures
        ({
            let own = a.region(region).nodes;
            let next = a.region(succ).nodes;
            let merged = linear_merged(a, region, succ).region(region).nodes;
            &&& merged.len() == own.len() + next.len()
            &&& forall|i: int| 0 <= i < own.len() ==> merged[i] == own[i]
            &&& forall|j: int| 0 <= j < next.len() ==> merged[own.len() + j] == next[j]
        }),
{
}

/// Reduces a linear region into its only successor.
pub struct LinearRegionReducer;

impl LinearRegionReducer {
    /// Merges the nodes, jump expression and type of region `from` into region `to`.
    fn merge_regions(analysis: &mut StructureAnalysis, from: RegionId, to: RegionId) -> (r: Result<
        (),
        StructureAnalysisError,
    >)
        requires
            old(analysis).wf(),
        ensures
            final(analysis).wf(),
            ({
                let a = old(analysis)@;
                if !a.has_slot(from) {
                    is_not_found(r, from) && final(analysis)@ == a
                } else if !a.has_slot(to) {
                    is_not_found(r, to) && final(analysis)@ == a
                } else if a.region(from).region_type == RegionType::Inactive {
                    is_other(r, "Cannot merge inactive region"@) && final(analysis)@ == a
                } else {
                    r is Ok && final(analysis)@ == a.with_region(to, merged_region(a.region(to), a.region(from)))
                }
            }),
    {
        let from_region = match analysis.get_region(from) {
            Ok(reg) => reg,
            Err(e) => return Err(e),
        };
        let from_nodes = copy_asts(from_region.get_nodes());
        let from_jump_expr = from_region.copy_jump_expr();
        let region_type = from_region.get_region_type();
        match analysis.get_region(to) {
            Ok(_) => {},
            Err(e) => return Err(e),
        }
        if region_type == RegionType::Inactive {
            return Err(StructureAnalysisError::Other { message: String::from_str("Cannot merge inactive region") });
        }
        let ghost before = analysis@;
        match analysis.get_region_mut(to) {
            Ok(to_region) => {
                to_region.push_nodes(from_nodes);
                to_region.set_jump_expr(from_jump_expr);
                to_region.set_region_type(region_type);
            },
            Err(e) => return Err(e),
        }
        proof {
            assert(analysis@.regions.len() == before.regions.len());
            assert forall|i: int| 0 <= i < analysis@.edges.len() implies analysis@.has_region(
                #[trigger] analysis@.edges[i].from,
            ) && analysis@.has_region(analysis@.edges[i].to) by {
                assert(before.has_region(before.edges[i].from));
                assert(before.has_region(before.edges[i].to));
            }
        }
        Ok(())
    }

    /// Merges region `region_id` with its only successor when that successor has no other
    /// predecessor; gives whether it did.
    pub fn reduce_region(&mut self, analysis: &mut StructureAnalysis, region_id: RegionId) -> (r: Result<
        bool,
        StructureAnalysisError,
    >)
        requires
            old(analysis).wf(),
        ensures
            final(analysis).wf(),
            final(analysis)@.regions.len() == old(analysis)@.regions.len(),
            final(analysis)@.debug_mode == old(analysis)@.debug_mode,
            final(analysis)@.max_iterations == old(analysis)@.max_iterations,
            ({
                let a = old(analysis)@;
                let succs = successors_of(a.edges, region_id);
                if !a.has_region(region_id) {
                    is_not_found(r, region_id) && final(analysis)@ == a
                } else if succs.len() != 1 {
                    is_other(r, "Linear region does not have exactly one successor"@) && final(analysis)@ == a
                } else if predecessors_of(a.edges, succs[0].0).len() != 1 {
                    r == Ok::<bool, StructureAnalysisError>(false) && final(analysis)@ == a
                } else if a.region(succs[0].0).region_type == RegionType::Inactive {
                    is_other(r, "Cannot merge inactive region"@) && final(analysis)@ == a
                } else {
                    r == Ok::<bool, StructureAnalysisError>(true) && final(analysis)@ == linear_merged(
                        a,
                        region_id,
                        succs[0].0,
                    )
                }
            }),
    {
        let ghost a = analysis@;
        let succ = match analysis.get_single_successor(region_id) {
            Ok(Some(s)) => s,
            Ok(None) => {
                return Err(StructureAnalysisError::Other {
                    message: String::from_str("Linear region does not have exactly one successor"),
                });
            },
            Err(e) => return Err(e),
        };
        proof {
            lemma_neighbors_in_graph(a, region_id);
            assert(a.has_region(successors_of(a.edges, region_id)[0].0));
        }
        match analysis.has_single_predecessor(succ) {
            Ok(true) => {},
            Ok(false) => return Ok(false),
            Err(e) => return Err(e),
        }
        match Self::merge_regions(analysis, succ, region_id) {
            Ok(()) => {},
            Err(e) => return Err(e),
        }
        let ghost b = analysis@;
        let out = match analysis.get_successors(succ) {
            Ok(v) => v,
            Err(e) => return Err(e),
        };
        let mut k: usize = 0;
        while k < out.len()
            invariant
                b.wf(),
                b.has_region(region_id),
                b.has_region(succ),
                out@ == successors_of(b.edges, succ),
                k <= out@.len(),
                analysis.wf(),
                analysis@ == (AnalysisV { edges: b.edges + edges_from(region_id, out@.take(k as int)), ..b }),
            decreases out@.len() - k,
        {
            proof {
                lemma_neighbors_in_graph(b, succ);
                assert(b.has_region(out@[k as int].0));
            }
            let (target, edge_type) = out[k];
            match analysis.connect_regions(region_id, target, edge_type) {
                Ok(()) => {},
                Err(e) => return Err(e),
            }
            proof {
                assert(edges_from(region_id, out@.take(k + 1)) =~= edges_from(region_id, out@.take(k as int)).push(
                    super::RegionEdge { from: region_id, to: target, edge_type },
                ));
                assert(analysis@.edges =~= b.edges + edges_from(region_id, out@.take(k + 1)));
            }
            k = k + 1;
        }
        proof {
            assert(out@.take(k as int) =~= out@);
        }
        match analysis.remove_node(succ) {
            Ok(()) => {},
            Err(e) => return Err(e),
        }
        Ok(true)
    }
}

} // verus!
