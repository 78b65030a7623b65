use vstd::prelude::*;

use crate::decompiler::ast::control_flow::{ControlFlowNode, ControlFlowType};
use crate::decompiler::ast::convert::{lemma_ast_views_of_asts, IntoAst};
use crate::decompiler::ast::copies::copy_asts;
use crate::decompiler::ast::expr::ExprKind;
use crate::decompiler::ast::ptr::P;
use crate::decompiler::ast::view::{asts_v, AstV, ExprV};
use crate::decompiler::ast::{
    branch_condition, branch_condition_valid, new_cyclic_condition, new_do_while, AstKind,
};
use crate::decompiler::structure_analysis::region::{RegionId, RegionType, RegionV};
use crate::decompiler::structure_analysis::tail_region_reducer::is_invalid_operand;
use crate::decompiler::structure_analysis::{
    edges_without, first_edge, has_edge, is_not_found, is_other, lemma_edge_facts,
    lemma_neighbors_in_graph, lemma_successor_has_edge, predecessors_of, successors_of, AnalysisV,
    ControlFlowEdgeType, StructureAnalysis, StructureAnalysisError,
};

verus! {

/// Whether `s` is the body of a loop headed by `region`: a linear region whose only
/// successor and only predecessor is `region`.
pub open spec fn is_loop_body(a: AnalysisV, region: RegionId, s: RegionId) -> bool {
    &&& a.region(s).region_type == RegionType::Linear
    &&& successors_of(a.edges, s).len() == 1
    &&& successors_of(a.edges, s)[0].0 == region
    &&& predecessors_of(a.edges, s).len() == 1
    &&& predecessors_of(a.edges, s)[0].0 == region
}

/// The first of the successors that is the body of a loop headed by `region`.
pub open spec fn first_loop_body(a: AnalysisV, region: RegionId, succs: Seq<(RegionId, ControlFlowEdgeType)>) -> Option<
    RegionId,
>
    decreases succs.len(),
{
    if succs.len() == 0 {
        None
    } else if is_loop_body(a, region, succs[0].0) {
        Some(succs[0].0)
    } else {
        first_loop_body(a, region, succs.drop_first())
    }
}

/// Whether `region` is one of its own successors.
pub open spec fn has_self_loop(a: AnalysisV, region: RegionId) -> bool {
    exists|k: int| 0 <= k < successors_of(a.edges, region).len() && #[trigger] successors_of(a.edges, region)[k].0 == region
}

/// The analysis after the self-looping `region` becomes a do-while over its own nodes: it
/// holds that node alone, becomes linear, loses its jump expression and its edge to itself.
pub open spec fn do_while_reduced(a: AnalysisV, region: RegionId, jump: ExprV) -> AnalysisV {
    let reg = a.region(region);
    let m = a.with_region(
        region,
        RegionV {
            nodes: seq![AstV::ControlFlow(Seq::empty(), ControlFlowType::DoWhile, Some(jump), reg.nodes)],
            region_type: RegionType::Linear,
            jump_expr: None,
            ..reg
        },
    );
    AnalysisV { edges: m.edges.remove(first_edge(m.edges, region, region)->Some_0 as int), ..m }
}

/// The analysis after `region` and the body `s` of its loop become a while: the region
/// gains the loop node, becomes linear and loses its jump expression; the edges between the
/// two go, then `s` leaves the graph.
pub open spec fn while_reduced(a: AnalysisV, region: RegionId, jump: ExprV, s: RegionId) -> AnalysisV {
    let reg = a.region(region);
    let node = AstV::ControlFlow(
        Seq::empty(),
        ControlFlowType::While,
        Some(branch_condition(jump, reg.branch_opcode)),
        a.region(s).nodes,
    );
    let m = a.with_region(
        region,
        RegionV { nodes: reg.nodes.push(node), region_type: RegionType::Linear, jump_expr: None, ..reg },
    );
    let e1 = m.edges.remove(first_edge(m.edges, region, s)->Some_0 as int);
    let e2 = e1.remove(first_edge(e1, s, region)->Some_0 as int);
    AnalysisV { edges: e2, ..m }.without_region(s)
}

/// Reduces a region that loops back on itself, or through one successor.
pub struct CyclicRegionReducer;

impl CyclicRegionReducer {
    /// A copy of the jump expression of a region.
    fn extract_jump_expr(analysis: &StructureAnalysis, id: RegionId) -> (r: Result<ExprKind, StructureAnalysisError>)
        requires
            analysis@.has_slot(id),
        ensures
            analysis@.region(id).jump_expr matches Some(j) ==> (r matches Ok(e) && e@ == j),
            analysis@.region(id).jump_expr is None ==> r matches Err(
                StructureAnalysisError::ExpectedConditionNotFound,
            ),
    {
        let region = match analysis.get_region(id) {
            Ok(reg) => reg,
            Err(e) => return Err(e),
        };
        match region.copy_jump_expr() {
            Some(e) => Ok(e),
            None => Err(StructureAnalysisError::ExpectedConditionNotFound),
        }
    }

    /// A copy of the nodes of a region.
    fn get_region_nodes(analysis: &StructureAnalysis, id: RegionId) -> (r: Vec<AstKind>)
        requires
            analysis@.has_slot(id),
        ensures
            asts_v(r@) == analysis@.region(id).nodes,
    {
        match analysis.get_region(id) {
            Ok(reg) => copy_asts(reg.get_nodes()),
            Err(_) => Vec::new(),
        }
    }

    /// Replaces the nodes of the self-looping region by a do-while over them.
    fn reduce_do_while(analysis: &mut StructureAnalysis, region_id: RegionId, jump: ExprKind) -> (r: Result<
        bool,
        StructureAnalysisError,
    >)
        requires
            old(analysis).wf(),
            old(analysis)@.has_region(region_id),
            has_edge(old(analysis)@.edges, region_id, region_id),
        ensures
            final(analysis).wf(),
            r == Ok::<bool, StructureAnalysisError>(true),
            final(analysis)@ == do_while_reduced(old(analysis)@, region_id, jump@),
    {
        let ghost a = analysis@;
        let nodes = Self::get_region_nodes(analysis, region_id);
        proof {
            lemma_ast_views_of_asts(nodes@);
        }
        let cond: P<ControlFlowNode> = new_do_while(jump, nodes);
        match analysis.get_region_mut(region_id) {
            Ok(region) => {
                region.clear_nodes();
                region.push_node(cond.into_ast());
                region.set_region_type(RegionType::Linear);
                region.remove_jump_expr();
            },
            Err(_) => {},
        }
        proof {
            assert(Seq::<AstV>::empty().push(cond.ast_view()) =~= seq![cond.ast_view()]);
            assert(analysis@.regions.len() == a.regions.len());
            assert forall|i: int| 0 <= i < analysis@.edges.len() implies analysis@.has_region(
                #[trigger] analysis@.edges[i].from,
            ) && analysis@.has_region(analysis@.edges[i].to) by {
                assert(a.has_region(a.edges[i].from));
                assert(a.has_region(a.edges[i].to));
            }
            lemma_edge_facts(a.edges, region_id, region_id);
        }
        match analysis.remove_edge(region_id, region_id) {
            Ok(()) => {},
            Err(e) => return Err(e),
        }
        Ok(true)
    }

    /// Merges the body `s` of the loop headed by the region into a while at its end.
    fn reduce_while(analysis: &mut StructureAnalysis, region_id: RegionId, jump: ExprKind, s: RegionId) -> (r: Result<
        bool,
        StructureAnalysisError,
    >)
        requires
            old(analysis).wf(),
            old(analysis)@.has_region(region_id),
            old(analysis)@.has_region(s),
            s != region_id,
            has_edge(old(analysis)@.edges, region_id, s),
            has_edge(old(analysis)@.edges, s, region_id),
        ensures
            final(analysis).wf(),
            branch_condition_valid(jump@, old(analysis)@.region(region_id).branch_opcode) ==> r == Ok::<
                bool,
                StructureAnalysisError,
            >(true) && final(analysis)@ == while_reduced(old(analysis)@, region_id, jump@, s),
            !branch_condition_valid(jump@, old(analysis)@.region(region_id).branch_opcode) ==> is_invalid_operand(r)
                && final(analysis)@ == old(analysis)@,
    {
        let ghost a = analysis@;
        let nodes = Self::get_region_nodes(analysis, s);
        proof {
            lemma_ast_views_of_asts(nodes@);
        }
        let opcode = match analysis.get_branch_opcode(region_id) {
            Ok(o) => o,
            Err(e) => return Err(e),
        };
        let cond = match new_cyclic_condition(jump, nodes, opcode) {
            Ok(p) => p,
            Err(e) => return Err(StructureAnalysisError::AstNodeError { source: e }),
        };
        match analysis.get_region_mut(region_id) {
            Ok(region) => {
                region.push_node(cond.into_ast());
                region.set_region_type(RegionType::Linear);
                region.remove_jump_expr();
            },
            Err(_) => {},
        }
        let ghost m = analysis@;
        proof {
            assert(analysis@.regions.len() == a.regions.len());
            assert forall|i: int| 0 <= i < analysis@.edges.len() implies analysis@.has_region(
                #[trigger] analysis@.edges[i].from,
            ) && analysis@.has_region(analysis@.edges[i].to) by {
                assert(a.has_region(a.edges[i].from));
                assert(a.has_region(a.edges[i].to));
            }
            lemma_edge_facts(a.edges, region_id, s);
            lemma_edge_facts(a.edges, s, region_id);
        }
        match analysis.remove_edge(region_id, s) {
            Ok(()) => {},
            Err(e) => return Err(e),
        }
        proof {
            let i = first_edge(m.edges, region_id, s)->Some_0 as int;
            assert(has_edge(m.edges.remove(i), s, region_id));
            lemma_edge_facts(m.edges.remove(i), s, region_id);
        }
        match analysis.remove_edge(s, region_id) {
            Ok(()) => {},
            Err(e) => return Err(e),
        }
        match analysis.remove_node(s) {
            Ok(()) => {},
            Err(e) => return Err(e),
        }
        Ok(true)
    }
}

impl CyclicRegionReducer {
    /// Reduces region `region_id` when it loops back on itself (a do-while) or through the
    /// body of a loop (a while); gives whether it did.
    pub fn reduce_region(&mut self, analysis: &mut StructureAnalysis, region_id: RegionId) -> (r: Result<
        bool,
        StructureAnalysisError,
    >)
        requires
            old(analysis).wf(),
        ensures
            final(analysis).wf(),
            final(analysis)@.regions.len() == old(analysis)@.regions.len(),
            final(analysis)@.debug_mode == old(analysis)@.debug_mode,
            final(analysis)@.max_iterations == old(analysis)@.max_iterations,
            ({
                let a = old(analysis)@;
                let succs = successors_of(a.edges, region_id);
                let jump = a.region(region_id).jump_expr;
                if !a.has_region(region_id) {
                    is_not_found(r, region_id) && final(analysis)@ == a
                } else if has_self_loop(a, region_id) {
                    if succs.len() == 1 {
                        is_other(r, "Infinite loop not implemented yet"@) && final(analysis)@ == a
                    } else if jump is None {
                        r matches Err(StructureAnalysisError::ExpectedConditionNotFound) && final(analysis)@ == a
                    } else {
                        r == Ok::<bool, StructureAnalysisError>(true) && final(analysis)@ == do_while_reduced(
                            a,
                            region_id,
                            jump->Some_0,
                        )
                    }
                } else {
                    match first_loop_body(a, region_id, succs) {
                        None => r == Ok::<bool, StructureAnalysisError>(false) && final(analysis)@ == a,
                        Some(body) => if jump is None {
                            r matches Err(StructureAnalysisError::ExpectedConditionNotFound) && final(analysis)@
                                == a
                        } else if branch_condition_valid(jump->Some_0, a.region(region_id).branch_opcode) {
                            r == Ok::<bool, StructureAnalysisError>(true) && final(analysis)@ == while_reduced(
                                a,
                                region_id,
                                jump->Some_0,
                                body,
                            )
                        } else {
                            is_invalid_operand(r) && final(analysis)@ == a
                        },
                    }
                }
            }),
    {
        let ghost a = analysis@;
        let successors = match analysis.get_successors(region_id) {
            Ok(v) => v,
            Err(e) => return Err(e),
        };
        let len = successors.len();
        proof {
            lemma_neighbors_in_graph(a, region_id);
        }
        let mut i: usize = 0;
        while i < len
            invariant
                i <= len,
                len == successors@.len(),
                successors@ == successors_of(a.edges, region_id),
                analysis@ == a,
                a == old(analysis)@,
                a.wf(),
                a.has_region(region_id),
                forall|k: int| 0 <= k < i ==> successors@[k].0 != region_id,
            decreases len - i,
        {
            if successors[i].0 == region_id {
                proof {
                    assert(has_self_loop(a, region_id));
                    lemma_successor_has_edge(a.edges, region_id, i as int);
                }
                if len == 1 {
                    return Err(StructureAnalysisError::Other {
                        message: String::from_str("Infinite loop not implemented yet"),
                    });
                }
                let jump_expr = match Self::extract_jump_expr(analysis, region_id) {
                    Ok(e) => e,
                    Err(e) => return Err(e),
                };
                return Self::reduce_do_while(analysis, region_id, jump_expr);
            }
            i = i + 1;
        }
        proof {
            assert(!has_self_loop(a, region_id));
        }
        let mut j: usize = 0;
        proof {
            assert(successors@.skip(0) =~= successors@);
        }
        while j < len
            invariant
                j <= len,
                len == successors@.len(),
                successors@ == successors_of(a.edges, region_id),
                analysis@ == a,
                a == old(analysis)@,
                a.wf(),
                a.has_region(region_id),
                !has_self_loop(a, region_id),
                forall|k: int| 0 <= k < successors@.len() ==> a.has_region(#[trigger] successors@[k].0),
                first_loop_body(a, region_id, successors@) == first_loop_body(a, region_id, successors@.skip(j as int)),
            decreases len - j,
        {
            let candidate = successors[j].0;
            proof {
                assert(successors@.skip(j as int).drop_first() =~= successors@.skip(j + 1));
                assert(successors@.skip(j as int)[0] == successors@[j as int]);
                assert(a.has_region(successors@[j as int].0));
            }
            let linear_succ = match analysis.get_single_linear_successor(candidate) {
                Ok(x) => x,
                Err(e) => return Err(e),
            };
            let single_pred = match analysis.get_single_predecessor(candidate) {
                Ok(x) => x,
                Err(e) => return Err(e),
            };
            proof {
                assert(is_loop_body(a, region_id, candidate) == (linear_succ == Some(region_id) && single_pred == Some(
                    region_id,
                )));
            }
            if linear_succ == Some(region_id) && single_pred == Some(region_id) {
                proof {
                    assert(first_loop_body(a, region_id, successors@.skip(j as int)) == Some(candidate));
                    lemma_successor_has_edge(a.edges, region_id, j as int);
                    lemma_successor_has_edge(a.edges, candidate, 0);
                    if candidate == region_id {
                        assert(successors_of(a.edges, region_id)[j as int].0 == region_id);
                    }
                }
                let jump_expr = match Self::extract_jump_expr(analysis, region_id) {
                    Ok(e) => e,
                    Err(e) => return Err(e),
                };
                return Self::reduce_while(analysis, region_id, jump_expr, candidate);
            }
            j = j + 1;
        }
        proof {
            assert(successors@.skip(j as int).len() == 0);
        }
        Ok(false)
    }
}

} // verus!
