use vstd::prelude::*;

use crate::decompiler::ast::control_flow::{ControlFlowNode, ControlFlowType};
use crate::decompiler::ast::convert::{ast_views, lemma_ast_views_of_asts, IntoAst};
use crate::decompiler::ast::copies::copy_asts;
use crate::decompiler::ast::expr::ExprKind;
use crate::decompiler::ast::ptr::P;
use crate::decompiler::ast::view::{asts_v, lemma_asts_v, AstV, ExprV};
use crate::decompiler::ast::visitors::emitter::region_name;
use crate::decompiler::ast::{
    branch_condition, branch_condition_valid, new_acylic_condition, new_else, new_if, AstKind,
    AstNodeError,
};
use crate::decompiler::structure_analysis::region::{opt_expr_v, RegionId, RegionType, RegionV};
use crate::decompiler::structure_analysis::{
    edges_without, first_edge, has_edge, lemma_edge_facts, lemma_successor_has_edge, is_not_found, is_other, lemma_neighbors_in_graph, lemma_successor_edge,
    predecessors_of, successors_of, AnalysisV, ControlFlowEdgeType, StructureAnalysis,
    StructureAnalysisError,
};
use crate::opcode::Opcode;

verus! {

/// A control-flow node with a comment added after its own.
pub open spec fn with_comment(a: AstV, c: Seq<char>) -> AstV {
    match a {
        AstV::ControlFlow(cs, ty, cond, body) => AstV::ControlFlow(cs.push(c), ty, cond, body),
        _ => a,
    }
}

/// The first successor reached by an edge of the given kind.
pub open spec fn successor_of_kind(succs: Seq<(RegionId, ControlFlowEdgeType)>, kind: ControlFlowEdgeType) -> Option<
    RegionId,
>
    decreases succs.len(),
{
    if succs.len() == 0 {
        None
    } else if succs[0].1 == kind {
        Some(succs[0].0)
    } else {
        successor_of_kind(succs.drop_first(), kind)
    }
}

/// The analysis after `region` takes the nodes `added` at its end, loses its jump expression,
/// and becomes a tail or linear region.
pub open spec fn tail_merged(a: AnalysisV, region: RegionId, added: Seq<AstV>, is_tail: bool) -> AnalysisV {
    let reg = a.region(region);
    a.with_region(
        region,
        RegionV {
            nodes: reg.nodes + added,
            region_type: if is_tail {
                RegionType::Tail
            } else {
                RegionType::Linear
            },
            jump_expr: None,
            ..reg
        },
    )
}

/// The analysis after region `removed`, reached from `start`, is cleaned up: the edge from
/// `start` goes, then the region leaves the graph.
pub open spec fn cleaned(a: AnalysisV, removed: RegionId, start: RegionId) -> AnalysisV {
    AnalysisV { edges: a.edges.remove(first_edge(a.edges, start, removed)->Some_0 as int), ..a }.without_region(
        removed,
    )
}

/// The `if` over the fallthrough region and the `else` over the branch region, each with the
/// name of its region as comment.
pub open spec fn if_else_nodes(a: AnalysisV, jump: ExprV, branch: RegionId, fall: RegionId) -> Seq<AstV> {
    seq![
        AstV::ControlFlow(seq![region_name(fall.index)], ControlFlowType::If, Some(jump), a.region(fall).nodes),
        AstV::ControlFlow(seq![region_name(branch.index)], ControlFlowType::Else, None, a.region(branch).nodes),
    ]
}

/// The `if` over one tail region, under the branch condition of `region`, with the name of
/// the tail as comment.
pub open spec fn one_sided_nodes(a: AnalysisV, jump: ExprV, region: RegionId, tail: RegionId) -> Seq<AstV> {
    seq![
        AstV::ControlFlow(
            seq![region_name(tail.index)],
            ControlFlowType::If,
            Some(branch_condition(jump, a.region(region).branch_opcode)),
            a.region(tail).nodes,
        ),
    ]
}

/// The outcome of reducing the control-flow region `region` whose successors are the
/// regions `branch` and `fall`: both tails with no other predecessor become an if-else;
/// one of them alone becomes an if; otherwise nothing changes.
pub open spec fn tail_outcome(a: AnalysisV, region: RegionId, jump: ExprV, branch: RegionId, fall: RegionId) -> (
    Result<bool, ()>,
    AnalysisV,
) {
    let branch_tail = a.region(branch).region_type == RegionType::Tail && predecessors_of(a.edges, branch).len()
        == 1;
    let fall_tail = a.region(fall).region_type == RegionType::Tail && predecessors_of(a.edges, fall).len() == 1;
    let valid = branch_condition_valid(jump, a.region(region).branch_opcode);
    if branch_tail && fall_tail && branch != fall {
        (
            Ok(true),
            cleaned(
                cleaned(tail_merged(a, region, if_else_nodes(a, jump, branch, fall), true), branch, region),
                fall,
                region,
            ),
        )
    } else if branch_tail {
        if valid {
            (Ok(true), cleaned(tail_merged(a, region, one_sided_nodes(a, jump, region, branch), false), branch, region))
        } else {
            (Err(()), a)
        }
    } else if fall_tail {
        if valid {
            (Ok(true), cleaned(tail_merged(a, region, one_sided_nodes(a, jump, region, fall), false), fall, region))
        } else {
            (Err(()), a)
        }
    } else {
        (Ok(false), a)
    }
}

/// Reduces a control-flow region whose successors are tails.
pub struct TailRegionReducer;

/// Whether the region is a tail with no other predecessor.
fn is_lone_tail(analysis: &StructureAnalysis, id: RegionId) -> (r: Result<bool, StructureAnalysisError>)
    requires
        analysis.wf(),
        analysis@.has_region(id),
    ensures
        r == Ok::<bool, StructureAnalysisError>(
            analysis@.region(id).region_type == RegionType::Tail && predecessors_of(analysis@.edges, id).len() == 1,
        ),
{
    let single = match analysis.has_single_predecessor(id) {
        Ok(b) => b,
        Err(e) => return Err(e),
    };
    match analysis.get_region_type(id) {
        Ok(t) => Ok(t == RegionType::Tail && single),
        Err(e) => Err(e),
    }
}

/// The first successor reached by an edge of the given kind.
fn find_successor(succs: &Vec<(RegionId, ControlFlowEdgeType)>, kind: ControlFlowEdgeType) -> (r: Option<RegionId>)
    ensures
        r == successor_of_kind(succs@, kind),
        r matches Some(id) ==> exists|k: int| 0 <= k < succs@.len() && succs@[k].0 == id,
{
    let mut i: usize = 0;
    assert(succs@.skip(0) =~= succs@);
    while i < succs.len()
        invariant
            i <= succs@.len(),
            successor_of_kind(succs@, kind) == successor_of_kind(succs@.skip(i as int), kind),
        decreases succs@.len() - i,
    {
        proof {
            assert(succs@.skip(i as int).drop_first() =~= succs@.skip(i + 1));
        }
        if succs[i].1 == kind {
            proof {
                assert(succs@.skip(i as int)[0] == succs@[i as int]);
            }
            return Some(succs[i].0);
        }
        i = i + 1;
    }
    None
}

/// Adds a comment to a control-flow node.
fn add_region_comment(p: &mut P<ControlFlowNode>, id: RegionId)
    ensures
        final(p).ast_view() == with_comment(old(p).ast_view(), region_name(id.index)),
{
    let name = id.to_string();
    proof {
        reveal_strlit(")");
        assert(")"@ =~= seq![')']);
        assert(name@ == region_name(id.index));
    }
    let ghost before = p.metadata.comments@;
    let m = p.metadata_mut();
    m.add_comment(name);
    proof {
        assert(p.metadata.comments@ == before.push(name));
        assert(p.metadata.comment_views() =~= before.map_values(|c: String| c@).push(region_name(id.index)));
    }
}

impl TailRegionReducer {
    /// Merges both tail successors into an if-else at the end of the region.
    fn reduce_both(analysis: &mut StructureAnalysis, region: RegionId, jump: ExprKind, branch: RegionId, fall: RegionId) -> (r:
        Result<bool, StructureAnalysisError>)
        requires
            old(analysis).wf(),
            old(analysis)@.has_region(region),
            old(analysis)@.has_region(branch),
            old(analysis)@.has_region(fall),
            branch != fall,
            region != branch,
            region != fall,
            has_edge(old(analysis)@.edges, region, branch),
            has_edge(old(analysis)@.edges, region, fall),
        ensures
            final(analysis).wf(),
            r == Ok::<bool, StructureAnalysisError>(true),
            final(analysis)@ == cleaned(
                cleaned(
                    tail_merged(old(analysis)@, region, if_else_nodes(old(analysis)@, jump@, branch, fall), true),
                    branch,
                    region,
                ),
                fall,
                region,
            ),
    {
        let ghost a = analysis@;
        let branch_statements = Self::get_region_nodes(analysis, branch);
        let fallthrough_statements = Self::get_region_nodes(analysis, fall);
        proof {
            lemma_ast_views_of_asts(branch_statements@);
            lemma_ast_views_of_asts(fallthrough_statements@);
        }
        let mut if_else = new_if(jump, fallthrough_statements);
        let mut else_stmt = new_else(branch_statements);
        add_region_comment(&mut if_else, fall);
        add_region_comment(&mut else_stmt, branch);
        let mut tail: Vec<P<ControlFlowNode>> = Vec::new();
        tail.push(if_else);
        tail.push(else_stmt);
        proof {
            assert(Seq::<Seq<char>>::empty().push(region_name(fall.index)) =~= seq![region_name(fall.index)]);
            assert(Seq::<Seq<char>>::empty().push(region_name(branch.index)) =~= seq![region_name(branch.index)]);
            assert(ast_views(tail@) =~= if_else_nodes(a, jump@, branch, fall));
        }
        Self::merge_tail(analysis, region, tail, true);
        let ghost m = analysis@;
        proof {
            lemma_edge_facts(a.edges, region, branch);
            lemma_edge_facts(a.edges, region, fall);
        }
        match Self::cleanup_region(analysis, branch, region) {
            Ok(()) => {},
            Err(e) => return Err(e),
        }
        proof {
            let i = first_edge(m.edges, region, branch)->Some_0 as int;
            assert(has_edge(m.edges.remove(i), region, fall));
            lemma_edge_facts(m.edges.remove(i), region, fall);
            assert(has_edge(edges_without(m.edges.remove(i), branch), region, fall));
            lemma_edge_facts(analysis@.edges, region, fall);
        }
        match Self::cleanup_region(analysis, fall, region) {
            Ok(()) => {},
            Err(e) => return Err(e),
        }
        Ok(true)
    }

    /// Merges one tail successor into an if at the end of the region.
    fn reduce_one(analysis: &mut StructureAnalysis, region: RegionId, jump: ExprKind, tail_id: RegionId) -> (r: Result<
        bool,
        StructureAnalysisError,
    >)
        requires
            old(analysis).wf(),
            old(analysis)@.has_region(region),
            old(analysis)@.has_region(tail_id),
            has_edge(old(analysis)@.edges, region, tail_id),
        ensures
            final(analysis).wf(),
            branch_condition_valid(jump@, old(analysis)@.region(region).branch_opcode) ==> r == Ok::<
                bool,
                StructureAnalysisError,
            >(true) && final(analysis)@ == cleaned(
                tail_merged(old(analysis)@, region, one_sided_nodes(old(analysis)@, jump@, region, tail_id), false),
                tail_id,
                region,
            ),
            !branch_condition_valid(jump@, old(analysis)@.region(region).branch_opcode) ==> is_invalid_operand(r)
                && final(analysis)@ == old(analysis)@,
    {
        let ghost a = analysis@;
        let statements = Self::get_region_nodes(analysis, tail_id);
        proof {
            lemma_ast_views_of_asts(statements@);
        }
        let opcode = match analysis.get_branch_opcode(region) {
            Ok(o) => o,
            Err(e) => return Err(e),
        };
        let mut if_stmt = match new_acylic_condition(jump, statements, opcode) {
            Ok(p) => p,
            Err(e) => return Err(StructureAnalysisError::AstNodeError { source: e }),
        };
        add_region_comment(&mut if_stmt, tail_id);
        let mut tail: Vec<P<ControlFlowNode>> = Vec::new();
        tail.push(if_stmt);
        proof {
            assert(Seq::<Seq<char>>::empty().push(region_name(tail_id.index)) =~= seq![region_name(tail_id.index)]);
            assert(ast_views(tail@) =~= one_sided_nodes(a, jump@, region, tail_id));
        }
        Self::merge_tail(analysis, region, tail, false);
        proof {
            lemma_edge_facts(a.edges, region, tail_id);
        }
        match Self::cleanup_region(analysis, tail_id, region) {
            Ok(()) => {},
            Err(e) => return Err(e),
        }
        Ok(true)
    }

    /// A copy of the jump expression of a region.
    fn extract_jump_expr(analysis: &StructureAnalysis, id: RegionId) -> (r: Result<ExprKind, StructureAnalysisError>)
        requires
            analysis@.has_slot(id),
        ensures
            analysis@.region(id).jump_expr matches Some(j) ==> (r matches Ok(e) && e@ == j),
            analysis@.region(id).jump_expr is None ==> r matches Err(
                StructureAnalysisError::ExpectedConditionNotFound,
            ),
    {
        let region = match analysis.get_region(id) {
            Ok(reg) => reg,
            Err(e) => return Err(e),
        };
        match region.copy_jump_expr() {
            Some(e) => Ok(e),
            None => Err(StructureAnalysisError::ExpectedConditionNotFound),
        }
    }

    /// A copy of the nodes of a region.
    fn get_region_nodes(analysis: &StructureAnalysis, id: RegionId) -> (r: Vec<AstKind>)
        requires
            analysis@.has_slot(id),
        ensures
            asts_v(r@) == analysis@.region(id).nodes,
    {
        match analysis.get_region(id) {
            Ok(reg) => copy_asts(reg.get_nodes()),
            Err(_) => Vec::new(),
        }
    }

    /// Adds `tail` at the end of the region, removes its jump expression and makes it a
    /// tail or linear region.
    fn merge_tail(analysis: &mut StructureAnalysis, id: RegionId, tail: Vec<P<ControlFlowNode>>, is_tail: bool)
        requires
            old(analysis).wf(),
            old(analysis)@.has_slot(id),
        ensures
            final(analysis).wf(),
            final(analysis)@ == tail_merged(old(analysis)@, id, ast_views(tail@), is_tail),
    {
        let ghost a = analysis@;
        let nodes = crate::decompiler::ast::convert::into_asts(tail);
        match analysis.get_region_mut(id) {
            Ok(region) => {
                region.push_nodes(nodes);
                if is_tail {
                    region.set_region_type(RegionType::Tail);
                } else {
                    region.set_region_type(RegionType::Linear);
                }
                region.remove_jump_expr();
            },
            Err(_) => {},
        }
        proof {
            assert(analysis@.regions.len() == a.regions.len());
            assert forall|i: int| 0 <= i < analysis@.edges.len() implies analysis@.has_region(
                #[trigger] analysis@.edges[i].from,
            ) && analysis@.has_region(analysis@.edges[i].to) by {
                assert(a.has_region(a.edges[i].from));
                assert(a.has_region(a.edges[i].to));
            }
        }
    }

    /// Removes the edge from `start` to `removed`, then `removed` from the graph.
    fn cleanup_region(analysis: &mut StructureAnalysis, removed: RegionId, start: RegionId) -> (r: Result<
        (),
        StructureAnalysisError,
    >)
        requires
            old(analysis).wf(),
            old(analysis)@.has_region(removed),
            first_edge(old(analysis)@.edges, start, removed) is Some,
        ensures
            final(analysis).wf(),
            r is Ok,
            final(analysis)@ == cleaned(old(analysis)@, removed, start),
    {
        match analysis.remove_edge(start, removed) {
            Ok(()) => {},
            Err(e) => return Err(e),
        }
        analysis.remove_node(removed)
    }
}

impl TailRegionReducer {
    /// Reduces control-flow region `region_id` when its successors are tails with no other
    /// predecessor; gives whether it did.
    pub fn reduce_region(&mut self, analysis: &mut StructureAnalysis, region_id: RegionId) -> (r: Result<
        bool,
        StructureAnalysisError,
    >)
        requires
            old(analysis).wf(),
        ensures
            final(analysis).wf(),
            final(analysis)@.regions.len() == old(analysis)@.regions.len(),
            final(analysis)@.debug_mode == old(analysis)@.debug_mode,
            final(analysis)@.max_iterations == old(analysis)@.max_iterations,
            ({
                let a = old(analysis)@;
                let succs = successors_of(a.edges, region_id);
                let branch = successor_of_kind(succs, ControlFlowEdgeType::Branch);
                let fall = successor_of_kind(succs, ControlFlowEdgeType::Fallthrough);
                if !a.has_slot(region_id) {
                    is_not_found(r, region_id) && final(analysis)@ == a
                } else if a.region(region_id).region_type != RegionType::ControlFlow {
                    r == Ok::<bool, StructureAnalysisError>(false) && final(analysis)@ == a
                } else if a.region(region_id).jump_expr is None {
                    r matches Err(StructureAnalysisError::ExpectedConditionNotFound) && final(analysis)@ == a
                } else if !a.has_region(region_id) {
                    is_not_found(r, region_id) && final(analysis)@ == a
                } else if succs.len() != 2 {
                    is_other(r, "Tail reduction requires exactly two successors"@) && final(analysis)@ == a
                } else if branch is None {
                    is_other(r, "Control flow region must have a branch successor"@) && final(analysis)@ == a
                } else if fall is None {
                    is_other(r, "Control flow region must have a fallthrough successor"@) && final(analysis)@ == a
                } else {
                    let outcome = tail_outcome(
                        a,
                        region_id,
                        a.region(region_id).jump_expr->Some_0,
                        branch->Some_0,
                        fall->Some_0,
                    );
                    &&& outcome.0 matches Ok(b) ==> r == Ok::<bool, StructureAnalysisError>(b)
                    &&& outcome.0 is Err ==> is_invalid_operand(r)
                    &&& final(analysis)@ == outcome.1
                }
            }),
    {
        let ghost a = analysis@;
        match analysis.get_region_type(region_id) {
            Ok(t) => if t != RegionType::ControlFlow {
                return Ok(false);
            },
            Err(e) => return Err(e),
        }
        let jump_expr = match Self::extract_jump_expr(analysis, region_id) {
            Ok(e) => e,
            Err(e) => return Err(e),
        };
        let successors = match analysis.get_successors(region_id) {
            Ok(v) => v,
            Err(e) => return Err(e),
        };
        if successors.len() != 2 {
            return Err(StructureAnalysisError::Other {
                message: String::from_str("Tail reduction requires exactly two successors"),
            });
        }
        let branch_region_id = match find_successor(&successors, ControlFlowEdgeType::Branch) {
            Some(id) => id,
            None => {
                return Err(StructureAnalysisError::Other {
                    message: String::from_str("Control flow region must have a branch successor"),
                });
            },
        };
        let fallthrough_region_id = match find_successor(&successors, ControlFlowEdgeType::Fallthrough) {
            Some(id) => id,
            None => {
                return Err(StructureAnalysisError::Other {
                    message: String::from_str("Control flow region must have a fallthrough successor"),
                });
            },
        };
        proof {
            lemma_neighbors_in_graph(a, region_id);
            let kb = choose|k: int| 0 <= k < successors@.len() && successors@[k].0 == branch_region_id;
            let kf = choose|k: int| 0 <= k < successors@.len() && successors@[k].0 == fallthrough_region_id;
            lemma_successor_has_edge(a.edges, region_id, kb);
            lemma_successor_has_edge(a.edges, region_id, kf);
            assert(a.has_region(successors@[kb].0));
            assert(a.has_region(successors@[kf].0));
        }
        let branch_tail = match is_lone_tail(analysis, branch_region_id) {
            Ok(b) => b,
            Err(e) => return Err(e),
        };
        let fallthrough_tail = match is_lone_tail(analysis, fallthrough_region_id) {
            Ok(b) => b,
            Err(e) => return Err(e),
        };
        if branch_tail && fallthrough_tail {
            if branch_region_id == fallthrough_region_id {
                return Self::reduce_one(analysis, region_id, jump_expr, branch_region_id);
            }
            return Self::reduce_both(analysis, region_id, jump_expr, branch_region_id, fallthrough_region_id);
        }
        if branch_tail {
            return Self::reduce_one(analysis, region_id, jump_expr, branch_region_id);
        }
        if fallthrough_tail {
            return Self::reduce_one(analysis, region_id, jump_expr, fallthrough_region_id);
        }
        Ok(false)
    }
}

/// The error for a condition that cannot be negated.
pub open spec fn is_invalid_operand<T>(r: Result<T, StructureAnalysisError>) -> bool {
    r matches Err(StructureAnalysisError::AstNodeError { source }) && source == AstNodeError::InvalidOperand
}

} // verus!
