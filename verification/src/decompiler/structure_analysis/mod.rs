use vstd::prelude::*;

use crate::decompiler::ast::convert::IntoAst;
use crate::decompiler::ast::view::{AstV, ExprV};
use crate::decompiler::ast::AstNodeError;
use crate::decompiler::structure_analysis::region::{Region, RegionId, RegionType, RegionV};
use crate::decompiler::structure_analysis::cyclic_region_reducer::CyclicRegionReducer;
use crate::decompiler::structure_analysis::linear_region_reducer::LinearRegionReducer;
use crate::decompiler::structure_analysis::tail_region_reducer::TailRegionReducer;
use crate::decompiler::structure_analysis::vbranch::{branched, VirtualBranchReducer};
use crate::decompiler::structure_analysis::linear_region_reducer::linear_merged;
use crate::decompiler::structure_analysis::tail_region_reducer::{is_invalid_operand, successor_of_kind, tail_outcome};
use crate::decompiler::structure_analysis::cyclic_region_reducer::{
    do_while_reduced, first_loop_body, has_self_loop, while_reduced,
};
use crate::decompiler::ast::branch_condition_valid;
use crate::opcode::Opcode;

/// Reduction of a region that loops back on itself or through one successor.
pub mod cyclic_region_reducer;
/// Reduction of a region into its only successor.
pub mod linear_region_reducer;
/// Regions of the control-flow graph.
pub mod region;
/// Reduction of a branch whose successors are tails.
pub mod tail_region_reducer;
/// Reduction of a linear region into a branch node.
pub mod vbranch;

verus! {

/// The kind of an edge between two regions.
#[derive(Debug, Clone, Copy, PartialEq, Eq, Hash, Structural)]
pub enum ControlFlowEdgeType {
    /// The edge of a taken branch.
    Branch,
    /// The edge to the next region when the branch is not taken.
    Fallthrough,
}

/// An edge of the region graph.
#[derive(Debug, Clone, Copy, PartialEq, Eq, Hash, Structural)]
pub struct RegionEdge {
    /// The region the edge leaves.
    pub from: RegionId,
    /// The region the edge enters.
    pub to: RegionId,
    /// The kind of the edge.
    pub edge_type: ControlFlowEdgeType,
}

/// An error of structure analysis.
#[derive(Debug)]
pub enum StructureAnalysisError {
    /// The region is not in the graph.
    RegionNotFound {
        /// The region.
        region_id: RegionId,
    },
    /// A region was expected to carry a jump expression and has none.
    ExpectedConditionNotFound,
    /// An AST node could not be built.
    AstNodeError {
        /// The error of the node.
        source: AstNodeError,
    },
    /// Another error.
    Other {
        /// What went wrong.
        message: String,
    },
}

/// The abstract value of a structure analysis: its regions, which of them are still in the
/// graph, and the graph's edges in the order they were added.
pub struct AnalysisV {
    /// The regions, by index.
    pub regions: Seq<RegionV>,
    /// Whether each region is still in the graph.
    pub active: Seq<bool>,
    /// The edges.
    pub edges: Seq<RegionEdge>,
    /// Whether snapshots of the graph are kept for debugging.
    pub debug_mode: bool,
    /// The most rounds of reduction `execute` runs.
    pub max_iterations: usize,
}

/// The successors of `id`, with the kinds of the edges, in edge order.
pub open spec fn successors_of(edges: Seq<RegionEdge>, id: RegionId) -> Seq<(RegionId, ControlFlowEdgeType)>
    decreases edges.len(),
{
    if edges.len() == 0 {
        Seq::empty()
    } else {
        let e = edges.last();
        let rest = successors_of(edges.drop_last(), id);
        if e.from == id {
            rest.push((e.to, e.edge_type))
        } else {
            rest
        }
    }
}

/// The predecessors of `id`, with the kinds of the edges, in edge order.
pub open spec fn predecessors_of(edges: Seq<RegionEdge>, id: RegionId) -> Seq<(RegionId, ControlFlowEdgeType)>
    decreases edges.len(),
{
    if edges.len() == 0 {
        Seq::empty()
    } else {
        let e = edges.last();
        let rest = predecessors_of(edges.drop_last(), id);
        if e.to == id {
            rest.push((e.from, e.edge_type))
        } else {
            rest
        }
    }
}

/// The edges that neither leave nor enter `id`, in order.
pub open spec fn edges_without(edges: Seq<RegionEdge>, id: RegionId) -> Seq<RegionEdge>
    decreases edges.len(),
{
    if edges.len() == 0 {
        Seq::empty()
    } else {
        let e = edges.last();
        let rest = edges_without(edges.drop_last(), id);
        if e.from != id && e.to != id {
            rest.push(e)
        } else {
            rest
        }
    }
}

/// The position of the first edge from `from` to `to`.
pub open spec fn first_edge(edges: Seq<RegionEdge>, from: RegionId, to: RegionId) -> Option<nat>
    decreases edges.len(),
{
    if edges.len() == 0 {
        None
    } else {
        match first_edge(edges.drop_last(), from, to) {
            Some(i) => Some(i),
            None => if edges.last().from == from && edges.last().to == to {
                Some((edges.len() - 1) as nat)
            } else {
                None
            },
        }
    }
}

/// The edges from `from` to each of `targets`, in order.
pub open spec fn edges_from(from: RegionId, targets: Seq<(RegionId, ControlFlowEdgeType)>) -> Seq<RegionEdge> {
    targets.map_values(|t: (RegionId, ControlFlowEdgeType)| RegionEdge { from, to: t.0, edge_type: t.1 })
}

/// The number of regions still in the graph.
pub open spec fn count_active(active: Seq<bool>) -> nat
    decreases active.len(),
{
    if active.len() == 0 {
        0
    } else {
        count_active(active.drop_last()) + if active.last() {
            1nat
        } else {
            0nat
        }
    }
}

impl AnalysisV {
    /// Whether the region is in the graph.
    pub open spec fn has_region(self, id: RegionId) -> bool {
        id.index < self.regions.len() && id.index < self.active.len() && self.active[id.index as int]
    }

    /// Whether the region has been created, in the graph or not.
    pub open spec fn has_slot(self, id: RegionId) -> bool {
        id.index < self.regions.len()
    }

    /// The region of `id`.
    pub open spec fn region(self, id: RegionId) -> RegionV {
        self.regions[id.index as int]
    }

    /// Every edge joins two regions of the graph, and each region is in or out of it.
    pub open spec fn wf(self) -> bool {
        &&& self.active.len() == self.regions.len()
        &&& forall|i: int| 0 <= i < self.edges.len() ==> self.has_region(#[trigger] self.edges[i].from)
            && self.has_region(self.edges[i].to)
    }

    /// The analysis after region `id` leaves the graph: it becomes inactive, and the edges
    /// that leave or enter it are gone.
    pub open spec fn without_region(self, id: RegionId) -> AnalysisV {
        AnalysisV {
            regions: self.regions.update(
                id.index as int,
                RegionV { region_type: RegionType::Inactive, ..self.region(id) },
            ),
            active: self.active.update(id.index as int, false),
            edges: edges_without(self.edges, id),
            ..self
        }
    }

    /// The same analysis with region `id` replaced.
    pub open spec fn with_region(self, id: RegionId, r: RegionV) -> AnalysisV {
        AnalysisV { regions: self.regions.update(id.index as int, r), ..self }
    }
}

/// Analyses the structure of control flow by reducing a graph of regions.
pub struct StructureAnalysis {
    debug_mode: bool,
    max_iterations: usize,
    regions: Vec<Region>,
    active: Vec<bool>,
    edges: Vec<RegionEdge>,
}

impl View for StructureAnalysis {
    type V = AnalysisV;

    closed spec fn view(&self) -> AnalysisV {
        AnalysisV {
            regions: region_views(self.regions@),
            active: self.active@,
            edges: self.edges@,
            debug_mode: self.debug_mode,
            max_iterations: self.max_iterations,
        }
    }
}

/// The abstract values of regions.
pub open spec fn region_views(s: Seq<Region>) -> Seq<RegionV> {
    s.map_values(|r: Region| r@)
}

proof fn lemma_region_views_update(s: Seq<Region>, i: int)
    requires
        0 <= i < s.len(),
    ensures
        forall|x: Region| #[trigger] region_views(s.update(i, x)) == region_views(s).update(i, x@),
{
    assert forall|x: Region| #[trigger] region_views(s.update(i, x)) == region_views(s).update(i, x@) by {
        assert(region_views(s.update(i, x)) =~= region_views(s).update(i, x@));
    }
}

proof fn lemma_wf_same_graph(a: AnalysisV, b: AnalysisV)
    requires
        a.wf(),
        b.active == a.active,
        b.edges == a.edges,
        b.regions.len() == a.regions.len(),
    ensures
        b.wf(),
{
    assert forall|i: int| 0 <= i < b.edges.len() implies b.has_region(#[trigger] b.edges[i].from) && b.has_region(
        b.edges[i].to,
    ) by {
        assert(a.has_region(a.edges[i].from));
        assert(a.has_region(a.edges[i].to));
    }
}

/// The error for a region that is not in the graph.
pub open spec fn is_not_found<T>(r: Result<T, StructureAnalysisError>, id: RegionId) -> bool {
    r matches Err(StructureAnalysisError::RegionNotFound { region_id }) && region_id == id
}

/// An error of another kind than the named ones.
pub open spec fn is_other<T>(r: Result<T, StructureAnalysisError>, message: Seq<char>) -> bool {
    r matches Err(StructureAnalysisError::Other { message: m }) && m@ == message
}

impl StructureAnalysis {
    /// The well-formedness of the analysis.
    pub open spec fn wf(&self) -> bool {
        self@.wf()
    }

    /// An analysis with no regions.
    pub fn new(debug_mode: bool, max_iterations: usize) -> (s: Self)
        ensures
            s.wf(),
            s@.regions.len() == 0,
            s@.edges.len() == 0,
            s@.debug_mode == debug_mode,
            s@.max_iterations == max_iterations,
    {
        let s = StructureAnalysis {
            debug_mode,
            max_iterations,
            regions: Vec::new(),
            active: Vec::new(),
            edges: Vec::new(),
        };
        assert(s@.regions =~= Seq::<RegionV>::empty());
        s
    }

    /// Adds a region of the given type, with no nodes, to the graph.
    pub fn add_region(&mut self, region_type: RegionType) -> (id: RegionId)
        requires
            old(self).wf(),
            old(self)@.regions.len() < usize::MAX,
        ensures
            final(self).wf(),
            id.index == old(self)@.regions.len(),
            final(self)@.regions.len() == old(self)@.regions.len() + 1,
            final(self)@.regions.take(id.index as int) == old(self)@.regions,
            final(self)@.region(id).nodes.len() == 0,
            final(self)@.region(id).jump_expr is None,
            final(self)@.region(id).region_type == region_type,
            final(self)@.region(id).branch_opcode is None,
            final(self)@.region(id).region_id == id,
            final(self)@.active == old(self)@.active.push(true),
            final(self)@.edges == old(self)@.edges,
            final(self)@.debug_mode == old(self)@.debug_mode,
            final(self)@.max_iterations == old(self)@.max_iterations,
    {
        let id = RegionId::new(self.regions.len());
        let ghost before = self@;
        self.regions.push(Region::new(region_type, id));
        self.active.push(true);
        proof {
            assert(self@.regions.take(id.index as int) =~= before.regions);
            assert forall|i: int| 0 <= i < self@.edges.len() implies self@.has_region(#[trigger] self@.edges[i].from)
                && self@.has_region(self@.edges[i].to) by {
                assert(before.has_region(before.edges[i].from));
                assert(before.has_region(before.edges[i].to));
            }
        }
        id
    }

    /// The number of regions in the graph.
    pub fn node_count(&self) -> (n: usize)
        requires
            self.wf(),
        ensures
            n == count_active(self@.active),
    {
        let mut n: usize = 0;
        let mut i: usize = 0;
        while i < self.active.len()
            invariant
                i <= self.active@.len(),
                n == count_active(self.active@.take(i as int)),
                n <= i,
            decreases self.active@.len() - i,
        {
            proof {
                assert(self.active@.take(i + 1).drop_last() =~= self.active@.take(i as int));
            }
            if self.active[i] {
                n = n + 1;
            }
            i = i + 1;
        }
        assert(self.active@.take(i as int) =~= self.active@);
        n
    }

    /// Whether the region is in the graph.
    pub fn has_region(&self, id: RegionId) -> (b: bool)
        requires
            self.wf(),
        ensures
            b == self@.has_region(id),
    {
        id.index < self.regions.len() && self.active[id.index]
    }

    /// The region the analysis starts from: the first one added.
    pub fn get_entry_region(&self) -> (id: RegionId)
        ensures
            id.index == 0,
    {
        RegionId::new(0)
    }

    /// The region of `id`.
    pub fn get_region(&self, id: RegionId) -> (r: Result<&Region, StructureAnalysisError>)
        ensures
            self@.has_slot(id) ==> (r matches Ok(reg) && reg@ == self@.region(id)),
            !self@.has_slot(id) ==> is_not_found(r, id),
    {
        if id.index < self.regions.len() {
            Ok(&self.regions[id.index])
        } else {
            Err(StructureAnalysisError::RegionNotFound { region_id: id })
        }
    }

    /// The region of `id`, for modification.
    pub fn get_region_mut(&mut self, id: RegionId) -> (r: Result<&mut Region, StructureAnalysisError>)
        ensures
            old(self)@.has_slot(id) ==> (r is Ok && r->Ok_0@ == old(self)@.region(id)
                && final(self)@ == old(self)@.with_region(id, final(r->Ok_0)@)),
            !old(self)@.has_slot(id) ==> is_not_found(r, id) && final(self)@ == old(self)@,
            final(self)@.debug_mode == old(self)@.debug_mode,
            final(self)@.max_iterations == old(self)@.max_iterations,
    {
        if id.index < self.regions.len() {
            proof {
                lemma_region_views_update(self.regions@, id.index as int);
            }
            Ok(&mut self.regions[id.index])
        } else {
            Err(StructureAnalysisError::RegionNotFound { region_id: id })
        }
    }

    /// Adds a node at the end of region `id`.
    pub fn push_to_region<N: IntoAst>(&mut self, id: RegionId, node: N)
        requires
            old(self).wf(),
            old(self)@.has_slot(id),
        ensures
            final(self).wf(),
            final(self)@ == old(self)@.with_region(
                id,
                RegionV { nodes: old(self)@.region(id).nodes.push(node.ast_view()), ..old(self)@.region(id) },
            ),
            final(self)@.debug_mode == old(self)@.debug_mode,
            final(self)@.max_iterations == old(self)@.max_iterations,
    {
        let ghost before = self@;
        proof {
            lemma_region_views_update(self.regions@, id.index as int);
        }
        self.regions[id.index].push_node(node.into_ast());
        proof {
            lemma_wf_same_graph(before, self@);
            assert(self@.regions =~= before.with_region(
                id,
                RegionV { nodes: before.region(id).nodes.push(node.ast_view()), ..before.region(id) },
            ).regions);
        }
    }

    /// The type of region `id`.
    pub fn get_region_type(&self, id: RegionId) -> (r: Result<RegionType, StructureAnalysisError>)
        ensures
            self@.has_slot(id) ==> r == Ok::<RegionType, StructureAnalysisError>(self@.region(id).region_type),
            !self@.has_slot(id) ==> is_not_found(r, id),
    {
        if id.index < self.regions.len() {
            Ok(self.regions[id.index].get_region_type())
        } else {
            Err(StructureAnalysisError::RegionNotFound { region_id: id })
        }
    }

    /// The branch opcode of region `id`.
    pub fn get_branch_opcode(&self, id: RegionId) -> (r: Result<Option<Opcode>, StructureAnalysisError>)
        ensures
            self@.has_slot(id) ==> r == Ok::<Option<Opcode>, StructureAnalysisError>(
                self@.region(id).branch_opcode,
            ),
            !self@.has_slot(id) ==> is_not_found(r, id),
    {
        if id.index < self.regions.len() {
            Ok(self.regions[id.index].get_branch_opcode())
        } else {
            Err(StructureAnalysisError::RegionNotFound { region_id: id })
        }
    }

    /// Adds an edge from `from` to `to`.
    pub fn connect_regions(&mut self, from: RegionId, to: RegionId, edge_type: ControlFlowEdgeType) -> (r: Result<
        (),
        StructureAnalysisError,
    >)
        requires
            old(self).wf(),
        ensures
            final(self).wf(),
            final(self)@.debug_mode == old(self)@.debug_mode,
            final(self)@.max_iterations == old(self)@.max_iterations,
            !old(self)@.has_region(from) ==> is_not_found(r, from) && final(self)@ == old(self)@,
            old(self)@.has_region(from) && !old(self)@.has_region(to) ==> is_not_found(r, to) && final(self)@
                == old(self)@,
            old(self)@.has_region(from) && old(self)@.has_region(to) ==> r is Ok && final(self)@ == (AnalysisV {
                edges: old(self)@.edges.push(RegionEdge { from, to, edge_type }),
                ..old(self)@
            }),
    {
        if !self.has_region(from) {
            return Err(StructureAnalysisError::RegionNotFound { region_id: from });
        }
        if !self.has_region(to) {
            return Err(StructureAnalysisError::RegionNotFound { region_id: to });
        }
        let ghost before = self@;
        self.edges.push(RegionEdge { from, to, edge_type });
        proof {
            assert forall|i: int| 0 <= i < self@.edges.len() implies self@.has_region(#[trigger] self@.edges[i].from)
                && self@.has_region(self@.edges[i].to) by {
                if i < before.edges.len() {
                    assert(before.edges[i] == self@.edges[i]);
                }
            }
        }
        Ok(())
    }

    /// The successors of region `id`, with the kinds of the edges, in the order the edges
    /// were added.
    pub fn get_successors(&self, id: RegionId) -> (r: Result<Vec<(RegionId, ControlFlowEdgeType)>, StructureAnalysisError>)
        requires
            self.wf(),
        ensures
            self@.has_region(id) ==> (r matches Ok(v) && v@ == successors_of(self@.edges, id)),
            !self@.has_region(id) ==> is_not_found(r, id),
    {
        if !self.has_region(id) {
            return Err(StructureAnalysisError::RegionNotFound { region_id: id });
        }
        let mut v: Vec<(RegionId, ControlFlowEdgeType)> = Vec::new();
        let mut i: usize = 0;
        while i < self.edges.len()
            invariant
                i <= self.edges@.len(),
                v@ == successors_of(self.edges@.take(i as int), id),
            decreases self.edges@.len() - i,
        {
            proof {
                assert(self.edges@.take(i + 1).drop_last() =~= self.edges@.take(i as int));
            }
            let e = self.edges[i];
            if e.from == id {
                v.push((e.to, e.edge_type));
            }
            i = i + 1;
        }
        assert(self.edges@.take(i as int) =~= self.edges@);
        Ok(v)
    }

    /// The predecessors of region `id`, with the kinds of the edges, in the order the edges
    /// were added.
    pub fn get_predecessors(&self, id: RegionId) -> (r: Result<Vec<(RegionId, ControlFlowEdgeType)>, StructureAnalysisError>)
        requires
            self.wf(),
        ensures
            self@.has_region(id) ==> (r matches Ok(v) && v@ == predecessors_of(self@.edges, id)),
            !self@.has_region(id) ==> is_not_found(r, id),
    {
        if !self.has_region(id) {
            return Err(StructureAnalysisError::RegionNotFound { region_id: id });
        }
        let mut v: Vec<(RegionId, ControlFlowEdgeType)> = Vec::new();
        let mut i: usize = 0;
        while i < self.edges.len()
            invariant
                i <= self.edges@.len(),
                v@ == predecessors_of(self.edges@.take(i as int), id),
            decreases self.edges@.len() - i,
        {
            proof {
                assert(self.edges@.take(i + 1).drop_last() =~= self.edges@.take(i as int));
            }
            let e = self.edges[i];
            if e.to == id {
                v.push((e.from, e.edge_type));
            }
            i = i + 1;
        }
        assert(self.edges@.take(i as int) =~= self.edges@);
        Ok(v)
    }

    /// Whether region `id` has exactly one predecessor.
    pub fn has_single_predecessor(&self, id: RegionId) -> (r: Result<bool, StructureAnalysisError>)
        requires
            self.wf(),
        ensures
            self@.has_region(id) ==> r == Ok::<bool, StructureAnalysisError>(
                predecessors_of(self@.edges, id).len() == 1,
            ),
            !self@.has_region(id) ==> is_not_found(r, id),
    {
        match self.get_predecessors(id) {
            Ok(v) => Ok(v.len() == 1),
            Err(e) => Err(e),
        }
    }

    /// The only predecessor of region `id`, if it has exactly one.
    pub fn get_single_predecessor(&self, id: RegionId) -> (r: Result<Option<RegionId>, StructureAnalysisError>)
        requires
            self.wf(),
        ensures
            self@.has_region(id) ==> r == Ok::<Option<RegionId>, StructureAnalysisError>(
                if predecessors_of(self@.edges, id).len() == 1 {
                    Some(predecessors_of(self@.edges, id)[0].0)
                } else {
                    None
                },
            ),
            !self@.has_region(id) ==> is_not_found(r, id),
    {
        match self.get_predecessors(id) {
            Ok(v) => if v.len() == 1 {
                Ok(Some(v[0].0))
            } else {
                Ok(None)
            },
            Err(e) => Err(e),
        }
    }

    /// The only successor of region `id`, if it has exactly one.
    pub fn get_single_successor(&self, id: RegionId) -> (r: Result<Option<RegionId>, StructureAnalysisError>)
        requires
            self.wf(),
        ensures
            self@.has_region(id) ==> r == Ok::<Option<RegionId>, StructureAnalysisError>(
                if successors_of(self@.edges, id).len() == 1 {
                    Some(successors_of(self@.edges, id)[0].0)
                } else {
                    None
                },
            ),
            !self@.has_region(id) ==> is_not_found(r, id),
    {
        match self.get_successors(id) {
            Ok(v) => if v.len() == 1 {
                Ok(Some(v[0].0))
            } else {
                Ok(None)
            },
            Err(e) => Err(e),
        }
    }

    /// The only successor of region `id`, if the region is linear and has exactly one.
    pub fn get_single_linear_successor(&self, id: RegionId) -> (r: Result<Option<RegionId>, StructureAnalysisError>)
        requires
            self.wf(),
        ensures
            self@.has_region(id) ==> r == Ok::<Option<RegionId>, StructureAnalysisError>(
                if self@.region(id).region_type == RegionType::Linear && successors_of(self@.edges, id).len()
                    == 1 {
                    Some(successors_of(self@.edges, id)[0].0)
                } else {
                    None
                },
            ),
            !self@.has_region(id) ==> is_not_found(r, id),
    {
        match self.get_single_successor(id) {
            Ok(s) => {
                if self.regions[id.index].get_region_type() == RegionType::Linear {
                    Ok(s)
                } else {
                    Ok(None)
                }
            },
            Err(e) => Err(e),
        }
    }

    /// Removes the first edge from `from` to `to`.
    pub fn remove_edge(&mut self, from: RegionId, to: RegionId) -> (r: Result<(), StructureAnalysisError>)
        requires
            old(self).wf(),
        ensures
            final(self).wf(),
            final(self)@.debug_mode == old(self)@.debug_mode,
            final(self)@.max_iterations == old(self)@.max_iterations,
            first_edge(old(self)@.edges, from, to) matches Some(i) ==> r is Ok && final(self)@ == (AnalysisV {
                edges: old(self)@.edges.remove(i as int),
                ..old(self)@
            }),
            first_edge(old(self)@.edges, from, to) is None ==> is_other(r, "Edge not found"@) && final(self)@ == old(self)@,
    {
        let ghost before = self@;
        let mut i: usize = 0;
        while i < self.edges.len()
            invariant
                i <= self.edges@.len(),
                self@ == before,
                before == old(self)@,
                before.wf(),
                first_edge(self.edges@.take(i as int), from, to) is None,
            decreases self.edges@.len() - i,
        {
            proof {
                assert(self.edges@.take(i + 1).drop_last() =~= self.edges@.take(i as int));
            }
            let e = self.edges[i];
            if e.from == from && e.to == to {
                proof {
                    lemma_first_edge_prefix(self.edges@, from, to, (i + 1) as int);
                }
                self.edges.remove(i);
                proof {
                    assert(self@.edges =~= before.edges.remove(i as int));
                    assert(self@.regions == before.regions);
                    assert(self.debug_mode == before.debug_mode);
                    assert(self@ == (AnalysisV { edges: before.edges.remove(i as int), ..before }));
                    assert forall|k: int| 0 <= k < self@.edges.len() implies self@.has_region(
                        #[trigger] self@.edges[k].from,
                    ) && self@.has_region(self@.edges[k].to) by {
                        if k < i {
                            assert(self@.edges[k] == before.edges[k]);
                            assert(before.has_region(before.edges[k].from));
                            assert(before.has_region(before.edges[k].to));
                        } else {
                            assert(self@.edges[k] == before.edges[k + 1]);
                            assert(before.has_region(before.edges[k + 1].from));
                            assert(before.has_region(before.edges[k + 1].to));
                        }
                    }
                }
                return Ok(());
            }
            i = i + 1;
        }
        assert(self.edges@.take(i as int) =~= self.edges@);
        Err(StructureAnalysisError::Other { message: String::from_str("Edge not found") })
    }

    /// Removes region `id` from the graph with every edge that leaves or enters it; the
    /// region keeps its nodes and becomes inactive.
    pub fn remove_node(&mut self, id: RegionId) -> (r: Result<(), StructureAnalysisError>)
        requires
            old(self).wf(),
        ensures
            final(self).wf(),
            final(self)@.debug_mode == old(self)@.debug_mode,
            final(self)@.max_iterations == old(self)@.max_iterations,
            old(self)@.has_region(id) ==> r is Ok && final(self)@ == old(self)@.without_region(id),
            !old(self)@.has_region(id) ==> is_not_found(r, id) && final(self)@ == old(self)@,
    {
        if !self.has_region(id) {
            return Err(StructureAnalysisError::RegionNotFound { region_id: id });
        }
        let ghost before = self@;
        let mut kept: Vec<RegionEdge> = Vec::new();
        let mut i: usize = 0;
        while i < self.edges.len()
            invariant
                i <= self.edges@.len(),
                self@ == before,
                before.wf(),
                kept@ == edges_without(self.edges@.take(i as int), id),
            decreases self.edges@.len() - i,
        {
            proof {
                assert(self.edges@.take(i + 1).drop_last() =~= self.edges@.take(i as int));
            }
            let e = self.edges[i];
            if e.from != id && e.to != id {
                kept.push(e);
            }
            i = i + 1;
        }
        assert(self.edges@.take(i as int) =~= self.edges@);
        self.edges = kept;
        self.active.set(id.index, false);
        self.regions[id.index].set_region_type(RegionType::Inactive);
        proof {
            lemma_edges_without(before.edges, id);
            assert(self@.regions =~= before.without_region(id).regions);
            assert forall|k: int| 0 <= k < self@.edges.len() implies self@.has_region(#[trigger] self@.edges[k].from)
                && self@.has_region(self@.edges[k].to) by {
                let e = self@.edges[k];
                assert(before.edges.contains(e));
                let j = choose|j: int| 0 <= j < before.edges.len() && before.edges[j] == e;
                assert(before.has_region(before.edges[j].from));
                assert(before.has_region(before.edges[j].to));
            }
        }
        Ok(())
    }
}

/// The kind of error a step of structure analysis ends in.
pub enum StepError {
    /// The region is not in the graph.
    NotFound(RegionId),
    /// A region has no jump expression.
    NoCondition,
    /// A condition cannot be negated.
    InvalidOperand,
    /// Another error, with its message.
    Other(Seq<char>),
}

/// Whether `r` is the outcome `o`: the same value, or an error of the same kind.
pub open spec fn step_agrees<T>(r: Result<T, StructureAnalysisError>, o: Result<T, StepError>) -> bool {
    match o {
        Ok(v) => r == Ok::<T, StructureAnalysisError>(v),
        Err(StepError::NotFound(id)) => is_not_found(r, id),
        Err(StepError::NoCondition) => r matches Err(StructureAnalysisError::ExpectedConditionNotFound),
        Err(StepError::InvalidOperand) => is_invalid_operand(r),
        Err(StepError::Other(m)) => is_other(r, m),
    }
}

/// What the linear reducer does with region `id`: the outcome and the graph after.
pub open spec fn linear_step(a: AnalysisV, id: RegionId) -> (Result<bool, StepError>, AnalysisV) {
    let succs = successors_of(a.edges, id);
    if !a.has_region(id) {
        (Err(StepError::NotFound(id)), a)
    } else if succs.len() != 1 {
        (Err(StepError::Other("Linear region does not have exactly one successor"@)), a)
    } else if predecessors_of(a.edges, succs[0].0).len() != 1 {
        (Ok(false), a)
    } else if a.region(succs[0].0).region_type == RegionType::Inactive {
        (Err(StepError::Other("Cannot merge inactive region"@)), a)
    } else {
        (Ok(true), linear_merged(a, id, succs[0].0))
    }
}

/// What the tail reducer does with region `id`.
pub open spec fn tail_step(a: AnalysisV, id: RegionId) -> (Result<bool, StepError>, AnalysisV) {
    let succs = successors_of(a.edges, id);
    let branch = successor_of_kind(succs, ControlFlowEdgeType::Branch);
    let fall = successor_of_kind(succs, ControlFlowEdgeType::Fallthrough);
    if !a.has_slot(id) {
        (Err(StepError::NotFound(id)), a)
    } else if a.region(id).region_type != RegionType::ControlFlow {
        (Ok(false), a)
    } else if a.region(id).jump_expr is None {
        (Err(StepError::NoCondition), a)
    } else if !a.has_region(id) {
        (Err(StepError::NotFound(id)), a)
    } else if succs.len() != 2 {
        (Err(StepError::Other("Tail reduction requires exactly two successors"@)), a)
    } else if branch is None {
        (Err(StepError::Other("Control flow region must have a branch successor"@)), a)
    } else if fall is None {
        (Err(StepError::Other("Control flow region must have a fallthrough successor"@)), a)
    } else {
        let outcome = tail_outcome(a, id, a.region(id).jump_expr->Some_0, branch->Some_0, fall->Some_0);
        (
            match outcome.0 {
                Ok(b) => Ok(b),
                Err(_) => Err(StepError::InvalidOperand),
            },
            outcome.1,
        )
    }
}

/// What the cyclic reducer does with region `id`.
pub open spec fn cyclic_step(a: AnalysisV, id: RegionId) -> (Result<bool, StepError>, AnalysisV) {
    let succs = successors_of(a.edges, id);
    let jump = a.region(id).jump_expr;
    if !a.has_region(id) {
        (Err(StepError::NotFound(id)), a)
    } else if has_self_loop(a, id) {
        if succs.len() == 1 {
            (Err(StepError::Other("Infinite loop not implemented yet"@)), a)
        } else if jump is None {
            (Err(StepError::NoCondition), a)
        } else {
            (Ok(true), do_while_reduced(a, id, jump->Some_0))
        }
    } else {
        match first_loop_body(a, id, succs) {
            None => (Ok(false), a),
            Some(body) => if jump is None {
                (Err(StepError::NoCondition), a)
            } else if branch_condition_valid(jump->Some_0, a.region(id).branch_opcode) {
                (Ok(true), while_reduced(a, id, jump->Some_0, body))
            } else {
                (Err(StepError::InvalidOperand), a)
            },
        }
    }
}

/// What the virtual-branch reducer does with region `id`.
pub open spec fn vbranch_step(a: AnalysisV, id: RegionId) -> (Result<bool, StepError>, AnalysisV) {
    let succs = successors_of(a.edges, id);
    if !a.has_slot(id) {
        (Err(StepError::NotFound(id)), a)
    } else if a.region(id).region_type != RegionType::Linear {
        (Ok(false), a)
    } else if !a.has_region(id) {
        (Err(StepError::NotFound(id)), a)
    } else if succs.len() != 1 {
        (Err(StepError::Other("Linear region does not have exactly one successor"@)), a)
    } else {
        (Ok(true), branched(a, id, succs[0].0))
    }
}

/// A round of reduction over the regions `i` to `n - 1`, in order, `changed` telling whether
/// an earlier one was reduced: a linear region with one successor goes to the linear
/// reducer; a control-flow region to the cyclic reducer and, when that does nothing, to the
/// tail reducer; the first error ends the round. The outcome tells whether any region was
/// reduced.
pub open spec fn round_from(a: AnalysisV, n: nat, i: nat, changed: bool) -> (Result<bool, StepError>, AnalysisV)
    decreases n - i,
{
    if i >= n {
        (Ok(changed), a)
    } else {
        let id = RegionId { index: i as usize };
        if !a.has_region(id) {
            round_from(a, n, i + 1, changed)
        } else if a.region(id).region_type == RegionType::Linear {
            if successors_of(a.edges, id).len() == 1 {
                let (r, b) = linear_step(a, id);
                match r {
                    Ok(x) => round_from(b, n, i + 1, changed || x),
                    Err(e) => (Err(e), b),
                }
            } else {
                round_from(a, n, i + 1, changed)
            }
        } else if a.region(id).region_type == RegionType::ControlFlow {
            let (r, b) = cyclic_step(a, id);
            match r {
                Err(e) => (Err(e), b),
                Ok(true) => round_from(b, n, i + 1, true),
                Ok(false) => {
                    let (r2, c) = tail_step(b, id);
                    match r2 {
                        Ok(x) => round_from(c, n, i + 1, changed || x),
                        Err(e) => (Err(e), c),
                    }
                },
            }
        } else {
            round_from(a, n, i + 1, changed)
        }
    }
}

/// The first linear region from `i` on, below `n`, with one successor gets a branch to it;
/// the outcome tells whether there was one.
pub open spec fn branch_from(a: AnalysisV, n: nat, i: nat) -> (Result<bool, StepError>, AnalysisV)
    decreases n - i,
{
    if i >= n {
        (Ok(false), a)
    } else {
        let id = RegionId { index: i as usize };
        if a.has_region(id) && a.region(id).region_type == RegionType::Linear && successors_of(a.edges, id).len()
            == 1 {
            vbranch_step(a, id)
        } else {
            branch_from(a, n, i + 1)
        }
    }
}

/// Structure analysis with at most `left` more rounds: done when at most one region is left;
/// otherwise a round, and when it reduces nothing, a branch out of a linear region; an error
/// when no round is left or nothing can be reduced.
pub open spec fn execute_from(a: AnalysisV, left: nat) -> (Result<(), StepError>, AnalysisV)
    decreases left,
{
    if count_active(a.active) <= 1 {
        (Ok(()), a)
    } else if left == 0 {
        (Err(StepError::Other("Structure analysis reached its maximum number of iterations"@)), a)
    } else {
        let (r, b) = round_from(a, a.regions.len(), 0, false);
        match r {
            Err(e) => (Err(e), b),
            Ok(true) => execute_from(b, (left - 1) as nat),
            Ok(false) => {
                let (r2, c) = branch_from(b, b.regions.len(), 0);
                match r2 {
                    Err(e) => (Err(e), c),
                    Ok(true) => execute_from(c, (left - 1) as nat),
                    Ok(false) => (Err(StepError::Other("No region of the graph can be reduced"@)), c),
                }
            },
        }
    }
}

impl StructureAnalysis {
    /// One round of reduction: each region of the graph, in order, is reduced by the
    /// reducer of its type; gives whether any was (see `round_from`).
    fn reduce_round(&mut self) -> (r: Result<bool, StructureAnalysisError>)
        requires
            old(self).wf(),
        ensures
            final(self).wf(),
            final(self)@.regions.len() == old(self)@.regions.len(),
            final(self)@.max_iterations == old(self)@.max_iterations,
            final(self)@.debug_mode == old(self)@.debug_mode,
            step_agrees(r, round_from(old(self)@, old(self)@.regions.len(), 0, false).0),
            final(self)@ == round_from(old(self)@, old(self)@.regions.len(), 0, false).1,
    {
        let mut linear = LinearRegionReducer;
        let mut tail = TailRegionReducer;
        let mut cyclic = CyclicRegionReducer;
        let n = self.regions.len();
        let ghost start = self@;
        let mut changed = false;
        let mut i: usize = 0;
        while i < n
            invariant
                i <= n,
                n == start.regions.len(),
                start == old(self)@,
                self.wf(),
                self@.regions.len() == n,
                self@.max_iterations == start.max_iterations,
                self@.debug_mode == start.debug_mode,
                round_from(start, n as nat, 0, false) == round_from(self@, n as nat, i as nat, changed),
            decreases n - i,
        {
            let id = RegionId::new(i);
            let ghost before = self@;
            proof {
                assert(id == RegionId { index: i });
            }
            if self.has_region(id) {
                let region_type = match self.get_region_type(id) {
                    Ok(t) => t,
                    Err(e) => return Err(e),
                };
                if region_type == RegionType::Linear {
                    let succ = match self.get_single_successor(id) {
                        Ok(s) => s,
                        Err(e) => return Err(e),
                    };
                    if succ.is_some() {
                        match linear.reduce_region(self, id) {
                            Ok(b) => changed = changed || b,
                            Err(e) => return Err(e),
                        }
                    }
                } else if region_type == RegionType::ControlFlow {
                    let reduced = match cyclic.reduce_region(self, id) {
                        Ok(b) => b,
                        Err(e) => return Err(e),
                    };
                    if reduced {
                        changed = true;
                    } else {
                        match tail.reduce_region(self, id) {
                            Ok(b) => changed = changed || b,
                            Err(e) => return Err(e),
                        }
                    }
                }
            }
            i = i + 1;
        }
        Ok(changed)
    }

    /// Ends the first linear region of the graph that has one successor with a branch to it;
    /// gives whether there was one (see `branch_from`).
    fn branch_first_linear(&mut self) -> (r: Result<bool, StructureAnalysisError>)
        requires
            old(self).wf(),
        ensures
            final(self).wf(),
            final(self)@.regions.len() == old(self)@.regions.len(),
            final(self)@.max_iterations == old(self)@.max_iterations,
            final(self)@.debug_mode == old(self)@.debug_mode,
            step_agrees(r, branch_from(old(self)@, old(self)@.regions.len(), 0).0),
            final(self)@ == branch_from(old(self)@, old(self)@.regions.len(), 0).1,
    {
        let mut vbranch = VirtualBranchReducer;
        let n = self.regions.len();
        let mut i: usize = 0;
        while i < n
            invariant
                i <= n,
                self.wf(),
                self@.regions.len() == n,
                self@.max_iterations == old(self)@.max_iterations,
                self@.debug_mode == old(self)@.debug_mode,
                self@ == old(self)@,
                n == old(self)@.regions.len(),
                branch_from(old(self)@, n as nat, 0) == branch_from(self@, n as nat, i as nat),
            decreases n - i,
        {
            let id = RegionId::new(i);
            if self.has_region(id) {
                let region_type = match self.get_region_type(id) {
                    Ok(t) => t,
                    Err(e) => return Err(e),
                };
                if region_type == RegionType::Linear {
                    let succ = match self.get_single_successor(id) {
                        Ok(s) => s,
                        Err(e) => return Err(e),
                    };
                    if succ.is_some() {
                        return vbranch.reduce_region(self, id);
                    }
                }
            }
            i = i + 1;
        }
        Ok(false)
    }

    /// Reduces the graph until one region is left: rounds of reduction, and when a round
    /// changes nothing, a branch out of a linear region. Fails after `max_iterations`
    /// rounds, or when nothing can be reduced.
    pub fn execute(&mut self) -> (r: Result<(), StructureAnalysisError>)
        requires
            old(self).wf(),
        ensures
            final(self).wf(),
            final(self)@.regions.len() == old(self)@.regions.len(),
            r is Ok ==> count_active(final(self)@.active) <= 1,
            step_agrees(r, execute_from(old(self)@, old(self)@.max_iterations as nat).0),
            final(self)@ == execute_from(old(self)@, old(self)@.max_iterations as nat).1,
    {
        let max_iterations = self.max_iterations;
        let mut iterations: usize = 0;
        while self.node_count() > 1
            invariant
                self.wf(),
                self@.regions.len() == old(self)@.regions.len(),
                self@.max_iterations == max_iterations,
                max_iterations == old(self)@.max_iterations,
                iterations <= max_iterations,
                execute_from(old(self)@, max_iterations as nat) == execute_from(
                    self@,
                    (max_iterations - iterations) as nat,
                ),
            decreases max_iterations - iterations,
        {
            if iterations >= max_iterations {
                return Err(StructureAnalysisError::Other {
                    message: String::from_str("Structure analysis reached its maximum number of iterations"),
                });
            }
            iterations = iterations + 1;
            let changed = match self.reduce_round() {
                Ok(b) => b,
                Err(e) => return Err(e),
            };
            if !changed {
                let branched = match self.branch_first_linear() {
                    Ok(b) => b,
                    Err(e) => return Err(e),
                };
                if !branched {
                    return Err(StructureAnalysisError::Other {
                        message: String::from_str("No region of the graph can be reduced"),
                    });
                }
            }
        }
        Ok(())
    }
}

/// Taking a region of the graph out of it lowers the number of regions in the graph by one.
pub proof fn law_removal_counts_one(a: AnalysisV, id: RegionId)
    requires
        a.wf(),
        a.has_region(id),
    ensures
        count_active(a.without_region(id).active) + 1 == count_active(a.active),
{
    lemma_count_active_update(a.active, id.index as int);
}

proof fn lemma_count_active_update(active: Seq<bool>, i: int)
    requires
        0 <= i < active.len(),
        active[i],
    ensures
        count_active(active.update(i, false)) + 1 == count_active(active),
    decreases active.len(),
{
    let u = active.update(i, false);
    if i < active.len() - 1 {
        assert(u.drop_last() =~= active.drop_last().update(i, false));
        lemma_count_active_update(active.drop_last(), i);
    } else {
        assert(u.drop_last() =~= active.drop_last());
    }
}

/// The edges kept when a region is removed come from the edges before and do not touch it.
pub proof fn lemma_edges_without(edges: Seq<RegionEdge>, id: RegionId)
    ensures
        forall|k: int| 0 <= k < edges_without(edges, id).len() ==> edges.contains(#[trigger] edges_without(edges, id)[k])
            && edges_without(edges, id)[k].from != id && edges_without(edges, id)[k].to != id,
    decreases edges.len(),
{
    if edges.len() > 0 {
        lemma_edges_without(edges.drop_last(), id);
        let rest = edges_without(edges.drop_last(), id);
        assert forall|k: int| 0 <= k < edges_without(edges, id).len() implies edges.contains(
            #[trigger] edges_without(edges, id)[k],
        ) && edges_without(edges, id)[k].from != id && edges_without(edges, id)[k].to != id by {
            if k < rest.len() {
                let e = rest[k];
                assert(edges.drop_last().contains(e));
                let j = choose|j: int| 0 <= j < edges.drop_last().len() && edges.drop_last()[j] == e;
                assert(edges[j] == e);
            } else {
                assert(edges[edges.len() - 1] == edges.last());
            }
        }
    }
}

/// In a well-formed analysis, every successor and every predecessor of a region is in the
/// graph.
pub proof fn lemma_neighbors_in_graph(a: AnalysisV, id: RegionId)
    requires
        a.wf(),
    ensures
        forall|k: int| 0 <= k < successors_of(a.edges, id).len() ==> a.has_region(#[trigger] successors_of(a.edges, id)[k].0),
        forall|k: int| 0 <= k < predecessors_of(a.edges, id).len() ==> a.has_region(#[trigger] predecessors_of(a.edges, id)[k].0),
{
    lemma_neighbors_from(a, a.edges, id);
}

proof fn lemma_neighbors_from(a: AnalysisV, edges: Seq<RegionEdge>, id: RegionId)
    requires
        forall|i: int| 0 <= i < edges.len() ==> a.has_region(#[trigger] edges[i].from) && a.has_region(edges[i].to),
    ensures
        forall|k: int| 0 <= k < successors_of(edges, id).len() ==> a.has_region(#[trigger] successors_of(edges, id)[k].0),
        forall|k: int| 0 <= k < predecessors_of(edges, id).len() ==> a.has_region(#[trigger] predecessors_of(edges, id)[k].0),
    decreases edges.len(),
{
    if edges.len() > 0 {
        let d = edges.drop_last();
        assert forall|i: int| 0 <= i < d.len() implies a.has_region(#[trigger] d[i].from) && a.has_region(d[i].to) by {
            assert(d[i] == edges[i]);
        }
        lemma_neighbors_from(a, d, id);
        assert(a.has_region(edges[edges.len() - 1].from));
        assert(a.has_region(edges[edges.len() - 1].to));
        let sd = successors_of(d, id);
        let pd = predecessors_of(d, id);
        assert forall|k: int| 0 <= k < successors_of(edges, id).len() implies a.has_region(
            #[trigger] successors_of(edges, id)[k].0,
        ) by {
            if k < sd.len() {
                assert(successors_of(edges, id)[k] == sd[k]);
            }
        }
        assert forall|k: int| 0 <= k < predecessors_of(edges, id).len() implies a.has_region(
            #[trigger] predecessors_of(edges, id)[k].0,
        ) by {
            if k < pd.len() {
                assert(predecessors_of(edges, id)[k] == pd[k]);
            }
        }
    }
}

/// A region's successor is joined to it by an edge.
pub proof fn lemma_successor_edge(edges: Seq<RegionEdge>, id: RegionId, k: int)
    requires
        0 <= k < successors_of(edges, id).len(),
    ensures
        first_edge(edges, id, successors_of(edges, id)[k].0) is Some,
    decreases edges.len(),
{
    let rest = successors_of(edges.drop_last(), id);
    let t = successors_of(edges, id)[k].0;
    if k < rest.len() {
        lemma_successor_edge(edges.drop_last(), id, k);
    } else {
        if first_edge(edges.drop_last(), id, t) is None {
            assert(edges.last().from == id && edges.last().to == t);
        }
    }
}

/// A region's predecessor is joined to it by an edge.
pub proof fn lemma_predecessor_edge(edges: Seq<RegionEdge>, id: RegionId, k: int)
    requires
        0 <= k < predecessors_of(edges, id).len(),
    ensures
        first_edge(edges, predecessors_of(edges, id)[k].0, id) is Some,
    decreases edges.len(),
{
    let rest = predecessors_of(edges.drop_last(), id);
    let f = predecessors_of(edges, id)[k].0;
    if k < rest.len() {
        lemma_predecessor_edge(edges.drop_last(), id, k);
    } else {
        if first_edge(edges.drop_last(), f, id) is None {
            assert(edges.last().from == f && edges.last().to == id);
        }
    }
}

/// Whether some edge goes from `from` to `to`.
pub open spec fn has_edge(edges: Seq<RegionEdge>, from: RegionId, to: RegionId) -> bool {
    exists|k: int| 0 <= k < edges.len() && edges[k].from == from && edges[k].to == to
}

/// Facts about edges: the first edge between two regions is one, it exists when some edge
/// does, and an edge stays when another is removed or when a region it does not touch leaves.
pub proof fn lemma_edge_facts(edges: Seq<RegionEdge>, from: RegionId, to: RegionId)
    ensures
        has_edge(edges, from, to) <==> first_edge(edges, from, to) is Some,
        first_edge(edges, from, to) matches Some(i) ==> i < edges.len() && edges[i as int].from == from
            && edges[i as int].to == to,
        forall|x: RegionId| x != from && x != to && has_edge(edges, from, to) ==> #[trigger] has_edge(
            edges_without(edges, x),
            from,
            to,
        ),
        forall|j: int| 0 <= j < edges.len() && !(edges[j].from == from && edges[j].to == to) && has_edge(
            edges,
            from,
            to,
        ) ==> #[trigger] has_edge(edges.remove(j), from, to),
    decreases edges.len(),
{
    if edges.len() > 0 {
        let d = edges.drop_last();
        lemma_edge_facts(d, from, to);
        if has_edge(edges, from, to) {
            let k = choose|k: int| 0 <= k < edges.len() && edges[k].from == from && edges[k].to == to;
            if k < d.len() {
                assert(d[k] == edges[k]);
            }
        }
        if first_edge(edges, from, to) is Some && first_edge(d, from, to) is Some {
            let i = first_edge(d, from, to)->Some_0;
            assert(d[i as int] == edges[i as int]);
        }
        if has_edge(d, from, to) {
            let k = choose|k: int| 0 <= k < d.len() && d[k].from == from && d[k].to == to;
            assert(edges[k] == d[k]);
        }
        assert forall|x: RegionId| x != from && x != to && has_edge(edges, from, to) implies #[trigger] has_edge(
            edges_without(edges, x),
            from,
            to,
        ) by {
            if has_edge(d, from, to) {
                assert(has_edge(edges_without(d, x), from, to));
                let k = choose|k: int| 0 <= k < edges_without(d, x).len() && edges_without(d, x)[k].from == from
                    && edges_without(d, x)[k].to == to;
                assert(edges_without(edges, x)[k] == edges_without(d, x)[k]);
            } else {
                let w = edges_without(edges, x);
                assert(w[w.len() - 1] == edges.last());
            }
        }
        assert forall|j: int| 0 <= j < edges.len() && !(edges[j].from == from && edges[j].to == to) && has_edge(
            edges,
            from,
            to,
        ) implies #[trigger] has_edge(edges.remove(j), from, to) by {
            let k = choose|k: int| 0 <= k < edges.len() && edges[k].from == from && edges[k].to == to;
            if k < j {
                assert(edges.remove(j)[k] == edges[k]);
            } else {
                assert(edges.remove(j)[k - 1] == edges[k]);
            }
        }
    }
}

/// A region's successors are joined to it by edges.
pub proof fn lemma_successor_has_edge(edges: Seq<RegionEdge>, id: RegionId, k: int)
    requires
        0 <= k < successors_of(edges, id).len(),
    ensures
        has_edge(edges, id, successors_of(edges, id)[k].0),
    decreases edges.len(),
{
    let d = edges.drop_last();
    let t = successors_of(edges, id)[k].0;
    if k < successors_of(d, id).len() {
        lemma_successor_has_edge(d, id, k);
        let m = choose|m: int| 0 <= m < d.len() && d[m].from == id && d[m].to == t;
        assert(edges[m] == d[m]);
    } else {
        assert(edges[edges.len() - 1] == edges.last());
    }
}

/// Where the first edge between two regions lies in a prefix, it lies there in the whole.
proof fn lemma_first_edge_prefix(edges: Seq<RegionEdge>, from: RegionId, to: RegionId, n: int)
    requires
        0 < n <= edges.len(),
        first_edge(edges.take(n - 1), from, to) is None,
        edges[n - 1].from == from && edges[n - 1].to == to,
    ensures
        first_edge(edges, from, to) == Some((n - 1) as nat),
    decreases edges.len(),
{
    if n == edges.len() {
        assert(edges.drop_last() =~= edges.take(n - 1));
    } else {
        assert(edges.drop_last().take(n - 1) =~= edges.take(n - 1));
        lemma_first_edge_prefix(edges.drop_last(), from, to, n);
    }
}

} // verus!
