use vstd::prelude::*;

use petgraph::graph::DiGraph;

use crate::basic_block::{instruction_views, BasicBlock, BasicBlockId, BasicBlockType};
use crate::graph::{
    dfs_post_order, graph_add_edge, graph_add_node, graph_dfs_post_order, graph_edges,
    graph_neighbors, graph_new, graph_node_count, graph_raw_edges, spec_neighbors,
};
use crate::opcode::spec_has_fall_through;
use crate::utils::{Gs2BytecodeAddress, GBF_BLUE, GBF_GREEN, GBF_RED};

verus! {

/// Represents an error that can occur when working with functions.
#[derive(Debug, Clone, Copy, PartialEq, Eq)]
pub enum FunctionError {
    /// No basic block is registered under this id.
    BasicBlockNotFoundById(BasicBlockId),
    /// No basic block starts at this address.
    BasicBlockNotFoundByAddress(Gs2BytecodeAddress),
    /// No graph node is registered for this basic block id.
    BasicBlockNodeIndexNotFound(BasicBlockId),
    /// The function already has an entry block.
    EntryBlockAlreadyExists,
}

/// Represents the identifier of a function.
#[derive(Debug, PartialEq, Eq, Hash, PartialOrd, Ord)]
pub struct FunctionId {
    /// The index of the function in its module.
    pub index: usize,
    /// The name of the function, if it is not the entry point.
    pub name: Option<String>,
    /// The address of the function in the module.
    pub address: Gs2BytecodeAddress,
}

/// The abstract value of a function identifier.
pub struct FunctionIdView {
    /// The index.
    pub index: usize,
    /// The name, if any.
    pub name: Option<Seq<char>>,
    /// The address.
    pub address: Gs2BytecodeAddress,
}

impl View for FunctionId {
    type V = FunctionIdView;

    open spec fn view(&self) -> FunctionIdView {
        FunctionIdView {
            index: self.index,
            name: match self.name {
                Some(n) => Some(n@),
                None => None,
            },
            address: self.address,
        }
    }
}

impl Clone for FunctionId {
    fn clone(&self) -> (r: Self)
        ensures
            r@ == self@,
    {
        FunctionId {
            index: self.index,
            name: match &self.name {
                Some(n) => Some(n.clone()),
                None => None,
            },
            address: self.address,
        }
    }
}

impl FunctionId {
    /// Creates a new `FunctionId`.
    pub fn new(index: usize, name: Option<String>, address: Gs2BytecodeAddress) -> (f: Self)
        ensures
            f.index == index,
            f.name == name,
            f.address == address,
    {
        FunctionId { index, name, address }
    }

    /// Creates a `FunctionId` without a name.
    pub fn new_without_name(index: usize, address: Gs2BytecodeAddress) -> (f: Self)
        ensures
            f.index == index,
            f.name is None,
            f.address == address,
    {
        Self::new(index, None, address)
    }

    /// Returns `true` exactly when the function has no name (the entry point).
    pub fn is_named(&self) -> (b: bool)
        ensures
            b == self.name is None,
    {
        self.name.is_none()
    }

    /// The text of the identifier: the name, or "Unnamed Function (Entry)".
    pub fn to_string(&self) -> (s: String)
        ensures
            s@ == match self.name {
                Some(n) => n@,
                None => "Unnamed Function (Entry)"@,
            },
    {
        match &self.name {
            Some(n) => n.clone(),
            None => String::from_str("Unnamed Function (Entry)"),
        }
    }
}

/// The last index at which `ids` holds `id`.
pub open spec fn last_index_of(ids: Seq<BasicBlockId>, id: BasicBlockId) -> Option<nat>
    decreases ids.len(),
{
    if ids.len() == 0 {
        None
    } else if ids.last() == id {
        Some((ids.len() - 1) as nat)
    } else {
        last_index_of(ids.drop_last(), id)
    }
}

/// The first index of a block that starts at `address`.
pub open spec fn first_block_at(blocks: Seq<BasicBlock>, address: usize) -> Option<nat>
    decreases blocks.len(),
{
    if blocks.len() == 0 {
        None
    } else {
        match first_block_at(blocks.drop_last(), address) {
            Some(i) => Some(i),
            None => if blocks.last().id.address == address {
                Some((blocks.len() - 1) as nat)
            } else {
                None
            },
        }
    }
}

/// The ids of the blocks, in order.
pub open spec fn block_ids_of(blocks: Seq<BasicBlock>) -> Seq<BasicBlockId> {
    blocks.map_values(|b: BasicBlock| b.id)
}

/// The block ids that the nodes stand for.
pub open spec fn ids_of_nodes(ids: Seq<BasicBlockId>, nodes: Seq<int>) -> Seq<BasicBlockId> {
    nodes.map_values(|n: int| ids[n])
}

/// Represents a function: its basic blocks and its control-flow graph. Node `i` of the graph
/// stands for block `i`; each block is registered under the id it was created with.
pub struct Function {
    /// The identifier of the function.
    pub id: FunctionId,
    blocks: Vec<BasicBlock>,
    block_ids: Vec<BasicBlockId>,
    cfg: DiGraph<(), ()>,
}

impl Function {
    /// The identifier of the function.
    pub closed spec fn function_id(&self) -> FunctionId {
        self.id
    }

    /// The blocks of the function, in creation order.
    pub closed spec fn blocks(&self) -> Seq<BasicBlock> {
        self.blocks@
    }

    /// The ids under which the blocks were registered, in creation order.
    pub closed spec fn registered_ids(&self) -> Seq<BasicBlockId> {
        self.block_ids@
    }

    /// The edges of the control-flow graph, as pairs of block indices, in the order they were
    /// added.
    pub closed spec fn edges(&self) -> Seq<(int, int)> {
        graph_edges(self.cfg)
    }

    /// The internal consistency of a function: one node and one registered id per block,
    /// at least the entry block, distinct registered ids, edges between existing nodes.
    pub closed spec fn wf(&self) -> bool {
        &&& self.blocks@.len() >= 1
        &&& self.blocks@.len() <= u32::MAX
        &&& graph_edges(self.cfg).len() <= u32::MAX
        &&& self.block_ids@.len() == self.blocks@.len()
        &&& graph_node_count(self.cfg) == self.blocks@.len()
        &&& forall|k: int|
            0 <= k < graph_edges(self.cfg).len() ==> 0 <= #[trigger] graph_edges(self.cfg)[k].0
                < self.blocks@.len() && 0 <= graph_edges(self.cfg)[k].1 < self.blocks@.len()
    }

    /// Creates a function with its entry block, which starts at the function's address.
    pub fn new(id: FunctionId) -> (f: Self)
        ensures
            f.wf(),
            f.function_id() == id,
            f.blocks().len() == 1,
            f.blocks()[0].id == (BasicBlockId { index: 0, block_type: BasicBlockType::Entry, address: id.address }),
            f.blocks()[0].instructions@.len() == 0,
            f.registered_ids() == seq![f.blocks()[0].id],
            f.edges() == Seq::<(int, int)>::empty(),
    {
        let entry = BasicBlockId::new(0, BasicBlockType::Entry, id.address);
        let mut blocks: Vec<BasicBlock> = Vec::new();
        blocks.push(BasicBlock::new(entry));
        let mut block_ids: Vec<BasicBlockId> = Vec::new();
        block_ids.push(entry);
        let mut cfg = graph_new();
        let _ = graph_add_node(&mut cfg);
        Function { id, blocks, block_ids, cfg }
    }

    /// Creates a new empty block of the given type and address, and its graph node.
    pub fn create_block(&mut self, block_type: BasicBlockType, address: Gs2BytecodeAddress) -> (r:
        Result<BasicBlockId, FunctionError>)
        requires
            old(self).wf(),
            old(self).blocks().len() + 1 < u32::MAX,
        ensures
            final(self).wf(),
            final(self).function_id() == old(self).function_id(),
            final(self).edges() == old(self).edges(),
            block_type == BasicBlockType::Entry ==> r == Err::<BasicBlockId, FunctionError>(
                FunctionError::EntryBlockAlreadyExists,
            ) && final(self).blocks() == old(self).blocks() && final(self).registered_ids()
                == old(self).registered_ids(),
            block_type != BasicBlockType::Entry ==> {
                let new_id = BasicBlockId {
                    index: old(self).blocks().len() as usize,
                    block_type,
                    address,
                };
                &&& r == Ok::<BasicBlockId, FunctionError>(new_id)
                &&& final(self).blocks().len() == old(self).blocks().len() + 1
                &&& final(self).blocks().drop_last() == old(self).blocks()
                &&& final(self).blocks().last().id == new_id
                &&& final(self).blocks().last().instructions@.len() == 0
                &&& final(self).registered_ids() == old(self).registered_ids().push(new_id)
            },
    {
        if block_type == BasicBlockType::Entry {
            return Err(FunctionError::EntryBlockAlreadyExists);
        }
        let id = BasicBlockId::new(self.blocks.len(), block_type, address);
        self.blocks.push(BasicBlock::new(id));
        self.block_ids.push(id);
        let _ = graph_add_node(&mut self.cfg);
        proof {
            assert(self.blocks@.drop_last() =~= old(self).blocks@);
        }
        Ok(id)
    }

    /// The index under which `id` is registered, if it is (the latest registration wins).
    fn node_of(&self, id: BasicBlockId) -> (r: Option<usize>)
        requires
            self.wf(),
        ensures
            match last_index_of(self.registered_ids(), id) {
                Some(i) => r is Some && r.unwrap() == i && i < self.blocks().len(),
                None => r is None,
            },
    {
        proof {
            lemma_last_index_of(self.block_ids@, id);
        }
        find_last(&self.block_ids, id)
    }

    /// The block registered under `id`.
    pub fn get_basic_block_by_id(&self, id: BasicBlockId) -> (r: Result<&BasicBlock, FunctionError>)
        requires
            self.wf(),
        ensures
            match last_index_of(self.registered_ids(), id) {
                Some(i) => r == Ok::<&BasicBlock, FunctionError>(&self.blocks()[i as int]),
                None => r == Err::<&BasicBlock, FunctionError>(FunctionError::BasicBlockNotFoundById(id)),
            },
    {
        match self.node_of(id) {
            Some(i) => Ok(&self.blocks[i]),
            None => Err(FunctionError::BasicBlockNotFoundById(id)),
        }
    }

    /// The index of the first block that starts at `address`.
    fn block_index_at(&self, address: Gs2BytecodeAddress) -> (r: Option<usize>)
        ensures
            match first_block_at(self.blocks(), address) {
                Some(i) => r is Some && r.unwrap() == i && i < self.blocks().len(),
                None => r is None,
            },
    {
        let mut i: usize = 0;
        while i < self.blocks.len()
            invariant
                i <= self.blocks@.len(),
                first_block_at(self.blocks@.take(i as int), address) is None,
            decreases self.blocks@.len() - i,
        {
            proof {
                assert(self.blocks@.take(i + 1).drop_last() =~= self.blocks@.take(i as int));
            }
            if self.blocks[i].id.address == address {
                proof {
                    lemma_first_block_prefix(self.blocks@, address, (i + 1) as nat);
                }
                return Some(i);
            }
            i = i + 1;
        }
        proof {
            assert(self.blocks@.take(i as int) =~= self.blocks@);
        }
        None
    }

    /// The id of the first block that starts at `address`.
    pub fn get_basic_block_id_by_start_address(&self, address: Gs2BytecodeAddress) -> (r: Result<
        BasicBlockId,
        FunctionError,
    >)
        ensures
            match first_block_at(self.blocks(), address) {
                Some(i) => r == Ok::<BasicBlockId, FunctionError>(self.blocks()[i as int].id),
                None => r == Err::<BasicBlockId, FunctionError>(
                    FunctionError::BasicBlockNotFoundByAddress(address),
                ),
            },
    {
        match self.block_index_at(address) {
            Some(i) => Ok(self.blocks[i].id),
            None => Err(FunctionError::BasicBlockNotFoundByAddress(address)),
        }
    }

    /// The block registered under the id of the first block that starts at `address`.
    pub fn get_basic_block_by_start_address(&self, address: Gs2BytecodeAddress) -> (r: Result<
        &BasicBlock,
        FunctionError,
    >)
        requires
            self.wf(),
        ensures
            match first_block_at(self.blocks(), address) {
                Some(i) => {
                    let id = self.blocks()[i as int].id;
                    match last_index_of(self.registered_ids(), id) {
                        Some(j) => r == Ok::<&BasicBlock, FunctionError>(&self.blocks()[j as int]),
                        None => r == Err::<&BasicBlock, FunctionError>(
                            FunctionError::BasicBlockNotFoundById(id),
                        ),
                    }
                },
                None => r == Err::<&BasicBlock, FunctionError>(
                    FunctionError::BasicBlockNotFoundByAddress(address),
                ),
            },
    {
        let id = self.get_basic_block_id_by_start_address(address)?;
        self.get_basic_block_by_id(id)
    }

    /// Whether some block starts at `address`.
    pub fn basic_block_exists_by_address(&self, address: Gs2BytecodeAddress) -> (b: bool)
        ensures
            b == exists|i: int| 0 <= i < self.blocks().len() && #[trigger] self.blocks()[i].id.address
                == address,
    {
        let r = self.block_index_at(address);
        proof {
            lemma_first_block_exists(self.blocks(), address);
        }
        r.is_some()
    }

    /// The id of the entry block.
    pub fn get_entry_basic_block_id(&self) -> (id: BasicBlockId)
        requires
            self.wf(),
        ensures
            id == self.blocks()[0].id,
    {
        self.blocks[0].id
    }

    /// The entry block.
    pub fn get_entry_basic_block(&self) -> (b: &BasicBlock)
        requires
            self.wf(),
        ensures
            *b == self.blocks()[0],
    {
        &self.blocks[0]
    }

    /// Adds an edge from the block registered under `source` to that under `target`.
    pub fn add_edge(&mut self, source: BasicBlockId, target: BasicBlockId) -> (r: Result<
        (),
        FunctionError,
    >)
        requires
            old(self).wf(),
            old(self).edges().len() < u32::MAX,
        ensures
            final(self).wf(),
            final(self).function_id() == old(self).function_id(),
            final(self).blocks() == old(self).blocks(),
            final(self).registered_ids() == old(self).registered_ids(),
            match (
                last_index_of(old(self).registered_ids(), source),
                last_index_of(old(self).registered_ids(), target),
            ) {
                (Some(s), Some(t)) => r is Ok && final(self).edges() == old(self).edges().push(
                    (s as int, t as int),
                ),
                (None, _) => r == Err::<(), FunctionError>(
                    FunctionError::BasicBlockNodeIndexNotFound(source),
                ) && final(self).edges() == old(self).edges(),
                (Some(_), None) => r == Err::<(), FunctionError>(
                    FunctionError::BasicBlockNodeIndexNotFound(target),
                ) && final(self).edges() == old(self).edges(),
            },
    {
        let s = match self.node_of(source) {
            Some(s) => s,
            None => return Err(FunctionError::BasicBlockNodeIndexNotFound(source)),
        };
        let t = match self.node_of(target) {
            Some(t) => t,
            None => return Err(FunctionError::BasicBlockNodeIndexNotFound(target)),
        };
        graph_add_edge(&mut self.cfg, s, t);
        Ok(())
    }

    /// The number of blocks.
    pub fn len(&self) -> (n: usize)
        ensures
            n == self.blocks().len(),
    {
        self.blocks.len()
    }

    /// Whether the function has no block; never the case for a well-formed function.
    pub fn is_empty(&self) -> (b: bool)
        ensures
            b == (self.blocks().len() == 0),
    {
        self.blocks.len() == 0
    }

    /// The block registered under `id`, for modification.
    pub fn get_basic_block_by_id_mut(&mut self, id: BasicBlockId) -> (r: Result<
        &mut BasicBlock,
        FunctionError,
    >)
        requires
            old(self).wf(),
        ensures
            match last_index_of(old(self).registered_ids(), id) {
                Some(i) => {
                    &&& r is Ok
                    &&& *r.unwrap() == old(self).blocks()[i as int]
                    &&& final(self).blocks() == old(self).blocks().update(i as int, *final(r.unwrap()))
                },
                None => r == Err::<&mut BasicBlock, FunctionError>(FunctionError::BasicBlockNotFoundById(id))
                    && final(self).blocks() == old(self).blocks(),
            },
            final(self).wf(),
            final(self).function_id() == old(self).function_id(),
            final(self).registered_ids() == old(self).registered_ids(),
            final(self).edges() == old(self).edges(),
    {
        match self.node_of(id) {
            Some(i) => Ok(&mut self.blocks[i]),
            None => Err(FunctionError::BasicBlockNotFoundById(id)),
        }
    }

    /// The ids of the nodes in `nodes`.
    fn ids_of(&self, nodes: Vec<usize>) -> (r: Vec<BasicBlockId>)
        requires
            self.wf(),
            forall|k: int| 0 <= k < nodes@.len() ==> #[trigger] nodes@[k] < self.blocks().len(),
        ensures
            r@ == nodes@.map_values(|n: usize| self.registered_ids()[n as int]),
    {
        let mut r: Vec<BasicBlockId> = Vec::new();
        let mut k: usize = 0;
        while k < nodes.len()
            invariant
                self.wf(),
                k <= nodes@.len(),
                forall|j: int| 0 <= j < nodes@.len() ==> #[trigger] nodes@[j] < self.blocks().len(),
                r@ =~= nodes@.take(k as int).map_values(|n: usize| self.registered_ids()[n as int]),
            decreases nodes@.len() - k,
        {
            r.push(self.block_ids[nodes[k]]);
            k = k + 1;
            assert(nodes@.take(k as int).map_values(|n: usize| self.registered_ids()[n as int])
                =~= nodes@.take(k - 1).map_values(|n: usize| self.registered_ids()[n as int]).push(
                self.registered_ids()[nodes@[k - 1] as int],
            ));
        }
        assert(nodes@.take(k as int) =~= nodes@);
        r
    }

    /// The ids of the predecessors of the block registered under `id`, the most recently
    /// added edge first.
    pub fn get_predecessors(&self, id: BasicBlockId) -> (r: Result<Vec<BasicBlockId>, FunctionError>)
        requires
            self.wf(),
        ensures
            match last_index_of(self.registered_ids(), id) {
                Some(i) => r matches Ok(v) && v@ == ids_of_nodes(
                    self.registered_ids(),
                    spec_neighbors(self.edges(), i as int, false),
                ),
                None => r matches Err(e) && e == FunctionError::BasicBlockNodeIndexNotFound(id),
            },
    {
        self.neighbor_ids(id, false)
    }

    /// The ids of the successors of the block registered under `id`, the most recently
    /// added edge first.
    pub fn get_successors(&self, id: BasicBlockId) -> (r: Result<Vec<BasicBlockId>, FunctionError>)
        requires
            self.wf(),
        ensures
            match last_index_of(self.registered_ids(), id) {
                Some(i) => r matches Ok(v) && v@ == ids_of_nodes(
                    self.registered_ids(),
                    spec_neighbors(self.edges(), i as int, true),
                ),
                None => r matches Err(e) && e == FunctionError::BasicBlockNodeIndexNotFound(id),
            },
    {
        self.neighbor_ids(id, true)
    }

    fn neighbor_ids(&self, id: BasicBlockId, outgoing: bool) -> (r: Result<Vec<BasicBlockId>, FunctionError>)
        requires
            self.wf(),
        ensures
            match last_index_of(self.registered_ids(), id) {
                Some(i) => r matches Ok(v) && v@ == ids_of_nodes(
                    self.registered_ids(),
                    spec_neighbors(self.edges(), i as int, outgoing),
                ),
                None => r matches Err(e) && e == FunctionError::BasicBlockNodeIndexNotFound(id),
            },
    {
        let node = match self.node_of(id) {
            Some(n) => n,
            None => return Err(FunctionError::BasicBlockNodeIndexNotFound(id)),
        };
        let nodes = graph_neighbors(&self.cfg, node, outgoing);
        let ghost ns = nodes@.map_values(|n: usize| n as int);
        proof {
            lemma_neighbors_in_range(self.edges(), node as int, outgoing, self.blocks().len());
            assert forall|k: int| 0 <= k < nodes@.len() implies #[trigger] nodes@[k] < self.blocks().len() by {
                assert(ns[k] == nodes@[k] as int);
            }
        }
        let r = self.ids_of(nodes);
        proof {
            assert(r@ =~= ids_of_nodes(self.registered_ids(), ns));
        }
        Ok(r)
    }

    /// The ids of the blocks reachable from the block registered under `id`, in reverse of
    /// the order in which a post-order depth-first search from it emits them.
    pub fn get_reverse_post_order(&self, id: BasicBlockId) -> (r: Result<Vec<BasicBlockId>, FunctionError>)
        requires
            self.wf(),
        ensures
            match last_index_of(self.registered_ids(), id) {
                Some(i) => r matches Ok(v) && v@ == dfs_post_order(
                    self.blocks().len(),
                    self.edges(),
                    i as int,
                ).reverse().map_values(|n: usize| self.registered_ids()[n as int]),
                None => r matches Err(e) && e == FunctionError::BasicBlockNodeIndexNotFound(id),
            },
    {
        let node = match self.node_of(id) {
            Some(n) => n,
            None => return Err(FunctionError::BasicBlockNodeIndexNotFound(id)),
        };
        let order = graph_dfs_post_order(&self.cfg, node);
        let mut rev: Vec<usize> = Vec::new();
        let mut k: usize = order.len();
        while k > 0
            invariant
                k <= order@.len(),
                rev@ =~= order@.skip(k as int).reverse(),
            decreases k,
        {
            k = k - 1;
            rev.push(order[k]);
            assert(order@.skip(k as int).reverse() =~= order@.skip(k + 1).reverse().push(order@[k as int]));
        }
        assert(order@.skip(0) =~= order@);
        proof {
            assert forall|j: int| 0 <= j < rev@.len() implies #[trigger] rev@[j] < self.blocks().len() by {
                assert(order@.contains(rev@[j]));
            }
        }
        let r = self.ids_of(rev);
        Ok(r)
    }
}

/// Where a copy of a function sends an edge: each end goes to the last block whose current id
/// is the id under which that end was registered.
pub open spec fn copied_edge(current: Seq<BasicBlockId>, registered: Seq<BasicBlockId>, e: (int, int)) -> (int, int) {
    (
        last_index_of(current, registered[e.0]).unwrap() as int,
        last_index_of(current, registered[e.1]).unwrap() as int,
    )
}

/// The block that node `n` stands for: the block registered last under the id that `n` was
/// registered with.
pub open spec fn resolved_block(blocks: Seq<BasicBlock>, registered: Seq<BasicBlockId>, n: int) -> BasicBlock {
    blocks[last_index_of(registered, registered[n]).unwrap() as int]
}

impl Function {
    /// The block registered under the id of the first block that starts at `address`, for
    /// modification.
    pub fn get_basic_block_by_start_address_mut(&mut self, address: Gs2BytecodeAddress) -> (r: Result<
        &mut BasicBlock,
        FunctionError,
    >)
        requires
            old(self).wf(),
        ensures
            final(self).wf(),
            final(self).function_id() == old(self).function_id(),
            final(self).registered_ids() == old(self).registered_ids(),
            final(self).edges() == old(self).edges(),
            match first_block_at(old(self).blocks(), address) {
                Some(i) => {
                    let id = old(self).blocks()[i as int].id;
                    match last_index_of(old(self).registered_ids(), id) {
                        Some(j) => {
                            &&& r is Ok
                            &&& *r.unwrap() == old(self).blocks()[j as int]
                            &&& final(self).blocks() == old(self).blocks().update(j as int, *final(r.unwrap()))
                        },
                        None => r == Err::<&mut BasicBlock, FunctionError>(
                            FunctionError::BasicBlockNotFoundById(id),
                        ) && final(self).blocks() == old(self).blocks(),
                    }
                },
                None => r == Err::<&mut BasicBlock, FunctionError>(
                    FunctionError::BasicBlockNotFoundByAddress(address),
                ) && final(self).blocks() == old(self).blocks(),
            },
    {
        let id = match self.get_basic_block_id_by_start_address(address) {
            Ok(id) => id,
            Err(e) => return Err(e),
        };
        self.get_basic_block_by_id_mut(id)
    }

    /// The entry block, for modification.
    pub fn get_entry_basic_block_mut(&mut self) -> (b: &mut BasicBlock)
        requires
            old(self).wf(),
        ensures
            *b == old(self).blocks()[0],
            final(self).blocks() == old(self).blocks().update(0, *final(b)),
            final(self).wf(),
            final(self).function_id() == old(self).function_id(),
            final(self).registered_ids() == old(self).registered_ids(),
            final(self).edges() == old(self).edges(),
    {
        &mut self.blocks[0]
    }

    /// The block at position `index`.
    pub fn get(&self, index: usize) -> (b: &BasicBlock)
        requires
            index < self.blocks().len(),
        ensures
            *b == self.blocks()[index as int],
    {
        &self.blocks[index]
    }

    /// The blocks, in order.
    pub fn as_slice(&self) -> (s: &[BasicBlock])
        ensures
            s@ == self.blocks(),
    {
        self.blocks.as_slice()
    }

    /// The blocks, in order, for modification.
    pub fn blocks_mut(&mut self) -> (s: &mut [BasicBlock])
        requires
            old(self).wf(),
        ensures
            s@ == old(self).blocks(),
            final(self).blocks() == final(s)@,
            final(self).function_id() == old(self).function_id(),
            final(self).registered_ids() == old(self).registered_ids(),
            final(self).edges() == old(self).edges(),
    {
        self.blocks.as_mut_slice()
    }

    /// A copy of the function: the same blocks, each registered under its current id (where
    /// two blocks share one, the later wins), and the same edges, each end sent to the block
    /// registered last under the id that end had.
    pub fn clone(&self) -> (r: Function)
        requires
            self.wf(),
            forall|k: int| 0 <= k < self.edges().len() ==> {
                &&& last_index_of(block_ids_of(self.blocks()), self.registered_ids()[#[trigger] self.edges()[k].0]) is Some
                &&& last_index_of(block_ids_of(self.blocks()), self.registered_ids()[self.edges()[k].1]) is Some
            },
        ensures
            r.wf(),
            r.function_id()@ == self.function_id()@,
            r.blocks().len() == self.blocks().len(),
            forall|i: int| 0 <= i < self.blocks().len() ==> {
                &&& #[trigger] r.blocks()[i].id == self.blocks()[i].id
                &&& instruction_views(r.blocks()[i].instructions@) == instruction_views(self.blocks()[i].instructions@)
            },
            r.registered_ids() == block_ids_of(self.blocks()),
            r.edges() == self.edges().map_values(|e: (int, int)| copied_edge(block_ids_of(self.blocks()), self.registered_ids(), e)),
    {
        let ghost current = block_ids_of(self.blocks@);
        let mut blocks: Vec<BasicBlock> = Vec::new();
        let mut block_ids: Vec<BasicBlockId> = Vec::new();
        let mut cfg = graph_new();
        let mut i: usize = 0;
        while i < self.blocks.len()
            invariant
                self.wf(),
                current == block_ids_of(self.blocks@),
                i <= self.blocks@.len(),
                blocks@.len() == i,
                block_ids@ == current.take(i as int),
                graph_node_count(cfg) == i,
                graph_edges(cfg) == Seq::<(int, int)>::empty(),
                forall|j: int| 0 <= j < i ==> {
                    &&& #[trigger] blocks@[j].id == self.blocks@[j].id
                    &&& instruction_views(blocks@[j].instructions@) == instruction_views(self.blocks@[j].instructions@)
                },
            decreases self.blocks@.len() - i,
        {
            let b = self.blocks[i].clone();
            block_ids.push(b.id);
            blocks.push(b);
            let _ = graph_add_node(&mut cfg);
            i = i + 1;
            assert(block_ids@ =~= current.take(i as int));
        }
        assert(block_ids@ =~= current);
        let raw = graph_raw_edges(&self.cfg);
        let ghost edges = self.edges();
        let ghost target = edges.map_values(|e: (int, int)| copied_edge(current, self.block_ids@, e));
        proof {
            lemma_last_index_of(current, current[0]);
            assert(raw@.len() == edges.len());
        }
        let mut k: usize = 0;
        while k < raw.len()
            invariant
                self.wf(),
                edges == self.edges(),
                current == block_ids_of(self.blocks@),
                target == edges.map_values(|e: (int, int)| copied_edge(current, self.block_ids@, e)),
                raw@.map_values(|e: (usize, usize)| (e.0 as int, e.1 as int)) == edges,
                forall|j: int| 0 <= j < edges.len() ==> {
                    &&& last_index_of(current, self.block_ids@[#[trigger] edges[j].0]) is Some
                    &&& last_index_of(current, self.block_ids@[edges[j].1]) is Some
                },
                k <= raw@.len(),
                block_ids@ == current,
                current.len() == self.blocks@.len(),
                graph_node_count(cfg) == self.blocks@.len(),
                graph_edges(cfg) == target.take(k as int),
            decreases raw@.len() - k,
        {
            let (s, t) = raw[k];
            assert(edges[k as int] == (s as int, t as int));
            let s_id = self.block_ids[s];
            let t_id = self.block_ids[t];
            proof {
                lemma_last_index_of(current, s_id);
                lemma_last_index_of(current, t_id);
            }
            let ns = match find_last(&block_ids, s_id) {
                Some(n) => n,
                None => {
                    proof {
                        assert(false);
                    }
                    0
                },
            };
            let nt = match find_last(&block_ids, t_id) {
                Some(n) => n,
                None => {
                    proof {
                        assert(false);
                    }
                    0
                },
            };
            graph_add_edge(&mut cfg, ns, nt);
            k = k + 1;
            assert(graph_edges(cfg) =~= target.take(k as int));
        }
        assert(target.take(k as int) =~= target);
        proof {
            assert forall|j: int| 0 <= j < target.len() implies 0 <= #[trigger] target[j].0 < current.len()
                && 0 <= target[j].1 < current.len() by {
                lemma_last_index_of(current, self.block_ids@[edges[j].0]);
                lemma_last_index_of(current, self.block_ids@[edges[j].1]);
            }
        }
        Function { id: self.id.clone(), blocks, block_ids, cfg }
    }

    /// The block that node `node` stands for.
    pub fn resolve(&self, node: usize) -> (r: Option<&BasicBlock>)
        requires
            self.wf(),
        ensures
            node < self.blocks().len() ==> r == Some(&resolved_block(self.blocks(), self.registered_ids(), node as int)),
            node >= self.blocks().len() ==> r is None,
    {
        if node >= self.block_ids.len() {
            return None;
        }
        let id = self.block_ids[node];
        proof {
            lemma_last_index_of(self.block_ids@, id);
        }
        match self.node_of(id) {
            Some(i) => Some(&self.blocks[i]),
            None => None,
        }
    }

    /// The colour of the edge from node `source` to node `target` in a drawing of the graph:
    /// green for a branch (the target block does not start right after the last instruction
    /// of the source block), red for a fall-through, blue otherwise.
    pub fn resolve_edge_color(&self, source: usize, target: usize) -> (c: String)
        requires
            self.wf(),
            source < self.blocks().len(),
            target < self.blocks().len(),
            resolved_block(self.blocks(), self.registered_ids(), source as int).instructions@.len() > 0,
        ensures
            ({
                let last = resolved_block(self.blocks(), self.registered_ids(), source as int).instructions@.last();
                let target_address = resolved_block(self.blocks(), self.registered_ids(), target as int).id.address;
                c@ == if last.address + 1 != target_address {
                    GBF_GREEN@
                } else if spec_has_fall_through(last.opcode) {
                    GBF_RED@
                } else {
                    GBF_BLUE@
                }
            }),
    {
        let source_block = match self.resolve(source) {
            Some(b) => b,
            None => {
                proof {
                    assert(false);
                }
                return String::new();
            },
        };
        let target_block = match self.resolve(target) {
            Some(b) => b,
            None => {
                proof {
                    assert(false);
                }
                return String::new();
            },
        };
        let last = &source_block.instructions[source_block.instructions.len() - 1];
        if last.address >= usize::MAX || last.address + 1 != target_block.id.address {
            return String::from_str(GBF_GREEN);
        }
        if last.opcode.has_fall_through() {
            return String::from_str(GBF_RED);
        }
        String::from_str(GBF_BLUE)
    }
}

/// The last index at which `ids` holds `id`.
fn find_last(ids: &Vec<BasicBlockId>, id: BasicBlockId) -> (r: Option<usize>)
    ensures
        match last_index_of(ids@, id) {
            Some(i) => r == Some(i as usize),
            None => r is None,
        },
{
    let mut i: usize = ids.len();
    assert(ids@.take(i as int) =~= ids@);
    while i > 0
        invariant
            i <= ids@.len(),
            last_index_of(ids@, id) == last_index_of(ids@.take(i as int), id),
        decreases i,
    {
        proof {
            assert(ids@.take(i as int).drop_last() =~= ids@.take(i - 1));
        }
        if ids[i - 1] == id {
            return Some(i - 1);
        }
        i = i - 1;
    }
    None
}

/// What `last_index_of` gives: an index holding `id`, after which none does; and it gives
/// one exactly when `id` occurs.
pub proof fn lemma_last_index_of(ids: Seq<BasicBlockId>, id: BasicBlockId)
    ensures
        last_index_of(ids, id) is Some <==> ids.contains(id),
        last_index_of(ids, id) matches Some(i) ==> i < ids.len() && ids[i as int] == id
            && forall|j: int| i < j < ids.len() ==> ids[j] != id,
    decreases ids.len(),
{
    if ids.len() > 0 {
        lemma_last_index_of(ids.drop_last(), id);
        if ids.last() != id {
            if let Some(i) = last_index_of(ids.drop_last(), id) {
                assert forall|j: int| i < j < ids.len() implies ids[j] != id by {
                    if j < ids.len() - 1 {
                        assert(ids.drop_last()[j] == ids[j]);
                    }
                }
            }
            if ids.drop_last().contains(id) {
                let j = choose|j: int| 0 <= j < ids.drop_last().len() && ids.drop_last()[j] == id;
                assert(ids[j] == id);
            }
            if ids.contains(id) {
                let j = choose|j: int| 0 <= j < ids.len() && ids[j] == id;
                assert(ids.drop_last()[j] == id);
            }
        } else {
            assert(ids[ids.len() - 1] == id);
        }
    }
}

proof fn lemma_first_block_prefix(blocks: Seq<BasicBlock>, address: usize, k: nat)
    requires
        0 < k <= blocks.len(),
        blocks[k - 1].id.address == address,
        first_block_at(blocks.take(k - 1), address) is None,
    ensures
        first_block_at(blocks, address) == Some((k - 1) as nat),
    decreases blocks.len(),
{
    if blocks.len() > k {
        assert(blocks.drop_last().take(k - 1) =~= blocks.take(k - 1));
        lemma_first_block_prefix(blocks.drop_last(), address, k);
    } else {
        assert(blocks.drop_last() =~= blocks.take(k - 1));
    }
}

proof fn lemma_first_block_exists(blocks: Seq<BasicBlock>, address: usize)
    ensures
        first_block_at(blocks, address) is Some <==> exists|i: int|
            0 <= i < blocks.len() && #[trigger] blocks[i].id.address == address,
        first_block_at(blocks, address) matches Some(i) ==> i < blocks.len() && blocks[i as int].id.address == address,
    decreases blocks.len(),
{
    if blocks.len() > 0 {
        lemma_first_block_exists(blocks.drop_last(), address);
        if first_block_at(blocks.drop_last(), address) is None && blocks.last().id.address != address {
            assert forall|i: int| 0 <= i < blocks.len() implies #[trigger] blocks[i].id.address != address by {
                if i < blocks.len() - 1 {
                    assert(blocks.drop_last()[i] == blocks[i]);
                }
            }
        }
        if first_block_at(blocks.drop_last(), address) is Some {
            let i = first_block_at(blocks.drop_last(), address).unwrap();
            assert(blocks.drop_last()[i as int] == blocks[i as int]);
        }
    }
}

proof fn lemma_neighbors_in_range(edges: Seq<(int, int)>, a: int, outgoing: bool, n: nat)
    requires
        forall|k: int| 0 <= k < edges.len() ==> 0 <= #[trigger] edges[k].0 < n && 0 <= edges[k].1 < n,
    ensures
        forall|k: int| 0 <= k < spec_neighbors(edges, a, outgoing).len() ==> 0 <= #[trigger] spec_neighbors(edges, a, outgoing)[k] < n,
    decreases edges.len(),
{
    if edges.len() > 0 {
        assert(forall|k: int| 0 <= k < edges.drop_last().len() ==> #[trigger] edges.drop_last()[k] == edges[k]);
        lemma_neighbors_in_range(edges.drop_last(), a, outgoing, n);
        let e = edges.last();
        assert(0 <= e.0 < n && 0 <= e.1 < n);
        let rest = spec_neighbors(edges.drop_last(), a, outgoing);
        let full = spec_neighbors(edges, a, outgoing);
        assert forall|k: int| 0 <= k < full.len() implies 0 <= #[trigger] full[k] < n by {
            if (outgoing && e.0 == a) || (!outgoing && e.1 == a) {
                if k > 0 {
                    assert(full[k] == rest[k - 1]);
                }
            }
        }
    }
}

} // verus!
