use vstd::prelude::*;

use crate::basic_block::BasicBlockId;
use crate::decompiler::ast::array_kind::ArrayKind;
use crate::decompiler::ast::array_node::ArrayNode;
use crate::decompiler::ast::expr::ExprKind;
use crate::decompiler::ast::identifier::IdentifierNode;
use crate::decompiler::ast::phi::PhiNode;
use crate::decompiler::ast::phi_array::PhiArrayNode;
use crate::decompiler::ast::ptr::P;
use crate::decompiler::ast::ssa::{SsaContext, SsaVersion};
use crate::decompiler::ast::view::{exprs_v, lemma_exprs_v, AstV, ExprV};
use crate::decompiler::ast::{new_phi, AstKind};
use crate::decompiler::execution_frame::{frames_v, ExecutionFrame, FrameV};
use crate::decompiler::ast::AstNodeError;
use crate::decompiler::handlers::{handler_for, handler_of, handler_ready, handler_step, OpcodeHandlerKind};
use crate::decompiler::{nothing_processed, ProcessedInstruction, ProcessedInstructionBuilder, ProcessedV};
use crate::instruction::{Instruction, InstructionView};
use crate::opcode::Opcode;
use crate::operand::{OperandError, OperandErrorView};

verus! {

/// An error while instructions are decompiled.
#[derive(Debug)]
pub enum FunctionDecompilerError {
    /// A node of another kind than the one expected was found on the stack.
    UnexpectedNodeType {
        /// The kind of node expected.
        expected: String,
    },
    /// No handler processes the opcode.
    UnimplementedOpcode {
        /// The opcode.
        opcode: Opcode,
    },
    /// An AST node could not be built.
    AstNodeError {
        /// The error of the node.
        source: AstNodeError,
    },
    /// The instruction has no operand and needs one.
    InstructionMustHaveOperand {
        /// The opcode of the instruction.
        opcode: Opcode,
    },
    /// The operand has another kind than the one needed.
    OperandError {
        /// The error of the operand.
        source: OperandError,
    },
    /// Another error.
    Other {
        /// What went wrong.
        message: String,
    },
}

/// The abstract value of an error: its variant and its fields.
pub enum ErrorV {
    /// A node of another kind than the one expected, named.
    UnexpectedNodeType(Seq<char>),
    /// No handler for the opcode.
    UnimplementedOpcode(Opcode),
    /// An AST node could not be built.
    AstNode(AstNodeError),
    /// The opcode's instruction lacks its operand.
    MissingOperand(Opcode),
    /// An operand of another kind.
    Operand(OperandErrorView),
    /// Another error, with its message.
    Other(Seq<char>),
}

/// The abstract value of an error.
pub open spec fn error_v(e: FunctionDecompilerError) -> ErrorV {
    match e {
        FunctionDecompilerError::UnexpectedNodeType { expected } => ErrorV::UnexpectedNodeType(expected@),
        FunctionDecompilerError::UnimplementedOpcode { opcode } => ErrorV::UnimplementedOpcode(opcode),
        FunctionDecompilerError::AstNodeError { source } => ErrorV::AstNode(source),
        FunctionDecompilerError::InstructionMustHaveOperand { opcode } => ErrorV::MissingOperand(opcode),
        FunctionDecompilerError::OperandError { source } => ErrorV::Operand(source@),
        FunctionDecompilerError::Other { message } => ErrorV::Other(message@),
    }
}

/// Whether a result matches an outcome: the same success, or the same error.
pub open spec fn agrees<T, V>(r: Result<T, FunctionDecompilerError>, outcome: Result<V, ErrorV>, view: spec_fn(T) -> V) -> bool {
    match outcome {
        Ok(v) => r matches Ok(x) && view(x) == v,
        Err(k) => r matches Err(e) && error_v(e) == k,
    }
}

/// The stack after `node` is pushed: into the array being built on top, which takes only
/// expressions, or as a standalone node; `None` when an array refuses it.
pub open spec fn pushed(s: Seq<FrameV>, node: AstV) -> Option<Seq<FrameV>> {
    if s.len() > 0 && s.last() is Building {
        match node {
            AstV::Expression(e) => Some(s.drop_last().push(FrameV::Building(s.last()->Building_0.push(e)))),
            _ => None,
        }
    } else {
        Some(s.push(FrameV::Standalone(node)))
    }
}

/// The node popped from the stack and the stack after: the last element of the array on top,
/// which stays, or the standalone node on top. `None` when there is nothing to pop, and a
/// phi node stands in.
pub open spec fn popped(s: Seq<FrameV>) -> (Option<AstV>, Seq<FrameV>) {
    if s.len() == 0 {
        (None, s)
    } else {
        match s.last() {
            FrameV::Building(arr) => if arr.len() > 0 {
                (Some(AstV::Expression(arr.last())), s.drop_last().push(FrameV::Building(arr.drop_last())))
            } else {
                (None, s)
            },
            FrameV::Standalone(n) => (Some(n), s.drop_last()),
        }
    }
}

/// The expressions of standalone frames, from the top of the stack down; `None` when a frame
/// is not a standalone expression.
pub open spec fn collected(s: Seq<FrameV>) -> Option<Seq<ExprV>>
    decreases s.len(),
{
    if s.len() == 0 {
        Some(Seq::empty())
    } else {
        match s.last() {
            FrameV::Standalone(AstV::Expression(e)) => match collected(s.drop_last()) {
                Some(rest) => Some(seq![e] + rest),
                None => None,
            },
            _ => None,
        }
    }
}

/// The frames left below the first frame, from the top, that is not a standalone
/// expression.
pub open spec fn left_below_bad(s: Seq<FrameV>) -> Seq<FrameV>
    decreases s.len(),
{
    if s.len() == 0 {
        s
    } else {
        match s.last() {
            FrameV::Standalone(AstV::Expression(_)) => left_below_bad(s.drop_last()),
            _ => s.drop_last(),
        }
    }
}

/// The position of the last entry with key `b`.
pub open spec fn key_pos<V>(entries: Seq<(BasicBlockId, V)>, b: BasicBlockId) -> Option<nat>
    decreases entries.len(),
{
    if entries.len() == 0 {
        None
    } else if entries.last().0 == b {
        Some((entries.len() - 1) as nat)
    } else {
        key_pos(entries.drop_last(), b)
    }
}

/// The position of the last entry with a key lies among the entries and has that key.
pub proof fn lemma_key_pos<V>(entries: Seq<(BasicBlockId, V)>, b: BasicBlockId)
    ensures
        key_pos(entries, b) matches Some(i) ==> i < entries.len() && entries[i as int].0 == b,
        key_pos(entries, b) is None ==> forall|k: int| 0 <= k < entries.len() ==> entries[k].0 != b,
    decreases entries.len(),
{
    if entries.len() > 0 && entries.last().0 != b {
        lemma_key_pos(entries.drop_last(), b);
        assert forall|k: int| 0 <= k < entries.len() - 1 implies entries[k] == entries.drop_last()[k] by {}
    }
}

/// Replacing the value of an entry keeps the positions of keys.
proof fn lemma_key_pos_update<V>(entries: Seq<(BasicBlockId, V)>, i: int, v: V, b: BasicBlockId)
    requires
        0 <= i < entries.len(),
    ensures
        key_pos(entries.update(i, (entries[i].0, v)), b) == key_pos(entries, b),
    decreases entries.len(),
{
    if entries.len() > 0 {
        let u = entries.update(i, (entries[i].0, v));
        if i < entries.len() - 1 {
            assert(u.drop_last() =~= entries.drop_last().update(i, (entries[i].0, v)));
            lemma_key_pos_update(entries.drop_last(), i, v, b);
        } else {
            assert(u.drop_last() =~= entries.drop_last());
        }
    }
}

/// What a push puts on a block's stack, the next pop gives back, and the stack is then as it
/// was before the push.
pub proof fn law_push_then_pop(s: Seq<FrameV>, node: AstV)
    requires
        pushed(s, node) is Some,
    ensures
        popped(pushed(s, node)->Some_0) == (Some(node), s),
{
    if s.len() > 0 && s.last() is Building {
        let arr = s.last()->Building_0;
        let t = pushed(s, node)->Some_0;
        assert(t.last() == FrameV::Building(arr.push(node->Expression_0)));
        assert(arr.push(node->Expression_0).drop_last() =~= arr);
        assert(t.drop_last().push(FrameV::Building(arr)) =~= s);
    } else {
        let t = s.push(FrameV::Standalone(node));
        assert(t.drop_last() =~= s);
    }
}

/// The phi nodes of a block are numbered 0, 1, 2, ... in the order they are made, and making
/// one leaves the numbering of the other blocks as it was.
pub proof fn law_phi_numbers_increase(counts: Seq<(BasicBlockId, usize)>, b: BasicBlockId, other: BasicBlockId)
    requires
        phi_count_of(counts, b) < usize::MAX,
    ensures
        phi_count_of(phi_counted(counts, b), b) == phi_count_of(counts, b) + 1,
        other != b ==> phi_count_of(phi_counted(counts, b), other) == phi_count_of(counts, other),
{
    lemma_key_pos(counts, b);
    lemma_key_pos(counts, other);
    match key_pos(counts, b) {
        Some(i) => {
            let c = (counts[i as int].1 + 1) as usize;
            lemma_key_pos_update(counts, i as int, c, b);
            lemma_key_pos_update(counts, i as int, c, other);
            assert(counts.update(i as int, (counts[i as int].0, c)) == counts.update(i as int, (b, c)));
            if other != b && key_pos(counts, other) is Some {
                assert(key_pos(counts, other)->Some_0 != i);
            }
        },
        None => {
            let w = counts.push((b, 1usize));
            assert(w.drop_last() =~= counts);
        },
    }
}

/// The views of the stacks of blocks.
pub open spec fn stack_views(s: Seq<(BasicBlockId, Vec<ExecutionFrame>)>) -> Seq<(BasicBlockId, Seq<FrameV>)> {
    s.map_values(|e: (BasicBlockId, Vec<ExecutionFrame>)| (e.0, frames_v(e.1@)))
}

/// The number of phi nodes made in block `b`.
pub open spec fn phi_count_of(counts: Seq<(BasicBlockId, usize)>, b: BasicBlockId) -> nat {
    match key_pos(counts, b) {
        Some(i) => counts[i as int].1 as nat,
        None => 0,
    }
}

/// The counts after one more phi node in block `b`.
pub open spec fn phi_counted(counts: Seq<(BasicBlockId, usize)>, b: BasicBlockId) -> Seq<(BasicBlockId, usize)> {
    match key_pos(counts, b) {
        Some(i) => counts.update(i as int, (b, (counts[i as int].1 + 1) as usize)),
        None => counts.push((b, 1usize)),
    }
}

/// Pushes a node onto a stack of frames.
fn push_frame(stack: &mut Vec<ExecutionFrame>, node: AstKind) -> (r: Result<(), FunctionDecompilerError>)
    ensures
        pushed(frames_v(old(stack)@), node@) matches Some(s) ==> r is Ok && frames_v(final(stack)@) == s,
        pushed(frames_v(old(stack)@), node@) is None ==> r is Err && final(stack)@ == old(stack)@,
{
    let ghost s = frames_v(stack@);
    if stack.len() > 0 {
        let last = stack.pop().unwrap();
        match last {
            ExecutionFrame::BuildingArray(arr) => {
                match node {
                    AstKind::Expression(e) => {
                        let mut arr = arr;
                        let ghost before = arr@;
                        arr.push(e);
                        proof {
                            assert(arr@.drop_last() =~= before);
                        }
                        stack.push(ExecutionFrame::BuildingArray(arr));
                        proof {
                            assert(frames_v(stack@) =~= s.drop_last().push(FrameV::Building(s.last()->Building_0.push(node@->Expression_0))));
                        }
                        return Ok(());
                    },
                    _ => {
                        stack.push(ExecutionFrame::BuildingArray(arr));
                        proof {
                            assert(stack@ =~= old(stack)@);
                        }
                        return Err(FunctionDecompilerError::UnexpectedNodeType {
                            expected: String::from_str("Expression"),
                        });
                    },
                }
            },
            ExecutionFrame::StandaloneNode(n) => {
                stack.push(ExecutionFrame::StandaloneNode(n));
                proof {
                    assert(stack@ =~= old(stack)@);
                }
            },
        }
    }
    stack.push(ExecutionFrame::StandaloneNode(node));
    proof {
        assert(frames_v(stack@) =~= s.push(FrameV::Standalone(node@)));
    }
    Ok(())
}

/// Pops a node from a stack of frames; `None` when a phi node has to stand in.
fn pop_frame(stack: &mut Vec<ExecutionFrame>) -> (r: Option<AstKind>)
    ensures
        match popped(frames_v(old(stack)@)).0 {
            Some(n) => r matches Some(a) && a@ == n,
            None => r is None,
        },
        frames_v(final(stack)@) == popped(frames_v(old(stack)@)).1,
{
    let ghost s = frames_v(stack@);
    if stack.len() == 0 {
        return None;
    }
    let last = stack.pop().unwrap();
    match last {
        ExecutionFrame::BuildingArray(arr) => {
            let mut arr = arr;
            proof {
                lemma_exprs_v(arr@);
            }
            let ghost before = arr@;
            match arr.pop() {
                Some(e) => {
                    proof {
                        assert(before.drop_last() =~= arr@);
                        assert(exprs_v(before).drop_last() =~= exprs_v(arr@));
                    }
                    stack.push(ExecutionFrame::BuildingArray(arr));
                    proof {
                        assert(frames_v(stack@) =~= popped(s).1);
                    }
                    Some(AstKind::Expression(e))
                },
                None => {
                    stack.push(ExecutionFrame::BuildingArray(arr));
                    proof {
                        assert(arr@ =~= before);
                        assert(frames_v(stack@) =~= s);
                    }
                    None
                },
            }
        },
        ExecutionFrame::StandaloneNode(n) => {
            proof {
                assert(frames_v(stack@) =~= s.drop_last());
            }
            Some(n)
        },
    }
}

/// `pre` before what `rest` holds, if anything.
pub open spec fn prefixed(pre: Seq<ExprV>, rest: Option<Seq<ExprV>>) -> Option<Seq<ExprV>> {
    match rest {
        Some(r) => Some(pre + r),
        None => None,
    }
}

/// Pops every frame of the stack, each a standalone expression, from the top down.
fn drain_expressions(stack: &mut Vec<ExecutionFrame>) -> (r: Result<Vec<ExprKind>, FunctionDecompilerError>)
    ensures
        collected(frames_v(old(stack)@)) matches Some(es) ==> (r matches Ok(v) && exprs_v(v@) == es
            && final(stack)@.len() == 0),
        collected(frames_v(old(stack)@)) is None ==> is_unexpected(r, "StandaloneNode"@) && frames_v(final(stack)@) == left_below_bad(
            frames_v(old(stack)@),
        ),
{
    let ghost s0 = frames_v(stack@);
    let mut acc: Vec<ExprKind> = Vec::new();
    assert(exprs_v(acc@) =~= Seq::<ExprV>::empty());
    assert(Seq::<ExprV>::empty() + collected(s0)->Some_0 =~= collected(s0)->Some_0);
    while stack.len() > 0
        invariant
            collected(s0) == prefixed(exprs_v(acc@), collected(frames_v(stack@))),
            left_below_bad(s0) == left_below_bad(frames_v(stack@)),
            s0 == frames_v(old(stack)@),
        decreases stack@.len(),
    {
        let ghost cur = frames_v(stack@);
        let frame = stack.pop().unwrap();
        proof {
            assert(frames_v(stack@) =~= cur.drop_last());
        }
        match frame {
            ExecutionFrame::StandaloneNode(AstKind::Expression(e)) => {
                let ghost before = acc@;
                acc.push(e);
                proof {
                    assert(acc@.drop_last() =~= before);
                    let ev = cur.last()->Standalone_0->Expression_0;
                    match collected(cur.drop_last()) {
                        Some(rest) => {
                            assert(exprs_v(before) + (seq![ev] + rest) =~= exprs_v(acc@) + rest);
                        },
                        None => {},
                    }
                }
            },
            _ => {
                return Err(FunctionDecompilerError::UnexpectedNodeType { expected: String::from_str("StandaloneNode") });
            },
        }
    }
    proof {
        assert(exprs_v(acc@) + Seq::<ExprV>::empty() =~= exprs_v(acc@));
    }
    Ok(acc)
}

/// Manages the state of the decompiler: a stack of frames for each basic block, the number
/// of phi nodes made in each, and the block being processed.
pub struct FunctionDecompilerContext {
    /// The stack of frames of each block; each block once.
    pub block_ast_node_stack: Vec<(BasicBlockId, Vec<ExecutionFrame>)>,
    /// The number of phi nodes made in each block; each block once.
    pub block_ast_phi_count: Vec<(BasicBlockId, usize)>,
    /// The block being processed.
    pub current_block_id: BasicBlockId,
    /// The SSA versions of locations.
    pub ssa_context: SsaContext,
    /// The instruction being processed.
    pub current_instruction: Instruction,
    /// The expressions held by registers.
    pub register_mapping: Vec<(usize, ExprKind)>,
}

impl FunctionDecompilerContext {
    /// The position of the current block's stack.
    pub open spec fn current_pos(&self) -> Option<nat> {
        key_pos(self.block_ast_node_stack@, self.current_block_id)
    }

    /// The current block's stack.
    pub open spec fn current_stack(&self) -> Seq<FrameV> {
        frames_v(self.block_ast_node_stack@[self.current_pos()->Some_0 as int].1@)
    }

    /// The number of phi nodes made in the current block.
    pub open spec fn current_phi_count(&self) -> nat {
        phi_count_of(self.block_ast_phi_count@, self.current_block_id)
    }

    /// The stacks after the current one becomes `s`.
    pub open spec fn stacks_with_current(&self, s: Seq<FrameV>) -> Seq<(BasicBlockId, Seq<FrameV>)> {
        stack_views(self.block_ast_node_stack@).update(self.current_pos()->Some_0 as int, (self.current_block_id, s))
    }

    /// A context that starts at block `start_block_id`, with no stacks.
    pub fn new(start_block_id: BasicBlockId) -> (c: Self)
        ensures
            c.block_ast_node_stack@.len() == 0,
            c.block_ast_phi_count@.len() == 0,
            c.current_block_id == start_block_id,
            c.register_mapping@.len() == 0,
    {
        FunctionDecompilerContext {
            block_ast_node_stack: Vec::new(),
            block_ast_phi_count: Vec::new(),
            current_block_id: start_block_id,
            ssa_context: SsaContext::new(),
            current_instruction: Instruction::default(),
            register_mapping: Vec::new(),
        }
    }

    fn stack_position(&self, b: BasicBlockId) -> (r: Option<usize>)
        ensures
            r matches Some(i) ==> key_pos(self.block_ast_node_stack@, b) == Some(i as nat),
            r is None ==> key_pos(self.block_ast_node_stack@, b) is None,
    {
        let mut i: usize = self.block_ast_node_stack.len();
        assert(self.block_ast_node_stack@.take(i as int) =~= self.block_ast_node_stack@);
        while i > 0
            invariant
                i <= self.block_ast_node_stack@.len(),
                key_pos(self.block_ast_node_stack@, b) == key_pos(self.block_ast_node_stack@.take(i as int), b),
            decreases i,
        {
            proof {
                assert(self.block_ast_node_stack@.take(i as int).drop_last() =~= self.block_ast_node_stack@.take(i - 1));
            }
            if self.block_ast_node_stack[i - 1].0 == b {
                return Some(i - 1);
            }
            i = i - 1;
        }
        None
    }

    fn phi_position(&self, b: BasicBlockId) -> (r: Option<usize>)
        ensures
            r matches Some(i) ==> key_pos(self.block_ast_phi_count@, b) == Some(i as nat),
            r is None ==> key_pos(self.block_ast_phi_count@, b) is None,
    {
        let mut i: usize = self.block_ast_phi_count.len();
        assert(self.block_ast_phi_count@.take(i as int) =~= self.block_ast_phi_count@);
        while i > 0
            invariant
                i <= self.block_ast_phi_count@.len(),
                key_pos(self.block_ast_phi_count@, b) == key_pos(self.block_ast_phi_count@.take(i as int), b),
            decreases i,
        {
            proof {
                assert(self.block_ast_phi_count@.take(i as int).drop_last() =~= self.block_ast_phi_count@.take(i - 1));
            }
            if self.block_ast_phi_count[i - 1].0 == b {
                return Some(i - 1);
            }
            i = i - 1;
        }
        None
    }

    /// Starts processing block `block_id`, with an empty stack.
    pub fn start_block_processing(&mut self, block_id: BasicBlockId) -> (r: Result<(), FunctionDecompilerError>)
        ensures
            r is Ok,
            final(self).current_block_id == block_id,
            stack_views(final(self).block_ast_node_stack@) == match key_pos(old(self).block_ast_node_stack@, block_id) {
                Some(i) => stack_views(old(self).block_ast_node_stack@).update(i as int, (block_id, Seq::<FrameV>::empty())),
                None => stack_views(old(self).block_ast_node_stack@).push((block_id, Seq::<FrameV>::empty())),
            },
            final(self).block_ast_phi_count@ == old(self).block_ast_phi_count@,
    {
        self.current_block_id = block_id;
        let ghost before = self.block_ast_node_stack@;
        let empty: Vec<ExecutionFrame> = Vec::new();
        assert(frames_v(empty@) =~= Seq::<FrameV>::empty());
        match self.stack_position(block_id) {
            Some(i) => {
                proof {
                    lemma_key_pos(before, block_id);
                }
                self.block_ast_node_stack.set(i, (block_id, empty));
                proof {
                    assert(stack_views(self.block_ast_node_stack@) =~= stack_views(before).update(i as int, (block_id, Seq::<FrameV>::empty())));
                }
            },
            None => {
                self.block_ast_node_stack.push((block_id, empty));
                proof {
                    assert(stack_views(self.block_ast_node_stack@) =~= stack_views(before).push((block_id, Seq::<FrameV>::empty())));
                }
            },
        }
        Ok(())
    }

    /// The stack of block `block_id`, if it has one.
    pub fn get_stack(&self, block_id: &BasicBlockId) -> (r: Option<&Vec<ExecutionFrame>>)
        ensures
            match key_pos(self.block_ast_node_stack@, *block_id) {
                Some(i) => r matches Some(v) && frames_v(v@) == stack_views(self.block_ast_node_stack@)[i as int].1,
                None => r is None,
            },
    {
        proof {
            lemma_key_pos(self.block_ast_node_stack@, *block_id);
        }
        match self.stack_position(*block_id) {
            Some(i) => Some(&self.block_ast_node_stack[i].1),
            None => None,
        }
    }

    /// A new phi node for the current block, numbered by the phi nodes made there before.
    pub fn new_phi(&mut self) -> (p: PhiNode)
        requires
            old(self).current_phi_count() < usize::MAX,
        ensures
            final(self).ssa_context == old(self).ssa_context,
            p.idx == old(self).current_phi_count(),
            !p.resolved,
            p.region_ids@.len() == 0,
            final(self).block_ast_phi_count@ == phi_counted(old(self).block_ast_phi_count@, old(self).current_block_id),
            final(self).block_ast_node_stack@ == old(self).block_ast_node_stack@,
            final(self).current_block_id == old(self).current_block_id,
    {
        let b = self.current_block_id;
        proof {
            lemma_key_pos(self.block_ast_phi_count@, b);
        }
        match self.phi_position(b) {
            Some(i) => {
                let count = self.block_ast_phi_count[i].1;
                self.block_ast_phi_count.set(i, (b, count + 1));
                new_phi(count)
            },
            None => {
                self.block_ast_phi_count.push((b, 1));
                new_phi(0)
            },
        }
    }
}

/// The phi node standing for a value that comes from a predecessor block.
pub open spec fn phi_v(idx: nat) -> AstV {
    AstV::Expression(ExprV::Phi(idx as usize))
}

impl FunctionDecompilerContext {
    /// Pushes a node onto the current block's stack: into the array being built on top,
    /// which takes only expressions, or as a standalone node.
    fn push_node_frames(&mut self, node: AstKind) -> (r: Result<(), FunctionDecompilerError>)
        requires
            old(self).current_pos() is Some,
        ensures
            final(self).ssa_context == old(self).ssa_context,
            final(self).current_block_id == old(self).current_block_id,
            final(self).block_ast_phi_count@ == old(self).block_ast_phi_count@,
            pushed(old(self).current_stack(), node@) matches Some(s) ==> r is Ok && stack_views(
                final(self).block_ast_node_stack@,
            ) == old(self).stacks_with_current(s),
            pushed(old(self).current_stack(), node@) is None ==> is_unexpected(r, "Expression"@) && stack_views(
                final(self).block_ast_node_stack@,
            ) == stack_views(old(self).block_ast_node_stack@),
    {
        let b = self.current_block_id;
        let i = self.stack_position(b).unwrap();
        proof {
            lemma_key_pos(self.block_ast_node_stack@, b);
        }
        let ghost before = self.block_ast_node_stack@;
        let r = push_frame(&mut self.block_ast_node_stack[i].1, node);
        proof {
            assert(stack_views(self.block_ast_node_stack@) =~= stack_views(before).update(
                i as int,
                (b, frames_v(self.block_ast_node_stack@[i as int].1@)),
            ));
            if r is Err {
                assert(stack_views(self.block_ast_node_stack@) =~= stack_views(before));
            }
        }
        match r {
            Ok(()) => Ok(()),
            Err(_) => Err(FunctionDecompilerError::UnexpectedNodeType { expected: String::from_str("Expression") }),
        }
    }

    /// Pops a node from the current block's stack: the last element of the array being built
    /// on top, or the standalone node on top; a new phi node when there is none.
    fn pop_node_frames(&mut self) -> (r: Result<AstKind, FunctionDecompilerError>)
        requires
            old(self).current_pos() is Some,
            old(self).current_phi_count() < usize::MAX || popped(old(self).current_stack()).0 is Some,
        ensures
            final(self).ssa_context == old(self).ssa_context,
            final(self).current_block_id == old(self).current_block_id,
            stack_views(final(self).block_ast_node_stack@) == old(self).stacks_with_current(
                popped(old(self).current_stack()).1,
            ),
            match popped(old(self).current_stack()).0 {
                Some(n) => r matches Ok(a) && a@ == n && final(self).block_ast_phi_count@
                    == old(self).block_ast_phi_count@,
                None => r matches Ok(a) && a@ == phi_v(old(self).current_phi_count())
                    && final(self).block_ast_phi_count@ == phi_counted(
                    old(self).block_ast_phi_count@,
                    old(self).current_block_id,
                ),
            },
    {
        let b = self.current_block_id;
        let i = self.stack_position(b).unwrap();
        proof {
            lemma_key_pos(self.block_ast_node_stack@, b);
        }
        let ghost before = self.block_ast_node_stack@;
        let popped_node = pop_frame(&mut self.block_ast_node_stack[i].1);
        proof {
            assert(stack_views(self.block_ast_node_stack@) =~= stack_views(before).update(
                i as int,
                (b, frames_v(self.block_ast_node_stack@[i as int].1@)),
            ));
        }
        match popped_node {
            Some(n) => Ok(n),
            None => {
                let phi = self.new_phi();
                Ok(AstKind::Expression(ExprKind::Phi(P(phi))))
            },
        }
    }

    /// Pops an expression from the current block's stack.
    pub fn pop_expression(&mut self) -> (r: Result<ExprKind, FunctionDecompilerError>)
        requires
            old(self).current_pos() is Some,
            old(self).current_phi_count() < usize::MAX || popped(old(self).current_stack()).0 is Some,
        ensures
            final(self).current_block_id == old(self).current_block_id,
            stack_views(final(self).block_ast_node_stack@) == old(self).stacks_with_current(
                popped(old(self).current_stack()).1,
            ),
            match popped(old(self).current_stack()).0 {
                Some(AstV::Expression(e)) => r matches Ok(x) && x@ == e,
                Some(_) => is_unexpected(r, "Expression"@),
                None => r matches Ok(x) && x@ == ExprV::Phi(old(self).current_phi_count() as usize),
            },
            final(self).others_same(old(self)),
            final(self).machine() == pop_expr_m(old(self).machine()).1,
            agrees(r, pop_expr_m(old(self).machine()).0, |x: ExprKind| x@),
    {
        match self.pop_one_node() {
            Ok(AstKind::Expression(e)) => Ok(e),
            Ok(_) => Err(FunctionDecompilerError::UnexpectedNodeType { expected: String::from_str("Expression") }),
            Err(e) => Err(e),
        }
    }

    /// Pops an identifier from the current block's stack.
    pub fn pop_identifier(&mut self) -> (r: Result<P<IdentifierNode>, FunctionDecompilerError>)
        requires
            old(self).current_pos() is Some,
            old(self).current_phi_count() < usize::MAX || popped(old(self).current_stack()).0 is Some,
        ensures
            final(self).current_block_id == old(self).current_block_id,
            stack_views(final(self).block_ast_node_stack@) == old(self).stacks_with_current(
                popped(old(self).current_stack()).1,
            ),
            match popped(old(self).current_stack()).0 {
                Some(AstV::Expression(ExprV::Identifier(id, v))) => r matches Ok(p) && p.ptr.id@ == id
                    && crate::decompiler::ast::view::version_v(p.ptr.ssa_version) == v,
                Some(AstV::Expression(_)) => is_unexpected(r, "Identifier"@),
                Some(_) => is_unexpected(r, "Expression"@),
                None => is_unexpected(r, "Identifier"@),
            },
            final(self).others_same(old(self)),
            final(self).machine() == pop_expr_m(old(self).machine()).1,
    {
        match self.pop_expression() {
            Ok(ExprKind::Identifier(p)) => Ok(p),
            Ok(_) => Err(FunctionDecompilerError::UnexpectedNodeType { expected: String::from_str("Identifier") }),
            Err(e) => Err(e),
        }
    }
}

/// The error for a node of an unexpected kind, where a node of kind `expected` was needed.
pub open spec fn is_unexpected<T>(r: Result<T, FunctionDecompilerError>, expected: Seq<char>) -> bool {
    r matches Err(FunctionDecompilerError::UnexpectedNodeType { expected: x }) && x@ == expected
}

/// The expressions in reverse order.
fn reversed(v: Vec<ExprKind>) -> (r: Vec<ExprKind>)
    ensures
        exprs_v(r@) == exprs_v(v@).reverse(),
{
    let ghost orig = v@;
    let n = v.len();
    let mut v = v;
    let mut r: Vec<ExprKind> = Vec::new();
    while v.len() > 0
        invariant
            r@.len() + v@.len() == n,
            n == orig.len(),
            v@ == orig.take(v@.len() as int),
            forall|k: int| 0 <= k < r@.len() ==> #[trigger] r@[k]@ == orig[n - 1 - k]@,
        decreases v@.len(),
    {
        let e = v.pop().unwrap();
        proof {
            assert(orig.take(v@.len() as int) =~= orig.take(v@.len() + 1 as int).drop_last());
        }
        r.push(e);
    }
    proof {
        lemma_exprs_v(r@);
        lemma_exprs_v(orig);
        assert(exprs_v(r@) =~= exprs_v(orig).reverse());
    }
    r
}

/// The array popped from a stack whose top is not an array being built: the standalone
/// expression on top, then those below it.
pub open spec fn phi_array_elements(s: Seq<FrameV>) -> Option<Seq<ExprV>> {
    match s.last() {
        FrameV::Standalone(AstV::Expression(e)) => prefixed(seq![e], collected(s.drop_last())),
        _ => None,
    }
}

impl FunctionDecompilerContext {
    /// Pops an array from the current block's stack: the array being built on top, its
    /// elements in reverse order; or, when the top holds standalone expressions, all of them
    /// from the top down in an array merged by a new phi node; or an empty such array when
    /// the stack is empty.
    fn pop_array_frames(&mut self) -> (r: Result<ArrayKind, FunctionDecompilerError>)
        requires
            old(self).current_pos() is Some,
            old(self).current_phi_count() < usize::MAX,
        ensures
            final(self).ssa_context == old(self).ssa_context,
            final(self).current_block_id == old(self).current_block_id,
            ({
                let s = old(self).current_stack();
                let count = old(self).current_phi_count();
                let counted = phi_counted(old(self).block_ast_phi_count@, old(self).current_block_id);
                if s.len() == 0 {
                    &&& r matches Ok(a) && ExprKind::Array(a)@ == ExprV::Array(Some(count as usize), Seq::empty())
                    &&& final(self).block_ast_phi_count@ == counted
                    &&& stack_views(final(self).block_ast_node_stack@) == stack_views(old(self).block_ast_node_stack@)
                } else if s.last() is Building {
                    &&& r matches Ok(a) && ExprKind::Array(a)@ == ExprV::Array(None, s.last()->Building_0.reverse())
                    &&& final(self).block_ast_phi_count@ == old(self).block_ast_phi_count@
                    &&& stack_views(final(self).block_ast_node_stack@) == old(self).stacks_with_current(s.drop_last())
                } else {
                    match phi_array_elements(s) {
                        Some(es) => {
                            &&& r matches Ok(a) && ExprKind::Array(a)@ == ExprV::Array(Some(count as usize), es)
                            &&& final(self).block_ast_phi_count@ == counted
                            &&& stack_views(final(self).block_ast_node_stack@) == old(self).stacks_with_current(
                                Seq::empty(),
                            )
                        },
                        None => {
                            &&& is_unexpected(
                                r,
                                if s.last() matches FrameV::Standalone(AstV::Expression(_)) {
                                    "StandaloneNode"@
                                } else {
                                    "Expression"@
                                },
                            )
                            &&& final(self).block_ast_phi_count@ == old(self).block_ast_phi_count@
                            &&& stack_views(final(self).block_ast_node_stack@) == old(self).stacks_with_current(
                                if s.last() matches FrameV::Standalone(AstV::Expression(_)) {
                                    left_below_bad(s.drop_last())
                                } else {
                                    s.drop_last()
                                },
                            )
                        },
                    }
                }
            }),
    {
        let b = self.current_block_id;
        let i = self.stack_position(b).unwrap();
        proof {
            lemma_key_pos(self.block_ast_node_stack@, b);
        }
        let ghost before = self.block_ast_node_stack@;
        let ghost s = frames_v(before[i as int].1@);
        let frame = self.block_ast_node_stack[i].1.pop();
        proof {
            if frame is Some {
                assert(s.last() == frame->Some_0@);
            } else {
                assert(s.len() == 0);
            }
            assert(stack_views(self.block_ast_node_stack@) =~= stack_views(before).update(
                i as int,
                (b, frames_v(self.block_ast_node_stack@[i as int].1@)),
            ));
        }
        match frame {
            None => {
                proof {
                    assert(stack_views(self.block_ast_node_stack@) =~= stack_views(before));
                }
                let phi = self.new_phi();
                let elements: Vec<ExprKind> = Vec::new();
                proof {
                    assert(exprs_v(elements@) =~= Seq::<ExprV>::empty());
                }
                Ok(ArrayKind::PhiArray(P(PhiArrayNode::new(P(phi), elements))))
            },
            Some(ExecutionFrame::BuildingArray(array)) => {
                proof {
                    assert(frames_v(self.block_ast_node_stack@[i as int].1@) =~= s.drop_last());
                }
                let rev = reversed(array);
                Ok(ArrayKind::MergedArray(P(ArrayNode::new(rev))))
            },
            Some(ExecutionFrame::StandaloneNode(node)) => {
                proof {
                    assert(frames_v(self.block_ast_node_stack@[i as int].1@) =~= s.drop_last());
                }
                let e = match node {
                    AstKind::Expression(e) => e,
                    _ => {
                        proof {
                            assert(stack_views(self.block_ast_node_stack@) =~= stack_views(before).update(
                                i as int,
                                (b, s.drop_last()),
                            ));
                        }
                        return Err(FunctionDecompilerError::UnexpectedNodeType { expected: String::from_str("Expression") });
                    },
                };
                let ghost mid = self.block_ast_node_stack@;
                let drained = drain_expressions(&mut self.block_ast_node_stack[i].1);
                proof {
                    assert(stack_views(self.block_ast_node_stack@) =~= stack_views(mid).update(
                        i as int,
                        (b, frames_v(self.block_ast_node_stack@[i as int].1@)),
                    ));
                    assert(stack_views(mid).update(i as int, (b, s.drop_last())) =~= stack_views(before).update(i as int, (b, s.drop_last())));
                }
                match drained {
                    Ok(rest) => {
                        proof {
                            assert(frames_v(self.block_ast_node_stack@[i as int].1@) =~= Seq::<FrameV>::empty());
                            assert(stack_views(self.block_ast_node_stack@) =~= stack_views(before).update(i as int, (b, Seq::<FrameV>::empty())));
                        }
                        let mut nodes: Vec<ExprKind> = Vec::new();
                        nodes.push(e);
                        let mut rest = rest;
                        let ghost first = nodes@;
                        let ghost rest0 = rest@;
                        nodes.append(&mut rest);
                        proof {
                            lemma_exprs_v(nodes@);
                            lemma_exprs_v(first);
                            lemma_exprs_v(rest0);
                            assert(exprs_v(nodes@) =~= seq![e@] + exprs_v(rest0));
                        }
                        let phi = self.new_phi();
                        Ok(ArrayKind::PhiArray(P(PhiArrayNode::new(P(phi), nodes))))
                    },
                    Err(err) => {
                        proof {
                            assert(stack_views(self.block_ast_node_stack@) =~= stack_views(before).update(
                                i as int,
                                (b, left_below_bad(s.drop_last())),
                            ));
                        }
                        Err(err)
                    },
                }
            },
        }
    }
}

/// Where the decompiler was when an error happened: the block, the instruction, and the
/// block's stack.
pub struct FunctionDecompilerErrorContext {
    /// The block being processed.
    pub current_block_id: BasicBlockId,
    /// The instruction being processed.
    pub current_instruction: Instruction,
    /// The stack of the block.
    pub current_ast_node_stack: Vec<ExecutionFrame>,
}

/// Copies a stack of frames.
fn copy_frames(v: &Vec<ExecutionFrame>) -> (r: Vec<ExecutionFrame>)
    ensures
        frames_v(r@) == frames_v(v@),
{
    let mut r: Vec<ExecutionFrame> = Vec::new();
    let mut i: usize = 0;
    while i < v.len()
        invariant
            i <= v@.len(),
            r@.len() == i,
            frames_v(r@) == frames_v(v@.take(i as int)),
        decreases v@.len() - i,
    {
        let f = ExecutionFrame::clone(&v[i]);
        let ghost before = r@;
        r.push(f);
        proof {
            assert(r@[i as int]@ == v@[i as int]@);
            assert forall|k: int| 0 <= k < i + 1 implies frames_v(r@)[k] == frames_v(v@.take(i + 1))[k] by {
                if k < i {
                    assert(frames_v(before)[k] == frames_v(v@.take(i as int))[k]);
                    assert(r@[k] == before[k]);
                }
            }
            assert(frames_v(r@) =~= frames_v(v@.take(i + 1)));
        }
        i = i + 1;
    }
    assert(v@.take(i as int) =~= v@);
    r
}

impl FunctionDecompilerContext {
    /// The context of an error happening now: the current block, a copy of the current
    /// instruction, and a copy of the current block's stack, empty when it has none.
    pub fn get_error_context(&self) -> (c: Box<FunctionDecompilerErrorContext>)
        ensures
            c.current_block_id == self.current_block_id,
            c.current_instruction@ == self.current_instruction@,
            frames_v(c.current_ast_node_stack@) == match self.current_pos() {
                Some(i) => stack_views(self.block_ast_node_stack@)[i as int].1,
                None => Seq::<FrameV>::empty(),
            },
    {
        proof {
            lemma_key_pos(self.block_ast_node_stack@, self.current_block_id);
        }
        let stack = match self.stack_position(self.current_block_id) {
            Some(i) => copy_frames(&self.block_ast_node_stack[i].1),
            None => {
                let v: Vec<ExecutionFrame> = Vec::new();
                assert(frames_v(v@) =~= Seq::<FrameV>::empty());
                v
            },
        };
        Box::new(FunctionDecompilerErrorContext {
            current_block_id: self.current_block_id,
            current_instruction: self.current_instruction.clone(),
            current_ast_node_stack: stack,
        })
    }
}

/// What the decompiler holds for the block being processed: its stack, the number of phi
/// nodes made in it, and the SSA versions.
pub struct MachineV {
    /// The stack of the block.
    pub stack: Seq<FrameV>,
    /// The number of phi nodes made in the block.
    pub phis: nat,
    /// The current SSA versions of locations.
    pub versions: Seq<(Seq<char>, SsaVersion)>,
    /// The next SSA version.
    pub next_version: SsaVersion,
}

/// The stack of block `b`, if it has one.
pub open spec fn stack_of(stacks: Seq<(BasicBlockId, Seq<FrameV>)>, b: BasicBlockId) -> Option<Seq<FrameV>> {
    match key_pos(stacks, b) {
        Some(i) => Some(stacks[i as int].1),
        None => None,
    }
}

/// Popping an expression: the expression on top, or a new phi node when there is nothing to
/// pop; an error when the top is another kind of node.
pub open spec fn pop_expr_m(m: MachineV) -> (Result<ExprV, ErrorV>, MachineV) {
    let p = popped(m.stack);
    match p.0 {
        Some(AstV::Expression(e)) => (Ok(e), MachineV { stack: p.1, ..m }),
        Some(_) => (Err(ErrorV::UnexpectedNodeType("Expression"@)), MachineV { stack: p.1, ..m }),
        None => (Ok(ExprV::Phi(m.phis as usize)), MachineV { phis: m.phis + 1, ..m }),
    }
}

/// Pushing a node.
pub open spec fn push_m(m: MachineV, n: AstV) -> (Result<(), ErrorV>, MachineV) {
    match pushed(m.stack, n) {
        Some(t) => (Ok(()), MachineV { stack: t, ..m }),
        None => (Err(ErrorV::UnexpectedNodeType("Expression"@)), m),
    }
}

/// Popping an array, as `pop_building_array` does.
pub open spec fn pop_array_m(m: MachineV) -> (Result<ExprV, ErrorV>, MachineV) {
    let s = m.stack;
    if s.len() == 0 {
        (Ok(ExprV::Array(Some(m.phis as usize), Seq::empty())), MachineV { phis: m.phis + 1, ..m })
    } else if s.last() is Building {
        (Ok(ExprV::Array(None, s.last()->Building_0.reverse())), MachineV { stack: s.drop_last(), ..m })
    } else {
        match phi_array_elements(s) {
            Some(es) => (Ok(ExprV::Array(Some(m.phis as usize), es)), MachineV { stack: Seq::empty(), phis: m.phis + 1, ..m }),
            None => (
                Err(
                    ErrorV::UnexpectedNodeType(
                        if s.last() matches FrameV::Standalone(AstV::Expression(_)) {
                            "StandaloneNode"@
                        } else {
                            "Expression"@
                        },
                    ),
                ),
                MachineV {
                    stack: if s.last() matches FrameV::Standalone(AstV::Expression(_)) {
                        left_below_bad(s.drop_last())
                    } else {
                        s.drop_last()
                    },
                    ..m
                },
            ),
        }
    }
}

/// The positions of keys do not depend on the values.
proof fn lemma_key_pos_views(v: Seq<(BasicBlockId, Vec<ExecutionFrame>)>, b: BasicBlockId)
    ensures
        key_pos(stack_views(v), b) == key_pos(v, b),
    decreases v.len(),
{
    if v.len() > 0 {
        assert(stack_views(v).drop_last() =~= stack_views(v.drop_last()));
        lemma_key_pos_views(v.drop_last(), b);
    }
}

impl FunctionDecompilerContext {
    /// What the decompiler holds for the current block.
    pub open spec fn machine(&self) -> MachineV {
        MachineV {
            stack: self.current_stack(),
            phis: self.current_phi_count(),
            versions: self.ssa_context.versions(),
            next_version: self.ssa_context.next_version,
        }
    }

    /// Whether the current block has a stack, and, next to an earlier state, the current
    /// block and the stacks and phi counts of the other blocks are unchanged.
    pub open spec fn others_same(&self, earlier: &Self) -> bool {
        &&& self.current_block_id == earlier.current_block_id
        &&& self.current_pos() is Some
        &&& forall|b: BasicBlockId| b != self.current_block_id ==> #[trigger] stack_of(stack_views(self.block_ast_node_stack@), b)
            == stack_of(stack_views(earlier.block_ast_node_stack@), b) && phi_count_of(self.block_ast_phi_count@, b)
            == phi_count_of(earlier.block_ast_phi_count@, b)
    }

    /// Putting the current stack back in its place changes nothing.
    proof fn lemma_current_in_place(&self)
        requires
            self.current_pos() is Some,
        ensures
            self.stacks_with_current(self.current_stack()) == stack_views(self.block_ast_node_stack@),
    {
        lemma_key_pos(self.block_ast_node_stack@, self.current_block_id);
        assert(self.stacks_with_current(self.current_stack()) =~= stack_views(self.block_ast_node_stack@));
    }

    /// Replacing the current stack keeps the other blocks and makes the new stack current.
    proof fn lemma_replaced(&self, earlier: &Self, t: Seq<FrameV>)
        requires
            earlier.current_pos() is Some,
            self.current_block_id == earlier.current_block_id,
            stack_views(self.block_ast_node_stack@) == earlier.stacks_with_current(t),
            self.block_ast_phi_count@ == earlier.block_ast_phi_count@ || (self.block_ast_phi_count@ == phi_counted(
                earlier.block_ast_phi_count@,
                earlier.current_block_id,
            ) && earlier.current_phi_count() < usize::MAX),
        ensures
            self.others_same(earlier),
            self.current_stack() == t,
            self.block_ast_phi_count@ == earlier.block_ast_phi_count@ ==> self.current_phi_count()
                == earlier.current_phi_count(),
            self.block_ast_phi_count@ == phi_counted(earlier.block_ast_phi_count@, earlier.current_block_id)
                && earlier.current_phi_count() < usize::MAX ==> self.current_phi_count() == earlier.current_phi_count()
                + 1,
    {
        if earlier.current_phi_count() < usize::MAX {
            law_phi_numbers_increase(earlier.block_ast_phi_count@, earlier.current_block_id, earlier.current_block_id);
        }
        let cur = earlier.current_block_id;
        let i = earlier.current_pos()->Some_0 as int;
        let ev = stack_views(earlier.block_ast_node_stack@);
        lemma_key_pos(earlier.block_ast_node_stack@, cur);
        lemma_key_pos_views(earlier.block_ast_node_stack@, cur);
        lemma_key_pos_views(self.block_ast_node_stack@, cur);
        assert(ev[i].0 == cur);
        lemma_key_pos_update(ev, i, t, cur);
        assert(ev.update(i, (ev[i].0, t)) == ev.update(i, (cur, t)));
        assert forall|b: BasicBlockId| b != cur implies #[trigger] stack_of(stack_views(self.block_ast_node_stack@), b)
            == stack_of(ev, b) && phi_count_of(self.block_ast_phi_count@, b) == phi_count_of(
            earlier.block_ast_phi_count@,
            b,
        ) by {
            lemma_key_pos_update(ev, i, t, b);
            lemma_key_pos(ev, b);
            if earlier.current_phi_count() < usize::MAX {
                law_phi_numbers_increase(earlier.block_ast_phi_count@, cur, b);
            }
        }
        assert(self.block_ast_node_stack@[i].1@.map_values(|f: ExecutionFrame| f@) == stack_views(self.block_ast_node_stack@)[i].1);
    }
}

impl FunctionDecompilerContext {
    /// Pushes a node onto the current block's stack: into the array being built on top,
    /// which takes only expressions, or as a standalone node.
    pub fn push_one_node(&mut self, node: AstKind) -> (r: Result<(), FunctionDecompilerError>)
        requires
            old(self).current_pos() is Some,
        ensures
            final(self).current_block_id == old(self).current_block_id,
            final(self).block_ast_phi_count@ == old(self).block_ast_phi_count@,
            pushed(old(self).current_stack(), node@) matches Some(s) ==> r is Ok && stack_views(
                final(self).block_ast_node_stack@,
            ) == old(self).stacks_with_current(s),
            pushed(old(self).current_stack(), node@) is None ==> is_unexpected(r, "Expression"@) && stack_views(
                final(self).block_ast_node_stack@,
            ) == stack_views(old(self).block_ast_node_stack@),
            final(self).others_same(old(self)),
            final(self).machine() == push_m(old(self).machine(), node@).1,
            agrees(r, push_m(old(self).machine(), node@).0, |x: ()| x),
            final(self).ssa_context == old(self).ssa_context,
    {
        let ghost before = *self;
        let ghost n = node@;
        let r = self.push_node_frames(node);
        proof {
            let t = match pushed(before.current_stack(), n) {
                Some(t) => t,
                None => before.current_stack(),
            };
            if pushed(before.current_stack(), n) is None {
                lemma_key_pos(before.block_ast_node_stack@, before.current_block_id);
                assert(stack_views(before.block_ast_node_stack@).update(
                    before.current_pos()->Some_0 as int,
                    (before.current_block_id, before.current_stack()),
                ) =~= stack_views(before.block_ast_node_stack@));
            }
            self.lemma_replaced(&before, t);
        }
        r
    }
}

impl FunctionDecompilerContext {
    /// Pops a node from the current block's stack: the last element of the array being built
    /// on top, or the standalone node on top; a new phi node when there is none.
    pub fn pop_one_node(&mut self) -> (r: Result<AstKind, FunctionDecompilerError>)
        requires
            old(self).current_pos() is Some,
            old(self).current_phi_count() < usize::MAX || popped(old(self).current_stack()).0 is Some,
        ensures
            final(self).current_block_id == old(self).current_block_id,
            stack_views(final(self).block_ast_node_stack@) == old(self).stacks_with_current(
                popped(old(self).current_stack()).1,
            ),
            match popped(old(self).current_stack()).0 {
                Some(n) => r matches Ok(a) && a@ == n && final(self).block_ast_phi_count@
                    == old(self).block_ast_phi_count@,
                None => r matches Ok(a) && a@ == phi_v(old(self).current_phi_count())
                    && final(self).block_ast_phi_count@ == phi_counted(
                    old(self).block_ast_phi_count@,
                    old(self).current_block_id,
                ),
            },
            final(self).others_same(old(self)),
            final(self).current_stack() == popped(old(self).current_stack()).1,
            final(self).current_phi_count() == old(self).current_phi_count() + if popped(
                old(self).current_stack(),
            ).0 is None {
                1nat
            } else {
                0nat
            },
            final(self).ssa_context == old(self).ssa_context,
    {
        let ghost before = *self;
        let r = self.pop_node_frames();
        proof {
            self.lemma_replaced(&before, popped(before.current_stack()).1);
        }
        r
    }

    /// Pops an array from the current block's stack: the array being built on top, its
    /// elements in reverse order; or, when the top holds standalone expressions, all of them
    /// from the top down in an array merged by a new phi node; or an empty such array when
    /// the stack is empty.
    pub fn pop_building_array(&mut self) -> (r: Result<ArrayKind, FunctionDecompilerError>)
        requires
            old(self).current_pos() is Some,
            old(self).current_phi_count() < usize::MAX,
        ensures
            final(self).others_same(old(self)),
            final(self).machine() == pop_array_m(old(self).machine()).1,
            agrees(r, pop_array_m(old(self).machine()).0, |a: ArrayKind| ExprKind::Array(a)@),
    {
        let ghost before = *self;
        let r = self.pop_array_frames();
        proof {
            before.lemma_current_in_place();
            self.lemma_replaced(&before, pop_array_m(before.machine()).1.stack);
        }
        r
    }
}

/// Popping a whole frame: the frame on top, or a standalone phi node when the stack is empty.
pub open spec fn raw_pop_m(m: MachineV) -> (FrameV, MachineV) {
    if m.stack.len() == 0 {
        (FrameV::Standalone(phi_v(m.phis)), MachineV { phis: m.phis + 1, ..m })
    } else {
        (m.stack.last(), MachineV { stack: m.stack.drop_last(), ..m })
    }
}

/// Swapping the two frames on top: when the top one is an array being built, the one below
/// joins it (its elements after the array's, or itself as the last element when it is a
/// standalone expression); otherwise the two frames change places.
pub open spec fn swap_m(m: MachineV) -> (Result<ProcessedV, ErrorV>, MachineV) {
    let (last, m1) = raw_pop_m(m);
    let (second, m2) = raw_pop_m(m1);
    match last {
        FrameV::Building(la) => match second {
            FrameV::Building(sa) => (Ok(nothing_processed()), MachineV { stack: m2.stack.push(FrameV::Building(la + sa)), ..m2 }),
            FrameV::Standalone(AstV::Expression(e)) => (
                Ok(nothing_processed()),
                MachineV { stack: m2.stack.push(FrameV::Building(la.push(e))), ..m2 },
            ),
            FrameV::Standalone(_) => (Err(ErrorV::UnexpectedNodeType("Expression"@)), m2),
        },
        FrameV::Standalone(_) => (Ok(nothing_processed()), MachineV { stack: m2.stack.push(last).push(second), ..m2 }),
    }
}

/// Swapping two standalone frames twice leaves the block as it was.
pub proof fn law_swap_twice(m: MachineV)
    requires
        m.stack.len() >= 2,
        m.stack.last() is Standalone,
        m.stack[m.stack.len() - 2] is Standalone,
    ensures
        swap_m(m).0 is Ok,
        swap_m(swap_m(m).1).1 == m,
{
    let s = m.stack;
    let t = swap_m(m).1.stack;
    assert(t =~= s.drop_last().drop_last().push(s.last()).push(s[s.len() - 2]));
    assert(t.drop_last().drop_last() =~= s.drop_last().drop_last());
    assert(swap_m(swap_m(m).1).1.stack =~= s);
}

/// Processing instruction `i` with `handler`, the handler registered for its opcode if any:
/// `PushArray` starts an array, `Swap` swaps the frames on top, and any other opcode goes to
/// its handler, whose SSA identifier, when it gives one, is pushed.
pub open spec fn process_step(m: MachineV, i: InstructionView, handler: Option<OpcodeHandlerKind>) -> (Result<ProcessedV, ErrorV>, MachineV) {
    if i.opcode == Opcode::PushArray {
        (Ok(nothing_processed()), MachineV { stack: m.stack.push(FrameV::Building(Seq::empty())), ..m })
    } else if i.opcode == Opcode::Swap {
        swap_m(m)
    } else {
        match handler {
            None => (Err(ErrorV::UnimplementedOpcode(i.opcode)), m),
            Some(k) => {
                let (r, m1) = handler_step(k, m, i);
                match r {
                    Ok(p) => match p.ssa_id {
                        Some(e) => {
                            let (pr, m2) = push_m(m1, AstV::Expression(e));
                            match pr {
                                Ok(_) => (Ok(p), m2),
                                Err(x) => (Err(x), m2),
                            }
                        },
                        None => (Ok(p), m1),
                    },
                    Err(x) => (Err(x), m1),
                }
            },
        }
    }
}

/// Starting an array and popping it at once gives an empty array built in the block, and
/// leaves the block as it was.
pub proof fn law_push_array_then_pop(m: MachineV, i: InstructionView, handler: Option<OpcodeHandlerKind>)
    requires
        i.opcode == Opcode::PushArray,
    ensures
        process_step(m, i, handler).0 == Ok::<ProcessedV, ErrorV>(nothing_processed()),
        pop_array_m(process_step(m, i, handler).1) == (Ok::<ExprV, ErrorV>(ExprV::Array(None, Seq::empty())), m),
{
    let m1 = process_step(m, i, handler).1;
    assert(m1.stack.drop_last() =~= m.stack);
    assert(m1.stack.last()->Building_0.reverse() =~= Seq::<ExprV>::empty());
}

impl FunctionDecompilerContext {
    /// Pops the whole frame on top of the current block's stack; a standalone phi node when
    /// the stack is empty.
    fn pop_raw_frame(&mut self) -> (f: ExecutionFrame)
        requires
            old(self).current_pos() is Some,
            old(self).current_phi_count() < usize::MAX,
        ensures
            final(self).others_same(old(self)),
            final(self).ssa_context == old(self).ssa_context,
            final(self).machine() == raw_pop_m(old(self).machine()).1,
            f@ == raw_pop_m(old(self).machine()).0,
    {
        let ghost before = *self;
        let b = self.current_block_id;
        let i = self.stack_position(b).unwrap();
        proof {
            lemma_key_pos(self.block_ast_node_stack@, b);
        }
        let ghost vs = self.block_ast_node_stack@;
        let top = self.block_ast_node_stack[i].1.pop();
        proof {
            assert(stack_views(self.block_ast_node_stack@) =~= stack_views(vs).update(
                i as int,
                (b, frames_v(self.block_ast_node_stack@[i as int].1@)),
            ));
        }
        match top {
            Some(f) => {
                proof {
                    assert(frames_v(self.block_ast_node_stack@[i as int].1@) =~= before.current_stack().drop_last());
                    self.lemma_replaced(&before, before.current_stack().drop_last());
                }
                f
            },
            None => {
                let ghost mid = *self;
                proof {
                    assert(frames_v(self.block_ast_node_stack@[i as int].1@) =~= before.current_stack());
                    self.lemma_replaced(&before, before.current_stack());
                }
                let phi = self.new_phi();
                proof {
                    self.lemma_replaced(&before, before.current_stack());
                }
                ExecutionFrame::StandaloneNode(AstKind::Expression(ExprKind::Phi(P(phi))))
            },
        }
    }

    /// Pushes a whole frame onto the current block's stack.
    fn push_raw_frame(&mut self, f: ExecutionFrame)
        requires
            old(self).current_pos() is Some,
        ensures
            final(self).others_same(old(self)),
            final(self).ssa_context == old(self).ssa_context,
            final(self).machine() == (MachineV { stack: old(self).machine().stack.push(f@), ..old(self).machine() }),
    {
        let ghost before = *self;
        let ghost fv = f@;
        let b = self.current_block_id;
        let i = self.stack_position(b).unwrap();
        proof {
            lemma_key_pos(self.block_ast_node_stack@, b);
        }
        let ghost vs = self.block_ast_node_stack@;
        self.block_ast_node_stack[i].1.push(f);
        proof {
            assert(stack_views(self.block_ast_node_stack@) =~= stack_views(vs).update(
                i as int,
                (b, frames_v(self.block_ast_node_stack@[i as int].1@)),
            ));
            assert(frames_v(self.block_ast_node_stack@[i as int].1@) =~= before.current_stack().push(fv));
            self.lemma_replaced(&before, before.current_stack().push(fv));
        }
    }

    /// Swaps the two frames on top of the current block's stack, joining them into one array
    /// when the top one is an array being built.
    fn swap_frames(&mut self) -> (r: Result<ProcessedInstruction, FunctionDecompilerError>)
        requires
            handler_ready(*old(self)),
        ensures
            final(self).others_same(old(self)),
            final(self).ssa_context == old(self).ssa_context,
            final(self).machine() == swap_m(old(self).machine()).1,
            agrees(r, swap_m(old(self).machine()).0, |p: ProcessedInstruction| p@),
    {
        let ghost c0 = *self;
        let last = self.pop_raw_frame();
        let ghost c1 = *self;
        let second = self.pop_raw_frame();
        let ghost c2 = *self;
        match last {
            ExecutionFrame::BuildingArray(mut la) => match second {
                ExecutionFrame::BuildingArray(mut sa) => {
                    let ghost a = la@;
                    let ghost b = sa@;
                    la.append(&mut sa);
                    proof {
                        lemma_exprs_v(a);
                        lemma_exprs_v(b);
                        lemma_exprs_v(la@);
                        assert(exprs_v(la@) =~= exprs_v(a) + exprs_v(b));
                    }
                    self.push_raw_frame(ExecutionFrame::BuildingArray(la));
                    Ok(ProcessedInstructionBuilder::new().build())
                },
                ExecutionFrame::StandaloneNode(n) => match n {
                    AstKind::Expression(e) => {
                        let ghost a = la@;
                        la.push(e);
                        proof {
                            lemma_exprs_v(a);
                            lemma_exprs_v(la@);
                            assert(exprs_v(la@) =~= exprs_v(a).push(la@.last()@));
                        }
                        self.push_raw_frame(ExecutionFrame::BuildingArray(la));
                        Ok(ProcessedInstructionBuilder::new().build())
                    },
                    _ => Err(FunctionDecompilerError::UnexpectedNodeType { expected: String::from_str("Expression") }),
                },
            },
            ExecutionFrame::StandaloneNode(_) => {
                self.push_raw_frame(last);
                self.push_raw_frame(second);
                Ok(ProcessedInstructionBuilder::new().build())
            },
        }
    }

    /// Processes an instruction of the current block with the handler registered for its
    /// opcode (see `handler_of`); `PushArray` and `Swap` need none.
    pub fn process_instruction(&mut self, instr: &Instruction) -> (r: Result<
        ProcessedInstruction,
        FunctionDecompilerError,
    >)
        requires
            handler_ready(*old(self)),
        ensures
            final(self).others_same(old(self)),
            final(self).current_instruction@ == instr@,
            final(self).machine() == process_step(old(self).machine(), instr@, handler_of(instr.opcode)).1,
            agrees(
                r,
                process_step(old(self).machine(), instr@, handler_of(instr.opcode)).0,
                |p: ProcessedInstruction| p@,
            ),
    {
        let handler = handler_for(instr.opcode);
        let r = self.dispatch(instr, handler);
        self.current_instruction = instr.clone();
        r
    }

    /// Does the work of `process_instruction`.
    fn dispatch(&mut self, instr: &Instruction, handler: Option<OpcodeHandlerKind>) -> (r: Result<
        ProcessedInstruction,
        FunctionDecompilerError,
    >)
        requires
            handler_ready(*old(self)),
        ensures
            final(self).others_same(old(self)),
            final(self).machine() == process_step(old(self).machine(), instr@, handler).1,
            agrees(r, process_step(old(self).machine(), instr@, handler).0, |p: ProcessedInstruction| p@),
    {
        if instr.opcode == Opcode::PushArray {
            self.push_raw_frame(ExecutionFrame::BuildingArray(Vec::new()));
            return Ok(ProcessedInstructionBuilder::new().build());
        }
        if instr.opcode == Opcode::Swap {
            return self.swap_frames();
        }
        let k = match handler {
            Some(k) => k,
            None => return Err(FunctionDecompilerError::UnimplementedOpcode { opcode: instr.opcode }),
        };
        let ghost c0 = *self;
        let op = match k.handle_instruction(self, instr) {
            Ok(op) => op,
            Err(e) => return Err(e),
        };
        let ghost c1 = *self;
        match &op.ssa_id {
            Some(ssa_id) => {
                match self.push_one_node(AstKind::Expression(ssa_id.clone())) {
                    Ok(()) => {},
                    Err(e) => {
                        proof {
                            crate::decompiler::handlers::lemma_others_same_trans(*self, c1, c0);
                        }
                        return Err(e);
                    },
                }
                proof {
                    crate::decompiler::handlers::lemma_others_same_trans(*self, c1, c0);
                }
            },
            None => {},
        }
        Ok(op)
    }
}

} // verus!
