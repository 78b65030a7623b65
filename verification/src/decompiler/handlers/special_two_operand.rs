use vstd::prelude::*;

use crate::decompiler::ast::convert::{IntoAst, IntoExpr};
use crate::decompiler::ast::expr::ExprKind;
use crate::decompiler::ast::identifier::IdentifierNode;
use crate::decompiler::ast::ptr::P;
use crate::decompiler::ast::ssa::{version_set, SsaVersion};
use crate::decompiler::ast::view::{AstV, ExprV, StmtV};
use crate::decompiler::ast::{new_array_access, new_assignment, new_id_with_version, new_member_access, new_new};
use crate::decompiler::function_decompiler_context::{
    agrees, pop_expr_m, push_m, ErrorV, FunctionDecompilerContext, FunctionDecompilerError, MachineV,
};
use crate::decompiler::handlers::{handler_ready, lemma_others_same_trans};
use crate::decompiler::{nothing_processed, ProcessedInstruction, ProcessedInstructionBuilder, ProcessedV};
use crate::instruction::Instruction;
use crate::opcode::Opcode;

verus! {

/// An identifier without its SSA version; other expressions as they are.
pub open spec fn unversioned(e: ExprV) -> ExprV {
    match e {
        ExprV::Identifier(id, _) => ExprV::Identifier(id, None),
        _ => e,
    }
}

/// Pops two expressions: the first popped, then the second, with the state after.
pub open spec fn pop_two_m(m: MachineV) -> (Result<(ExprV, ExprV), ErrorV>, MachineV) {
    let (r1, m1) = pop_expr_m(m);
    match r1 {
        Err(k) => (Err(k), m1),
        Ok(a) => {
            let (r2, m2) = pop_expr_m(m1);
            match r2 {
                Err(k) => (Err(k), m2),
                Ok(b) => (Ok((a, b)), m2),
            }
        },
    }
}

/// Pushes an expression, handing back nothing.
pub open spec fn push_expr_m(m: MachineV, e: ExprV) -> (Result<ProcessedV, ErrorV>, MachineV) {
    let (r, m2) = push_m(m, AstV::Expression(e));
    match r {
        Err(k) => (Err(k), m2),
        Ok(_) => (Ok(nothing_processed()), m2),
    }
}

/// The instructions on two operands: a member access, an assignment (whose target, when an
/// identifier, gets a new SSA version), an element access, and an object creation (assigned
/// to a new SSA version of `new_node`).
pub open spec fn two_operand_step(m: MachineV, op: Opcode) -> (Result<ProcessedV, ErrorV>, MachineV) {
    if op == Opcode::AccessMember || op == Opcode::Assign || op == Opcode::ArrayAccess || op == Opcode::NewObject {
        let (r, m2) = pop_two_m(m);
        match r {
            Err(k) => (Err(k), m2),
            Ok((first, second)) => if op == Opcode::AccessMember {
                push_expr_m(m2, ExprV::MemberAccess(Box::new(unversioned(second)), Box::new(unversioned(first))))
            } else if op == Opcode::Assign {
                match second {
                    ExprV::Identifier(id, _) => {
                        let ver = m2.next_version;
                        (
                            Ok(ProcessedV {
                                node_to_push: Some(
                                    AstV::Statement(
                                        Seq::empty(),
                                        StmtV::Assignment(ExprV::Identifier(id, Some(ver.0)), first),
                                    ),
                                ),
                                ..nothing_processed()
                            }),
                            MachineV {
                                versions: version_set(m2.versions, id, ver),
                                next_version: SsaVersion((ver.0 + 1) as usize),
                                ..m2
                            },
                        )
                    },
                    _ => (
                        Ok(ProcessedV {
                            node_to_push: Some(AstV::Statement(Seq::empty(), StmtV::Assignment(second, first))),
                            ..nothing_processed()
                        }),
                        m2,
                    ),
                }
            } else if op == Opcode::ArrayAccess {
                push_expr_m(m2, ExprV::ArrayAccess(Box::new(second), Box::new(first)))
            } else {
                let ver = m2.next_version;
                let id = ExprV::Identifier("new_node"@, Some(ver.0));
                (
                    Ok(ProcessedV {
                        ssa_id: Some(id),
                        node_to_push: Some(
                            AstV::Statement(
                                Seq::empty(),
                                StmtV::Assignment(id, ExprV::New(Box::new(first), Box::new(second))),
                            ),
                        ),
                        ..nothing_processed()
                    }),
                    MachineV {
                        versions: version_set(m2.versions, "new_node"@, ver),
                        next_version: SsaVersion((ver.0 + 1) as usize),
                        ..m2
                    },
                )
            },
        }
    } else {
        (Err(ErrorV::UnimplementedOpcode(op)), m)
    }
}

/// An identifier without its SSA version; other expressions as they are.
fn strip_version(e: ExprKind) -> (r: ExprKind)
    ensures
        r@ == unversioned(e@),
{
    match e {
        ExprKind::Identifier(p) => {
            let node_id = p.node_id;
            let metadata = p.metadata;
            let inner = *p.ptr;
            ExprKind::Identifier(P { ptr: Box::new(IdentifierNode { id: inner.id, ssa_version: None }), node_id, metadata })
        },
        other => other,
    }
}

/// Handles the instructions on two operands.
pub struct SpecialTwoOperandHandler;

impl SpecialTwoOperandHandler {
    fn pop_two(context: &mut FunctionDecompilerContext) -> (r: Result<(ExprKind, ExprKind), FunctionDecompilerError>)
        requires
            handler_ready(*old(context)),
        ensures
            final(context).others_same(old(context)),
            final(context).machine() == pop_two_m(old(context).machine()).1,
            agrees(r, pop_two_m(old(context).machine()).0, |p: (ExprKind, ExprKind)| (p.0@, p.1@)),
    {
        let ghost c0 = *context;
        let first = match context.pop_expression() {
            Ok(e) => e,
            Err(e) => return Err(e),
        };
        let ghost c1 = *context;
        let second = match context.pop_expression() {
            Ok(e) => e,
            Err(e) => {
                proof {
                    lemma_others_same_trans(*context, c1, c0);
                }
                return Err(e);
            },
        };
        proof {
            lemma_others_same_trans(*context, c1, c0);
        }
        Ok((first, second))
    }

    fn push_expr(context: &mut FunctionDecompilerContext, e: ExprKind) -> (r: Result<ProcessedInstruction, FunctionDecompilerError>)
        requires
            old(context).current_pos() is Some,
        ensures
            final(context).others_same(old(context)),
            final(context).machine() == push_expr_m(old(context).machine(), e@).1,
            agrees(r, push_expr_m(old(context).machine(), e@).0, |p: ProcessedInstruction| p@),
    {
        match context.push_one_node(e.into_ast()) {
            Ok(()) => Ok(ProcessedInstructionBuilder::new().build()),
            Err(err) => Err(err),
        }
    }

    /// Builds the member access, assignment, element access or object creation of the two
    /// popped operands.
    pub fn handle_instruction(&self, context: &mut FunctionDecompilerContext, instruction: &Instruction) -> (r: Result<
        ProcessedInstruction,
        FunctionDecompilerError,
    >)
        requires
            handler_ready(*old(context)),
        ensures
            final(context).others_same(old(context)),
            final(context).machine() == two_operand_step(old(context).machine(), instruction.opcode).1,
            agrees(r, two_operand_step(old(context).machine(), instruction.opcode).0, |p: ProcessedInstruction| p@),
    {
        let op = instruction.opcode;
        if !(op == Opcode::AccessMember || op == Opcode::Assign || op == Opcode::ArrayAccess || op == Opcode::NewObject) {
            proof {
                assert(context.others_same(context));
            }
            return Err(FunctionDecompilerError::UnimplementedOpcode { opcode: op });
        }
        let ghost c0 = *context;
        let (first, second) = match Self::pop_two(context) {
            Ok(p) => p,
            Err(e) => return Err(e),
        };
        let ghost c1 = *context;
        if op == Opcode::AccessMember {
            let lhs = strip_version(second);
            let rhs = strip_version(first);
            let access = match new_member_access(lhs, rhs) {
                Ok(p) => p,
                Err(e) => return Err(FunctionDecompilerError::AstNodeError { source: e }),
            };
            let r = Self::push_expr(context, access.into_expr());
            proof {
                lemma_others_same_trans(*context, c1, c0);
            }
            r
        } else if op == Opcode::Assign {
            let lhs = match second {
                ExprKind::Identifier(p) => {
                    let node_id = p.node_id;
                    let metadata = p.metadata;
                    let inner = *p.ptr;
                    let ver = context.ssa_context.new_ssa_version_for(inner.id.as_str());
                    ExprKind::Identifier(P {
                        ptr: Box::new(IdentifierNode { id: inner.id, ssa_version: Some(ver) }),
                        node_id,
                        metadata,
                    })
                },
                other => other,
            };
            let stmt = new_assignment(lhs, first);
            Ok(ProcessedInstructionBuilder::new().push_to_region(stmt.into_ast()).build())
        } else if op == Opcode::ArrayAccess {
            let access = new_array_access(second, first);
            let r = Self::push_expr(context, access.into_expr());
            proof {
                lemma_others_same_trans(*context, c1, c0);
            }
            r
        } else {
            let node = match new_new(first, second) {
                Ok(p) => p,
                Err(e) => return Err(FunctionDecompilerError::AstNodeError { source: e }),
            };
            let ver = context.ssa_context.new_ssa_version_for("new_node");
            let ssa_id = new_id_with_version("new_node", ver);
            let stmt = new_assignment(ssa_id.clone(), node);
            Ok(ProcessedInstructionBuilder::new().ssa_id(ssa_id.into_expr()).push_to_region(stmt.into_ast()).build())
        }
    }
}

} // verus!
