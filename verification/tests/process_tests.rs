use gbf_core::basic_block::{BasicBlockId, BasicBlockType};
use gbf_core::decompiler::ast::convert::{IntoAst, IntoExpr};
use gbf_core::decompiler::ast::visitors::emit_context::EmitContext;
use gbf_core::decompiler::ast::visitors::emitter::Gs2Emitter;
use gbf_core::decompiler::ast::visitors::AstVisitor;
use gbf_core::decompiler::ast::{emit, new_assignment, new_id, new_num};
use gbf_core::decompiler::function_decompiler_context::{
    FunctionDecompilerContext, FunctionDecompilerError,
};
use gbf_core::decompiler::handlers::{handler_for, OpcodeHandlerKind};
use gbf_core::instruction::Instruction;
use gbf_core::opcode::Opcode;
use gbf_core::operand::Operand;

fn context() -> FunctionDecompilerContext {
    let block = BasicBlockId::new(0, BasicBlockType::Normal, 0);
    let mut ctx = FunctionDecompilerContext::new(block);
    ctx.start_block_processing(block).unwrap();
    ctx
}

#[test]
fn processing_pushes_the_ssa_identifier() {
    let mut ctx = context();
    let instr = Instruction::new_with_operand(Opcode::PushNumber, 3, Operand::Number(5));
    let processed = ctx.process_instruction(&instr).unwrap();
    assert!(processed.node_to_push.is_some());
    assert_eq!(ctx.current_instruction, instr);
    let mut emitter = Gs2Emitter::new(EmitContext::builder().include_ssa_versions(true).build());
    assert_eq!(emitter.visit_expr(&ctx.pop_expression().unwrap()), "lit@0");
}

#[test]
fn processing_without_a_handler_fails() {
    assert_eq!(handler_for(Opcode::Pop), None);
    assert_eq!(handler_for(Opcode::Subtract), Some(OpcodeHandlerKind::BinaryOperation));
    assert_eq!(handler_for(Opcode::ShortCircuitAnd), Some(OpcodeHandlerKind::ShortCircuit));
    assert_eq!(handler_for(Opcode::PushString), Some(OpcodeHandlerKind::Literal));
    let mut ctx = context();
    assert!(matches!(
        ctx.process_instruction(&Instruction::new(Opcode::Pop, 0)),
        Err(FunctionDecompilerError::UnimplementedOpcode { opcode: Opcode::Pop })
    ));
    let processed = ctx
        .process_instruction(&Instruction::new(Opcode::Jmp, 1))
        .unwrap();
    assert!(processed.ssa_id.is_none());
}

#[test]
fn swap_exchanges_two_standalone_nodes() {
    let mut ctx = context();
    ctx.push_one_node(new_id("a").into_ast()).unwrap();
    ctx.push_one_node(new_id("b").into_ast()).unwrap();
    ctx.process_instruction(&Instruction::new(Opcode::Swap, 0)).unwrap();
    assert_eq!(emit(ctx.pop_expression().unwrap()), "a");
    assert_eq!(emit(ctx.pop_expression().unwrap()), "b");
}

#[test]
fn swap_joins_a_node_to_the_array_on_top() {
    let mut ctx = context();
    ctx.push_one_node(new_id("x").into_ast()).unwrap();
    ctx.process_instruction(&Instruction::new(Opcode::PushArray, 0)).unwrap();
    ctx.push_one_node(new_id("a").into_ast()).unwrap();
    ctx.process_instruction(&Instruction::new(Opcode::Swap, 1)).unwrap();
    let array = ctx.pop_building_array().unwrap();
    assert_eq!(emit(array.into_expr()), "{x, a}");
}

#[test]
fn swap_refuses_a_statement_below_an_array() {
    let mut ctx = context();
    ctx.push_one_node(new_assignment(new_id("x"), new_num(1)).into_ast()).unwrap();
    ctx.process_instruction(&Instruction::new(Opcode::PushArray, 0)).unwrap();
    assert!(matches!(
        ctx.process_instruction(&Instruction::new(Opcode::Swap, 1)),
        Err(FunctionDecompilerError::UnexpectedNodeType { .. })
    ));
}

#[test]
fn swapping_twice_restores_the_stack() {
    let mut ctx = context();
    ctx.push_one_node(new_id("a").into_ast()).unwrap();
    ctx.push_one_node(new_id("b").into_ast()).unwrap();
    ctx.process_instruction(&Instruction::new(Opcode::Swap, 0)).unwrap();
    ctx.process_instruction(&Instruction::new(Opcode::Swap, 1)).unwrap();
    assert_eq!(emit(ctx.pop_expression().unwrap()), "b");
    assert_eq!(emit(ctx.pop_expression().unwrap()), "a");
}

#[test]
fn a_new_array_popped_at_once_is_empty() {
    let mut ctx = context();
    ctx.push_one_node(new_id("a").into_ast()).unwrap();
    ctx.process_instruction(&Instruction::new(Opcode::PushArray, 0)).unwrap();
    let array = ctx.pop_building_array().unwrap();
    assert_eq!(emit(array.into_expr()), "{}");
    assert_eq!(emit(ctx.pop_expression().unwrap()), "a");
}
