use gbf_core::basic_block::{BasicBlockId, BasicBlockType};
use gbf_core::decompiler::ast::convert::IntoAst;
use gbf_core::decompiler::ast::visitors::emit_context::EmitContext;
use gbf_core::decompiler::ast::visitors::emitter::Gs2Emitter;
use gbf_core::decompiler::ast::visitors::AstVisitor;
use gbf_core::decompiler::ast::{emit, new_id, new_num, new_str};
use gbf_core::decompiler::execution_frame::ExecutionFrame;
use gbf_core::decompiler::function_decompiler_context::{
    FunctionDecompilerContext, FunctionDecompilerError,
};
use gbf_core::decompiler::handlers::bin_op::BinaryOperationHandler;
use gbf_core::decompiler::handlers::jump::JumpHandler;
use gbf_core::decompiler::handlers::literal::LiteralHandler;
use gbf_core::decompiler::handlers::nop::NopHandler;
use gbf_core::decompiler::handlers::short_circuit::ShortCircuitHandler;
use gbf_core::decompiler::handlers::special_two_operand::SpecialTwoOperandHandler;
use gbf_core::decompiler::handlers::un_op::UnaryOperationHandler;
use gbf_core::decompiler::handlers::variable_operand::VariableOperandHandler;
use gbf_core::instruction::Instruction;
use gbf_core::opcode::Opcode;
use gbf_core::operand::Operand;

fn context() -> FunctionDecompilerContext {
    let block = BasicBlockId::new(0, BasicBlockType::Normal, 0);
    let mut ctx = FunctionDecompilerContext::new(block);
    ctx.start_block_processing(block).unwrap();
    ctx
}

fn with_ssa() -> Gs2Emitter {
    Gs2Emitter::new(EmitContext::builder().include_ssa_versions(true).build())
}

#[test]
fn binary_operation_pops_two_and_pushes_one() {
    let mut ctx = context();
    ctx.push_one_node(new_id("a").into_ast()).unwrap();
    ctx.push_one_node(new_id("b").into_ast()).unwrap();
    let processed = BinaryOperationHandler
        .handle_instruction(&mut ctx, &Instruction::new(Opcode::Subtract, 0))
        .unwrap();
    assert!(processed.node_to_push.is_none());
    assert_eq!(emit(ctx.pop_expression().unwrap()), "a - b");
    assert!(matches!(
        BinaryOperationHandler.handle_instruction(&mut ctx, &Instruction::new(Opcode::Pop, 0)),
        Err(FunctionDecompilerError::UnimplementedOpcode { opcode: Opcode::Pop })
    ));
}

#[test]
fn unary_operation_negates() {
    let mut ctx = context();
    ctx.push_one_node(new_id("a").into_ast()).unwrap();
    UnaryOperationHandler
        .handle_instruction(&mut ctx, &Instruction::new(Opcode::UnarySubtract, 0))
        .unwrap();
    assert_eq!(emit(ctx.pop_expression().unwrap()), "-a");

    ctx.push_one_node(new_str("s").into_ast()).unwrap();
    assert!(matches!(
        UnaryOperationHandler.handle_instruction(&mut ctx, &Instruction::new(Opcode::LogicalNot, 0)),
        Err(FunctionDecompilerError::AstNodeError { .. })
    ));
}

#[test]
fn literals_are_assigned_to_ssa_versions() {
    let mut ctx = context();
    let processed = LiteralHandler
        .handle_instruction(
            &mut ctx,
            &Instruction::new_with_operand(Opcode::PushNumber, 0, Operand::Number(5)),
        )
        .unwrap();
    let mut emitter = with_ssa();
    assert_eq!(emitter.visit_node(processed.node_to_push.as_ref().unwrap()), "lit@0 = 5;");
    assert_eq!(emitter.visit_expr(processed.ssa_id.as_ref().unwrap()), "lit@0");

    let processed = LiteralHandler
        .handle_instruction(&mut ctx, &Instruction::new(Opcode::PushTrue, 1))
        .unwrap();
    assert_eq!(emitter.visit_node(processed.node_to_push.as_ref().unwrap()), "lit@1 = true;");

    assert!(matches!(
        LiteralHandler.handle_instruction(&mut ctx, &Instruction::new(Opcode::PushString, 2)),
        Err(FunctionDecompilerError::InstructionMustHaveOperand { opcode: Opcode::PushString })
    ));
    assert!(matches!(
        LiteralHandler.handle_instruction(
            &mut ctx,
            &Instruction::new_with_operand(Opcode::PushString, 3, Operand::Number(1))
        ),
        Err(FunctionDecompilerError::OperandError { .. })
    ));
}

#[test]
fn jumps_hand_back_their_conditions() {
    let mut ctx = context();
    ctx.push_one_node(new_id("c").into_ast()).unwrap();
    let processed = JumpHandler.handle_instruction(&mut ctx, &Instruction::new(Opcode::Jeq, 0)).unwrap();
    assert_eq!(emit(processed.jump_condition.unwrap()), "!c");

    ctx.push_one_node(new_id("d").into_ast()).unwrap();
    let processed = JumpHandler.handle_instruction(&mut ctx, &Instruction::new(Opcode::Jne, 1)).unwrap();
    assert_eq!(emit(processed.jump_condition.unwrap()), "d");

    ctx.push_one_node(new_id("arr").into_ast()).unwrap();
    ctx.push_one_node(new_id("x").into_ast()).unwrap();
    let processed = JumpHandler.handle_instruction(&mut ctx, &Instruction::new(Opcode::ForEach, 2)).unwrap();
    assert_eq!(emit(processed.jump_condition.unwrap()), "x : arr");
    assert_eq!(ctx.get_stack(&ctx.current_block_id).unwrap().len(), 2);
}

#[test]
fn short_circuit_keeps_the_condition() {
    let mut ctx = context();
    ctx.push_one_node(new_id("c").into_ast()).unwrap();
    let processed = ShortCircuitHandler
        .handle_instruction(&mut ctx, &Instruction::new(Opcode::ShortCircuitAnd, 0))
        .unwrap();
    assert_eq!(emit(processed.jump_condition.unwrap()), "c");
    assert_eq!(emit(ctx.pop_expression().unwrap()), "c");
}

#[test]
fn assignments_version_their_targets() {
    let mut ctx = context();
    ctx.push_one_node(new_id("x").into_ast()).unwrap();
    ctx.push_one_node(new_num(5).into_ast()).unwrap();
    let processed = SpecialTwoOperandHandler
        .handle_instruction(&mut ctx, &Instruction::new(Opcode::Assign, 0))
        .unwrap();
    let mut emitter = with_ssa();
    assert_eq!(emitter.visit_node(processed.node_to_push.as_ref().unwrap()), "x@0 = 5;");

    ctx.push_one_node(new_id("player").into_ast()).unwrap();
    ctx.push_one_node(new_id("chat").into_ast()).unwrap();
    SpecialTwoOperandHandler
        .handle_instruction(&mut ctx, &Instruction::new(Opcode::AccessMember, 1))
        .unwrap();
    assert_eq!(emit(ctx.pop_expression().unwrap()), "player.chat");

    ctx.push_one_node(new_id("arr").into_ast()).unwrap();
    ctx.push_one_node(new_num(2).into_ast()).unwrap();
    SpecialTwoOperandHandler
        .handle_instruction(&mut ctx, &Instruction::new(Opcode::ArrayAccess, 2))
        .unwrap();
    assert_eq!(emit(ctx.pop_expression().unwrap()), "arr[2]");
}

#[test]
fn calls_are_built_from_arrays() {
    let mut ctx = context();
    ctx.block_ast_node_stack[0].1.push(ExecutionFrame::BuildingArray(Vec::new()));
    ctx.push_one_node(new_id("b").into_ast()).unwrap();
    ctx.push_one_node(new_id("a").into_ast()).unwrap();
    ctx.push_one_node(new_id("f").into_ast()).unwrap();
    let processed = VariableOperandHandler
        .handle_instruction(&mut ctx, &Instruction::new(Opcode::Call, 0))
        .unwrap();
    let mut emitter = with_ssa();
    assert_eq!(emitter.visit_node(processed.node_to_push.as_ref().unwrap()), "fn_call@0 = f(a, b);");

    ctx.block_ast_node_stack[0].1.push(ExecutionFrame::BuildingArray(Vec::new()));
    ctx.push_one_node(new_num(2).into_ast()).unwrap();
    ctx.push_one_node(new_num(1).into_ast()).unwrap();
    VariableOperandHandler
        .handle_instruction(&mut ctx, &Instruction::new(Opcode::EndArray, 1))
        .unwrap();
    assert_eq!(emit(ctx.pop_expression().unwrap()), "{1, 2}");
}

#[test]
fn nop_changes_nothing() {
    let mut ctx = context();
    ctx.push_one_node(new_id("a").into_ast()).unwrap();
    let processed = NopHandler.handle_instruction(&mut ctx, &Instruction::new(Opcode::Pop, 0)).unwrap();
    assert!(processed.ssa_id.is_none());
    assert_eq!(ctx.get_stack(&ctx.current_block_id).unwrap().len(), 1);
}

#[test]
fn push_number_refuses_a_string_operand_and_shows_it() {
    let mut ctx = context();
    let instr = Instruction::new_with_operand(Opcode::PushNumber, 0, Operand::new_string("a\"b"));
    match LiteralHandler.handle_instruction(&mut ctx, &instr) {
        Err(FunctionDecompilerError::Other { message }) => {
            assert_eq!(message, "Invalid operand type for PushNumber: String(\"a\\\"b\")");
            assert_eq!(message, format!("Invalid operand type for PushNumber: {:?}", Operand::new_string("a\"b")));
        }
        _ => panic!("a string is no number"),
    }
}
