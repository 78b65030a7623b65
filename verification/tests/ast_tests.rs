use gbf_core::decompiler::ast::array_node::ArrayNode;
use gbf_core::decompiler::ast::assignment::AssignmentNode;
use gbf_core::decompiler::ast::bin_op::BinOpType;
use gbf_core::decompiler::ast::block::BlockNode;
use gbf_core::decompiler::ast::control_flow::{ControlFlowNode, ControlFlowType};
use gbf_core::decompiler::ast::convert::IntoExpr;
use gbf_core::decompiler::ast::expr::ExprKind;
use gbf_core::decompiler::ast::meta::Metadata;
use gbf_core::decompiler::ast::ptr::P;
use gbf_core::decompiler::ast::ssa::SsaVersion;
use gbf_core::decompiler::ast::unary_op::UnaryOpType;
use gbf_core::decompiler::ast::{
    emit, new_acylic_condition, new_array, new_array_access, new_assignment, new_bin_op, new_bool,
    new_cyclic_condition, new_do_while, new_else, new_float, new_fn, new_id, new_id_with_version,
    new_if, new_member_access, new_null, new_num, new_return, new_str, new_unary_op,
    new_virtual_branch, AstNodeError,
};
use gbf_core::decompiler::structure_analysis::region::RegionId;
use gbf_core::opcode::Opcode;

#[test]
fn test_array_access_node() {
    let arr = new_id("arr");
    let index = new_num(5);
    let array_access = new_array_access(arr.clone(), index.clone());
    let array_access_two = new_array_access(arr, index);
    assert_eq!(array_access, array_access_two);
}

#[test]
fn test_array_access_node_emit() {
    let arr = new_id("arr");
    let index = new_num(5);
    let array_access = new_array_access(arr, index);
    assert_eq!(emit(array_access), "arr[5]");
}

#[test]
fn test_array_node() {
    let array = new_array(vec![new_num(5), new_num(6)]);
    let array_two = new_array(vec![new_num(5), new_num(6)]);
    assert_eq!(array, array_two);
}

#[test]
fn test_array_node_emit() {
    let array = new_array(vec![new_num(5), new_num(6)]);
    assert_eq!(emit(array), "{5, 6}");
}

#[test]
fn test_array_node_emit_str() {
    let array = new_array(vec![new_str("hello"), new_str("world")]);
    assert_eq!(emit(array), r#"{"hello", "world"}"#);
}

#[test]
fn test_statement_emit() -> Result<(), AstNodeError> {
    let stmt = new_assignment(new_id("test1"), new_id("test2"));
    assert_eq!(emit(stmt), "test1 = test2;");

    let stmt = new_assignment(
        new_member_access(new_id("player"), new_id("chat"))?,
        new_str("Hello, world!"),
    );
    assert_eq!(emit(stmt), "player.chat = \"Hello, world!\";");
    Ok(())
}

#[test]
fn test_bin_op_emit() -> Result<(), AstNodeError> {
    for op_type in BinOpType::all_variants() {
        let expr = new_bin_op(new_id("a"), new_id("b"), op_type.clone())?;
        assert_eq!(emit(expr), format!("a {} b", op_type.as_str()));
    }
    Ok(())
}

#[test]
fn test_nested_bin_op_emit() -> Result<(), AstNodeError> {
    let expr = new_bin_op(
        new_bin_op(new_id("a"), new_id("b"), BinOpType::Add)?,
        new_id("c"),
        BinOpType::Mul,
    )?;
    assert_eq!(emit(expr), "(a + b) * c");
    Ok(())
}

#[test]
fn test_bin_op_eq() -> Result<(), AstNodeError> {
    let a = new_bin_op(new_id("a"), new_id("b"), BinOpType::Add)?;
    let b = new_bin_op(new_id("a"), new_id("b"), BinOpType::Add)?;
    let c = new_bin_op(new_id("a"), new_id("b"), BinOpType::Sub)?;
    let d = new_bin_op(new_id("a"), new_id("c"), BinOpType::Add)?;

    assert_eq!(a, b);
    assert_ne!(a, c);
    assert_ne!(a, d);
    Ok(())
}

#[test]
fn test_block_node() {
    let stmt_1 = new_assignment(new_id("foo"), new_id("bar"));
    let stmt_2 = new_assignment(new_id("baz"), new_float("3.14"));
    let block = BlockNode::new(vec![stmt_1, stmt_2]);
    assert_eq!(block.instructions.len(), 2);
}

#[test]
fn test_block_emit() {
    let stmt_1 = new_assignment(new_id("foo"), new_id("bar"));
    let stmt_2 = new_assignment(new_id("baz"), new_float("3.14"));
    let block = BlockNode::new(vec![stmt_1, stmt_2]);
    let output = emit(block);
    assert_eq!(output, "\n{\n    foo = bar;\n    baz = 3.14;\n}");
}

#[test]
fn test_control_flow_node() -> Result<(), AstNodeError> {
    let condition = new_member_access(new_id("foo"), new_id("bar"))?;
    let condition = new_bin_op(condition, new_str("baz"), BinOpType::Equal)?;
    let body = BlockNode::new(vec![new_return(new_num(1))]);
    let control_flow = ControlFlowNode::new(ControlFlowType::If, Some(condition), vec![body]);
    assert_eq!(control_flow.ty(), &ControlFlowType::If);
    assert!(control_flow.condition().is_some());
    assert_eq!(control_flow.body().instructions.len(), 1);
    Ok(())
}

#[test]
fn test_control_flow_node_emit() -> Result<(), AstNodeError> {
    let condition = new_member_access(new_id("foo"), new_id("bar"))?;
    let condition = new_bin_op(condition, new_str("baz"), BinOpType::Equal)?;
    let body = vec![new_return(new_num(1))];
    let control_flow = ControlFlowNode::new(ControlFlowType::If, Some(condition), body);
    let function = new_fn(
        Some("onCreated".to_string()),
        vec![new_id("test")],
        vec![control_flow],
    );
    let output = emit(function);
    assert_eq!(
        output,
        "function onCreated(test)\n{\n    if (foo.bar == \"baz\") \n    {\n        return 1;\n    }\n}"
    );
    Ok(())
}

#[test]
fn test_control_flow_else_emit() -> Result<(), AstNodeError> {
    let condition = new_member_access(new_id("foo"), new_id("bar"))?;
    let condition = new_bin_op(condition, new_str("baz"), BinOpType::Equal)?;
    let body = vec![new_return(new_num(1))];
    let else_body = vec![new_return(new_num(2))];
    let control_flow = ControlFlowNode::new(ControlFlowType::If, Some(condition), body);
    let else_control_flow = ControlFlowNode::new(ControlFlowType::Else, None::<ExprKind>, else_body);
    let function = new_fn(
        Some("onCreated".to_string()),
        vec![new_id("test")],
        vec![control_flow, else_control_flow],
    );
    let output = emit(function);
    assert_eq!(
        output,
        "function onCreated(test)\n{\n    if (foo.bar == \"baz\") \n    {\n        return 1;\n    }\n    else\n    {\n        return 2;\n    }\n}"
    );
    Ok(())
}

#[test]
fn test_identifier_emit() {
    let id = new_id("test");
    assert_eq!(emit(id), "test");
}

#[test]
fn test_identifier_equality() {
    let id1 = new_id("test");
    let id2 = new_id("test");
    assert_eq!(id1, id2);

    let id3 = new_id("test2");
    assert_ne!(id1, id3);
}

#[test]
fn test_literal_emit() {
    let string = new_str("str");
    assert_eq!(emit(string), "\"str\"");

    let number = new_num(42);
    assert_eq!(emit(number), "42");

    let float = new_float("3.14");
    assert_eq!(emit(float), "3.14");

    let boolean = new_bool(true);
    assert_eq!(emit(boolean), "true");
}

#[test]
fn test_literal_equalities() {
    let string = new_str("str");
    let number = new_num(42);
    let float = new_float("3.14");
    let boolean = new_bool(true);

    assert_eq!(string, new_str("str"));
    assert_ne!(string, number);
    assert_ne!(string, float);
    assert_ne!(string, boolean);

    assert_ne!(number, string);
    assert_eq!(number, new_num(42));
    assert_ne!(number, float);
    assert_ne!(number, boolean);

    assert_ne!(float, string);
    assert_ne!(float, number);
    assert_eq!(float, new_float("3.14"));
    assert_ne!(float, boolean);

    assert_ne!(boolean, string);
    assert_ne!(boolean, number);
    assert_ne!(boolean, float);
    assert_eq!(boolean, new_bool(true));
}

#[test]
fn test_metadata() {
    let mut metadata = Metadata::default();
    metadata.add_comment("This is a comment".to_string());
    metadata.add_property("key".to_string(), "value".to_string());

    assert_eq!(metadata.comments(), &vec!["This is a comment".to_string()]);
    assert_eq!(metadata.get_property("key"), Some(&"value".to_string()));
}

#[test]
fn test_attach_metadata() {
    let mut stmt: P<AssignmentNode> = new_assignment(new_id("foo"), new_id("bar")).into();
    stmt.metadata_mut().add_comment("This is a comment".to_string());

    let if_node = new_if(new_id("test"), vec![stmt]);

    let emitted = emit(if_node);
    assert_eq!(emitted, "if (test) \n{\n    // This is a comment\n    foo = bar;\n}");
}

#[test]
fn test_return_node() {
    let ret = new_return(new_num(5));
    assert_eq!(ret.ret, new_return(new_num(5)).ret);
}

#[test]
fn test_emit() {
    let ret = new_return(new_num(5));
    assert_eq!(emit(ret), "return 5;");
}

#[test]
fn test_equality() {
    let ret = new_return(new_num(5));
    let ret2 = new_return(new_num(5));
    let ret3 = new_return(new_num(6));
    assert_eq!(ret, ret2);
    assert_ne!(ret, ret3);
}

#[test]
fn test_unary_op_emit() -> Result<(), AstNodeError> {
    for op_type in UnaryOpType::all_variants() {
        let expr = new_unary_op(new_id("a"), op_type.clone())?;
        assert_eq!(emit(expr), format!("{}a", op_type.as_str()));
    }
    Ok(())
}

#[test]
fn test_nested_unary_op_emit() -> Result<(), AstNodeError> {
    for op_type in UnaryOpType::all_variants() {
        let expr = new_unary_op(new_unary_op(new_id("a"), op_type.clone())?, op_type.clone())?;
        assert_eq!(emit(expr), format!("{}({}a)", op_type.as_str(), op_type.as_str()));
    }
    Ok(())
}

#[test]
fn test_unary_op_binary_operand() -> Result<(), AstNodeError> {
    let result = new_unary_op(
        new_bin_op(new_id("a"), new_id("b"), BinOpType::Add)?,
        UnaryOpType::Negate,
    )?;
    assert_eq!(emit(result), "-(a + b)");
    Ok(())
}

#[test]
fn test_unary_op_invalid_operand() {
    let result = new_unary_op(new_str("a"), UnaryOpType::Negate);
    assert!(result.is_err());
}

#[test]
fn test_unary_op_equality() -> Result<(), AstNodeError> {
    let unary1 = new_unary_op(new_id("a"), UnaryOpType::Negate)?;
    let unary2 = new_unary_op(new_id("a"), UnaryOpType::Negate)?;
    assert_eq!(unary1, unary2);

    let unary3 = new_unary_op(new_id("b"), UnaryOpType::Negate)?;
    assert_ne!(unary1, unary3);
    Ok(())
}

#[test]
fn emit_other_literals() {
    assert_eq!(emit(new_null()), "null");
    assert_eq!(emit(new_bool(false)), "false");
    assert_eq!(emit(new_num(-17)), "-17");
    assert_eq!(emit(new_num(0)), "0");
}

#[test]
fn emit_member_access_of_operation() -> Result<(), AstNodeError> {
    let sum = new_bin_op(new_id("a"), new_id("b"), BinOpType::Add)?;
    let access = new_member_access(sum, new_id("len"))?;
    assert_eq!(emit(access), "(a + b).len");
    Ok(())
}

#[test]
fn ssa_versions_hidden_by_default() {
    let id = new_id_with_version("x", SsaVersion(3));
    assert_eq!(emit(id), "x");
}

#[test]
fn else_and_do_while_emit() {
    let else_node = new_else(vec![new_return(new_num(2))]);
    assert_eq!(emit(else_node), "else\n{\n    return 2;\n}");

    let do_while = new_do_while(new_id("c"), vec![new_assignment(new_id("x"), new_num(1))]);
    assert_eq!(emit(do_while), "do\n{\n    x = 1;\n} while (c);");
}

#[test]
fn branch_conditions_follow_the_opcode() -> Result<(), AstNodeError> {
    let plain = new_acylic_condition(new_id("c"), vec![new_return(new_num(1))], Some(Opcode::Jeq))?;
    assert_eq!(emit(plain), "if (c) \n{\n    return 1;\n}");

    let negated = new_acylic_condition(new_id("c"), vec![new_return(new_num(1))], Some(Opcode::Jne))?;
    assert_eq!(emit(negated), "if (!c) \n{\n    return 1;\n}");

    let looped = new_cyclic_condition(new_id("c"), vec![new_return(new_num(1))], None)?;
    assert_eq!(emit(looped), "while (c) \n{\n    return 1;\n}");

    let refused = new_cyclic_condition(new_str("s"), vec![new_return(new_num(1))], Some(Opcode::Jne));
    assert_eq!(refused.err(), Some(AstNodeError::InvalidOperand));
    Ok(())
}

#[test]
fn virtual_branch_emit() {
    let branch = new_virtual_branch(RegionId::new(7));
    assert_eq!(emit(branch), "goto RegionId(7);");
}

#[test]
fn clones_are_equal() -> Result<(), AstNodeError> {
    let expr = new_bin_op(new_id("a"), new_num(2), BinOpType::Mul)?.into_expr();
    let copy = expr.clone();
    assert_eq!(expr, copy);
    let array: P<ArrayNode> = new_array(vec![new_id("x")]);
    assert_eq!(emit(array), "{x}");
    Ok(())
}
