use gbf_core::decompiler::ast::bin_op::BinOpType;
use gbf_core::decompiler::ast::visitors::emit_context::EmitContext;
use gbf_core::decompiler::ast::visitors::emitter::Gs2Emitter;
use gbf_core::decompiler::ast::visitors::AstVisitor;
use gbf_core::decompiler::ast::{
    new_assignment, new_bin_op, new_id, new_if, new_num, new_return, new_str, new_virtual_branch,
    AstNodeError,
};
use gbf_core::decompiler::structure_analysis::region::RegionId;

#[test]
fn visitor_emits_each_kind_of_node() -> Result<(), AstNodeError> {
    let mut emitter = Gs2Emitter::new(EmitContext::default());
    let sum = new_bin_op(new_id("a"), new_num(2), BinOpType::Add)?;
    assert_eq!(emitter.visit_bin_op(&sum), "a + 2");
    assert_eq!(emitter.visit_identifier(&new_id("foo")), "foo");
    assert_eq!(emitter.visit_literal(&new_num(7)), "7");
    assert_eq!(emitter.visit_literal(&new_str("hi")), "\"hi\"");
    assert_eq!(emitter.visit_assignment(&new_assignment(new_id("x"), new_num(1))), "x = 1;");
    assert_eq!(emitter.visit_return(&new_return(new_id("x"))), "return x;");
    assert_eq!(emitter.visit_virtual_branch(&new_virtual_branch(RegionId::new(3))), "goto RegionId(3);");
    let branch = new_if(new_id("c"), vec![new_assignment(new_id("x"), new_num(1))]);
    assert_eq!(emitter.visit_control_flow(&branch), "if (c) \n{\n    x = 1;\n}");
    Ok(())
}
