use gbf_core::basic_block::{BasicBlockId, BasicBlockType};
use gbf_core::consts::ExitCode;
use gbf_core::decompiler::ast::array_kind::ArrayKind;
use gbf_core::decompiler::ast::convert::{IntoAst, IntoExpr};
use gbf_core::decompiler::ast::expr::ExprKind;
use gbf_core::decompiler::ast::meta::Metadata;
use gbf_core::decompiler::ast::ssa::{SsaContext, SsaVersion};
use gbf_core::decompiler::ast::{emit, new_assignment, new_id, new_num, AstKind};
use gbf_core::decompiler::execution_frame::ExecutionFrame;
use gbf_core::decompiler::function_decompiler_context::{
    FunctionDecompilerContext, FunctionDecompilerError,
};

fn block(index: usize) -> BasicBlockId {
    BasicBlockId::new(index, BasicBlockType::Normal, index * 10)
}

fn context() -> FunctionDecompilerContext {
    let mut ctx = FunctionDecompilerContext::new(block(0));
    ctx.start_block_processing(block(0)).unwrap();
    ctx
}

#[test]
fn push_then_pop_gives_the_node_back() {
    let mut ctx = context();
    ctx.push_one_node(new_id("a").into_ast()).unwrap();
    ctx.push_one_node(new_num(3).into_ast()).unwrap();
    assert_eq!(ctx.pop_one_node().unwrap(), new_num(3).into_ast());
    assert_eq!(ctx.pop_one_node().unwrap(), new_id("a").into_ast());
    assert!(ctx.get_stack(&block(0)).unwrap().is_empty());
}

#[test]
fn empty_stack_gives_numbered_phi_nodes() {
    let mut ctx = context();
    let first = ctx.pop_expression().unwrap();
    let second = ctx.pop_expression().unwrap();
    assert_eq!(emit(first), "phi_0");
    assert_eq!(emit(second), "phi_1");

    ctx.start_block_processing(block(1)).unwrap();
    let other = ctx.pop_expression().unwrap();
    assert_eq!(emit(other), "phi_0");
}

#[test]
fn arrays_collect_pushed_expressions() {
    let mut ctx = context();
    ctx.block_ast_node_stack[0].1.push(ExecutionFrame::BuildingArray(Vec::new()));
    ctx.push_one_node(new_num(1).into_ast()).unwrap();
    ctx.push_one_node(new_num(2).into_ast()).unwrap();
    let statement = new_assignment(new_id("x"), new_num(1)).into_ast();
    assert!(matches!(
        ctx.push_one_node(statement),
        Err(FunctionDecompilerError::UnexpectedNodeType { .. })
    ));
    let array = ctx.pop_building_array().unwrap();
    assert!(matches!(array, ArrayKind::MergedArray(_)));
    assert_eq!(emit(array.into_expr()), "{2, 1}");
    assert!(ctx.get_stack(&block(0)).unwrap().is_empty());
}

#[test]
fn standalone_expressions_make_a_phi_array() {
    let mut ctx = context();
    ctx.push_one_node(new_id("a").into_ast()).unwrap();
    ctx.push_one_node(new_id("b").into_ast()).unwrap();
    let array = ctx.pop_building_array().unwrap();
    assert!(matches!(array, ArrayKind::PhiArray(_)));
    assert_eq!(emit(array.into_expr()), "{b, a}");
    let empty = ctx.pop_building_array().unwrap();
    assert!(matches!(empty, ArrayKind::PhiArray(_)));
    assert_eq!(emit(empty.into_expr()), "{}");
}

#[test]
fn popping_a_statement_as_expression_fails() {
    let mut ctx = context();
    ctx.push_one_node(new_assignment(new_id("x"), new_num(1)).into_ast()).unwrap();
    assert!(matches!(
        ctx.pop_expression(),
        Err(FunctionDecompilerError::UnexpectedNodeType { .. })
    ));
    ctx.push_one_node(new_num(4).into_ast()).unwrap();
    assert!(ctx.pop_identifier().is_err());
    ctx.push_one_node(new_id("v").into_ast()).unwrap();
    assert_eq!(ctx.pop_identifier().unwrap().as_str(), "v");
}

#[test]
fn error_context_copies_the_stack() {
    let mut ctx = context();
    ctx.push_one_node(new_id("a").into_ast()).unwrap();
    let error_context = ctx.get_error_context();
    assert_eq!(error_context.current_block_id, block(0));
    assert_eq!(error_context.current_ast_node_stack.len(), 1);
    assert_eq!(
        error_context.current_ast_node_stack[0],
        ExecutionFrame::StandaloneNode(AstKind::Expression(ExprKind::Identifier(new_id("a"))))
    );
}

#[test]
fn new_phi_counts_per_block() {
    let mut ctx = context();
    assert_eq!(ctx.new_phi().idx, 0);
    assert_eq!(ctx.new_phi().idx, 1);
    ctx.start_block_processing(block(2)).unwrap();
    assert_eq!(ctx.new_phi().idx, 0);
}

#[test]
fn ssa_versions_read_back() {
    let mut ssa = SsaContext::new();
    let x0 = ssa.new_ssa_version_for("x");
    let y0 = ssa.new_ssa_version_for("y");
    let x1 = ssa.new_ssa_version_for("x");
    assert_eq!(x0, SsaVersion(0));
    assert_eq!(y0, SsaVersion(1));
    assert_eq!(x1, SsaVersion(2));
    assert_eq!(ssa.current_version_of("x"), Some(SsaVersion(2)));
    assert_eq!(ssa.current_version_of("y"), Some(SsaVersion(1)));
    assert_eq!(ssa.current_version_of("z"), None);
    assert_eq!(ssa.current_version_of_or_new("y"), SsaVersion(1));
    assert_eq!(ssa.current_version_of_or_new("z"), SsaVersion(3));
}

#[test]
fn properties_read_back_the_last_value() {
    let mut metadata = Metadata::default();
    metadata.add_property("k".to_string(), "1".to_string());
    metadata.add_property("other".to_string(), "x".to_string());
    metadata.add_property("k".to_string(), "2".to_string());
    assert_eq!(metadata.get_property("k"), Some(&"2".to_string()));
    assert_eq!(metadata.get_property("other"), Some(&"x".to_string()));
    assert_eq!(metadata.get_property("none"), None);
    assert_eq!(metadata.properties().len(), 2);
}

#[test]
fn exit_codes_are_numbered_in_order() {
    use_exit_codes();
}

fn use_exit_codes() {
    let codes = [
        ExitCode::Success,
        ExitCode::EnvVarNotFound,
        ExitCode::InvalidDir,
        ExitCode::FileReadError,
        ExitCode::UnexpectedError,
    ];
    for (i, code) in codes.iter().enumerate() {
        assert_eq!(i32::from(*code), i as i32);
    }
}

#[test]
fn asking_twice_for_a_version_gives_the_same() {
    let mut ssa = SsaContext::new();
    ssa.new_ssa_version_for("a");
    let first = ssa.current_version_of_or_new("x");
    assert_eq!(first, SsaVersion(1));
    let second = ssa.current_version_of_or_new("x");
    assert_eq!(second, first);
    assert_eq!(ssa.new_ssa_version_for("y"), SsaVersion(2));
}

#[test]
fn refusals_name_the_kind_expected() {
    let mut ctx = context();
    ctx.block_ast_node_stack[0].1.push(ExecutionFrame::BuildingArray(Vec::new()));
    let statement = new_assignment(new_id("x"), new_num(1)).into_ast();
    match ctx.push_one_node(statement) {
        Err(FunctionDecompilerError::UnexpectedNodeType { expected }) => assert_eq!(expected, "Expression"),
        _ => panic!("the array should refuse a statement"),
    }
    let mut ctx = context();
    ctx.push_one_node(new_num(1).into_ast()).unwrap();
    match ctx.pop_identifier() {
        Err(FunctionDecompilerError::UnexpectedNodeType { expected }) => assert_eq!(expected, "Identifier"),
        _ => panic!("a number is no identifier"),
    }
}
