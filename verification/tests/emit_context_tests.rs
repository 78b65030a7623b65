use gbf_core::decompiler::ast::visitors::emit_context::{EmitContext, EmitVerbosity, IndentStyle};

#[test]
fn test_emit_context_with_indent() {
    let context = EmitContext::default();
    let new_context = context.with_indent();
    assert_eq!(new_context.indent, 4);
}

#[test]
fn test_emit_context_scoped() {
    let mut context = EmitContext::default();
    let body_context = context.scoped(|ctx| ctx.with_indent());
    assert_eq!(body_context.indent, 4);
}

#[test]
fn test_builder_default_values() {
    let builder = EmitContext::builder();
    let context = builder.build();
    assert_eq!(context.indent, 0);
    assert_eq!(context.indent_step, 4);
    assert!(!context.format_number_hex);
    assert_eq!(context.verbosity, EmitVerbosity::Pretty);
    assert_eq!(context.indent_style, IndentStyle::Allman);
}

#[test]
fn test_builder_custom_values() {
    let context = EmitContext::builder()
        .indent(2)
        .indent_step(8)
        .format_number_hex(true)
        .verbosity(EmitVerbosity::Debug)
        .indent_style(IndentStyle::KAndR)
        .expr_root(true)
        .include_ssa_versions(true)
        .build();
    assert_eq!(context.indent, 2);
    assert_eq!(context.indent_step, 8);
    assert!(context.format_number_hex);
    assert_eq!(context.verbosity, EmitVerbosity::Debug);
    assert_eq!(context.indent_style, IndentStyle::KAndR);
    assert!(context.expr_root);
    assert!(context.include_ssa_versions);
}

#[test]
fn expr_root_can_be_cleared() {
    let context = EmitContext::default().with_expr_root(false);
    assert!(!context.expr_root);
    assert_eq!(context.indent, 0);
}
