use vstd::prelude::*;

use crate::decompiler::ast::bin_op::{binoptype_text, BinOpType};
use crate::decompiler::ast::control_flow::ControlFlowType;
use crate::decompiler::ast::expr::ExprKind;
use crate::decompiler::ast::literal::LiteralNode;
use crate::decompiler::ast::statement::StatementKind;
use crate::decompiler::ast::unary_op::{unaryoptype_text, UnaryOpType, UnaryOperationNode};
use crate::decompiler::ast::view::{
    asts_v, exprs_v, lemma_asts_v, lemma_exprs_v, stmt_comments, AstV, ExprV, LiteralV, StmtV,
};
use crate::decompiler::ast::visitors::emit_context::{
    indented, EmitContext, EmitVerbosity, IndentStyle,
};
use crate::decompiler::ast::array_kind::ArrayKind;
use crate::decompiler::ast::block::BlockNode;
use crate::decompiler::ast::control_flow::ControlFlowNode;
use crate::decompiler::ast::ptr::P;
use crate::decompiler::ast::AstKind;
use crate::decompiler::ast::array_access::ArrayAccessNode;
use crate::decompiler::ast::array_node::ArrayNode;
use crate::decompiler::ast::assignment::AssignmentNode;
use crate::decompiler::ast::bin_op::BinaryOperationNode;
use crate::decompiler::ast::copies::{
    array_access_expr, array_expr, array_node_expr, assignment_stmt, bin_op_expr, block_ast,
    control_flow_ast, function_ast, function_call_expr, identifier_expr, literal_expr,
    member_access_expr, new_array_expr, new_expr, phi_array_expr, phi_expr, range_expr,
    return_stmt, unary_op_expr, virtual_branch_stmt,
};
use crate::decompiler::ast::func_call::FunctionCallNode;
use crate::decompiler::ast::function::FunctionNode;
use crate::decompiler::ast::identifier::IdentifierNode;
use crate::decompiler::ast::member_access::MemberAccessNode;
use crate::decompiler::ast::new::NewNode;
use crate::decompiler::ast::new_array::NewArrayNode;
use crate::decompiler::ast::phi::PhiNode;
use crate::decompiler::ast::phi_array::PhiArrayNode;
use crate::decompiler::ast::range::RangeNode;
use crate::decompiler::ast::ret::ReturnNode;
use crate::decompiler::ast::vbranch::VirtualBranchNode;
use crate::decompiler::ast::visitors::AstVisitor;
use crate::text::{push_spaces, spaces, dec_chars, hex_chars, push_char, push_dec, push_hex, push_str, signed_dec_chars};

verus! {


/// `s` in parentheses when `wrap` holds.
pub open spec fn parenthesized(s: Seq<char>, wrap: bool) -> Seq<char> {
    if wrap {
        seq!['('] + s + seq![')']
    } else {
        s
    }
}

/// The bit pattern of a 32-bit signed number, read as unsigned.
pub open spec fn twos_complement(n: i32) -> nat {
    if n < 0 {
        (n + 0x1_0000_0000) as nat
    } else {
        n as nat
    }
}

/// The text of a literal: strings in double quotes, numbers in decimal or with "0x" in
/// hexadecimal, floats as written, `true`, `false` and `null`.
pub open spec fn literal_text(l: LiteralV, hex: bool) -> Seq<char> {
    match l {
        LiteralV::String(s) => seq!['"'] + s + seq!['"'],
        LiteralV::Number(n) => if hex {
            "0x"@ + hex_chars(twos_complement(n), false)
        } else {
            signed_dec_chars(n as int)
        },
        LiteralV::Float(s) => s,
        LiteralV::Boolean(b) => if b {
            "true"@
        } else {
            "false"@
        },
        LiteralV::Null => "null"@,
    }
}

/// The text of an identifier: its name, followed by `@` and its SSA version when versions
/// are shown and it has one.
pub open spec fn identifier_text(id: Seq<char>, version: Option<usize>, ssa: bool) -> Seq<char> {
    match version {
        Some(v) => if ssa {
            id + seq!['@'] + dec_chars(v as nat)
        } else {
            id
        },
        None => id,
    }
}

/// The text of an expression. Operations below the root of their expression tree are put in
/// parentheses; operands of operations, and the object of member and element accesses, are
/// not roots; arguments, elements and indices are.
pub open spec fn expr_text(e: ExprV, root: bool, hex: bool, ssa: bool) -> Seq<char>
    decreases e,
{
    match e {
        ExprV::Literal(l) => literal_text(l, hex),
        ExprV::BinOp(l, r, op) => parenthesized(
            expr_text(*l, false, hex, ssa) + seq![' '] + binoptype_text(op) + seq![' '] + expr_text(
                *r,
                false,
                hex,
                ssa,
            ),
            !root,
        ),
        ExprV::UnaryOp(o, op) => parenthesized(unaryoptype_text(op) + expr_text(*o, false, hex, ssa), !root),
        ExprV::FunctionCall(name, args) => expr_text(*name, false, hex, ssa) + seq!['('] + joined_text(
            args,
            hex,
            ssa,
        ) + seq![')'],
        ExprV::Array(_, elements) => seq!['{'] + joined_text(elements, hex, ssa) + seq!['}'],
        ExprV::New(t, a) => "new "@ + expr_text(*t, false, hex, ssa) + seq!['('] + expr_text(*a, true, hex, ssa)
            + seq![')'],
        ExprV::NewArray(a) => "new["@ + expr_text(*a, true, hex, ssa) + seq![']'],
        ExprV::MemberAccess(l, r) => expr_text(*l, false, hex, ssa) + seq!['.'] + expr_text(*r, false, hex, ssa),
        ExprV::Identifier(id, v) => identifier_text(id, v, ssa),
        ExprV::ArrayAccess(a, i) => expr_text(*a, false, hex, ssa) + seq!['['] + expr_text(*i, true, hex, ssa)
            + seq![']'],
        ExprV::Phi(idx) => "phi_"@ + dec_chars(idx as nat),
        ExprV::Range(s, t) => expr_text(*s, true, hex, ssa) + " .. "@ + expr_text(*t, true, hex, ssa),
    }
}

/// The texts of expressions, each a root, separated by ", ".
pub open spec fn joined_text(s: Seq<ExprV>, hex: bool, ssa: bool) -> Seq<char>
    decreases s,
{
    if s.len() == 0 {
        Seq::empty()
    } else if s.len() == 1 {
        expr_text(s[0], true, hex, ssa)
    } else {
        joined_text(s.drop_last(), hex, ssa) + ", "@ + expr_text(s.last(), true, hex, ssa)
    }
}

/// The name of a region, as the library writes it.
pub open spec fn region_name(index: usize) -> Seq<char> {
    "RegionId("@ + dec_chars(index as nat) + seq![')']
}

/// The text of a statement, its expressions each a root.
pub open spec fn stmt_text(s: StmtV, hex: bool, ssa: bool) -> Seq<char> {
    match s {
        StmtV::Assignment(l, r) => expr_text(l, true, hex, ssa) + " = "@ + expr_text(r, true, hex, ssa) + seq![';'],
        StmtV::Return(e) => "return "@ + expr_text(e, true, hex, ssa) + seq![';'],
        StmtV::VirtualBranch(r) => "goto "@ + region_name(r) + seq![';'],
    }
}

/// The text of an optional condition, empty when there is none.
pub open spec fn condition_text(c: Option<ExprV>, hex: bool, ssa: bool) -> Seq<char> {
    match c {
        Some(e) => expr_text(e, true, hex, ssa),
        None => Seq::empty(),
    }
}

/// The comments of an AST node.
pub open spec fn ast_comments(a: AstV) -> Seq<Seq<char>> {
    match a {
        AstV::Statement(c, _) => c,
        AstV::Function(c, _, _, _) => c,
        AstV::Block(c, _) => c,
        AstV::ControlFlow(c, _, _, _) => c,
        _ => Seq::empty(),
    }
}

/// The lines of comments, each indented and after `// `; none when minified.
pub open spec fn comment_lines(cs: Seq<Seq<char>>, c: EmitContext) -> Seq<char>
    decreases cs.len(),
{
    if cs.len() == 0 || c.verbosity == EmitVerbosity::Minified {
        Seq::empty()
    } else {
        comment_lines(cs.drop_last(), c) + spaces(c.indent as nat) + "// "@ + cs.last() + seq!['\n']
    }
}

/// The text of an AST node.
pub open spec fn ast_text(a: AstV, c: EmitContext) -> Seq<char>
    decreases a, 0nat,
{
    let hex = c.format_number_hex;
    let ssa = c.include_ssa_versions;
    match a {
        AstV::Expression(e) => expr_text(e, c.expr_root, hex, ssa),
        AstV::Statement(_, s) => stmt_text(s, hex, ssa),
        AstV::Function(_, name, params, body) => "function "@ + match name {
            Some(n) => n,
            None => Seq::empty(),
        } + seq!['('] + joined_text(params, hex, ssa) + seq![')'] + block_text(body, c),
        AstV::Block(_, nodes) => block_text(nodes, c),
        AstV::ControlFlow(_, ty, cond, body) => {
            let ct = condition_text(cond, hex, ssa);
            let bt = block_text(body, c);
            match ty {
                ControlFlowType::If => "if ("@ + ct + ") "@ + bt,
                ControlFlowType::ElseIf => "else if ("@ + ct + ") "@ + bt,
                ControlFlowType::Else => "else"@ + bt,
                ControlFlowType::With => "with ("@ + ct + ") "@ + bt,
                ControlFlowType::While => "while ("@ + ct + ") "@ + bt,
                ControlFlowType::For => "for ("@ + ct + ") "@ + bt,
                ControlFlowType::DoWhile => "do"@ + bt + " while ("@ + ct + ");"@,
            }
        },
        AstV::Empty => Seq::empty(),
    }
}

/// A block: its opening brace (on a line of its own in Allman style, at the end of the
/// line in K&R style), each node on an indented line after its comments, and the closing
/// brace.
pub open spec fn block_text(nodes: Seq<AstV>, c: EmitContext) -> Seq<char>
    decreases nodes, 1nat,
{
    let open = match c.indent_style {
        IndentStyle::Allman => seq!['\n'] + spaces(c.indent as nat) + "{\n"@,
        IndentStyle::KAndR => " {\n"@,
    };
    open + lines_text(nodes, indented(c)) + spaces(c.indent as nat) + seq!['}']
}

/// The lines of the nodes of a block.
pub open spec fn lines_text(nodes: Seq<AstV>, c: EmitContext) -> Seq<char>
    decreases nodes, 0nat,
{
    if nodes.len() == 0 {
        Seq::empty()
    } else {
        lines_text(nodes.drop_last(), c) + comment_lines(ast_comments(nodes.last()), c) + spaces(c.indent as nat)
            + ast_text(nodes.last(), c) + seq!['\n']
    }
}

/// Each control-flow construct is written with its own keyword: `if`, `else if`, `with`,
/// `while` and `for` open with the keyword and the condition in parentheses, `else` with its
/// keyword, and a do-while loop with `do`, ending with `while (` the condition `);`.
pub proof fn law_control_flow_keywords(cs: Seq<Seq<char>>, cond: Option<ExprV>, body: Seq<AstV>, c: EmitContext)
    ensures
        ({
            let ct = condition_text(cond, c.format_number_hex, c.include_ssa_versions);
            &&& exists|rest: Seq<char>| #[trigger] ast_text(AstV::ControlFlow(cs, ControlFlowType::If, cond, body), c)
                == "if ("@ + ct + ") "@ + rest
            &&& exists|rest: Seq<char>| #[trigger] ast_text(AstV::ControlFlow(cs, ControlFlowType::ElseIf, cond, body), c)
                == "else if ("@ + ct + ") "@ + rest
            &&& exists|rest: Seq<char>| #[trigger] ast_text(AstV::ControlFlow(cs, ControlFlowType::Else, cond, body), c)
                == "else"@ + rest
            &&& exists|rest: Seq<char>| #[trigger] ast_text(AstV::ControlFlow(cs, ControlFlowType::With, cond, body), c)
                == "with ("@ + ct + ") "@ + rest
            &&& exists|rest: Seq<char>| #[trigger] ast_text(AstV::ControlFlow(cs, ControlFlowType::While, cond, body), c)
                == "while ("@ + ct + ") "@ + rest
            &&& exists|rest: Seq<char>| #[trigger] ast_text(AstV::ControlFlow(cs, ControlFlowType::For, cond, body), c)
                == "for ("@ + ct + ") "@ + rest
            &&& exists|rest: Seq<char>| #[trigger] ast_text(AstV::ControlFlow(cs, ControlFlowType::DoWhile, cond, body), c)
                == "do"@ + rest + " while ("@ + ct + ");"@
        }),
{
    let bt = block_text(body, c);
    let ct = condition_text(cond, c.format_number_hex, c.include_ssa_versions);
    assert(ast_text(AstV::ControlFlow(cs, ControlFlowType::If, cond, body), c) == "if ("@ + ct + ") "@ + bt);
    assert(ast_text(AstV::ControlFlow(cs, ControlFlowType::ElseIf, cond, body), c) == "else if ("@ + ct + ") "@ + bt);
    assert(ast_text(AstV::ControlFlow(cs, ControlFlowType::Else, cond, body), c) == "else"@ + bt);
    assert(ast_text(AstV::ControlFlow(cs, ControlFlowType::With, cond, body), c) == "with ("@ + ct + ") "@ + bt);
    assert(ast_text(AstV::ControlFlow(cs, ControlFlowType::While, cond, body), c) == "while ("@ + ct + ") "@ + bt);
    assert(ast_text(AstV::ControlFlow(cs, ControlFlowType::For, cond, body), c) == "for ("@ + ct + ") "@ + bt);
    assert(ast_text(AstV::ControlFlow(cs, ControlFlowType::DoWhile, cond, body), c) == "do"@ + bt + " while ("@ + ct
        + ");"@);
}

/// Whether the indentation of every block inside `a`, emitted at `indent`, fits a `usize`.
pub open spec fn ast_fits(a: AstV, indent: int, step: int) -> bool
    decreases a,
{
    match a {
        AstV::Function(_, _, _, body) => nodes_fit(body, indent + step, step),
        AstV::Block(_, nodes) => nodes_fit(nodes, indent + step, step),
        AstV::ControlFlow(_, _, _, body) => nodes_fit(body, indent + step, step),
        _ => true,
    }
}

/// Whether `indent` fits a `usize`, and so does the indentation of every block inside the
/// nodes, emitted at `indent`.
pub open spec fn nodes_fit(nodes: Seq<AstV>, indent: int, step: int) -> bool
    decreases nodes,
{
    &&& indent <= usize::MAX
    &&& if nodes.len() == 0 {
        true
    } else {
        nodes_fit(nodes.drop_last(), indent, step) && ast_fits(nodes.last(), indent, step)
    }
}


/// Appends the text of a literal.
pub fn emit_literal_into(out: &mut String, l: &LiteralNode, hex: bool)
    ensures
        final(out)@ == old(out)@ + literal_text(l@, hex),
{
    match l {
        LiteralNode::String(s) => {
            push_char(out, '"');
            push_str(out, s.as_str());
            push_char(out, '"');
            assert(out@ =~= old(out)@ + literal_text(l@, hex));
        },
        LiteralNode::Number(n) => {
            if hex {
                push_str(out, "0x");
                let u: u64 = if *n < 0 {
                    (*n as i64 + 0x1_0000_0000i64) as u64
                } else {
                    *n as u64
                };
                push_hex(out, u, false);
                proof {
                    reveal_strlit("0x");
                }
                assert(out@ =~= old(out)@ + literal_text(l@, hex));
            } else {
                if *n < 0 {
                    push_char(out, '-');
                    let m: u64 = (-(*n as i64)) as u64;
                    push_dec(out, m);
                } else {
                    push_dec(out, *n as u64);
                }
                assert(out@ =~= old(out)@ + literal_text(l@, hex));
            }
        },
        LiteralNode::Float(s) => {
            push_str(out, s.as_str());
        },
        LiteralNode::Boolean(b) => {
            if *b {
                push_str(out, "true");
            } else {
                push_str(out, "false");
            }
        },
        LiteralNode::Null => {
            push_str(out, "null");
        },
    }
}

fn push_open_paren(out: &mut String, wrap: bool)
    ensures
        final(out)@ == old(out)@ + if wrap {
            seq!['(']
        } else {
            Seq::<char>::empty()
        },
{
    if wrap {
        push_char(out, '(');
    } else {
        assert(out@ =~= out@ + Seq::<char>::empty());
    }
}

fn push_close_paren(out: &mut String, wrap: bool)
    ensures
        final(out)@ == old(out)@ + if wrap {
            seq![')']
        } else {
            Seq::<char>::empty()
        },
{
    if wrap {
        push_char(out, ')');
    } else {
        assert(out@ =~= out@ + Seq::<char>::empty());
    }
}

/// Appends the text of an expression.
#[verifier::spinoff_prover]
#[verifier::rlimit(80)]
pub fn emit_expr_into(out: &mut String, e: &ExprKind, root: bool, hex: bool, ssa: bool)
    ensures
        final(out)@ == old(out)@ + expr_text(e@, root, hex, ssa),
    decreases e,
{
    let ghost start = out@;
    match e {
        ExprKind::Literal(p) => {
            emit_literal_into(out, &p.ptr, hex);
        },
        ExprKind::BinOp(p) => {
            push_open_paren(out, !root);
            emit_expr_into(out, &p.ptr.lhs, false, hex, ssa);
            push_char(out, ' ');
            push_str(out, p.ptr.op_type.as_str());
            push_char(out, ' ');
            emit_expr_into(out, &p.ptr.rhs, false, hex, ssa);
            push_close_paren(out, !root);
            assert(out@ =~= start + expr_text(e@, root, hex, ssa));
        },
        ExprKind::UnaryOp(p) => {
            push_open_paren(out, !root);
            push_str(out, p.ptr.op_type.as_str());
            emit_expr_into(out, &p.ptr.operand, false, hex, ssa);
            push_close_paren(out, !root);
            assert(out@ =~= start + expr_text(e@, root, hex, ssa));
        },
        ExprKind::FunctionCall(p) => {
            emit_expr_into(out, &p.ptr.name, false, hex, ssa);
            push_char(out, '(');
            emit_joined_into(out, &p.ptr.arguments, hex, ssa);
            push_char(out, ')');
            assert(out@ =~= start + expr_text(e@, root, hex, ssa));
        },
        ExprKind::Array(ArrayKind::MergedArray(p)) => {
            push_char(out, '{');
            emit_joined_into(out, &p.ptr.elements, hex, ssa);
            push_char(out, '}');
            assert(out@ =~= start + expr_text(e@, root, hex, ssa));
        },
        ExprKind::Array(ArrayKind::PhiArray(p)) => {
            push_char(out, '{');
            emit_joined_into(out, &p.ptr.elements, hex, ssa);
            push_char(out, '}');
            assert(out@ =~= start + expr_text(e@, root, hex, ssa));
        },
        ExprKind::New(p) => {
            push_str(out, "new ");
            emit_expr_into(out, &p.ptr.new_type, false, hex, ssa);
            push_char(out, '(');
            emit_expr_into(out, &p.ptr.arg, true, hex, ssa);
            push_char(out, ')');
            assert(out@ =~= start + expr_text(e@, root, hex, ssa));
        },
        ExprKind::NewArray(p) => {
            push_str(out, "new[");
            emit_expr_into(out, &p.ptr.arg, true, hex, ssa);
            push_char(out, ']');
            assert(out@ =~= start + expr_text(e@, root, hex, ssa));
        },
        ExprKind::MemberAccess(p) => {
            emit_expr_into(out, &p.ptr.lhs, false, hex, ssa);
            push_char(out, '.');
            emit_expr_into(out, &p.ptr.rhs, false, hex, ssa);
            assert(out@ =~= start + expr_text(e@, root, hex, ssa));
        },
        ExprKind::Identifier(p) => {
            push_str(out, p.ptr.id.as_str());
            match p.ptr.ssa_version {
                Some(v) => {
                    if ssa {
                        push_char(out, '@');
                        push_dec(out, v.0 as u64);
                    }
                },
                None => {},
            }
            assert(out@ =~= start + expr_text(e@, root, hex, ssa));
        },
        ExprKind::ArrayAccess(p) => {
            emit_expr_into(out, &p.ptr.arr, false, hex, ssa);
            push_char(out, '[');
            emit_expr_into(out, &p.ptr.index, true, hex, ssa);
            push_char(out, ']');
            assert(out@ =~= start + expr_text(e@, root, hex, ssa));
        },
        ExprKind::Phi(p) => {
            push_str(out, "phi_");
            push_dec(out, p.ptr.idx as u64);
            assert(out@ =~= start + expr_text(e@, root, hex, ssa));
        },
        ExprKind::Range(p) => {
            emit_expr_into(out, &p.ptr.start, true, hex, ssa);
            push_str(out, " .. ");
            emit_expr_into(out, &p.ptr.end, true, hex, ssa);
            assert(out@ =~= start + expr_text(e@, root, hex, ssa));
        },
    }
}

/// Appends the texts of expressions, separated by ", ".
pub fn emit_joined_into(out: &mut String, v: &Vec<ExprKind>, hex: bool, ssa: bool)
    ensures
        final(out)@ == old(out)@ + joined_text(exprs_v(v@), hex, ssa),
    decreases v,
{
    let ghost start = out@;
    let mut i: usize = 0;
    proof {
        lemma_exprs_v(v@);
    }
    while i < v.len()
        invariant
            i <= v@.len(),
            exprs_v(v@).len() == v@.len(),
            forall|k: int| 0 <= k < v@.len() ==> #[trigger] exprs_v(v@)[k] == v@[k]@,
            out@ == start + joined_text(exprs_v(v@).take(i as int), hex, ssa),
        decreases v@.len() - i,
    {
        proof {
            assert(decreases_to!(v => v@[i as int]));
        }
        let ghost s = exprs_v(v@).take(i + 1);
        if i > 0 {
            push_str(out, ", ");
        }
        emit_expr_into(out, &v[i], true, hex, ssa);
        proof {
            assert(s.drop_last() =~= exprs_v(v@).take(i as int));
            assert(s.last() == v@[i as int]@);
            if i == 0 {
                assert(joined_text(exprs_v(v@).take(0), hex, ssa) =~= Seq::empty());
                assert(out@ =~= start + joined_text(s, hex, ssa));
            } else {
                assert(out@ =~= start + joined_text(s, hex, ssa));
            }
        }
        i = i + 1;
    }
    proof {
        assert(exprs_v(v@).take(i as int) =~= exprs_v(v@));
    }
}

/// Appends the text of a statement.
pub fn emit_stmt_into(out: &mut String, s: &StatementKind, hex: bool, ssa: bool)
    ensures
        final(out)@ == old(out)@ + stmt_text(s@, hex, ssa),
{
    let ghost start = out@;
    match s {
        StatementKind::Assignment(p) => {
            emit_expr_into(out, &p.ptr.lhs, true, hex, ssa);
            push_str(out, " = ");
            emit_expr_into(out, &p.ptr.rhs, true, hex, ssa);
            push_char(out, ';');
        },
        StatementKind::Return(p) => {
            push_str(out, "return ");
            emit_expr_into(out, &p.ptr.ret, true, hex, ssa);
            push_char(out, ';');
        },
        StatementKind::VirtualBranch(p) => {
            push_str(out, "goto RegionId(");
            push_dec(out, p.ptr.branch.index as u64);
            push_str(out, ");");
            proof {
                reveal_strlit("goto RegionId(");
                reveal_strlit(");");
                reveal_strlit("goto ");
                reveal_strlit("RegionId(");
            }
        },
    }
    assert(out@ =~= start + stmt_text(s@, hex, ssa));
}

/// Appends the comment lines of `comments`, unless minified.
fn emit_comments_into(out: &mut String, comments: &Vec<String>, c: EmitContext)
    ensures
        final(out)@ == old(out)@ + comment_lines(comments@.map_values(|s: String| s@), c),
{
    let ghost cs = comments@.map_values(|s: String| s@);
    let ghost start = out@;
    if c.verbosity == EmitVerbosity::Minified {
        assert(comment_lines(cs, c) =~= Seq::empty());
        assert(out@ =~= start + Seq::<char>::empty());
        return;
    }
    let mut i: usize = 0;
    while i < comments.len()
        invariant
            i <= comments@.len(),
            cs == comments@.map_values(|s: String| s@),
            c.verbosity != EmitVerbosity::Minified,
            out@ == start + comment_lines(cs.take(i as int), c),
        decreases comments@.len() - i,
    {
        push_spaces(out, c.indent);
        push_str(out, "// ");
        push_str(out, comments[i].as_str());
        push_char(out, '\n');
        proof {
            assert(cs.take(i + 1).drop_last() =~= cs.take(i as int));
            assert(out@ =~= start + comment_lines(cs.take(i + 1), c));
        }
        i = i + 1;
    }
    assert(cs.take(i as int) =~= cs);
}

/// Appends the comment lines of an AST node.
fn emit_node_comments_into(out: &mut String, a: &AstKind, c: EmitContext)
    ensures
        final(out)@ == old(out)@ + comment_lines(ast_comments(a@), c),
{
    match a {
        AstKind::Statement(StatementKind::Assignment(p)) => emit_comments_into(out, &p.metadata.comments, c),
        AstKind::Statement(StatementKind::Return(p)) => emit_comments_into(out, &p.metadata.comments, c),
        AstKind::Statement(StatementKind::VirtualBranch(p)) => emit_comments_into(out, &p.metadata.comments, c),
        AstKind::Function(p) => emit_comments_into(out, &p.metadata.comments, c),
        AstKind::Block(p) => emit_comments_into(out, &p.metadata.comments, c),
        AstKind::ControlFlow(p) => emit_comments_into(out, &p.metadata.comments, c),
        _ => {
            assert(comment_lines(ast_comments(a@), c) =~= Seq::empty());
            assert(out@ =~= old(out)@ + Seq::<char>::empty());
        },
    }
}

/// Appends the text of a block.
pub fn emit_block_into(out: &mut String, nodes: &Vec<AstKind>, c: EmitContext)
    requires
        nodes_fit(asts_v(nodes@), c.indent + c.indent_step, c.indent_step as int),
    ensures
        final(out)@ == old(out)@ + block_text(asts_v(nodes@), c),
    decreases nodes, 1nat,
{
    let ghost start = out@;
    match c.indent_style {
        IndentStyle::Allman => {
            push_char(out, '\n');
            push_spaces(out, c.indent);
            push_str(out, "{\n");
        },
        IndentStyle::KAndR => {
            push_str(out, " {\n");
        },
    }
    let ghost opened = out@;
    let inner = c.with_indent();
    emit_lines_into(out, nodes, inner);
    push_spaces(out, c.indent);
    push_char(out, '}');
    assert(out@ =~= start + block_text(asts_v(nodes@), c));
}

/// Appends the lines of the nodes of a block.
fn emit_lines_into(out: &mut String, nodes: &Vec<AstKind>, c: EmitContext)
    requires
        nodes_fit(asts_v(nodes@), c.indent as int, c.indent_step as int),
    ensures
        final(out)@ == old(out)@ + lines_text(asts_v(nodes@), c),
    decreases nodes, 0nat,
{
    let ghost start = out@;
    let ghost vs = asts_v(nodes@);
    proof {
        lemma_asts_v(nodes@);
    }
    let mut i: usize = 0;
    while i < nodes.len()
        invariant
            i <= nodes@.len(),
            vs == asts_v(nodes@),
            vs.len() == nodes@.len(),
            forall|k: int| 0 <= k < nodes@.len() ==> #[trigger] vs[k] == nodes@[k]@,
            nodes_fit(vs, c.indent as int, c.indent_step as int),
            out@ == start + lines_text(vs.take(i as int), c),
        decreases nodes@.len() - i,
    {
        proof {
            assert(decreases_to!(nodes => nodes@[i as int]));
            lemma_nodes_fit_at(vs, c.indent as int, c.indent_step as int, i as int);
        }
        emit_node_comments_into(out, &nodes[i], c);
        push_spaces(out, c.indent);
        emit_ast_into(out, &nodes[i], c);
        push_char(out, '\n');
        proof {
            assert(vs.take(i + 1).drop_last() =~= vs.take(i as int));
            assert(out@ =~= start + lines_text(vs.take(i + 1), c));
        }
        i = i + 1;
    }
    assert(vs.take(i as int) =~= vs);
}

/// Every node of nodes that fit fits.
proof fn lemma_nodes_fit_at(nodes: Seq<AstV>, indent: int, step: int, i: int)
    requires
        nodes_fit(nodes, indent, step),
        0 <= i < nodes.len(),
    ensures
        ast_fits(nodes[i], indent, step),
    decreases nodes.len(),
{
    if i < nodes.len() - 1 {
        lemma_nodes_fit_at(nodes.drop_last(), indent, step, i);
    }
}

/// Appends the text of an optional condition.
fn emit_condition_into(out: &mut String, cond: &Option<ExprKind>, hex: bool, ssa: bool)
    ensures
        final(out)@ == old(out)@ + condition_text(
            match *cond {
                Some(e) => Some(e@),
                None => None,
            },
            hex,
            ssa,
        ),
{
    match cond {
        Some(e) => emit_expr_into(out, e, true, hex, ssa),
        None => {
            assert(out@ =~= out@ + Seq::<char>::empty());
        },
    }
}

/// Appends the text of a control-flow construct.
#[verifier::spinoff_prover]
#[verifier::rlimit(80)]
fn emit_control_flow_into(out: &mut String, p: &P<ControlFlowNode>, c: EmitContext)
    requires
        ast_fits(AstKind::ControlFlow(*p)@, c.indent as int, c.indent_step as int),
    ensures
        final(out)@ == old(out)@ + ast_text(AstKind::ControlFlow(*p)@, c),
    decreases p, 0nat,
{
    let ghost start = out@;
    let ghost a = AstKind::ControlFlow(*p)@;
    let hex = c.format_number_hex;
    let ssa = c.include_ssa_versions;
    let body = &p.ptr.then_block.ptr.instructions;
    match p.ptr.ty {
        ControlFlowType::If => {
            push_str(out, "if (");
            emit_condition_into(out, &p.ptr.expr, hex, ssa);
            push_str(out, ") ");
            emit_block_into(out, body, c);
            assert(out@ =~= start + ast_text(a, c));
        },
        ControlFlowType::ElseIf => {
            push_str(out, "else if (");
            emit_condition_into(out, &p.ptr.expr, hex, ssa);
            push_str(out, ") ");
            emit_block_into(out, body, c);
            assert(out@ =~= start + ast_text(a, c));
        },
        ControlFlowType::Else => {
            push_str(out, "else");
            emit_block_into(out, body, c);
            assert(out@ =~= start + ast_text(a, c));
        },
        ControlFlowType::With => {
            push_str(out, "with (");
            emit_condition_into(out, &p.ptr.expr, hex, ssa);
            push_str(out, ") ");
            emit_block_into(out, body, c);
            assert(out@ =~= start + ast_text(a, c));
        },
        ControlFlowType::While => {
            push_str(out, "while (");
            emit_condition_into(out, &p.ptr.expr, hex, ssa);
            push_str(out, ") ");
            emit_block_into(out, body, c);
            assert(out@ =~= start + ast_text(a, c));
        },
        ControlFlowType::For => {
            push_str(out, "for (");
            emit_condition_into(out, &p.ptr.expr, hex, ssa);
            push_str(out, ") ");
            emit_block_into(out, body, c);
            assert(out@ =~= start + ast_text(a, c));
        },
        ControlFlowType::DoWhile => {
            push_str(out, "do");
            emit_block_into(out, body, c);
            push_str(out, " while (");
            emit_condition_into(out, &p.ptr.expr, hex, ssa);
            push_str(out, ");");
            assert(out@ =~= start + ast_text(a, c));
        },
    }
}

/// Appends the text of an AST node.
#[verifier::spinoff_prover]
#[verifier::rlimit(80)]
pub fn emit_ast_into(out: &mut String, a: &AstKind, c: EmitContext)
    requires
        ast_fits(a@, c.indent as int, c.indent_step as int),
    ensures
        final(out)@ == old(out)@ + ast_text(a@, c),
    decreases a, 0nat,
{
    let ghost start = out@;
    let hex = c.format_number_hex;
    let ssa = c.include_ssa_versions;
    match a {
        AstKind::Expression(e) => emit_expr_into(out, e, c.expr_root, hex, ssa),
        AstKind::Statement(s) => emit_stmt_into(out, s, hex, ssa),
        AstKind::Function(p) => {
            push_str(out, "function ");
            match &p.ptr.name {
                Some(n) => push_str(out, n.as_str()),
                None => {},
            }
            push_char(out, '(');
            emit_joined_into(out, &p.ptr.params, hex, ssa);
            push_char(out, ')');
            emit_block_into(out, &p.ptr.body.ptr.instructions, c);
            assert(out@ =~= start + ast_text(a@, c));
        },
        AstKind::Block(p) => emit_block_into(out, &p.ptr.instructions, c),
        AstKind::ControlFlow(p) => emit_control_flow_into(out, p, c),
        AstKind::Empty => {
            assert(out@ =~= start + ast_text(a@, c));
        },
    }
}

/// Emits AST nodes as GS2 source text, in a given context.
pub struct Gs2Emitter {
    /// The context of emission.
    pub context: EmitContext,
}

impl Gs2Emitter {
    /// An emitter for the given context.
    pub fn new(context: EmitContext) -> (e: Self)
        ensures
            e.context == context,
    {
        Gs2Emitter { context }
    }

    /// The text of an expression in this emitter's context.
    fn expr_string(&self, e: &ExprKind) -> (s: String)
        ensures
            s@ == expr_text(e@, self.context.expr_root, self.context.format_number_hex, self.context.include_ssa_versions),
    {
        let mut out = String::new();
        emit_expr_into(&mut out, e, self.context.expr_root, self.context.format_number_hex, self.context.include_ssa_versions);
        out
    }

    /// The text of a statement in this emitter's context.
    fn stmt_string(&self, st: &StatementKind) -> (s: String)
        ensures
            s@ == stmt_text(st@, self.context.format_number_hex, self.context.include_ssa_versions),
    {
        let mut out = String::new();
        emit_stmt_into(&mut out, st, self.context.format_number_hex, self.context.include_ssa_versions);
        out
    }

    /// The text of an AST node in this emitter's context.
    fn ast_string(&self, a: &AstKind) -> (s: String)
        requires
            ast_fits(a@, self.context.indent as int, self.context.indent_step as int),
        ensures
            s@ == ast_text(a@, self.context),
    {
        let mut out = String::new();
        emit_ast_into(&mut out, a, self.context);
        out
    }
}

impl AstVisitor for Gs2Emitter {
    type Output = String;

    /// The indentation of every nested block fits a `usize`.
    open spec fn accepts(&self, node: AstV) -> bool {
        ast_fits(node, self.context.indent as int, self.context.indent_step as int)
    }

    /// The text of an AST node.
    fn visit_node(&mut self, node: &AstKind) -> (s: String)
        ensures
            s@ == ast_text(node@, old(self).context),
            *final(self) == *old(self),
    {
        self.ast_string(node)
    }

    /// The text of a statement.
    fn visit_statement(&mut self, node: &StatementKind) -> (s: String)
        ensures
            s@ == stmt_text(node@, old(self).context.format_number_hex, old(self).context.include_ssa_versions),
            *final(self) == *old(self),
    {
        self.stmt_string(node)
    }

    /// The text of an assignment.
    fn visit_assignment(&mut self, node: &P<AssignmentNode>) -> (s: String)
        ensures
            s@ == stmt_text(
                (StatementKind::Assignment(*node))@,
                old(self).context.format_number_hex,
                old(self).context.include_ssa_versions,
            ),
            *final(self) == *old(self),
    {
        self.stmt_string(&assignment_stmt(node))
    }

    /// The text of an expression.
    fn visit_expr(&mut self, node: &ExprKind) -> (s: String)
        ensures
            s@ == expr_text(node@, old(self).context.expr_root, old(self).context.format_number_hex, old(self).context.include_ssa_versions),
            *final(self) == *old(self),
    {
        self.expr_string(node)
    }

    /// The text of a binary operation.
    fn visit_bin_op(&mut self, node: &P<BinaryOperationNode>) -> (s: String)
        ensures
            s@ == expr_text((ExprKind::BinOp(*node))@, old(self).context.expr_root, old(self).context.format_number_hex, old(self).context.include_ssa_versions),
            *final(self) == *old(self),
    {
        self.expr_string(&bin_op_expr(node))
    }

    /// The text of a unary operation.
    fn visit_unary_op(&mut self, node: &P<UnaryOperationNode>) -> (s: String)
        ensures
            s@ == expr_text((ExprKind::UnaryOp(*node))@, old(self).context.expr_root, old(self).context.format_number_hex, old(self).context.include_ssa_versions),
            *final(self) == *old(self),
    {
        self.expr_string(&unary_op_expr(node))
    }

    /// The text of an identifier.
    fn visit_identifier(&mut self, node: &P<IdentifierNode>) -> (s: String)
        ensures
            s@ == expr_text((ExprKind::Identifier(*node))@, old(self).context.expr_root, old(self).context.format_number_hex, old(self).context.include_ssa_versions),
            *final(self) == *old(self),
    {
        self.expr_string(&identifier_expr(node))
    }

    /// The text of a literal.
    fn visit_literal(&mut self, node: &P<LiteralNode>) -> (s: String)
        ensures
            s@ == expr_text((ExprKind::Literal(*node))@, old(self).context.expr_root, old(self).context.format_number_hex, old(self).context.include_ssa_versions),
            *final(self) == *old(self),
    {
        self.expr_string(&literal_expr(node))
    }

    /// The text of a member access.
    fn visit_member_access(&mut self, node: &P<MemberAccessNode>) -> (s: String)
        ensures
            s@ == expr_text((ExprKind::MemberAccess(*node))@, old(self).context.expr_root, old(self).context.format_number_hex, old(self).context.include_ssa_versions),
            *final(self) == *old(self),
    {
        self.expr_string(&member_access_expr(node))
    }

    /// The text of a function call.
    fn visit_function_call(&mut self, node: &P<FunctionCallNode>) -> (s: String)
        ensures
            s@ == expr_text((ExprKind::FunctionCall(*node))@, old(self).context.expr_root, old(self).context.format_number_hex, old(self).context.include_ssa_versions),
            *final(self) == *old(self),
    {
        self.expr_string(&function_call_expr(node))
    }

    /// The text of an array.
    fn visit_array(&mut self, node: &ArrayKind) -> (s: String)
        ensures
            s@ == expr_text((ExprKind::Array(*node))@, old(self).context.expr_root, old(self).context.format_number_hex, old(self).context.include_ssa_versions),
            *final(self) == *old(self),
    {
        self.expr_string(&array_expr(node))
    }

    /// The text of an array built in one block.
    fn visit_array_node(&mut self, node: &P<ArrayNode>) -> (s: String)
        ensures
            s@ == expr_text((ExprKind::Array(ArrayKind::MergedArray(*node)))@, old(self).context.expr_root, old(self).context.format_number_hex, old(self).context.include_ssa_versions),
            *final(self) == *old(self),
    {
        self.expr_string(&array_node_expr(node))
    }

    /// The text of an array merged from predecessor blocks.
    fn visit_phi_array(&mut self, node: &P<PhiArrayNode>) -> (s: String)
        ensures
            s@ == expr_text((ExprKind::Array(ArrayKind::PhiArray(*node)))@, old(self).context.expr_root, old(self).context.format_number_hex, old(self).context.include_ssa_versions),
            *final(self) == *old(self),
    {
        self.expr_string(&phi_array_expr(node))
    }

    /// The text of an array access.
    fn visit_array_access(&mut self, node: &P<ArrayAccessNode>) -> (s: String)
        ensures
            s@ == expr_text((ExprKind::ArrayAccess(*node))@, old(self).context.expr_root, old(self).context.format_number_hex, old(self).context.include_ssa_versions),
            *final(self) == *old(self),
    {
        self.expr_string(&array_access_expr(node))
    }

    /// The text of a function.
    fn visit_function(&mut self, node: &P<FunctionNode>) -> (s: String)
        ensures
            s@ == ast_text((AstKind::Function(*node))@, old(self).context),
            *final(self) == *old(self),
    {
        self.ast_string(&function_ast(node))
    }

    /// The text of a return.
    fn visit_return(&mut self, node: &P<ReturnNode>) -> (s: String)
        ensures
            s@ == stmt_text(
                (StatementKind::Return(*node))@,
                old(self).context.format_number_hex,
                old(self).context.include_ssa_versions,
            ),
            *final(self) == *old(self),
    {
        self.stmt_string(&return_stmt(node))
    }

    /// The text of a block.
    fn visit_block(&mut self, node: &P<BlockNode>) -> (s: String)
        ensures
            s@ == ast_text((AstKind::Block(*node))@, old(self).context),
            *final(self) == *old(self),
    {
        self.ast_string(&block_ast(node))
    }

    /// The text of a control-flow construct.
    fn visit_control_flow(&mut self, node: &P<ControlFlowNode>) -> (s: String)
        ensures
            s@ == ast_text((AstKind::ControlFlow(*node))@, old(self).context),
            *final(self) == *old(self),
    {
        self.ast_string(&control_flow_ast(node))
    }

    /// The text of a phi node.
    fn visit_phi(&mut self, node: &P<PhiNode>) -> (s: String)
        ensures
            s@ == expr_text((ExprKind::Phi(*node))@, old(self).context.expr_root, old(self).context.format_number_hex, old(self).context.include_ssa_versions),
            *final(self) == *old(self),
    {
        self.expr_string(&phi_expr(node))
    }

    /// The text of an object creation.
    fn visit_new(&mut self, node: &P<NewNode>) -> (s: String)
        ensures
            s@ == expr_text((ExprKind::New(*node))@, old(self).context.expr_root, old(self).context.format_number_hex, old(self).context.include_ssa_versions),
            *final(self) == *old(self),
    {
        self.expr_string(&new_expr(node))
    }

    /// The text of an array creation.
    fn visit_new_array(&mut self, node: &P<NewArrayNode>) -> (s: String)
        ensures
            s@ == expr_text((ExprKind::NewArray(*node))@, old(self).context.expr_root, old(self).context.format_number_hex, old(self).context.include_ssa_versions),
            *final(self) == *old(self),
    {
        self.expr_string(&new_array_expr(node))
    }

    /// The text of a branch to another region.
    fn visit_virtual_branch(&mut self, node: &P<VirtualBranchNode>) -> (s: String)
        ensures
            s@ == stmt_text(
                (StatementKind::VirtualBranch(*node))@,
                old(self).context.format_number_hex,
                old(self).context.include_ssa_versions,
            ),
            *final(self) == *old(self),
    {
        self.stmt_string(&virtual_branch_stmt(node))
    }

    /// The text of a range.
    fn visit_range(&mut self, node: &P<RangeNode>) -> (s: String)
        ensures
            s@ == expr_text((ExprKind::Range(*node))@, old(self).context.expr_root, old(self).context.format_number_hex, old(self).context.include_ssa_versions),
            *final(self) == *old(self),
    {
        self.expr_string(&range_expr(node))
    }
}

} // verus!
