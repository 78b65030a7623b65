use vstd::prelude::*;

use crate::decompiler::ast::copies::copy_expr;
use crate::decompiler::ast::expr::ExprKind;
use crate::decompiler::ast::view::{asts_v, AstV, ExprV};
use crate::decompiler::ast::AstKind;
use crate::opcode::Opcode;
use crate::basic_block::{table_close, table_open};
use crate::decompiler::ast::view::lemma_asts_v;
use crate::decompiler::ast::visitors::emit_context::{default_context, EmitContext, EmitContextBuilder, EmitVerbosity};
use crate::decompiler::ast::visitors::emitter::{ast_fits, ast_text, expr_text, Gs2Emitter};
use crate::decompiler::ast::visitors::AstVisitor;
use crate::text::{chars_of, dec_chars, push_dec, push_spaces, push_str, spaces};
use crate::utils::{html_char, html_encode, html_encode_spec, push_html_char, GBF_GREEN, GBF_YELLOW};

verus! {

/// Represents the type of control-flow region.
#[derive(Debug, Clone, Copy, PartialEq, Eq, Hash, Structural)]
pub enum RegionType {
    /// Moves on to the next region without control flow.
    Linear,
    /// A control-flow construct (if, while, ...).
    ControlFlow,
    /// A tail, such as a return.
    Tail,
    /// A region removed from the graph by structure analysis.
    Inactive,
}

/// Describes a region.
#[derive(Debug, Clone, Copy, Default, PartialEq, Eq, Hash, Structural)]
pub struct RegionId {
    /// The index of the region.
    pub index: usize,
}

impl RegionId {
    /// Creates a region identifier of the given index.
    pub fn new(index: usize) -> (r: Self)
        ensures
            r.index == index,
    {
        RegionId { index }
    }

    /// The region's name: `RegionId(` and the index in decimal, then `)`.
    pub fn to_string(&self) -> (s: String)
        ensures
            s@ == "RegionId("@ + dec_chars(self.index as nat) + ")"@,
    {
        let mut s = String::new();
        push_str(&mut s, "RegionId(");
        push_dec(&mut s, self.index as u64);
        push_str(&mut s, ")");
        s
    }
}

/// The abstract value of a region: its nodes, unresolved nodes and jump expression by their
/// abstract values, its type, branch opcode and identifier.
pub struct RegionV {
    /// The nodes.
    pub nodes: Seq<AstV>,
    /// The unresolved nodes.
    pub unresolved_nodes: Seq<AstV>,
    /// The jump expression.
    pub jump_expr: Option<ExprV>,
    /// The type.
    pub region_type: RegionType,
    /// The branch opcode.
    pub branch_opcode: Option<Opcode>,
    /// The identifier.
    pub region_id: RegionId,
}

/// Represents a region in the control-flow graph.
#[derive(Debug)]
pub struct Region {
    nodes: Vec<AstKind>,
    unresolved_nodes: Vec<AstKind>,
    jump_expr: Option<ExprKind>,
    region_type: RegionType,
    branch_opcode: Option<Opcode>,
    region_id: RegionId,
}

/// The abstract value of an optional expression.
pub open spec fn opt_expr_v(e: Option<ExprKind>) -> Option<ExprV> {
    match e {
        Some(x) => Some(x@),
        None => None,
    }
}

impl View for Region {
    type V = RegionV;

    closed spec fn view(&self) -> RegionV {
        RegionV {
            nodes: asts_v(self.nodes@),
            unresolved_nodes: asts_v(self.unresolved_nodes@),
            jump_expr: opt_expr_v(self.jump_expr),
            region_type: self.region_type,
            branch_opcode: self.branch_opcode,
            region_id: self.region_id,
        }
    }
}

proof fn lemma_asts_v_push(s: Seq<AstKind>, a: AstKind)
    ensures
        asts_v(s.push(a)) == asts_v(s).push(a@),
{
    assert(s.push(a).drop_last() =~= s);
}

proof fn lemma_asts_v_append(s: Seq<AstKind>, t: Seq<AstKind>)
    ensures
        asts_v(s + t) == asts_v(s) + asts_v(t),
    decreases t.len(),
{
    if t.len() == 0 {
        assert(s + t =~= s);
        assert(asts_v(t) =~= Seq::empty());
        assert(asts_v(s) + asts_v(t) =~= asts_v(s));
    } else {
        lemma_asts_v_append(s, t.drop_last());
        assert((s + t).drop_last() =~= s + t.drop_last());
        assert(asts_v(s + t) =~= asts_v(s) + asts_v(t));
    }
}

impl Region {
    /// Creates a region of the given type and identifier, with no nodes, no jump
    /// expression and no branch opcode.
    pub fn new(region_type: RegionType, region_id: RegionId) -> (r: Self)
        ensures
            r@.nodes == Seq::<AstV>::empty(),
            r@.unresolved_nodes == Seq::<AstV>::empty(),
            r@.jump_expr is None,
            r@.region_type == region_type,
            r@.branch_opcode is None,
            r@.region_id == region_id,
    {
        let r = Region {
            nodes: Vec::new(),
            unresolved_nodes: Vec::new(),
            jump_expr: None,
            region_type,
            branch_opcode: None,
            region_id,
        };
        assert(asts_v(r.nodes@) =~= Seq::<AstV>::empty());
        assert(asts_v(r.unresolved_nodes@) =~= Seq::<AstV>::empty());
        r
    }

    /// The type of the region.
    pub fn region_type(&self) -> (t: &RegionType)
        ensures
            *t == self@.region_type,
    {
        &self.region_type
    }

    /// The identifier of the region.
    pub fn region_id(&self) -> (r: RegionId)
        ensures
            r == self@.region_id,
    {
        self.region_id
    }

    /// Adds a node at the end of the region.
    pub fn push_node(&mut self, node: AstKind)
        ensures
            final(self)@ == (RegionV { nodes: old(self)@.nodes.push(node@), ..old(self)@ }),
    {
        proof {
            lemma_asts_v_push(self.nodes@, node);
        }
        self.nodes.push(node);
    }

    /// Adds an unresolved node at the end of the region.
    pub fn push_unresolved_node(&mut self, node: AstKind)
        ensures
            final(self)@ == (RegionV { unresolved_nodes: old(self)@.unresolved_nodes.push(node@), ..old(self)@ }),
    {
        proof {
            lemma_asts_v_push(self.unresolved_nodes@, node);
        }
        self.unresolved_nodes.push(node);
    }

    /// Adds nodes at the end of the region, in order.
    pub fn push_nodes(&mut self, nodes: Vec<AstKind>)
        ensures
            final(self)@ == (RegionV { nodes: old(self)@.nodes + asts_v(nodes@), ..old(self)@ }),
    {
        let mut nodes = nodes;
        proof {
            lemma_asts_v_append(self.nodes@, nodes@);
        }
        self.nodes.append(&mut nodes);
    }

    /// Adds unresolved nodes at the end of the region, in order.
    pub fn push_unresolved_nodes(&mut self, nodes: Vec<AstKind>)
        ensures
            final(self)@ == (RegionV {
                unresolved_nodes: old(self)@.unresolved_nodes + asts_v(nodes@),
                ..old(self)@
            }),
    {
        let mut nodes = nodes;
        proof {
            lemma_asts_v_append(self.unresolved_nodes@, nodes@);
        }
        self.unresolved_nodes.append(&mut nodes);
    }

    /// Removes all nodes.
    pub fn clear_nodes(&mut self)
        ensures
            final(self)@ == (RegionV { nodes: Seq::<AstV>::empty(), ..old(self)@ }),
    {
        self.nodes.clear();
        assert(asts_v(self.nodes@) =~= Seq::<AstV>::empty());
    }

    /// Removes all unresolved nodes.
    pub fn clear_unresolved_nodes(&mut self)
        ensures
            final(self)@ == (RegionV { unresolved_nodes: Seq::<AstV>::empty(), ..old(self)@ }),
    {
        self.unresolved_nodes.clear();
        assert(asts_v(self.unresolved_nodes@) =~= Seq::<AstV>::empty());
    }

    /// The nodes of the region.
    pub fn get_nodes(&self) -> (n: &Vec<AstKind>)
        ensures
            asts_v(n@) == self@.nodes,
    {
        &self.nodes
    }

    /// The unresolved nodes of the region.
    pub fn get_unresolved_nodes(&self) -> (n: &Vec<AstKind>)
        ensures
            asts_v(n@) == self@.unresolved_nodes,
    {
        &self.unresolved_nodes
    }

    /// The type of the region.
    pub fn get_region_type(&self) -> (t: RegionType)
        ensures
            t == self@.region_type,
    {
        self.region_type
    }

    /// Sets the type of the region.
    pub fn set_region_type(&mut self, region_type: RegionType)
        ensures
            final(self)@ == (RegionV { region_type, ..old(self)@ }),
    {
        self.region_type = region_type;
    }

    /// Removes the jump expression.
    pub fn remove_jump_expr(&mut self)
        ensures
            final(self)@ == (RegionV { jump_expr: None, ..old(self)@ }),
    {
        self.jump_expr = None;
    }

    /// The jump expression, if any.
    pub fn get_jump_expr(&self) -> (e: Option<&ExprKind>)
        ensures
            match e {
                Some(x) => self@.jump_expr == Some(x@),
                None => self@.jump_expr is None,
            },
    {
        match &self.jump_expr {
            Some(x) => Some(x),
            None => None,
        }
    }

    /// A copy of the jump expression, if any.
    pub fn copy_jump_expr(&self) -> (e: Option<ExprKind>)
        ensures
            opt_expr_v(e) == self@.jump_expr,
    {
        match &self.jump_expr {
            Some(x) => Some(copy_expr(x)),
            None => None,
        }
    }

    /// Sets the jump expression.
    pub fn set_jump_expr(&mut self, jump_expr: Option<ExprKind>)
        ensures
            final(self)@ == (RegionV { jump_expr: opt_expr_v(jump_expr), ..old(self)@ }),
    {
        self.jump_expr = jump_expr;
    }

    /// The branch opcode, if any.
    pub fn get_branch_opcode(&self) -> (o: Option<Opcode>)
        ensures
            o == self@.branch_opcode,
    {
        self.branch_opcode
    }

    /// Sets the branch opcode.
    pub fn set_branch_opcode(&mut self, opcode: Opcode)
        ensures
            final(self)@ == (RegionV { branch_opcode: Some(opcode), ..old(self)@ }),
    {
        self.branch_opcode = Some(opcode);
    }

    /// An iterator over the nodes of the region, in order.
    pub fn iter_nodes(&self) -> (it: std::slice::Iter<'_, AstKind>)
        ensures
            asts_v(vstd::std_specs::slice::into_iter_elts(it)) == self@.nodes,
    {
        let sl = self.nodes.as_slice();
        let it = sl.iter();
        proof {
            broadcast use vstd::std_specs::slice::axiom_spec_slice_iter;
            assert(vstd::std_specs::iter::IteratorSpec::remaining(&it) == sl@.as_ref());
            assert(vstd::std_specs::slice::into_iter_elts(it) =~= sl@);
        }
        it
    }
}

/// The context in which the nodes of a region are shown in its label.
pub open spec fn debug_context() -> EmitContext {
    EmitContext { verbosity: EmitVerbosity::Debug, include_ssa_versions: true, ..default_context() }
}

/// The name of a region type.
pub open spec fn region_type_name(t: RegionType) -> Seq<char> {
    match t {
        RegionType::Linear => "Linear"@,
        RegionType::ControlFlow => "ControlFlow"@,
        RegionType::Tail => "Tail"@,
        RegionType::Inactive => "Inactive"@,
    }
}

/// The start of a row of a node's text in a region label.
pub open spec fn line_open(indent: Seq<char>) -> Seq<char> {
    indent + "<TR><TD ALIGN=\"LEFT\"><FONT COLOR=\""@ + GBF_YELLOW@ + "\">"@
}

/// The end of a row of a node's text in a region label.
pub open spec fn line_close() -> Seq<char> {
    "</FONT></TD></TR>\n"@
}

/// The text, HTML-encoded, with each line break closing a row and opening the next.
pub open spec fn lines_body(s: Seq<char>, indent: Seq<char>) -> Seq<char>
    decreases s.len(),
{
    if s.len() == 0 {
        Seq::empty()
    } else {
        lines_body(s.drop_last(), indent) + if s.last() == '\n' {
            line_close() + line_open(indent)
        } else {
            html_char(s.last())
        }
    }
}

/// The rows of a text in a region label: one for each of its lines.
pub open spec fn text_rows(s: Seq<char>, indent: Seq<char>) -> Seq<char> {
    line_open(indent) + lines_body(s, indent) + line_close()
}

/// The rows of the nodes of a region, each shown in `debug_context()`.
pub open spec fn node_rows(nodes: Seq<AstV>, indent: Seq<char>) -> Seq<char>
    decreases nodes.len(),
{
    if nodes.len() == 0 {
        Seq::empty()
    } else {
        node_rows(nodes.drop_last(), indent) + text_rows(ast_text(nodes.last(), debug_context()), indent)
    }
}

/// The rows of a region's jump expression.
pub open spec fn jump_rows(e: ExprV, indent: Seq<char>) -> Seq<char> {
    indent + "    <TR><TD> </TD></TR><TR>\n"@ + indent + "        <TD ALIGN=\"LEFT\"><FONT COLOR=\""@ + GBF_GREEN@
        + "\">JumpExpr: "@ + html_encode_spec(expr_text(e, true, false, true)) + "</FONT></TD>\n"@ + indent
        + "    </TR>\n"@
}

/// The label of a region in a drawing of the graph, indented by `padding` spaces: its
/// identifier, its type, the lines of its nodes and its jump expression.
pub open spec fn region_label(r: RegionV, padding: nat) -> Seq<char> {
    let indent = spaces(padding);
    table_open(indent) + indent + "<TR><TD ALIGN=\"LEFT\"><FONT COLOR=\""@ + GBF_GREEN@ + "\">"@ + html_encode_spec(
        "RegionId("@ + dec_chars(r.region_id.index as nat) + ")"@,
    ) + "</FONT></TD></TR><TR><TD> </TD></TR>\n"@ + indent + "<TR><TD ALIGN=\"LEFT\"><FONT COLOR=\""@ + GBF_GREEN@
        + "\">RegionType: "@ + region_type_name(r.region_type) + "</FONT></TD></TR><TR><TD> </TD></TR>\n"@ + node_rows(
        r.nodes,
        indent,
    ) + match r.jump_expr {
        Some(e) => jump_rows(e, indent),
        None => Seq::empty(),
    } + table_close(indent)
}

/// Appends the rows of a text in a region label.
fn push_text_rows(out: &mut String, text: &str, padding: usize)
    ensures
        final(out)@ == old(out)@ + text_rows(text@, spaces(padding as nat)),
{
    let ghost indent = spaces(padding as nat);
    let ghost start = old(out)@;
    let chars = chars_of(text);
    push_spaces(out, padding);
    push_str(out, "<TR><TD ALIGN=\"LEFT\"><FONT COLOR=\"");
    push_str(out, GBF_YELLOW);
    push_str(out, "\">");
    let ghost head = out@;
    assert(head =~= start + line_open(indent));
    let mut i: usize = 0;
    while i < chars.len()
        invariant
            i <= chars@.len(),
            chars@ == text@,
            indent == spaces(padding as nat),
            out@ == head + lines_body(text@.take(i as int), indent),
        decreases chars@.len() - i,
    {
        let c = chars[i];
        proof {
            assert(text@.take(i + 1).drop_last() =~= text@.take(i as int));
        }
        if c == '\n' {
            push_str(out, "</FONT></TD></TR>\n");
            push_spaces(out, padding);
            push_str(out, "<TR><TD ALIGN=\"LEFT\"><FONT COLOR=\"");
            push_str(out, GBF_YELLOW);
            push_str(out, "\">");
        } else {
            push_html_char(out, c);
        }
        proof {
            assert(out@ =~= head + lines_body(text@.take(i + 1), indent));
        }
        i = i + 1;
    }
    push_str(out, "</FONT></TD></TR>\n");
    proof {
        assert(text@.take(i as int) =~= text@);
        assert(out@ =~= start + text_rows(text@, indent));
    }
}

impl Region {
    /// The label of the region in a drawing of the graph (see `region_label`).
    pub fn render_node(&self, padding: usize) -> (s: String)
        requires
            forall|k: int| 0 <= k < self@.nodes.len() ==> ast_fits(#[trigger] self@.nodes[k], 0, 4),
        ensures
            s@ == region_label(self@, padding as nat),
    {
        let ghost indent = spaces(padding as nat);
        let mut out = String::new();
        push_spaces(&mut out, padding);
        push_str(&mut out, "<TABLE BORDER=\"0\" CELLBORDER=\"0\" CELLSPACING=\"0\" CELLPADDING=\"0\">\n");
        push_spaces(&mut out, padding);
        push_str(&mut out, "<TR><TD ALIGN=\"LEFT\"><FONT COLOR=\"");
        push_str(&mut out, GBF_GREEN);
        push_str(&mut out, "\">");
        let id = html_encode(self.region_id.to_string().as_str());
        push_str(&mut out, id.as_str());
        push_str(&mut out, "</FONT></TD></TR><TR><TD> </TD></TR>\n");
        push_spaces(&mut out, padding);
        push_str(&mut out, "<TR><TD ALIGN=\"LEFT\"><FONT COLOR=\"");
        push_str(&mut out, GBF_GREEN);
        push_str(&mut out, "\">RegionType: ");
        let kind_name = match self.region_type {
            RegionType::Linear => "Linear",
            RegionType::ControlFlow => "ControlFlow",
            RegionType::Tail => "Tail",
            RegionType::Inactive => "Inactive",
        };
        push_str(&mut out, kind_name);
        push_str(&mut out, "</FONT></TD></TR><TR><TD> </TD></TR>\n");
        let ghost head = out@;
        let ghost nodes = self@.nodes;
        proof {
            lemma_asts_v(self.nodes@);
        }
        let context = EmitContextBuilder::default().verbosity(EmitVerbosity::Debug).include_ssa_versions(true).build();
        let mut emitter = Gs2Emitter::new(context);
        let mut k: usize = 0;
        while k < self.nodes.len()
            invariant
                k <= self.nodes@.len(),
                nodes == self@.nodes,
                nodes.len() == self.nodes@.len(),
                forall|j: int| 0 <= j < nodes.len() ==> #[trigger] nodes[j] == self.nodes@[j]@,
                forall|j: int| 0 <= j < nodes.len() ==> ast_fits(#[trigger] nodes[j], 0, 4),
                emitter.context == debug_context(),
                indent == spaces(padding as nat),
                out@ == head + node_rows(nodes.take(k as int), indent),
            decreases self.nodes@.len() - k,
        {
            proof {
                assert(nodes[k as int] == self.nodes@[k as int]@);
            }
            let text = emitter.visit_node(&self.nodes[k]);
            push_text_rows(&mut out, text.as_str(), padding);
            proof {
                assert(nodes.take(k + 1).drop_last() =~= nodes.take(k as int));
                assert(nodes.take(k + 1).last() == nodes[k as int]);
                assert(out@ =~= head + node_rows(nodes.take(k + 1), indent));
            }
            k = k + 1;
        }
        proof {
            assert(nodes.take(k as int) =~= nodes);
        }
        let ghost rows = out@;
        match &self.jump_expr {
            Some(e) => {
                let pretty = EmitContextBuilder::default().include_ssa_versions(true).build();
                let mut jump_emitter = Gs2Emitter::new(pretty);
                let text = html_encode(jump_emitter.visit_expr(e).as_str());
                push_spaces(&mut out, padding);
                push_str(&mut out, "    <TR><TD> </TD></TR><TR>\n");
                push_spaces(&mut out, padding);
                push_str(&mut out, "        <TD ALIGN=\"LEFT\"><FONT COLOR=\"");
                push_str(&mut out, GBF_GREEN);
                push_str(&mut out, "\">JumpExpr: ");
                push_str(&mut out, text.as_str());
                push_str(&mut out, "</FONT></TD>\n");
                push_spaces(&mut out, padding);
                push_str(&mut out, "    </TR>\n");
                assert(out@ =~= rows + jump_rows(e@, indent));
            },
            None => {},
        }
        push_spaces(&mut out, padding);
        push_str(&mut out, "</TABLE>\n");
        assert(out@ =~= region_label(self@, padding as nat));
        out
    }
}

} // verus!
