use vstd::prelude::*;

verus! {

/// Represents the verbosity mode in which the AST should be emitted.
#[derive(Debug, Clone, Copy, PartialEq, Eq, Structural)]
pub enum EmitVerbosity {
    /// Readable by humans.
    Pretty,
    /// Readable by the parser: no comments.
    Minified,
    /// Useful for debugging.
    Debug,
}

/// Represents the formatting indentation style for blocks of code.
#[derive(Debug, Clone, Copy, PartialEq, Eq, Structural)]
pub enum IndentStyle {
    /// The opening brace on a line of its own.
    Allman,
    /// The opening brace at the end of the line.
    KAndR,
}

/// Contains the emitting context for the AST.
#[derive(Debug, Clone, Copy, PartialEq, Eq, Structural)]
pub struct EmitContext {
    /// The current indentation level.
    pub indent: usize,
    /// The number of spaces to indent by.
    pub indent_step: usize,
    /// Whether to format numbers in hexadecimal.
    pub format_number_hex: bool,
    /// The mode in which to emit the AST.
    pub verbosity: EmitVerbosity,
    /// The style of indentation to use.
    pub indent_style: IndentStyle,
    /// Whether the expression being emitted is the root of its expression tree.
    pub expr_root: bool,
    /// Whether to include SSA versions in the emitted code.
    pub include_ssa_versions: bool,
}

/// The context one indentation step further in.
pub open spec fn indented(c: EmitContext) -> EmitContext {
    EmitContext { indent: (c.indent + c.indent_step) as usize, ..c }
}

/// The default context: no indentation, steps of 4, decimal numbers, pretty, Allman style,
/// at the root of expressions, without SSA versions.
pub open spec fn default_context() -> EmitContext {
    EmitContext {
        indent: 0,
        indent_step: 4,
        format_number_hex: false,
        verbosity: EmitVerbosity::Pretty,
        indent_style: IndentStyle::Allman,
        expr_root: true,
        include_ssa_versions: false,
    }
}

impl EmitContext {
    /// Applies `action` to the context, which it may change, and gives what `action` returns.
    pub fn scoped<F: FnOnce(&mut EmitContext) -> EmitContext>(&mut self, action: F) -> (r: EmitContext)
        requires
            forall|c: &mut EmitContext| action.requires((c,)),
        ensures
            exists|c: &mut EmitContext| *c == *old(self) && *final(c) == *final(self) && action.ensures((c,), r),
    {
        action(self)
    }

    /// The context one indentation step further in.
    pub fn with_indent(&self) -> (c: EmitContext)
        requires
            self.indent + self.indent_step <= usize::MAX,
        ensures
            c == indented(*self),
    {
        let mut new_context = *self;
        new_context.indent = self.indent + self.indent_step;
        new_context
    }

    /// The context with `expr_root` set.
    pub fn with_expr_root(&self, expr_root: bool) -> (c: EmitContext)
        ensures
            c == (EmitContext { expr_root, ..*self }),
    {
        let mut new_context = *self;
        new_context.expr_root = expr_root;
        new_context
    }

    /// A builder with the default settings.
    pub fn builder() -> (b: EmitContextBuilder)
        ensures
            b@ == default_context(),
    {
        EmitContextBuilder::default()
    }
}

/// Builder for `EmitContext`.
#[derive(Debug, Clone)]
pub struct EmitContextBuilder {
    indent: usize,
    indent_step: usize,
    format_number_hex: bool,
    verbosity: EmitVerbosity,
    indent_style: IndentStyle,
    expr_root: bool,
    include_ssa_versions: bool,
}

impl View for EmitContextBuilder {
    type V = EmitContext;

    closed spec fn view(&self) -> EmitContext {
        EmitContext {
            indent: self.indent,
            indent_step: self.indent_step,
            format_number_hex: self.format_number_hex,
            verbosity: self.verbosity,
            indent_style: self.indent_style,
            expr_root: self.expr_root,
            include_ssa_versions: self.include_ssa_versions,
        }
    }
}

impl EmitContextBuilder {
    /// Sets the initial indentation level.
    pub fn indent(self, indent: usize) -> (b: Self)
        ensures
            b@ == (EmitContext { indent, ..self@ }),
    {
        EmitContextBuilder { indent, ..self }
    }

    /// Sets the number of spaces per indentation step.
    pub fn indent_step(self, indent_step: usize) -> (b: Self)
        ensures
            b@ == (EmitContext { indent_step, ..self@ }),
    {
        EmitContextBuilder { indent_step, ..self }
    }

    /// Sets whether to format numbers in hexadecimal.
    pub fn format_number_hex(self, format_number_hex: bool) -> (b: Self)
        ensures
            b@ == (EmitContext { format_number_hex, ..self@ }),
    {
        EmitContextBuilder { format_number_hex, ..self }
    }

    /// Sets the verbosity mode.
    pub fn verbosity(self, verbosity: EmitVerbosity) -> (b: Self)
        ensures
            b@ == (EmitContext { verbosity, ..self@ }),
    {
        EmitContextBuilder { verbosity, ..self }
    }

    /// Sets the indentation style.
    pub fn indent_style(self, indent_style: IndentStyle) -> (b: Self)
        ensures
            b@ == (EmitContext { indent_style, ..self@ }),
    {
        EmitContextBuilder { indent_style, ..self }
    }

    /// Sets whether emission starts at the root of an expression.
    pub fn expr_root(self, expr_root: bool) -> (b: Self)
        ensures
            b@ == (EmitContext { expr_root, ..self@ }),
    {
        EmitContextBuilder { expr_root, ..self }
    }

    /// Sets whether to include SSA versions.
    pub fn include_ssa_versions(self, include_ssa_versions: bool) -> (b: Self)
        ensures
            b@ == (EmitContext { include_ssa_versions, ..self@ }),
    {
        EmitContextBuilder { include_ssa_versions, ..self }
    }

    /// Builds the context.
    pub fn build(self) -> (c: EmitContext)
        ensures
            c == self@,
    {
        EmitContext {
            indent: self.indent,
            indent_step: self.indent_step,
            format_number_hex: self.format_number_hex,
            verbosity: self.verbosity,
            indent_style: self.indent_style,
            expr_root: self.expr_root,
            include_ssa_versions: self.include_ssa_versions,
        }
    }
}

impl Default for EmitContextBuilder {
    fn default() -> (b: Self)
        ensures
            b@ == default_context(),
    {
        EmitContextBuilder {
            indent: 0,
            indent_step: 4,
            format_number_hex: false,
            verbosity: EmitVerbosity::Pretty,
            indent_style: IndentStyle::Allman,
            expr_root: true,
            include_ssa_versions: false,
        }
    }
}

impl Default for EmitContext {
    fn default() -> (c: Self)
        ensures
            c == default_context(),
    {
        EmitContextBuilder::default().build()
    }
}

} // verus!
