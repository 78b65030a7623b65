use vstd::prelude::*;

verus! {

/// Represents a literal.
#[derive(Debug, PartialEq, Eq, Hash)]
pub enum LiteralNode {
    /// A string literal.
    String(String),
    /// A number literal.
    Number(i32),
    /// A floating point number literal (represented in GS2 as a string).
    Float(String),
    /// A boolean literal.
    Boolean(bool),
    /// A null literal.
    Null,
}

} // verus!
