use vstd::prelude::*;

use crate::decompiler::ast::ssa::SsaVersion;

verus! {

/// An identifier, with the SSA version of the variable it names, if any.
#[derive(Debug, PartialEq, Eq, Hash)]
pub struct IdentifierNode {
    /// The name.
    pub id: String,
    /// The SSA version of the variable.
    pub ssa_version: Option<SsaVersion>,
}

impl IdentifierNode {
    /// Creates an identifier without an SSA version.
    pub fn new(s: &str) -> (n: Self)
        ensures
            n.id@ == s@,
            n.ssa_version is None,
    {
        IdentifierNode { id: String::from_str(s), ssa_version: None }
    }

    /// Creates an identifier with an SSA version.
    pub fn with_ssa(s: &str, ssa_version: SsaVersion) -> (n: Self)
        ensures
            n.id@ == s@,
            n.ssa_version == Some(ssa_version),
    {
        IdentifierNode { id: String::from_str(s), ssa_version: Some(ssa_version) }
    }

    /// Returns the name.
    pub fn id(&self) -> (s: &String)
        ensures
            s@ == self.id@,
    {
        &self.id
    }

    /// Returns the name as a string slice.
    pub fn as_str(&self) -> (s: &str)
        ensures
            s@ == self.id@,
    {
        self.id.as_str()
    }
}

} // verus!
