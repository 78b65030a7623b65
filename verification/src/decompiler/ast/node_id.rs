use vstd::prelude::*;

use crate::text::{dec_chars, push_dec};

verus! {

/// An identifier for an AST node.
#[derive(Debug, Clone, Copy, PartialEq, Eq, Hash, Structural)]
pub struct NodeId(pub usize);

impl NodeId {
    /// The identifier with the given number. Identifiers are handed out by the code that
    /// builds a tree; nodes built without one get identifier 0.
    pub fn new(id: usize) -> (n: Self)
        ensures
            n.0 == id,
    {
        NodeId(id)
    }

    /// Returns the underlying numeric id.
    pub fn get(self) -> (r: usize)
        ensures
            r == self.0,
    {
        self.0
    }

    /// The text of the identifier: "N" and its number.
    pub fn to_string(&self) -> (s: String)
        ensures
            s@ == "N"@ + dec_chars(self.0 as nat),
    {
        let mut s = String::from_str("N");
        push_dec(&mut s, self.0 as u64);
        s
    }
}

impl Default for NodeId {
    fn default() -> (n: Self)
        ensures
            n.0 == 0,
    {
        NodeId(0)
    }
}

} // verus!
