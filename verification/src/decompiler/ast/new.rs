use vstd::prelude::*;

use crate::decompiler::ast::expr::ExprKind;
use crate::decompiler::ast::AstNodeError;

verus! {

/// The creation of an object, such as `new TStaticVar("name")`.
#[derive(Debug, PartialEq, Eq)]
pub struct NewNode {
    /// The type of object to create.
    pub new_type: ExprKind,
    /// The argument passed to the object.
    pub arg: ExprKind,
}

impl NewNode {
    /// Creates an object creation; every pair of operands is accepted.
    pub fn new(new_type: ExprKind, arg: ExprKind) -> (r: Result<Self, AstNodeError>)
        ensures
            r matches Ok(n) && n.new_type == new_type && n.arg == arg,
    {
        Ok(NewNode { new_type, arg })
    }
}

} // verus!
