use vstd::prelude::*;

use crate::decompiler::ast::expr::ExprKind;
use crate::decompiler::ast::copies::{copy_ast, copy_exprs};
use crate::decompiler::ast::view::{exprs_v, AstV, ExprV};
use crate::decompiler::ast::AstKind;

verus! {

/// Represents the state of execution for the decompiler.
#[derive(Debug, PartialEq)]
pub enum ExecutionFrame {
    /// The decompiler is currently building a standalone node.
    StandaloneNode(AstKind),
    /// The decompiler is currently building an array.
    BuildingArray(Vec<ExprKind>),
}

/// The abstract value of a frame: the node it holds, or the elements of the array it builds.
pub enum FrameV {
    /// A standalone node.
    Standalone(AstV),
    /// An array being built, with its elements in the order they were pushed.
    Building(Seq<ExprV>),
}

impl View for ExecutionFrame {
    type V = FrameV;

    open spec fn view(&self) -> FrameV {
        match *self {
            ExecutionFrame::StandaloneNode(a) => FrameV::Standalone(a@),
            ExecutionFrame::BuildingArray(v) => FrameV::Building(exprs_v(v@)),
        }
    }
}

/// The abstract values of a stack of frames, bottom first.
pub open spec fn frames_v(s: Seq<ExecutionFrame>) -> Seq<FrameV> {
    s.map_values(|f: ExecutionFrame| f@)
}

impl Clone for ExecutionFrame {
    /// Copies the frame.
    fn clone(&self) -> (f: Self)
        ensures
            match (*self, f) {
                (ExecutionFrame::StandaloneNode(a), ExecutionFrame::StandaloneNode(b)) => b@ == a@,
                (ExecutionFrame::BuildingArray(a), ExecutionFrame::BuildingArray(b)) => exprs_v(b@) == exprs_v(a@),
                _ => false,
            },
            f@ == self@,
    {
        match self {
            ExecutionFrame::StandaloneNode(a) => ExecutionFrame::StandaloneNode(copy_ast(a)),
            ExecutionFrame::BuildingArray(v) => ExecutionFrame::BuildingArray(copy_exprs(v)),
        }
    }
}

impl ExecutionFrame {
    /// The name of the frame's kind.
    pub fn to_string(&self) -> (s: String)
        ensures
            s@ == match self {
                ExecutionFrame::StandaloneNode(_) => "StandaloneNode"@,
                ExecutionFrame::BuildingArray(_) => "BuildingArray"@,
            },
    {
        match self {
            ExecutionFrame::BuildingArray(_) => String::from_str("BuildingArray"),
            ExecutionFrame::StandaloneNode(_) => String::from_str("StandaloneNode"),
        }
    }
}

} // verus!
