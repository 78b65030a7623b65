use vstd::prelude::*;

use crate::text::{hex_chars, push_hex, push_str};
use crate::utils::Gs2BytecodeAddress;

verus! {

/// Represents an error that can occur when reading an operand.
#[derive(Debug, Clone, PartialEq, Eq)]
pub enum OperandError {
    /// The operand has another kind than the one asked for: the kind it has, then the kind
    /// asked for.
    InvalidConversion(String, String),
    /// A jump target lies outside of the instructions.
    InvalidJumpTarget(Gs2BytecodeAddress),
}

/// The abstract value of an operand error.
pub enum OperandErrorView {
    /// The kind the operand has, then the kind asked for.
    InvalidConversion(Seq<char>, Seq<char>),
    /// A jump target lies outside of the instructions.
    InvalidJumpTarget(Gs2BytecodeAddress),
}

impl View for OperandError {
    type V = OperandErrorView;

    open spec fn view(&self) -> OperandErrorView {
        match self {
            OperandError::InvalidConversion(a, b) => OperandErrorView::InvalidConversion(a@, b@),
            OperandError::InvalidJumpTarget(t) => OperandErrorView::InvalidJumpTarget(*t),
        }
    }
}

/// Represents an operand, which can be one of several types.
#[derive(Debug, PartialEq, Eq, Hash)]
pub enum Operand {
    /// A string operand.
    String(String),
    /// A floating-point operand (stored as a string).
    Float(String),
    /// An integer operand.
    Number(i32),
}

/// The abstract value of an operand.
pub enum OperandView {
    /// A string operand.
    String(Seq<char>),
    /// A floating-point operand, as its text.
    Float(Seq<char>),
    /// An integer operand.
    Number(i32),
}

impl View for Operand {
    type V = OperandView;

    open spec fn view(&self) -> OperandView {
        match self {
            Operand::String(s) => OperandView::String(s@),
            Operand::Float(s) => OperandView::Float(s@),
            Operand::Number(v) => OperandView::Number(*v),
        }
    }
}

impl Clone for Operand {
    fn clone(&self) -> (r: Self)
        ensures
            r@ == self@,
    {
        match self {
            Operand::String(s) => Operand::String(s.clone()),
            Operand::Float(s) => Operand::Float(s.clone()),
            Operand::Number(v) => Operand::Number(*v),
        }
    }
}

/// The text of an operand: the string itself, or the number in hexadecimal with a "0x"
/// prefix, negative numbers shown in two's complement.
pub open spec fn operand_text(op: OperandView) -> Seq<char> {
    match op {
        OperandView::String(s) => s,
        OperandView::Float(s) => s,
        OperandView::Number(v) => "0x"@ + hex_chars(v as u32 as nat, false),
    }
}

impl Operand {
    /// Creates a new string operand.
    pub fn new_string(value: &str) -> (op: Self)
        ensures
            op@ == OperandView::String(value@),
    {
        Operand::String(String::from_str(value))
    }

    /// Creates a new float operand.
    pub fn new_float(value: &str) -> (op: Self)
        ensures
            op@ == OperandView::Float(value@),
    {
        Operand::Float(String::from_str(value))
    }

    /// Creates a new number operand.
    pub fn new_number(value: i32) -> (op: Self)
        ensures
            op == Operand::Number(value),
    {
        Operand::Number(value)
    }

    /// The text of a string or float operand.
    pub fn get_string_value(&self) -> (r: Result<&str, OperandError>)
        ensures
            match *self {
                Operand::String(s) => r matches Ok(v) && v@ == s@,
                Operand::Float(s) => r matches Ok(v) && v@ == s@,
                Operand::Number(_) => r matches Err(OperandError::InvalidConversion(a, b))
                    && a@ == "Number"@ && b@ == "String"@,
            },
    {
        match self {
            Operand::String(value) => Ok(value.as_str()),
            Operand::Float(value) => Ok(value.as_str()),
            Operand::Number(_) => Err(
                OperandError::InvalidConversion(String::from_str("Number"), String::from_str("String")),
            ),
        }
    }

    /// The value of a number operand.
    pub fn get_number_value(&self) -> (r: Result<i32, OperandError>)
        ensures
            match *self {
                Operand::Number(v) => r == Ok::<i32, OperandError>(v),
                _ => r matches Err(OperandError::InvalidConversion(a, b)) && a@ == "String/Float"@
                    && b@ == "Number"@,
            },
    {
        match self {
            Operand::Number(value) => Ok(*value),
            _ => Err(
                OperandError::InvalidConversion(
                    String::from_str("String/Float"),
                    String::from_str("Number"),
                ),
            ),
        }
    }

    /// The text of the operand (see `operand_text`).
    pub fn to_string(&self) -> (s: String)
        ensures
            s@ == operand_text(self@),
    {
        match self {
            Operand::String(value) => value.clone(),
            Operand::Float(value) => value.clone(),
            Operand::Number(value) => {
                let mut s = String::from_str("0x");
                push_hex(&mut s, (*value as u32) as u64, false);
                s
            },
        }
    }
}

} // verus!
