use vstd::prelude::*;

verus! {

/// An error when decoding an opcode.
#[derive(Debug, Clone, Copy, PartialEq, Eq)]
pub enum OpcodeError {
    /// The byte does not name an opcode.
    InvalidOpcode(u8),
}

/// An instruction opcode of GS2 bytecode.
#[derive(Debug, Clone, Copy, PartialEq, Eq, Hash, Structural)]
pub enum Opcode {
    /// The `Jmp` instruction (byte 0x01).
    Jmp,
    /// The `Jeq` instruction (byte 0x02).
    Jeq,
    /// The `ShortCircuitOr` instruction (byte 0x03).
    ShortCircuitOr,
    /// The `Jne` instruction (byte 0x04).
    Jne,
    /// The `ShortCircuitAnd` instruction (byte 0x05).
    ShortCircuitAnd,
    /// The `Call` instruction (byte 0x06).
    Call,
    /// The `Ret` instruction (byte 0x07).
    Ret,
    /// The `Sleep` instruction (byte 0x08).
    Sleep,
    /// The `IncreaseLoopCounter` instruction (byte 0x09).
    IncreaseLoopCounter,
    /// The `FunctionStart` instruction (byte 0x0A).
    FunctionStart,
    /// The `WaitFor` instruction (byte 0x0B).
    WaitFor,
    /// The `With` instruction (byte 0x0C).
    With,
    /// The `WithEnd` instruction (byte 0x0D).
    WithEnd,
    /// The `ForEach` instruction (byte 0x11).
    ForEach,
    /// The `PushNumber` instruction (byte 0x14).
    PushNumber,
    /// The `PushString` instruction (byte 0x15).
    PushString,
    /// The `PushVariable` instruction (byte 0x16).
    PushVariable,
    /// The `PushArray` instruction (byte 0x17).
    PushArray,
    /// The `PushTrue` instruction (byte 0x18).
    PushTrue,
    /// The `PushFalse` instruction (byte 0x19).
    PushFalse,
    /// The `PushNull` instruction (byte 0x1A).
    PushNull,
    /// The `Pi` instruction (byte 0x1B).
    Pi,
    /// The `Copy` instruction (byte 0x1E).
    Copy,
    /// The `Swap` instruction (byte 0x1F).
    Swap,
    /// The `Pop` instruction (byte 0x20).
    Pop,
    /// The `ConvertToFloat` instruction (byte 0x21).
    ConvertToFloat,
    /// The `ConvertToString` instruction (byte 0x22).
    ConvertToString,
    /// The `AccessMember` instruction (byte 0x23).
    AccessMember,
    /// The `ConvertToObject` instruction (byte 0x24).
    ConvertToObject,
    /// The `EndArray` instruction (byte 0x25).
    EndArray,
    /// The `NewUninitializedArray` instruction (byte 0x26).
    NewUninitializedArray,
    /// The `SetArray` instruction (byte 0x27).
    SetArray,
    /// The `NewObject` instruction (byte 0x28).
    NewObject,
    /// The `MakeVar` instruction (byte 0x29).
    MakeVar,
    /// The `Assign` instruction (byte 0x32).
    Assign,
    /// The `EndParams` instruction (byte 0x33).
    EndParams,
    /// The `Inc` instruction (byte 0x34).
    Inc,
    /// The `Dec` instruction (byte 0x35).
    Dec,
    /// The `Add` instruction (byte 0x3C).
    Add,
    /// The `Subtract` instruction (byte 0x3D).
    Subtract,
    /// The `Multiply` instruction (byte 0x3E).
    Multiply,
    /// The `Divide` instruction (byte 0x3F).
    Divide,
    /// The `Modulo` instruction (byte 0x40).
    Modulo,
    /// The `Power` instruction (byte 0x41).
    Power,
    /// The `ShiftLeft` instruction (byte 0x42).
    ShiftLeft,
    /// The `ShiftRight` instruction (byte 0x43).
    ShiftRight,
    /// The `LogicalNot` instruction (byte 0x44).
    LogicalNot,
    /// The `UnarySubtract` instruction (byte 0x45).
    UnarySubtract,
    /// The `Equal` instruction (byte 0x46).
    Equal,
    /// The `NotEqual` instruction (byte 0x47).
    NotEqual,
    /// The `LessThan` instruction (byte 0x48).
    LessThan,
    /// The `GreaterThan` instruction (byte 0x49).
    GreaterThan,
    /// The `LessThanOrEqual` instruction (byte 0x4A).
    LessThanOrEqual,
    /// The `GreaterThanOrEqual` instruction (byte 0x4B).
    GreaterThanOrEqual,
    /// The `BitwiseOr` instruction (byte 0x4C).
    BitwiseOr,
    /// The `BitwiseAnd` instruction (byte 0x4D).
    BitwiseAnd,
    /// The `BitwiseXor` instruction (byte 0x4E).
    BitwiseXor,
    /// The `BitwiseInvert` instruction (byte 0x4F).
    BitwiseInvert,
    /// The `In` instruction (byte 0x50).
    In,
    /// The `ArrayAccess` instruction (byte 0x52).
    ArrayAccess,
    /// The `Join` instruction (byte 0x71).
    Join,
    /// The `ImmStringByte` instruction (byte 0xF0).
    ImmStringByte,
    /// The `ImmStringShort` instruction (byte 0xF1).
    ImmStringShort,
    /// The `ImmStringInt` instruction (byte 0xF2).
    ImmStringInt,
    /// The `ImmByte` instruction (byte 0xF3).
    ImmByte,
    /// The `ImmShort` instruction (byte 0xF4).
    ImmShort,
    /// The `ImmInt` instruction (byte 0xF5).
    ImmInt,
    /// The `ImmFloat` instruction (byte 0xF6).
    ImmFloat,
}

/// The byte that encodes an opcode.
pub open spec fn opcode_byte(op: Opcode) -> u8 {
    match op {
        Opcode::Jmp => 0x01,
        Opcode::Jeq => 0x02,
        Opcode::ShortCircuitOr => 0x03,
        Opcode::Jne => 0x04,
        Opcode::ShortCircuitAnd => 0x05,
        Opcode::Call => 0x06,
        Opcode::Ret => 0x07,
        Opcode::Sleep => 0x08,
        Opcode::IncreaseLoopCounter => 0x09,
        Opcode::FunctionStart => 0x0A,
        Opcode::WaitFor => 0x0B,
        Opcode::With => 0x0C,
        Opcode::WithEnd => 0x0D,
        Opcode::ForEach => 0x11,
        Opcode::PushNumber => 0x14,
        Opcode::PushString => 0x15,
        Opcode::PushVariable => 0x16,
        Opcode::PushArray => 0x17,
        Opcode::PushTrue => 0x18,
        Opcode::PushFalse => 0x19,
        Opcode::PushNull => 0x1A,
        Opcode::Pi => 0x1B,
        Opcode::Copy => 0x1E,
        Opcode::Swap => 0x1F,
        Opcode::Pop => 0x20,
        Opcode::ConvertToFloat => 0x21,
        Opcode::ConvertToString => 0x22,
        Opcode::AccessMember => 0x23,
        Opcode::ConvertToObject => 0x24,
        Opcode::EndArray => 0x25,
        Opcode::NewUninitializedArray => 0x26,
        Opcode::SetArray => 0x27,
        Opcode::NewObject => 0x28,
        Opcode::MakeVar => 0x29,
        Opcode::Assign => 0x32,
        Opcode::EndParams => 0x33,
        Opcode::Inc => 0x34,
        Opcode::Dec => 0x35,
        Opcode::Add => 0x3C,
        Opcode::Subtract => 0x3D,
        Opcode::Multiply => 0x3E,
        Opcode::Divide => 0x3F,
        Opcode::Modulo => 0x40,
        Opcode::Power => 0x41,
        Opcode::ShiftLeft => 0x42,
        Opcode::ShiftRight => 0x43,
        Opcode::LogicalNot => 0x44,
        Opcode::UnarySubtract => 0x45,
        Opcode::Equal => 0x46,
        Opcode::NotEqual => 0x47,
        Opcode::LessThan => 0x48,
        Opcode::GreaterThan => 0x49,
        Opcode::LessThanOrEqual => 0x4A,
        Opcode::GreaterThanOrEqual => 0x4B,
        Opcode::BitwiseOr => 0x4C,
        Opcode::BitwiseAnd => 0x4D,
        Opcode::BitwiseXor => 0x4E,
        Opcode::BitwiseInvert => 0x4F,
        Opcode::In => 0x50,
        Opcode::ArrayAccess => 0x52,
        Opcode::Join => 0x71,
        Opcode::ImmStringByte => 0xF0,
        Opcode::ImmStringShort => 0xF1,
        Opcode::ImmStringInt => 0xF2,
        Opcode::ImmByte => 0xF3,
        Opcode::ImmShort => 0xF4,
        Opcode::ImmInt => 0xF5,
        Opcode::ImmFloat => 0xF6,
    }
}

/// The opcode that a byte encodes, if any.
pub open spec fn opcode_of_byte(b: u8) -> Option<Opcode> {
    if b == 0x01 {
        Some(Opcode::Jmp)
    } else if b == 0x02 {
        Some(Opcode::Jeq)
    } else if b == 0x03 {
        Some(Opcode::ShortCircuitOr)
    } else if b == 0x04 {
        Some(Opcode::Jne)
    } else if b == 0x05 {
        Some(Opcode::ShortCircuitAnd)
    } else if b == 0x06 {
        Some(Opcode::Call)
    } else if b == 0x07 {
        Some(Opcode::Ret)
    } else if b == 0x08 {
        Some(Opcode::Sleep)
    } else if b == 0x09 {
        Some(Opcode::IncreaseLoopCounter)
    } else if b == 0x0A {
        Some(Opcode::FunctionStart)
    } else if b == 0x0B {
        Some(Opcode::WaitFor)
    } else if b == 0x0C {
        Some(Opcode::With)
    } else if b == 0x0D {
        Some(Opcode::WithEnd)
    } else if b == 0x11 {
        Some(Opcode::ForEach)
    } else if b == 0x14 {
        Some(Opcode::PushNumber)
    } else if b == 0x15 {
        Some(Opcode::PushString)
    } else if b == 0x16 {
        Some(Opcode::PushVariable)
    } else if b == 0x17 {
        Some(Opcode::PushArray)
    } else if b == 0x18 {
        Some(Opcode::PushTrue)
    } else if b == 0x19 {
        Some(Opcode::PushFalse)
    } else if b == 0x1A {
        Some(Opcode::PushNull)
    } else if b == 0x1B {
        Some(Opcode::Pi)
    } else if b == 0x1E {
        Some(Opcode::Copy)
    } else if b == 0x1F {
        Some(Opcode::Swap)
    } else if b == 0x20 {
        Some(Opcode::Pop)
    } else if b == 0x21 {
        Some(Opcode::ConvertToFloat)
    } else if b == 0x22 {
        Some(Opcode::ConvertToString)
    } else if b == 0x23 {
        Some(Opcode::AccessMember)
    } else if b == 0x24 {
        Some(Opcode::ConvertToObject)
    } else if b == 0x25 {
        Some(Opcode::EndArray)
    } else if b == 0x26 {
        Some(Opcode::NewUninitializedArray)
    } else if b == 0x27 {
        Some(Opcode::SetArray)
    } else if b == 0x28 {
        Some(Opcode::NewObject)
    } else if b == 0x29 {
        Some(Opcode::MakeVar)
    } else if b == 0x32 {
        Some(Opcode::Assign)
    } else if b == 0x33 {
        Some(Opcode::EndParams)
    } else if b == 0x34 {
        Some(Opcode::Inc)
    } else if b == 0x35 {
        Some(Opcode::Dec)
    } else if b == 0x3C {
        Some(Opcode::Add)
    } else if b == 0x3D {
        Some(Opcode::Subtract)
    } else if b == 0x3E {
        Some(Opcode::Multiply)
    } else if b == 0x3F {
        Some(Opcode::Divide)
    } else if b == 0x40 {
        Some(Opcode::Modulo)
    } else if b == 0x41 {
        Some(Opcode::Power)
    } else if b == 0x42 {
        Some(Opcode::ShiftLeft)
    } else if b == 0x43 {
        Some(Opcode::ShiftRight)
    } else if b == 0x44 {
        Some(Opcode::LogicalNot)
    } else if b == 0x45 {
        Some(Opcode::UnarySubtract)
    } else if b == 0x46 {
        Some(Opcode::Equal)
    } else if b == 0x47 {
        Some(Opcode::NotEqual)
    } else if b == 0x48 {
        Some(Opcode::LessThan)
    } else if b == 0x49 {
        Some(Opcode::GreaterThan)
    } else if b == 0x4A {
        Some(Opcode::LessThanOrEqual)
    } else if b == 0x4B {
        Some(Opcode::GreaterThanOrEqual)
    } else if b == 0x4C {
        Some(Opcode::BitwiseOr)
    } else if b == 0x4D {
        Some(Opcode::BitwiseAnd)
    } else if b == 0x4E {
        Some(Opcode::BitwiseXor)
    } else if b == 0x4F {
        Some(Opcode::BitwiseInvert)
    } else if b == 0x50 {
        Some(Opcode::In)
    } else if b == 0x52 {
        Some(Opcode::ArrayAccess)
    } else if b == 0x71 {
        Some(Opcode::Join)
    } else if b == 0xF0 {
        Some(Opcode::ImmStringByte)
    } else if b == 0xF1 {
        Some(Opcode::ImmStringShort)
    } else if b == 0xF2 {
        Some(Opcode::ImmStringInt)
    } else if b == 0xF3 {
        Some(Opcode::ImmByte)
    } else if b == 0xF4 {
        Some(Opcode::ImmShort)
    } else if b == 0xF5 {
        Some(Opcode::ImmInt)
    } else if b == 0xF6 {
        Some(Opcode::ImmFloat)
    } else {
        None
    }
}

/// The name of an opcode, as it is displayed.
pub open spec fn opcode_name(op: Opcode) -> Seq<char> {
    match op {
        Opcode::Jmp => "Jmp"@,
        Opcode::Jeq => "Jeq"@,
        Opcode::ShortCircuitOr => "ShortCircuitOr"@,
        Opcode::Jne => "Jne"@,
        Opcode::ShortCircuitAnd => "ShortCircuitAnd"@,
        Opcode::Call => "Call"@,
        Opcode::Ret => "Ret"@,
        Opcode::Sleep => "Sleep"@,
        Opcode::IncreaseLoopCounter => "IncreaseLoopCounter"@,
        Opcode::FunctionStart => "FunctionStart"@,
        Opcode::WaitFor => "WaitFor"@,
        Opcode::With => "With"@,
        Opcode::WithEnd => "WithEnd"@,
        Opcode::ForEach => "ForEach"@,
        Opcode::PushNumber => "PushNumber"@,
        Opcode::PushString => "PushString"@,
        Opcode::PushVariable => "PushVariable"@,
        Opcode::PushArray => "PushArray"@,
        Opcode::PushTrue => "PushTrue"@,
        Opcode::PushFalse => "PushFalse"@,
        Opcode::PushNull => "PushNull"@,
        Opcode::Pi => "Pi"@,
        Opcode::Copy => "Copy"@,
        Opcode::Swap => "Swap"@,
        Opcode::Pop => "Pop"@,
        Opcode::ConvertToFloat => "ConvertToFloat"@,
        Opcode::ConvertToString => "ConvertToString"@,
        Opcode::AccessMember => "AccessMember"@,
        Opcode::ConvertToObject => "ConvertToObject"@,
        Opcode::EndArray => "EndArray"@,
        Opcode::NewUninitializedArray => "NewUninitializedArray"@,
        Opcode::SetArray => "SetArray"@,
        Opcode::NewObject => "NewObject"@,
        Opcode::MakeVar => "MakeVar"@,
        Opcode::Assign => "Assign"@,
        Opcode::EndParams => "EndParams"@,
        Opcode::Inc => "Inc"@,
        Opcode::Dec => "Dec"@,
        Opcode::Add => "Add"@,
        Opcode::Subtract => "Subtract"@,
        Opcode::Multiply => "Multiply"@,
        Opcode::Divide => "Divide"@,
        Opcode::Modulo => "Modulo"@,
        Opcode::Power => "Power"@,
        Opcode::ShiftLeft => "ShiftLeft"@,
        Opcode::ShiftRight => "ShiftRight"@,
        Opcode::LogicalNot => "LogicalNot"@,
        Opcode::UnarySubtract => "UnarySubtract"@,
        Opcode::Equal => "Equal"@,
        Opcode::NotEqual => "NotEqual"@,
        Opcode::LessThan => "LessThan"@,
        Opcode::GreaterThan => "GreaterThan"@,
        Opcode::LessThanOrEqual => "LessThanOrEqual"@,
        Opcode::GreaterThanOrEqual => "GreaterThanOrEqual"@,
        Opcode::BitwiseOr => "BitwiseOr"@,
        Opcode::BitwiseAnd => "BitwiseAnd"@,
        Opcode::BitwiseXor => "BitwiseXor"@,
        Opcode::BitwiseInvert => "BitwiseInvert"@,
        Opcode::In => "In"@,
        Opcode::ArrayAccess => "ArrayAccess"@,
        Opcode::Join => "Join"@,
        Opcode::ImmStringByte => "ImmStringByte"@,
        Opcode::ImmStringShort => "ImmStringShort"@,
        Opcode::ImmStringInt => "ImmStringInt"@,
        Opcode::ImmByte => "ImmByte"@,
        Opcode::ImmShort => "ImmShort"@,
        Opcode::ImmInt => "ImmInt"@,
        Opcode::ImmFloat => "ImmFloat"@,
    }
}

/// Decoding the byte of an opcode gives back the opcode: the table is one to one.
pub proof fn law_opcode_byte_roundtrip(op: Opcode)
    ensures
        opcode_of_byte(opcode_byte(op)) == Some(op),
{
}

/// Every byte that decodes to an opcode is the byte of that opcode.
pub proof fn law_opcode_byte_unique(b: u8)
    ensures
        opcode_of_byte(b) matches Some(op) ==> opcode_byte(op) == b,
{
}

/// The opcodes whose operand is a jump target.
pub open spec fn spec_has_jump_target(op: Opcode) -> bool {
    matches!(op, Opcode::Jmp | Opcode::Jeq | Opcode::Jne | Opcode::ShortCircuitOr
        | Opcode::ShortCircuitAnd | Opcode::With | Opcode::ForEach)
}

/// The opcodes that end a basic block.
pub open spec fn spec_is_block_end(op: Opcode) -> bool {
    spec_has_jump_target(op) || op == Opcode::Ret
}

/// The opcodes after which control may continue with the next instruction.
pub open spec fn spec_connects_to_next_block(op: Opcode) -> bool {
    !(op == Opcode::Jmp || op == Opcode::Ret)
}

/// The conditional jumps: they either jump or fall through to the next instruction.
pub open spec fn spec_has_fall_through(op: Opcode) -> bool {
    spec_has_jump_target(op) && op != Opcode::Jmp
}

impl Opcode {
    /// Decodes an opcode from its byte.
    pub fn from_byte(byte: u8) -> (r: Result<Opcode, OpcodeError>)
        ensures
            match opcode_of_byte(byte) {
                Some(op) => r == Ok::<Opcode, OpcodeError>(op),
                None => r == Err::<Opcode, OpcodeError>(OpcodeError::InvalidOpcode(byte)),
            },
    {
        match byte {
            0x01 => Ok(Opcode::Jmp),
            0x02 => Ok(Opcode::Jeq),
            0x03 => Ok(Opcode::ShortCircuitOr),
            0x04 => Ok(Opcode::Jne),
            0x05 => Ok(Opcode::ShortCircuitAnd),
            0x06 => Ok(Opcode::Call),
            0x07 => Ok(Opcode::Ret),
            0x08 => Ok(Opcode::Sleep),
            0x09 => Ok(Opcode::IncreaseLoopCounter),
            0x0A => Ok(Opcode::FunctionStart),
            0x0B => Ok(Opcode::WaitFor),
            0x0C => Ok(Opcode::With),
            0x0D => Ok(Opcode::WithEnd),
            0x11 => Ok(Opcode::ForEach),
            0x14 => Ok(Opcode::PushNumber),
            0x15 => Ok(Opcode::PushString),
            0x16 => Ok(Opcode::PushVariable),
            0x17 => Ok(Opcode::PushArray),
            0x18 => Ok(Opcode::PushTrue),
            0x19 => Ok(Opcode::PushFalse),
            0x1A => Ok(Opcode::PushNull),
            0x1B => Ok(Opcode::Pi),
            0x1E => Ok(Opcode::Copy),
            0x1F => Ok(Opcode::Swap),
            0x20 => Ok(Opcode::Pop),
            0x21 => Ok(Opcode::ConvertToFloat),
            0x22 => Ok(Opcode::ConvertToString),
            0x23 => Ok(Opcode::AccessMember),
            0x24 => Ok(Opcode::ConvertToObject),
            0x25 => Ok(Opcode::EndArray),
            0x26 => Ok(Opcode::NewUninitializedArray),
            0x27 => Ok(Opcode::SetArray),
            0x28 => Ok(Opcode::NewObject),
            0x29 => Ok(Opcode::MakeVar),
            0x32 => Ok(Opcode::Assign),
            0x33 => Ok(Opcode::EndParams),
            0x34 => Ok(Opcode::Inc),
            0x35 => Ok(Opcode::Dec),
            0x3C => Ok(Opcode::Add),
            0x3D => Ok(Opcode::Subtract),
            0x3E => Ok(Opcode::Multiply),
            0x3F => Ok(Opcode::Divide),
            0x40 => Ok(Opcode::Modulo),
            0x41 => Ok(Opcode::Power),
            0x42 => Ok(Opcode::ShiftLeft),
            0x43 => Ok(Opcode::ShiftRight),
            0x44 => Ok(Opcode::LogicalNot),
            0x45 => Ok(Opcode::UnarySubtract),
            0x46 => Ok(Opcode::Equal),
            0x47 => Ok(Opcode::NotEqual),
            0x48 => Ok(Opcode::LessThan),
            0x49 => Ok(Opcode::GreaterThan),
            0x4A => Ok(Opcode::LessThanOrEqual),
            0x4B => Ok(Opcode::GreaterThanOrEqual),
            0x4C => Ok(Opcode::BitwiseOr),
            0x4D => Ok(Opcode::BitwiseAnd),
            0x4E => Ok(Opcode::BitwiseXor),
            0x4F => Ok(Opcode::BitwiseInvert),
            0x50 => Ok(Opcode::In),
            0x52 => Ok(Opcode::ArrayAccess),
            0x71 => Ok(Opcode::Join),
            0xF0 => Ok(Opcode::ImmStringByte),
            0xF1 => Ok(Opcode::ImmStringShort),
            0xF2 => Ok(Opcode::ImmStringInt),
            0xF3 => Ok(Opcode::ImmByte),
            0xF4 => Ok(Opcode::ImmShort),
            0xF5 => Ok(Opcode::ImmInt),
            0xF6 => Ok(Opcode::ImmFloat),
            _ => Err(OpcodeError::InvalidOpcode(byte)),
        }
    }

    /// The byte that encodes this opcode.
    pub fn to_byte(&self) -> (b: u8)
        ensures
            b == opcode_byte(*self),
    {
        match self {
            Opcode::Jmp => 0x01,
            Opcode::Jeq => 0x02,
            Opcode::ShortCircuitOr => 0x03,
            Opcode::Jne => 0x04,
            Opcode::ShortCircuitAnd => 0x05,
            Opcode::Call => 0x06,
            Opcode::Ret => 0x07,
            Opcode::Sleep => 0x08,
            Opcode::IncreaseLoopCounter => 0x09,
            Opcode::FunctionStart => 0x0A,
            Opcode::WaitFor => 0x0B,
            Opcode::With => 0x0C,
            Opcode::WithEnd => 0x0D,
            Opcode::ForEach => 0x11,
            Opcode::PushNumber => 0x14,
            Opcode::PushString => 0x15,
            Opcode::PushVariable => 0x16,
            Opcode::PushArray => 0x17,
            Opcode::PushTrue => 0x18,
            Opcode::PushFalse => 0x19,
            Opcode::PushNull => 0x1A,
            Opcode::Pi => 0x1B,
            Opcode::Copy => 0x1E,
            Opcode::Swap => 0x1F,
            Opcode::Pop => 0x20,
            Opcode::ConvertToFloat => 0x21,
            Opcode::ConvertToString => 0x22,
            Opcode::AccessMember => 0x23,
            Opcode::ConvertToObject => 0x24,
            Opcode::EndArray => 0x25,
            Opcode::NewUninitializedArray => 0x26,
            Opcode::SetArray => 0x27,
            Opcode::NewObject => 0x28,
            Opcode::MakeVar => 0x29,
            Opcode::Assign => 0x32,
            Opcode::EndParams => 0x33,
            Opcode::Inc => 0x34,
            Opcode::Dec => 0x35,
            Opcode::Add => 0x3C,
            Opcode::Subtract => 0x3D,
            Opcode::Multiply => 0x3E,
            Opcode::Divide => 0x3F,
            Opcode::Modulo => 0x40,
            Opcode::Power => 0x41,
            Opcode::ShiftLeft => 0x42,
            Opcode::ShiftRight => 0x43,
            Opcode::LogicalNot => 0x44,
            Opcode::UnarySubtract => 0x45,
            Opcode::Equal => 0x46,
            Opcode::NotEqual => 0x47,
            Opcode::LessThan => 0x48,
            Opcode::GreaterThan => 0x49,
            Opcode::LessThanOrEqual => 0x4A,
            Opcode::GreaterThanOrEqual => 0x4B,
            Opcode::BitwiseOr => 0x4C,
            Opcode::BitwiseAnd => 0x4D,
            Opcode::BitwiseXor => 0x4E,
            Opcode::BitwiseInvert => 0x4F,
            Opcode::In => 0x50,
            Opcode::ArrayAccess => 0x52,
            Opcode::Join => 0x71,
            Opcode::ImmStringByte => 0xF0,
            Opcode::ImmStringShort => 0xF1,
            Opcode::ImmStringInt => 0xF2,
            Opcode::ImmByte => 0xF3,
            Opcode::ImmShort => 0xF4,
            Opcode::ImmInt => 0xF5,
            Opcode::ImmFloat => 0xF6,
        }
    }

    /// The name of this opcode.
    pub fn name(&self) -> (s: &'static str)
        ensures
            s@ == opcode_name(*self),
    {
        match self {
            Opcode::Jmp => "Jmp",
            Opcode::Jeq => "Jeq",
            Opcode::ShortCircuitOr => "ShortCircuitOr",
            Opcode::Jne => "Jne",
            Opcode::ShortCircuitAnd => "ShortCircuitAnd",
            Opcode::Call => "Call",
            Opcode::Ret => "Ret",
            Opcode::Sleep => "Sleep",
            Opcode::IncreaseLoopCounter => "IncreaseLoopCounter",
            Opcode::FunctionStart => "FunctionStart",
            Opcode::WaitFor => "WaitFor",
            Opcode::With => "With",
            Opcode::WithEnd => "WithEnd",
            Opcode::ForEach => "ForEach",
            Opcode::PushNumber => "PushNumber",
            Opcode::PushString => "PushString",
            Opcode::PushVariable => "PushVariable",
            Opcode::PushArray => "PushArray",
            Opcode::PushTrue => "PushTrue",
            Opcode::PushFalse => "PushFalse",
            Opcode::PushNull => "PushNull",
            Opcode::Pi => "Pi",
            Opcode::Copy => "Copy",
            Opcode::Swap => "Swap",
            Opcode::Pop => "Pop",
            Opcode::ConvertToFloat => "ConvertToFloat",
            Opcode::ConvertToString => "ConvertToString",
            Opcode::AccessMember => "AccessMember",
            Opcode::ConvertToObject => "ConvertToObject",
            Opcode::EndArray => "EndArray",
            Opcode::NewUninitializedArray => "NewUninitializedArray",
            Opcode::SetArray => "SetArray",
            Opcode::NewObject => "NewObject",
            Opcode::MakeVar => "MakeVar",
            Opcode::Assign => "Assign",
            Opcode::EndParams => "EndParams",
            Opcode::Inc => "Inc",
            Opcode::Dec => "Dec",
            Opcode::Add => "Add",
            Opcode::Subtract => "Subtract",
            Opcode::Multiply => "Multiply",
            Opcode::Divide => "Divide",
            Opcode::Modulo => "Modulo",
            Opcode::Power => "Power",
            Opcode::ShiftLeft => "ShiftLeft",
            Opcode::ShiftRight => "ShiftRight",
            Opcode::LogicalNot => "LogicalNot",
            Opcode::UnarySubtract => "UnarySubtract",
            Opcode::Equal => "Equal",
            Opcode::NotEqual => "NotEqual",
            Opcode::LessThan => "LessThan",
            Opcode::GreaterThan => "GreaterThan",
            Opcode::LessThanOrEqual => "LessThanOrEqual",
            Opcode::GreaterThanOrEqual => "GreaterThanOrEqual",
            Opcode::BitwiseOr => "BitwiseOr",
            Opcode::BitwiseAnd => "BitwiseAnd",
            Opcode::BitwiseXor => "BitwiseXor",
            Opcode::BitwiseInvert => "BitwiseInvert",
            Opcode::In => "In",
            Opcode::ArrayAccess => "ArrayAccess",
            Opcode::Join => "Join",
            Opcode::ImmStringByte => "ImmStringByte",
            Opcode::ImmStringShort => "ImmStringShort",
            Opcode::ImmStringInt => "ImmStringInt",
            Opcode::ImmByte => "ImmByte",
            Opcode::ImmShort => "ImmShort",
            Opcode::ImmInt => "ImmInt",
            Opcode::ImmFloat => "ImmFloat",
        }
    }

    /// The name of this opcode as a `String`.
    pub fn to_string(&self) -> (s: String)
        ensures
            s@ == opcode_name(*self),
    {
        String::from_str(self.name())
    }

    /// Whether the operand of this opcode is a jump target.
    pub fn has_jump_target(&self) -> (b: bool)
        ensures
            b == spec_has_jump_target(*self),
    {
        matches!(self, Opcode::Jmp | Opcode::Jeq | Opcode::Jne | Opcode::ShortCircuitOr
            | Opcode::ShortCircuitAnd | Opcode::With | Opcode::ForEach)
    }

    /// Whether this opcode ends a basic block.
    pub fn is_block_end(&self) -> (b: bool)
        ensures
            b == spec_is_block_end(*self),
    {
        self.has_jump_target() || matches!(self, Opcode::Ret)
    }

    /// Whether control may continue with the next instruction after this opcode.
    pub fn connects_to_next_block(&self) -> (b: bool)
        ensures
            b == spec_connects_to_next_block(*self),
    {
        !matches!(self, Opcode::Jmp | Opcode::Ret)
    }

    /// Whether this opcode is a conditional jump that may fall through.
    pub fn has_fall_through(&self) -> (b: bool)
        ensures
            b == spec_has_fall_through(*self),
    {
        self.has_jump_target() && !matches!(self, Opcode::Jmp)
    }
}

} // verus!
