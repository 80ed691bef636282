//! The Lua 4.0 instruction set: opcodes, their operand layout and their
//! effect on the virtual stack.
use vstd::prelude::*;

verus! {

/// Every operation of the Lua 4.0 virtual machine, in the order of its opcode numbers.
#[derive(Clone, Copy, Debug, PartialEq, Eq, Structural)]
pub enum OpCode {
    End,
    Return,
    Call,
    TailCall,
    PushNil,
    Pop,
    PushInt,
    PushString,
    PushNumber,
    PushNegativeNumber,
    PushUpValue,
    GetLocal,
    GetGlobal,
    GetTable,
    GetDotted,
    GetIndexed,
    PushSelf,
    CreateTable,
    SetLocal,
    SetGlobal,
    SetTable,
    SetList,
    SetMap,
    Add,
    AddInt,
    Subtract,
    Multiply,
    Divide,
    Power,
    Concat,
    Minus,
    Not,
    JumpNotEqual,
    JumpEqual,
    JumpLessThan,
    JumpLessThanEqual,
    JumpGreaterThan,
    JumpGreaterThanEqual,
    JumpIfTrue,
    JumpIfFalse,
    JumpOnTrue,
    JumpOnFalse,
    Jump,
    PushNilJump,
    ForPrep,
    ForLoop,
    LForPrep,
    LForLoop,
    Closure,
}

/// The number of opcodes; valid opcode numbers are `0..OPCODE_COUNT`.
pub const OPCODE_COUNT: usize = 49;

/// How the bits of an instruction above its opcode field are read.
#[derive(Clone, Copy, Debug, PartialEq, Eq, Structural)]
pub enum OpCodeMode {
    Unsigned,
    Signed,
    AB,
    NoOperand,
}

/// How many values an instruction pushes or pops: a fixed count, a count
/// given by one of its operands, or nothing.
#[derive(Clone, Copy, Debug, PartialEq, Eq, Structural)]
pub enum StackChange {
    Constant(u8),
    Delta,
    Nothing,
}

/// The opcode whose number is `n`, if there is one.
pub open spec fn opcode_of(n: usize) -> Option<OpCode> {
    match n {
        0 => Some(OpCode::End),
        1 => Some(OpCode::Return),
        2 => Some(OpCode::Call),
        3 => Some(OpCode::TailCall),
        4 => Some(OpCode::PushNil),
        5 => Some(OpCode::Pop),
        6 => Some(OpCode::PushInt),
        7 => Some(OpCode::PushString),
        8 => Some(OpCode::PushNumber),
        9 => Some(OpCode::PushNegativeNumber),
        10 => Some(OpCode::PushUpValue),
        11 => Some(OpCode::GetLocal),
        12 => Some(OpCode::GetGlobal),
        13 => Some(OpCode::GetTable),
        14 => Some(OpCode::GetDotted),
        15 => Some(OpCode::GetIndexed),
        16 => Some(OpCode::PushSelf),
        17 => Some(OpCode::CreateTable),
        18 => Some(OpCode::SetLocal),
        19 => Some(OpCode::SetGlobal),
        20 => Some(OpCode::SetTable),
        21 => Some(OpCode::SetList),
        22 => Some(OpCode::SetMap),
        23 => Some(OpCode::Add),
        24 => Some(OpCode::AddInt),
        25 => Some(OpCode::Subtract),
        26 => Some(OpCode::Multiply),
        27 => Some(OpCode::Divide),
        28 => Some(OpCode::Power),
        29 => Some(OpCode::Concat),
        30 => Some(OpCode::Minus),
        31 => Some(OpCode::Not),
        32 => Some(OpCode::JumpNotEqual),
        33 => Some(OpCode::JumpEqual),
        34 => Some(OpCode::JumpLessThan),
        35 => Some(OpCode::JumpLessThanEqual),
        36 => Some(OpCode::JumpGreaterThan),
        37 => Some(OpCode::JumpGreaterThanEqual),
        38 => Some(OpCode::JumpIfTrue),
        39 => Some(OpCode::JumpIfFalse),
        40 => Some(OpCode::JumpOnTrue),
        41 => Some(OpCode::JumpOnFalse),
        42 => Some(OpCode::Jump),
        43 => Some(OpCode::PushNilJump),
        44 => Some(OpCode::ForPrep),
        45 => Some(OpCode::ForLoop),
        46 => Some(OpCode::LForPrep),
        47 => Some(OpCode::LForLoop),
        48 => Some(OpCode::Closure),
        _ => None,
    }
}

impl OpCode {
    /// The opcode number of `self`.
    pub open spec fn spec_code(self) -> nat {
        match self {
            OpCode::End => 0,
            OpCode::Return => 1,
            OpCode::Call => 2,
            OpCode::TailCall => 3,
            OpCode::PushNil => 4,
            OpCode::Pop => 5,
            OpCode::PushInt => 6,
            OpCode::PushString => 7,
            OpCode::PushNumber => 8,
            OpCode::PushNegativeNumber => 9,
            OpCode::PushUpValue => 10,
            OpCode::GetLocal => 11,
            OpCode::GetGlobal => 12,
            OpCode::GetTable => 13,
            OpCode::GetDotted => 14,
            OpCode::GetIndexed => 15,
            OpCode::PushSelf => 16,
            OpCode::CreateTable => 17,
            OpCode::SetLocal => 18,
            OpCode::SetGlobal => 19,
            OpCode::SetTable => 20,
            OpCode::SetList => 21,
            OpCode::SetMap => 22,
            OpCode::Add => 23,
            OpCode::AddInt => 24,
            OpCode::Subtract => 25,
            OpCode::Multiply => 26,
            OpCode::Divide => 27,
            OpCode::Power => 28,
            OpCode::Concat => 29,
            OpCode::Minus => 30,
            OpCode::Not => 31,
            OpCode::JumpNotEqual => 32,
            OpCode::JumpEqual => 33,
            OpCode::JumpLessThan => 34,
            OpCode::JumpLessThanEqual => 35,
            OpCode::JumpGreaterThan => 36,
            OpCode::JumpGreaterThanEqual => 37,
            OpCode::JumpIfTrue => 38,
            OpCode::JumpIfFalse => 39,
            OpCode::JumpOnTrue => 40,
            OpCode::JumpOnFalse => 41,
            OpCode::Jump => 42,
            OpCode::PushNilJump => 43,
            OpCode::ForPrep => 44,
            OpCode::ForLoop => 45,
            OpCode::LForPrep => 46,
            OpCode::LForLoop => 47,
            OpCode::Closure => 48,
        }
    }

    /// The opcode number of `self`.
    pub fn code(&self) -> (r: usize)
        ensures
            r == self.spec_code(),
    {
        match self {
            OpCode::End => 0,
            OpCode::Return => 1,
            OpCode::Call => 2,
            OpCode::TailCall => 3,
            OpCode::PushNil => 4,
            OpCode::Pop => 5,
            OpCode::PushInt => 6,
            OpCode::PushString => 7,
            OpCode::PushNumber => 8,
            OpCode::PushNegativeNumber => 9,
            OpCode::PushUpValue => 10,
            OpCode::GetLocal => 11,
            OpCode::GetGlobal => 12,
            OpCode::GetTable => 13,
            OpCode::GetDotted => 14,
            OpCode::GetIndexed => 15,
            OpCode::PushSelf => 16,
            OpCode::CreateTable => 17,
            OpCode::SetLocal => 18,
            OpCode::SetGlobal => 19,
            OpCode::SetTable => 20,
            OpCode::SetList => 21,
            OpCode::SetMap => 22,
            OpCode::Add => 23,
            OpCode::AddInt => 24,
            OpCode::Subtract => 25,
            OpCode::Multiply => 26,
            OpCode::Divide => 27,
            OpCode::Power => 28,
            OpCode::Concat => 29,
            OpCode::Minus => 30,
            OpCode::Not => 31,
            OpCode::JumpNotEqual => 32,
            OpCode::JumpEqual => 33,
            OpCode::JumpLessThan => 34,
            OpCode::JumpLessThanEqual => 35,
            OpCode::JumpGreaterThan => 36,
            OpCode::JumpGreaterThanEqual => 37,
            OpCode::JumpIfTrue => 38,
            OpCode::JumpIfFalse => 39,
            OpCode::JumpOnTrue => 40,
            OpCode::JumpOnFalse => 41,
            OpCode::Jump => 42,
            OpCode::PushNilJump => 43,
            OpCode::ForPrep => 44,
            OpCode::ForLoop => 45,
            OpCode::LForPrep => 46,
            OpCode::LForLoop => 47,
            OpCode::Closure => 48,
        }
    }

    /// The opcode whose number is `n`, if there is one.
    pub fn from_code(n: usize) -> (r: Option<OpCode>)
        ensures
            r == opcode_of(n),
    {
        match n {
            0 => Some(OpCode::End),
            1 => Some(OpCode::Return),
            2 => Some(OpCode::Call),
            3 => Some(OpCode::TailCall),
            4 => Some(OpCode::PushNil),
            5 => Some(OpCode::Pop),
            6 => Some(OpCode::PushInt),
            7 => Some(OpCode::PushString),
            8 => Some(OpCode::PushNumber),
            9 => Some(OpCode::PushNegativeNumber),
            10 => Some(OpCode::PushUpValue),
            11 => Some(OpCode::GetLocal),
            12 => Some(OpCode::GetGlobal),
            13 => Some(OpCode::GetTable),
            14 => Some(OpCode::GetDotted),
            15 => Some(OpCode::GetIndexed),
            16 => Some(OpCode::PushSelf),
            17 => Some(OpCode::CreateTable),
            18 => Some(OpCode::SetLocal),
            19 => Some(OpCode::SetGlobal),
            20 => Some(OpCode::SetTable),
            21 => Some(OpCode::SetList),
            22 => Some(OpCode::SetMap),
            23 => Some(OpCode::Add),
            24 => Some(OpCode::AddInt),
            25 => Some(OpCode::Subtract),
            26 => Some(OpCode::Multiply),
            27 => Some(OpCode::Divide),
            28 => Some(OpCode::Power),
            29 => Some(OpCode::Concat),
            30 => Some(OpCode::Minus),
            31 => Some(OpCode::Not),
            32 => Some(OpCode::JumpNotEqual),
            33 => Some(OpCode::JumpEqual),
            34 => Some(OpCode::JumpLessThan),
            35 => Some(OpCode::JumpLessThanEqual),
            36 => Some(OpCode::JumpGreaterThan),
            37 => Some(OpCode::JumpGreaterThanEqual),
            38 => Some(OpCode::JumpIfTrue),
            39 => Some(OpCode::JumpIfFalse),
            40 => Some(OpCode::JumpOnTrue),
            41 => Some(OpCode::JumpOnFalse),
            42 => Some(OpCode::Jump),
            43 => Some(OpCode::PushNilJump),
            44 => Some(OpCode::ForPrep),
            45 => Some(OpCode::ForLoop),
            46 => Some(OpCode::LForPrep),
            47 => Some(OpCode::LForLoop),
            48 => Some(OpCode::Closure),
            _ => None,
        }
    }

    /// Jumps form the contiguous range `JumpNotEqual ..= Jump` of the opcode numbers.
    pub open spec fn spec_is_jump(self) -> bool {
        32 <= self.spec_code() <= 42
    }

    pub fn is_jump(&self) -> (r: bool)
        ensures
            r == self.spec_is_jump(),
    {
        let c = self.code();
        32 <= c && c <= 42
    }

    /// The operand layout of each opcode.
    pub open spec fn spec_mode(self) -> OpCodeMode {
        match self {
            OpCode::End => OpCodeMode::NoOperand,
            OpCode::Return => OpCodeMode::Unsigned,
            OpCode::Call | OpCode::TailCall => OpCodeMode::AB,
            OpCode::PushNil | OpCode::Pop => OpCodeMode::Unsigned,
            OpCode::PushInt => OpCodeMode::Signed,
            OpCode::PushString | OpCode::PushNumber | OpCode::PushNegativeNumber | OpCode::PushUpValue | OpCode::GetLocal | OpCode::GetGlobal => OpCodeMode::Unsigned,
            OpCode::GetTable => OpCodeMode::NoOperand,
            OpCode::GetDotted | OpCode::GetIndexed | OpCode::PushSelf | OpCode::CreateTable | OpCode::SetLocal | OpCode::SetGlobal => OpCodeMode::Unsigned,
            OpCode::SetTable | OpCode::SetList => OpCodeMode::AB,
            OpCode::SetMap => OpCodeMode::Unsigned,
            OpCode::Add => OpCodeMode::NoOperand,
            OpCode::AddInt => OpCodeMode::Signed,
            OpCode::Subtract | OpCode::Multiply | OpCode::Divide | OpCode::Power => OpCodeMode::NoOperand,
            OpCode::Concat => OpCodeMode::Unsigned,
            OpCode::Minus | OpCode::Not => OpCodeMode::NoOperand,
            OpCode::JumpNotEqual | OpCode::JumpEqual | OpCode::JumpLessThan | OpCode::JumpLessThanEqual | OpCode::JumpGreaterThan | OpCode::JumpGreaterThanEqual | OpCode::JumpIfTrue | OpCode::JumpIfFalse | OpCode::JumpOnTrue | OpCode::JumpOnFalse | OpCode::Jump => OpCodeMode::Signed,
            OpCode::PushNilJump => OpCodeMode::NoOperand,
            OpCode::ForPrep | OpCode::ForLoop | OpCode::LForPrep | OpCode::LForLoop => OpCodeMode::Signed,
            OpCode::Closure => OpCodeMode::AB,
        }
    }

    pub fn mode(self) -> (r: OpCodeMode)
        ensures
            r == self.spec_mode(),
    {
        match self {
            OpCode::End => OpCodeMode::NoOperand,
            OpCode::Return => OpCodeMode::Unsigned,
            OpCode::Call | OpCode::TailCall => OpCodeMode::AB,
            OpCode::PushNil | OpCode::Pop => OpCodeMode::Unsigned,
            OpCode::PushInt => OpCodeMode::Signed,
            OpCode::PushString | OpCode::PushNumber | OpCode::PushNegativeNumber | OpCode::PushUpValue | OpCode::GetLocal | OpCode::GetGlobal => OpCodeMode::Unsigned,
            OpCode::GetTable => OpCodeMode::NoOperand,
            OpCode::GetDotted | OpCode::GetIndexed | OpCode::PushSelf | OpCode::CreateTable | OpCode::SetLocal | OpCode::SetGlobal => OpCodeMode::Unsigned,
            OpCode::SetTable | OpCode::SetList => OpCodeMode::AB,
            OpCode::SetMap => OpCodeMode::Unsigned,
            OpCode::Add => OpCodeMode::NoOperand,
            OpCode::AddInt => OpCodeMode::Signed,
            OpCode::Subtract | OpCode::Multiply | OpCode::Divide | OpCode::Power => OpCodeMode::NoOperand,
            OpCode::Concat => OpCodeMode::Unsigned,
            OpCode::Minus | OpCode::Not => OpCodeMode::NoOperand,
            OpCode::JumpNotEqual | OpCode::JumpEqual | OpCode::JumpLessThan | OpCode::JumpLessThanEqual | OpCode::JumpGreaterThan | OpCode::JumpGreaterThanEqual | OpCode::JumpIfTrue | OpCode::JumpIfFalse | OpCode::JumpOnTrue | OpCode::JumpOnFalse | OpCode::Jump => OpCodeMode::Signed,
            OpCode::PushNilJump => OpCodeMode::NoOperand,
            OpCode::ForPrep | OpCode::ForLoop | OpCode::LForPrep | OpCode::LForLoop => OpCodeMode::Signed,
            OpCode::Closure => OpCodeMode::AB,
        }
    }

    /// How many values each opcode pushes.
    pub open spec fn spec_push_count(self) -> StackChange {
        match self {
            OpCode::End | OpCode::Return => StackChange::Nothing,
            OpCode::Call => StackChange::Delta,
            OpCode::TailCall => StackChange::Nothing,
            OpCode::PushNil => StackChange::Delta,
            OpCode::Pop => StackChange::Nothing,
            OpCode::PushInt | OpCode::PushString | OpCode::PushNumber | OpCode::PushNegativeNumber | OpCode::PushUpValue | OpCode::GetLocal | OpCode::GetGlobal | OpCode::GetTable | OpCode::GetDotted | OpCode::GetIndexed => StackChange::Constant(1),
            OpCode::PushSelf => StackChange::Constant(2),
            OpCode::CreateTable => StackChange::Constant(1),
            OpCode::SetLocal | OpCode::SetGlobal => StackChange::Nothing,
            OpCode::SetTable | OpCode::SetList | OpCode::SetMap => StackChange::Nothing,
            OpCode::Add | OpCode::AddInt | OpCode::Subtract | OpCode::Multiply | OpCode::Divide | OpCode::Power => StackChange::Constant(1),
            OpCode::Concat => StackChange::Constant(1),
            OpCode::Minus | OpCode::Not => StackChange::Constant(1),
            OpCode::JumpNotEqual | OpCode::JumpEqual | OpCode::JumpLessThan | OpCode::JumpLessThanEqual | OpCode::JumpGreaterThan | OpCode::JumpGreaterThanEqual | OpCode::JumpIfTrue | OpCode::JumpIfFalse | OpCode::JumpOnTrue | OpCode::JumpOnFalse | OpCode::Jump | OpCode::PushNilJump | OpCode::ForPrep | OpCode::ForLoop => StackChange::Nothing,
            OpCode::LForPrep => StackChange::Constant(2),
            OpCode::LForLoop => StackChange::Nothing,
            OpCode::Closure => StackChange::Constant(1),
        }
    }

    pub fn push_count(self) -> (r: StackChange)
        ensures
            r == self.spec_push_count(),
    {
        match self {
            OpCode::End | OpCode::Return => StackChange::Nothing,
            OpCode::Call => StackChange::Delta,
            OpCode::TailCall => StackChange::Nothing,
            OpCode::PushNil => StackChange::Delta,
            OpCode::Pop => StackChange::Nothing,
            OpCode::PushInt | OpCode::PushString | OpCode::PushNumber | OpCode::PushNegativeNumber | OpCode::PushUpValue | OpCode::GetLocal | OpCode::GetGlobal | OpCode::GetTable | OpCode::GetDotted | OpCode::GetIndexed => StackChange::Constant(1),
            OpCode::PushSelf => StackChange::Constant(2),
            OpCode::CreateTable => StackChange::Constant(1),
            OpCode::SetLocal | OpCode::SetGlobal => StackChange::Nothing,
            OpCode::SetTable | OpCode::SetList | OpCode::SetMap => StackChange::Nothing,
            OpCode::Add | OpCode::AddInt | OpCode::Subtract | OpCode::Multiply | OpCode::Divide | OpCode::Power => StackChange::Constant(1),
            OpCode::Concat => StackChange::Constant(1),
            OpCode::Minus | OpCode::Not => StackChange::Constant(1),
            OpCode::JumpNotEqual | OpCode::JumpEqual | OpCode::JumpLessThan | OpCode::JumpLessThanEqual | OpCode::JumpGreaterThan | OpCode::JumpGreaterThanEqual | OpCode::JumpIfTrue | OpCode::JumpIfFalse | OpCode::JumpOnTrue | OpCode::JumpOnFalse | OpCode::Jump | OpCode::PushNilJump | OpCode::ForPrep | OpCode::ForLoop => StackChange::Nothing,
            OpCode::LForPrep => StackChange::Constant(2),
            OpCode::LForLoop => StackChange::Nothing,
            OpCode::Closure => StackChange::Constant(1),
        }
    }

    /// How many values each opcode pops.
    pub open spec fn spec_pop_count(self) -> StackChange {
        match self {
            OpCode::End => StackChange::Nothing,
            OpCode::Return | OpCode::Call | OpCode::TailCall => StackChange::Delta,
            OpCode::PushNil => StackChange::Nothing,
            OpCode::Pop => StackChange::Delta,
            OpCode::PushInt | OpCode::PushString | OpCode::PushNumber | OpCode::PushNegativeNumber | OpCode::PushUpValue | OpCode::GetLocal | OpCode::GetGlobal => StackChange::Nothing,
            OpCode::GetTable => StackChange::Constant(2),
            OpCode::GetDotted | OpCode::GetIndexed | OpCode::PushSelf => StackChange::Constant(1),
            OpCode::CreateTable => StackChange::Nothing,
            OpCode::SetLocal | OpCode::SetGlobal => StackChange::Constant(1),
            OpCode::SetTable | OpCode::SetList | OpCode::SetMap => StackChange::Delta,
            OpCode::Add => StackChange::Constant(2),
            OpCode::AddInt => StackChange::Constant(1),
            OpCode::Subtract | OpCode::Multiply | OpCode::Divide | OpCode::Power => StackChange::Constant(2),
            OpCode::Concat => StackChange::Delta,
            OpCode::Minus | OpCode::Not => StackChange::Constant(1),
            OpCode::JumpNotEqual | OpCode::JumpEqual | OpCode::JumpLessThan | OpCode::JumpLessThanEqual | OpCode::JumpGreaterThan | OpCode::JumpGreaterThanEqual => StackChange::Constant(2),
            OpCode::JumpIfTrue | OpCode::JumpIfFalse | OpCode::JumpOnTrue | OpCode::JumpOnFalse => StackChange::Constant(1),
            OpCode::Jump => StackChange::Nothing,
            OpCode::PushNilJump => StackChange::Nothing,
            OpCode::ForPrep => StackChange::Nothing,
            OpCode::ForLoop => StackChange::Constant(3),
            OpCode::LForPrep => StackChange::Nothing,
            OpCode::LForLoop => StackChange::Constant(3),
            OpCode::Closure => StackChange::Delta,
        }
    }

    pub fn pop_count(self) -> (r: StackChange)
        ensures
            r == self.spec_pop_count(),
    {
        match self {
            OpCode::End => StackChange::Nothing,
            OpCode::Return | OpCode::Call | OpCode::TailCall => StackChange::Delta,
            OpCode::PushNil => StackChange::Nothing,
            OpCode::Pop => StackChange::Delta,
            OpCode::PushInt | OpCode::PushString | OpCode::PushNumber | OpCode::PushNegativeNumber | OpCode::PushUpValue | OpCode::GetLocal | OpCode::GetGlobal => StackChange::Nothing,
            OpCode::GetTable => StackChange::Constant(2),
            OpCode::GetDotted | OpCode::GetIndexed | OpCode::PushSelf => StackChange::Constant(1),
            OpCode::CreateTable => StackChange::Nothing,
            OpCode::SetLocal | OpCode::SetGlobal => StackChange::Constant(1),
            OpCode::SetTable | OpCode::SetList | OpCode::SetMap => StackChange::Delta,
            OpCode::Add => StackChange::Constant(2),
            OpCode::AddInt => StackChange::Constant(1),
            OpCode::Subtract | OpCode::Multiply | OpCode::Divide | OpCode::Power => StackChange::Constant(2),
            OpCode::Concat => StackChange::Delta,
            OpCode::Minus | OpCode::Not => StackChange::Constant(1),
            OpCode::JumpNotEqual | OpCode::JumpEqual | OpCode::JumpLessThan | OpCode::JumpLessThanEqual | OpCode::JumpGreaterThan | OpCode::JumpGreaterThanEqual => StackChange::Constant(2),
            OpCode::JumpIfTrue | OpCode::JumpIfFalse | OpCode::JumpOnTrue | OpCode::JumpOnFalse => StackChange::Constant(1),
            OpCode::Jump => StackChange::Nothing,
            OpCode::PushNilJump => StackChange::Nothing,
            OpCode::ForPrep => StackChange::Nothing,
            OpCode::ForLoop => StackChange::Constant(3),
            OpCode::LForPrep => StackChange::Nothing,
            OpCode::LForLoop => StackChange::Constant(3),
            OpCode::Closure => StackChange::Delta,
        }
    }

}

/// Opcode numbers and opcodes correspond one to one.
pub proof fn lemma_opcode_numbers(op: OpCode, n: usize)
    ensures
        opcode_of(op.spec_code() as usize) == Some(op),
        op.spec_code() < OPCODE_COUNT,
        opcode_of(n) is Some <==> n < OPCODE_COUNT,
        opcode_of(n) is Some ==> opcode_of(n)->0.spec_code() == n,
{
}

} // verus!
