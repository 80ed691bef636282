//! One decoded instruction word and the operands it carries.
use vstd::prelude::*;

use crate::error::DecodeError;
use crate::opcode::{opcode_of, OpCode, StackChange, OPCODE_COUNT};

verus! {

/// The header byte where the field widths start; an encoding error on them points there.
pub const FIELD_WIDTHS_OFFSET: usize = 9;

/// A bit mask of the lowest `n` bits.
pub open spec fn low_mask(n: u64) -> u64 {
    !(!0u64 << n)
}

/// Field widths that fit an opcode and a `B` field inside one instruction of at most
/// 64 bits, with a non-empty opcode field and with the `A` field starting below bit 64.
pub open spec fn widths_ok(size_instruction: u8, size_op: u8, size_b: u8) -> bool {
    &&& 1 <= size_op
    &&& size_op + size_b <= size_instruction
    &&& size_op + size_b < 64
    &&& size_instruction <= 64
}

/// An instruction word, with the field widths needed to take it apart.
#[derive(Clone, Copy, Debug)]
pub struct Instruction {
    instruction: u64,
    size_instruction: u8,
    size_op: u8,
    size_b: u8,
}

impl Instruction {
    pub closed spec fn word(self) -> u64 {
        self.instruction
    }

    pub closed spec fn width(self) -> u8 {
        self.size_instruction
    }

    pub closed spec fn op_width(self) -> u8 {
        self.size_op
    }

    pub closed spec fn b_width(self) -> u8 {
        self.size_b
    }

    /// The instruction holding `word`, laid out with the given field widths.
    pub closed spec fn from_parts(word: u64, size_instruction: u8, size_op: u8, size_b: u8) -> Instruction {
        Instruction { instruction: word, size_instruction, size_op, size_b }
    }

    /// An instruction is its word and its field widths.
    pub proof fn lemma_from_parts(i: Instruction, word: u64, size_instruction: u8, size_op: u8, size_b: u8)
        ensures
            Self::from_parts(word, size_instruction, size_op, size_b).word() == word,
            Self::from_parts(word, size_instruction, size_op, size_b).width() == size_instruction,
            Self::from_parts(word, size_instruction, size_op, size_b).op_width() == size_op,
            Self::from_parts(word, size_instruction, size_op, size_b).b_width() == size_b,
            i == Self::from_parts(i.word(), i.width(), i.op_width(), i.b_width()),
    {
    }

    /// The opcode field: the lowest `op_width` bits.
    pub open spec fn op_bits(self) -> u64 {
        self.word() & low_mask(self.op_width() as u64)
    }

    /// A well-formed instruction has sound field widths and a known opcode.
    pub open spec fn wf(self) -> bool {
        &&& widths_ok(self.width(), self.op_width(), self.b_width())
        &&& self.op_bits() < OPCODE_COUNT
    }

    /// Every instruction is well formed.
    #[verifier::type_invariant]
    spec fn inv(self) -> bool {
        self.wf()
    }

    pub open spec fn spec_op(self) -> OpCode {
        opcode_of(self.op_bits() as usize)->0
    }

    pub open spec fn spec_u(self) -> u64 {
        self.word() >> (self.op_width() as u64)
    }

    /// The bias that centres the unsigned operand on zero.
    pub open spec fn bias(self) -> u64 {
        ((1u64 << ((self.width() - self.op_width()) as u64)) - 1) as u64 >> 1u64
    }

    pub open spec fn spec_s(self) -> int {
        self.spec_u() as int - self.bias() as int
    }

    pub open spec fn spec_a(self) -> u64 {
        self.word() >> ((self.op_width() + self.b_width()) as u64)
    }

    pub open spec fn spec_b(self) -> u64 {
        (self.word() >> (self.op_width() as u64)) & low_mask(self.b_width() as u64)
    }

    /// Builds an instruction from a word and the chunk's field widths.
    pub fn new(word: u64, size_instruction: u8, size_op: u8, size_b: u8) -> (r: Result<
        Instruction,
        DecodeError,
    >)
        ensures
            !widths_ok(size_instruction, size_op, size_b) ==> r matches Err(
                DecodeError::UnsupportedEncoding { offset: FIELD_WIDTHS_OFFSET },
            ),
            widths_ok(size_instruction, size_op, size_b) && (word & low_mask(size_op as u64))
                >= OPCODE_COUNT ==> (r matches Err(DecodeError::InvalidOpcode { opcode }) && opcode
                == word & low_mask(size_op as u64)),
            r matches Ok(i) ==> (i.wf() && i == Instruction::from_parts(
                word,
                size_instruction,
                size_op,
                size_b,
            )),
            widths_ok(size_instruction, size_op, size_b) && (word & low_mask(size_op as u64))
                < OPCODE_COUNT ==> r is Ok,
    {
        if !(1 <= size_op && (size_op as u16) + (size_b as u16) <= size_instruction as u16
            && (size_op as u16) + (size_b as u16) < 64
            && size_instruction <= 64) {
            return Err(DecodeError::UnsupportedEncoding { offset: FIELD_WIDTHS_OFFSET });
        }
        let code = word & !(!0u64 << size_op as u64);
        if code >= OPCODE_COUNT as u64 {
            return Err(DecodeError::InvalidOpcode { opcode: code });
        }
        Ok(Instruction { instruction: word, size_instruction, size_op, size_b })
    }

    /// The opcode.
    pub fn op(&self) -> (r: OpCode)
        ensures
            r == self.spec_op(),
            r.spec_code() == self.op_bits(),
    {
        proof {
            use_type_invariant(self);
        }
        let code = self.instruction & !(!0u64 << self.size_op as u64);
        let r = OpCode::from_code(code as usize);
        proof {
            crate::opcode::lemma_opcode_numbers(r->0, code as usize);
        }
        r.unwrap()
    }

    /// The unsigned operand: every bit above the opcode.
    pub fn u(&self) -> (r: u64)
        ensures
            r == self.spec_u(),
    {
        proof {
            use_type_invariant(self);
        }
        self.instruction >> self.size_op as u64
    }

    /// The signed operand: the unsigned one, less the bias.
    pub fn s(&self) -> (r: i64)
        ensures
            r == self.spec_s(),
    {
        proof {
            use_type_invariant(self);
        }
        let w = self.instruction;
        let op = self.size_op as u64;
        let k = (self.size_instruction - self.size_op) as u64;
        assert(1 <= op < 64 && k < 64);
        assert(w >> op <= 0x7fff_ffff_ffff_ffffu64) by (bit_vector)
            requires
                1 <= op < 64,
        ;
        assert(1u64 << k >= 1 && (((1u64 << k) - 1) as u64 >> 1u64) <= 0x3fff_ffff_ffff_ffffu64)
            by (bit_vector)
            requires
                k < 64,
        ;
        let u = (w >> op) as i64;
        let bias = (((1u64 << k) - 1) >> 1u64) as i64;
        u - bias
    }

    /// The `A` operand: every bit above the opcode and `B` fields.
    pub fn a(&self) -> (r: u64)
        ensures
            r == self.spec_a(),
    {
        proof {
            use_type_invariant(self);
        }
        self.instruction >> (self.size_op + self.size_b) as u64
    }

    /// The `B` operand: the `size_b` bits above the opcode.
    pub fn b(&self) -> (r: u64)
        ensures
            r == self.spec_b(),
    {
        proof {
            use_type_invariant(self);
        }
        (self.instruction >> self.size_op as u64) & !(!0u64 << self.size_b as u64)
    }

    /// How many values the instruction pushes.
    pub open spec fn spec_push_count(self) -> nat {
        match self.spec_op().spec_push_count() {
            StackChange::Constant(n) => n as nat,
            StackChange::Nothing => 0,
            StackChange::Delta => if self.spec_op() == OpCode::PushNil {
                self.spec_u() as nat
            } else {
                self.spec_b() as nat
            },
        }
    }

    /// How many values the instruction pops; `None` where the effect is not modelled
    /// (`TailCall`, `SetList`, `SetMap`). A call pops its `A` arguments and the callee.
    pub open spec fn spec_pop_count(self) -> Option<nat> {
        match self.spec_op().spec_pop_count() {
            StackChange::Constant(n) => Some(n as nat),
            StackChange::Nothing => Some(0),
            StackChange::Delta => match self.spec_op() {
                OpCode::Pop | OpCode::Concat | OpCode::Return => Some(self.spec_u() as nat),
                OpCode::SetTable | OpCode::Closure => Some(self.spec_b() as nat),
                OpCode::Call => Some((self.spec_a() + 1) as nat),
                _ => None,
            },
        }
    }

    pub fn push_count(&self) -> (r: u64)
        ensures
            r == self.spec_push_count(),
    {
        proof {
            use_type_invariant(self);
        }
        let op = self.op();
        match op.push_count() {
            StackChange::Constant(n) => n as u64,
            StackChange::Nothing => 0,
            StackChange::Delta => match op {
                OpCode::PushNil => self.u(),
                _ => self.b(),
            },
        }
    }

    pub fn pop_count(&self) -> (r: Option<u64>)
        ensures
            r matches Some(n) ==> self.spec_pop_count() == Some(n as nat),
            r is None ==> self.spec_pop_count() is None,
    {
        proof {
            use_type_invariant(self);
        }
        let op = self.op();
        match op.pop_count() {
            StackChange::Constant(n) => Some(n as u64),
            StackChange::Nothing => Some(0),
            StackChange::Delta => match op {
                OpCode::Pop | OpCode::Concat | OpCode::Return => Some(self.u()),
                OpCode::SetTable | OpCode::Closure => Some(self.b()),
                OpCode::Call => {
                    let a = self.a();
                    let ghost sa = self.spec_a();
                    let ghost ow = (self.op_width() + self.b_width()) as u64;
                    let ghost wd = self.word();
                    assert(wd >> ow <= 0x7fff_ffff_ffff_ffffu64) by (bit_vector)
                        requires
                            1 <= ow < 64,
                    ;
                    Some(a + 1)
                },
                _ => None,
            },
        }
    }
}

} // verus!
