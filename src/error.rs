//! What can go wrong while decoding a chunk, building its tree or rendering it.
use vstd::prelude::*;

use crate::opcode::OpCode;

verus! {

/// A decoding failure, with where it happened.
#[derive(Debug)]
pub enum DecodeError {
    /// The fixed bytes at the start of the chunk are wrong.
    Header { offset: usize },
    /// A size, endianness or field-width combination that this decoder does not read;
    /// `offset` is the header byte that holds the refused value.
    UnsupportedEncoding { offset: usize },
    /// The opcode field of an instruction names no opcode.
    InvalidOpcode { opcode: u64 },
    /// The chunk breaks its own structure. While reading: it ends early, holds text
    /// that is not UTF-8, a negative count, a code array that does not end in `End`,
    /// or bytes after the top-level function; `offset` is the byte where reading
    /// stopped. While building the tree: an instruction needs more values than are
    /// pending, or jumps past the end of its block, and `offset` is its index; or
    /// values are still pending when a block ends, and `offset` is the index where
    /// the block ends.
    MalformedChunk { offset: usize },
    /// The stack effect of the instruction at `index` is not modelled
    /// (table fills and tail calls).
    UnmodelledEffect { index: usize },
    /// The generator has no rendering for `op`; `children` are its rendered operands.
    UnsupportedOpcode { op: OpCode, children: Vec<String> },
    /// A node's operands do not fit its opcode: too few children, or a constant,
    /// or a nested function, out of range.
    InvalidOperand { op: OpCode },
}

} // verus!
