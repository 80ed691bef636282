//! Reading a Lua 4.0 chunk: its header, the primitive values it encodes, and the
//! tree of function prototypes that follows.
use vstd::prelude::*;

use crate::bytes::{lemma_pow256_small, pow256, read_uint, signed_of, uint_of};
use crate::error::DecodeError;
use crate::instruction::{widths_ok, Instruction, FIELD_WIDTHS_OFFSET};
use crate::opcode::OpCode;

verus! {

/// The chunk's preamble: its fixed bytes, then how the rest of the chunk is encoded.
#[derive(Debug)]
pub struct Header {
    pub id_chunk: u8,
    pub signature: String,
    pub version: u8,
    /// 1 for little-endian, 0 for big-endian.
    pub endianess: u8,
    pub sizeof_int: u8,
    pub sizeof_size_t: u8,
    pub sizeof_instruction: u8,
    /// The instruction's width in bits.
    pub size_instruction: u8,
    /// The opcode field's width in bits.
    pub size_op: u8,
    /// The `B` field's width in bits.
    pub size_b: u8,
    pub sizeof_number: u8,
    /// A sample number, in the chunk's number format.
    pub test_number: Vec<u8>,
}

/// A number constant as stored: the bits of an IEEE-754 value of `size` bytes.
#[derive(Clone, Copy, Debug, PartialEq, Eq, Structural)]
pub struct LuaNumber {
    pub bits: u64,
    pub size: u8,
}

/// The number of bytes of the fixed part of a header.
pub const HEADER_FIXED_LEN: usize = 13;

pub open spec fn magic_ok(s: Seq<u8>) -> bool {
    s.len() >= 5 && s[0] == 0x1b && s[1] == 0x4c && s[2] == 0x75 && s[3] == 0x61 && s[4] == 0x40
}

/// Sizes and field widths that this decoder reads.
pub open spec fn encoding_bytes_ok(
    endianess: u8,
    sizeof_int: u8,
    sizeof_size_t: u8,
    sizeof_instruction: u8,
    size_instruction: u8,
    size_op: u8,
    size_b: u8,
    sizeof_number: u8,
) -> bool {
    &&& endianess == 0 || endianess == 1
    &&& sizeof_int == 2 || sizeof_int == 4
    &&& sizeof_size_t == 2 || sizeof_size_t == 4 || sizeof_size_t == 8
    &&& sizeof_instruction == 2 || sizeof_instruction == 4 || sizeof_instruction == 8
    &&& widths_ok(size_instruction, size_op, size_b)
    &&& size_instruction <= 8 * sizeof_instruction
    &&& sizeof_number == 4 || sizeof_number == 8
}

/// How the chunk encodes its values, as its header gives it.
#[derive(Clone, Copy, Debug, PartialEq, Eq, Structural)]
pub struct Encoding {
    pub endianess: u8,
    pub sizeof_int: u8,
    pub sizeof_size_t: u8,
    pub sizeof_instruction: u8,
    pub size_instruction: u8,
    pub size_op: u8,
    pub size_b: u8,
    pub sizeof_number: u8,
}

pub open spec fn encoding_of(h: Header) -> Encoding {
    Encoding {
        endianess: h.endianess,
        sizeof_int: h.sizeof_int,
        sizeof_size_t: h.sizeof_size_t,
        sizeof_instruction: h.sizeof_instruction,
        size_instruction: h.size_instruction,
        size_op: h.size_op,
        size_b: h.size_b,
        sizeof_number: h.sizeof_number,
    }
}

/// The encoding that the header at the start of `s` gives.
pub open spec fn encoding_in(s: Seq<u8>) -> Encoding {
    Encoding {
        endianess: s[5],
        sizeof_int: s[6],
        sizeof_size_t: s[7],
        sizeof_instruction: s[8],
        size_instruction: s[9],
        size_op: s[10],
        size_b: s[11],
        sizeof_number: s[12],
    }
}

pub open spec fn encoding_supported(h: Header) -> bool {
    encoding_bytes_ok(
        h.endianess,
        h.sizeof_int,
        h.sizeof_size_t,
        h.sizeof_instruction,
        h.size_instruction,
        h.size_op,
        h.size_b,
        h.sizeof_number,
    )
}

/// Where the header that starts `s` ends, or why it cannot be read. A fixed byte
/// that is missing or wrong is a header error; a header cut short after them is a
/// malformed chunk.
pub open spec fn header_result(s: Seq<u8>) -> Result<int, DecodeError> {
    if s.len() < 1 || s[0] != 0x1b {
        Err(DecodeError::Header { offset: 0 })
    } else if s.len() < 4 || s[1] != 0x4c || s[2] != 0x75 || s[3] != 0x61 {
        Err(DecodeError::Header { offset: 1 })
    } else if s.len() < 5 || s[4] != 0x40 {
        Err(DecodeError::Header { offset: 4 })
    } else if s.len() < 13 {
        Err(DecodeError::MalformedChunk { offset: s.len() as usize })
    } else if !(s[5] == 0 || s[5] == 1) {
        Err(DecodeError::UnsupportedEncoding { offset: 5 })
    } else if !(s[6] == 2 || s[6] == 4) {
        Err(DecodeError::UnsupportedEncoding { offset: 6 })
    } else if !(s[7] == 2 || s[7] == 4 || s[7] == 8) {
        Err(DecodeError::UnsupportedEncoding { offset: 7 })
    } else if !(s[8] == 2 || s[8] == 4 || s[8] == 8) {
        Err(DecodeError::UnsupportedEncoding { offset: 8 })
    } else if !(widths_ok(s[9], s[10], s[11]) && s[9] <= 8 * s[8]) {
        Err(DecodeError::UnsupportedEncoding { offset: FIELD_WIDTHS_OFFSET })
    } else if !(s[12] == 4 || s[12] == 8) {
        Err(DecodeError::UnsupportedEncoding { offset: 12 })
    } else if s.len() < 13 + s[12] {
        Err(DecodeError::MalformedChunk { offset: s.len() as usize })
    } else {
        Ok(13 + s[12])
    }
}

/// The header's fields are the bytes that `s` starts with.
pub open spec fn header_matches(h: Header, s: Seq<u8>) -> bool {
    &&& s.len() >= 13 + h.sizeof_number
    &&& h.id_chunk == s[0]
    &&& h.signature@ == seq!['L', 'u', 'a']
    &&& h.version == s[4]
    &&& h.endianess == s[5]
    &&& h.sizeof_int == s[6]
    &&& h.sizeof_size_t == s[7]
    &&& h.sizeof_instruction == s[8]
    &&& h.size_instruction == s[9]
    &&& h.size_op == s[10]
    &&& h.size_b == s[11]
    &&& h.sizeof_number == s[12]
    &&& h.test_number@ == s.subrange(13, 13 + s[12])
}

/// Reads the header at the start of `input`; returns it and where it ends.
pub fn header(input: &[u8]) -> (r: Result<(Header, usize), DecodeError>)
    ensures
        match r {
            Ok((h, end)) => header_result(input@) == Ok::<int, DecodeError>(end as int)
                && header_matches(h, input@) && encoding_supported(h),
            Err(e) => header_result(input@) == Err::<int, DecodeError>(e),
        },
{
    if input.len() < 1 || input[0] != 0x1b {
        return Err(DecodeError::Header { offset: 0 });
    }
    if input.len() < 4 || input[1] != 0x4c || input[2] != 0x75 || input[3] != 0x61 {
        return Err(DecodeError::Header { offset: 1 });
    }
    if input.len() < 5 || input[4] != 0x40 {
        return Err(DecodeError::Header { offset: 4 });
    }
    if input.len() < HEADER_FIXED_LEN {
        return Err(DecodeError::MalformedChunk { offset: input.len() });
    }
    let endianess = input[5];
    let sizeof_int = input[6];
    let sizeof_size_t = input[7];
    let sizeof_instruction = input[8];
    let size_instruction = input[9];
    let size_op = input[10];
    let size_b = input[11];
    let sizeof_number = input[12];
    if !(endianess == 0 || endianess == 1) {
        return Err(DecodeError::UnsupportedEncoding { offset: 5 });
    }
    if !(sizeof_int == 2 || sizeof_int == 4) {
        return Err(DecodeError::UnsupportedEncoding { offset: 6 });
    }
    if !(sizeof_size_t == 2 || sizeof_size_t == 4 || sizeof_size_t == 8) {
        return Err(DecodeError::UnsupportedEncoding { offset: 7 });
    }
    if !(sizeof_instruction == 2 || sizeof_instruction == 4 || sizeof_instruction == 8) {
        return Err(DecodeError::UnsupportedEncoding { offset: 8 });
    }
    if !(1 <= size_op && (size_op as u16) + (size_b as u16) <= size_instruction as u16
        && (size_op as u16) + (size_b as u16) < 64
        && size_instruction <= 64 && (size_instruction as u16) <= 8 * (sizeof_instruction as u16)) {
        return Err(DecodeError::UnsupportedEncoding { offset: FIELD_WIDTHS_OFFSET });
    }
    if !(sizeof_number == 4 || sizeof_number == 8) {
        return Err(DecodeError::UnsupportedEncoding { offset: 12 });
    }
    let end = HEADER_FIXED_LEN + sizeof_number as usize;
    if input.len() < end {
        return Err(DecodeError::MalformedChunk { offset: input.len() });
    }
    let test_number = vstd::slice::slice_to_vec(&input[HEADER_FIXED_LEN..end]);
    proof {
        reveal_strlit("Lua");
    }
    let h = Header {
        id_chunk: input[0],
        signature: "Lua".to_owned(),
        version: input[4],
        endianess,
        sizeof_int,
        sizeof_size_t,
        sizeof_instruction,
        size_instruction,
        size_op,
        size_b,
        sizeof_number,
        test_number,
    };
    assert(h.signature@ == seq!['L', 'u', 'a']);
    assert(h.test_number@ == input@.subrange(13, 13 + input@[12]));
    assert(header_matches(h, input@));
    assert(encoding_supported(h));
    assert(header_result(input@) == Ok::<int, DecodeError>(end as int));
    Ok((h, end))
}

/// Decoding agrees with its specification: the same value and end, or the same error.
pub open spec fn agrees<T>(r: Result<(T, usize), DecodeError>, spec: Result<(T, int), DecodeError>) -> bool {
    match r {
        Ok((v, e)) => spec == Ok::<(T, int), DecodeError>((v, e as int)),
        Err(e) => spec == Err::<(T, int), DecodeError>(e),
    }
}

pub open spec fn little(h: Encoding) -> bool {
    h.endianess == 1
}

/// The unsigned `n`-byte integer at `p`, with where it ends.
pub open spec fn p_uint(s: Seq<u8>, p: int, n: int, h: Encoding) -> Result<(nat, int), DecodeError> {
    if p < 0 || p + n > s.len() {
        Err(DecodeError::MalformedChunk { offset: p as usize })
    } else {
        Ok((uint_of(s.subrange(p, p + n), little(h)), p + n))
    }
}

/// A signed `int` of the chunk.
pub open spec fn p_int(s: Seq<u8>, p: int, h: Encoding) -> Result<(i32, int), DecodeError> {
    match p_uint(s, p, h.sizeof_int as int, h) {
        Err(e) => Err(e),
        Ok((u, q)) => Ok((signed_of(u, h.sizeof_int as nat) as i32, q)),
    }
}

/// An unsigned `size_t` of the chunk.
pub open spec fn p_size_t(s: Seq<u8>, p: int, h: Encoding) -> Result<(u64, int), DecodeError> {
    match p_uint(s, p, h.sizeof_size_t as int, h) {
        Err(e) => Err(e),
        Ok((u, q)) => Ok((u as u64, q)),
    }
}

/// A number constant of the chunk.
pub open spec fn p_number(s: Seq<u8>, p: int, h: Encoding) -> Result<(LuaNumber, int), DecodeError> {
    match p_uint(s, p, h.sizeof_number as int, h) {
        Err(e) => Err(e),
        Ok((u, q)) => Ok((LuaNumber { bits: u as u64, size: h.sizeof_number }, q)),
    }
}

/// An instruction of the chunk; its opcode must be known.
pub open spec fn p_instruction(s: Seq<u8>, p: int, h: Encoding) -> Result<(Instruction, int), DecodeError> {
    match p_uint(s, p, h.sizeof_instruction as int, h) {
        Err(e) => Err(e),
        Ok((u, q)) => {
            let i = Instruction::from_parts(u as u64, h.size_instruction, h.size_op, h.size_b);
            if i.op_bits() >= crate::opcode::OPCODE_COUNT {
                Err(DecodeError::InvalidOpcode { opcode: i.op_bits() })
            } else {
                Ok((i, q))
            }
        },
    }
}

/// A string of the chunk: a `size_t` length, then that many bytes, the last of them a
/// NUL that is not part of the text. A zero length is the empty string, with no NUL.
pub open spec fn p_string(s: Seq<u8>, p: int, h: Encoding) -> Result<(Seq<char>, int), DecodeError> {
    match p_size_t(s, p, h) {
        Err(e) => Err(e),
        Ok((n, q)) => if n == 0 {
            Ok((Seq::empty(), q))
        } else if q + n > s.len() {
            Err(DecodeError::MalformedChunk { offset: q as usize })
        } else if s[q + n - 1] != 0 || !vstd::utf8::valid_utf8(s.subrange(q, q + n - 1)) {
            Err(DecodeError::MalformedChunk { offset: q as usize })
        } else {
            Ok((vstd::utf8::decode_utf8(s.subrange(q, q + n - 1)), q + n))
        },
    }
}

fn read_word(input: &[u8], pos: usize, size: u8, header: &Header) -> (r: Result<(u64, usize), DecodeError>)
    requires
        size <= 8,
        size >= 1,
    ensures
        match r {
            Ok((v, e)) => p_uint(input@, pos as int, size as int, encoding_of(*header)) == Ok::<(nat, int), DecodeError>(
                (v as nat, e as int),
            ) && (v as nat) < pow256(size as nat) && e == pos + size && e <= input@.len(),
            Err(e) => p_uint(input@, pos as int, size as int, encoding_of(*header)) == Err::<(nat, int), DecodeError>(e),
        },
{
    match read_uint(input, pos, size as usize, header.endianess == 1) {
        None => Err(DecodeError::MalformedChunk { offset: pos }),
        Some(v) => {
            assert(input@.len() == input.len());
            Ok((v, pos + size as usize))
        },
    }
}

/// Reads a signed `int` at `pos`.
pub fn integer(input: &[u8], pos: usize, header: &Header) -> (r: Result<(i32, usize), DecodeError>)
    requires
        encoding_supported(*header),
    ensures
        r matches Ok((_, e)) ==> pos < e <= input@.len(),
        agrees(r, p_int(input@, pos as int, encoding_of(*header))),
{
    let (u, end) = read_word(input, pos, header.sizeof_int, header)?;
    proof {
        lemma_pow256_small();
    }
    let v: i32 = if header.sizeof_int == 2 {
        if u >= 0x8000 {
            (u as i64 - 0x1_0000) as i32
        } else {
            u as i32
        }
    } else {
        if u >= 0x8000_0000 {
            (u as i64 - 0x1_0000_0000) as i32
        } else {
            u as i32
        }
    };
    Ok((v, end))
}

/// Reads an unsigned `size_t` at `pos`.
pub fn size_t(input: &[u8], pos: usize, header: &Header) -> (r: Result<(u64, usize), DecodeError>)
    requires
        encoding_supported(*header),
    ensures
        r matches Ok((_, e)) ==> pos < e <= input@.len(),
        agrees(r, p_size_t(input@, pos as int, encoding_of(*header))),
{
    read_word(input, pos, header.sizeof_size_t, header)
}

/// Reads a number constant at `pos`.
pub fn number(input: &[u8], pos: usize, header: &Header) -> (r: Result<(LuaNumber, usize), DecodeError>)
    requires
        encoding_supported(*header),
    ensures
        r matches Ok((_, e)) ==> pos < e <= input@.len(),
        agrees(r, p_number(input@, pos as int, encoding_of(*header))),
{
    let (bits, end) = read_word(input, pos, header.sizeof_number, header)?;
    Ok((LuaNumber { bits, size: header.sizeof_number }, end))
}

/// Reads an instruction at `pos`.
pub fn instruction(input: &[u8], pos: usize, header: &Header) -> (r: Result<(Instruction, usize), DecodeError>)
    requires
        encoding_supported(*header),
    ensures
        r matches Ok((_, e)) ==> pos < e <= input@.len(),
        agrees(r, p_instruction(input@, pos as int, encoding_of(*header))),
        r matches Ok((i, _)) ==> i.wf(),
{
    let (word, end) = read_word(input, pos, header.sizeof_instruction, header)?;
    proof {
        Instruction::lemma_from_parts(
            Instruction::from_parts(word, header.size_instruction, header.size_op, header.size_b),
            word,
            header.size_instruction,
            header.size_op,
            header.size_b,
        );
    }
    let i = Instruction::new(word, header.size_instruction, header.size_op, header.size_b)?;
    Ok((i, end))
}

/// Relies on `std::str::from_utf8`: the bytes are text exactly when they are valid
/// UTF-8, and the text is their decoding.
#[verifier::external_body]
fn utf8_text(bytes: &[u8]) -> (r: Option<String>)
    ensures
        r is Some <==> vstd::utf8::valid_utf8(bytes@),
        r matches Some(t) ==> t@ == vstd::utf8::decode_utf8(bytes@),
{
    std::str::from_utf8(bytes).ok().map(|t| t.to_owned())
}

/// Reads a string at `pos`.
pub fn string(input: &[u8], pos: usize, header: &Header) -> (r: Result<(String, usize), DecodeError>)
    requires
        encoding_supported(*header),
    ensures
        r matches Ok((_, e)) ==> pos < e <= input@.len(),
        match r {
            Ok((t, e)) => p_string(input@, pos as int, encoding_of(*header)) == Ok::<(Seq<char>, int), DecodeError>(
                (t@, e as int),
            ),
            Err(e) => p_string(input@, pos as int, encoding_of(*header)) == Err::<(Seq<char>, int), DecodeError>(e),
        },
{
    let (n, start) = size_t(input, pos, header)?;
    if n == 0 {
        return Ok((String::new(), start));
    }
    if n > (input.len() - start) as u64 {
        return Err(DecodeError::MalformedChunk { offset: start });
    }
    let end = start + n as usize;
    if input[end - 1] != 0 {
        return Err(DecodeError::MalformedChunk { offset: start });
    }
    match utf8_text(&input[start..end - 1]) {
        None => Err(DecodeError::MalformedChunk { offset: start }),
        Some(t) => Ok((t, end)),
    }
}

/// A local variable: its name and the range of instructions where it is live.
#[derive(Debug)]
pub struct Local {
    pub name: String,
    pub start: i32,
    pub end: i32,
}

/// The mathematical form of a [`Local`].
pub struct LocalModel {
    pub name: Seq<char>,
    pub start: i32,
    pub end: i32,
}

impl View for Local {
    type V = LocalModel;

    open spec fn view(&self) -> LocalModel {
        LocalModel { name: self.name@, start: self.start, end: self.end }
    }
}

pub open spec fn p_local(s: Seq<u8>, p: int, h: Encoding) -> Result<(LocalModel, int), DecodeError> {
    match p_string(s, p, h) {
        Err(e) => Err(e),
        Ok((name, q1)) => match p_int(s, q1, h) {
            Err(e) => Err(e),
            Ok((start, q2)) => match p_int(s, q2, h) {
                Err(e) => Err(e),
                Ok((end, q3)) => Ok((LocalModel { name, start, end }, q3)),
            },
        },
    }
}

/// Reads a local at `pos`.
fn local(input: &[u8], pos: usize, header: &Header) -> (r: Result<(Local, usize), DecodeError>)
    requires
        encoding_supported(*header),
    ensures
        r matches Ok((_, e)) ==> pos < e <= input@.len(),
        match r {
            Ok((l, e)) => p_local(input@, pos as int, encoding_of(*header)) == Ok::<(LocalModel, int), DecodeError>(
                (l@, e as int),
            ),
            Err(e) => p_local(input@, pos as int, encoding_of(*header)) == Err::<(LocalModel, int), DecodeError>(e),
        },
{
    let (name, q1) = string(input, pos, header)?;
    let (start, q2) = integer(input, q1, header)?;
    let (end, q3) = integer(input, q2, header)?;
    Ok((Local { name, start, end }, q3))
}

/// The locals table of a function.
pub open spec fn p_locals(s: Seq<u8>, p: int, h: Encoding, n: nat, acc: Seq<LocalModel>) -> Result<
    (Seq<LocalModel>, int),
    DecodeError,
>
    decreases n,
{
    if n == 0 {
        Ok((acc, p))
    } else {
        match p_local(s, p, h) {
            Err(e) => Err(e),
            Ok((x, q)) => p_locals(s, q, h, (n - 1) as nat, acc.push(x)),
        }
    }
}

/// Reads `n` items in a row from `pos`.
fn locals(input: &[u8], pos: usize, header: &Header, n: u32) -> (r: Result<(Vec<Local>, usize), DecodeError>)
    requires
        encoding_supported(*header),
    ensures
        match r {
            Ok((v, e)) => p_locals(input@, pos as int, encoding_of(*header), n as nat, Seq::empty()) == Ok::<
                (Seq<LocalModel>, int),
                DecodeError,
            >((v@.map_values(|l: Local| l@), e as int)) && pos <= e && (n > 0 ==> e <= input@.len()),
            Err(e) => p_locals(input@, pos as int, encoding_of(*header), n as nat, Seq::empty()) == Err::<
                (Seq<LocalModel>, int),
                DecodeError,
            >(e),
        },
{
    let mut v: Vec<Local> = Vec::new();
    let mut q = pos;
    let mut k: u32 = 0;
    assert(v@.map_values(|l: Local| l@) =~= Seq::<LocalModel>::empty());
    while k < n
        invariant
            encoding_supported(*header),
            k <= n,
            pos <= q,
            k > 0 ==> q <= input@.len(),
            p_locals(input@, pos as int, encoding_of(*header), n as nat, Seq::empty()) == p_locals(
                input@,
                q as int,
                encoding_of(*header),
                (n - k) as nat,
                v@.map_values(|l: Local| l@),
            ),
        decreases n - k,
    {
        let (x, next) = local(input, q, header)?;
        let ghost before = v@;
        v.push(x);
        proof {
            assert(v@.map_values(|l: Local| l@) =~= before.map_values(|l: Local| l@).push(x@));
        }
        q = next;
        k = k + 1;
    }
    Ok((v, q))
}

/// The line of each instruction.
pub open spec fn p_lines(s: Seq<u8>, p: int, h: Encoding, n: nat, acc: Seq<i32>) -> Result<
    (Seq<i32>, int),
    DecodeError,
>
    decreases n,
{
    if n == 0 {
        Ok((acc, p))
    } else {
        match p_int(s, p, h) {
            Err(e) => Err(e),
            Ok((x, q)) => p_lines(s, q, h, (n - 1) as nat, acc.push(x)),
        }
    }
}

/// Reads `n` items in a row from `pos`.
fn lines(input: &[u8], pos: usize, header: &Header, n: u32) -> (r: Result<(Vec<i32>, usize), DecodeError>)
    requires
        encoding_supported(*header),
    ensures
        match r {
            Ok((v, e)) => p_lines(input@, pos as int, encoding_of(*header), n as nat, Seq::empty()) == Ok::<
                (Seq<i32>, int),
                DecodeError,
            >((v@, e as int)) && pos <= e && (n > 0 ==> e <= input@.len()),
            Err(e) => p_lines(input@, pos as int, encoding_of(*header), n as nat, Seq::empty()) == Err::<
                (Seq<i32>, int),
                DecodeError,
            >(e),
        },
{
    let mut v: Vec<i32> = Vec::new();
    let mut q = pos;
    let mut k: u32 = 0;
    assert(v@ =~= Seq::<i32>::empty());
    while k < n
        invariant
            encoding_supported(*header),
            k <= n,
            pos <= q,
            k > 0 ==> q <= input@.len(),
            p_lines(input@, pos as int, encoding_of(*header), n as nat, Seq::empty()) == p_lines(
                input@,
                q as int,
                encoding_of(*header),
                (n - k) as nat,
                v@,
            ),
        decreases n - k,
    {
        let (x, next) = integer(input, q, header)?;
        let ghost before = v@;
        v.push(x);
        proof {
            assert(v@ =~= before.push(x));
        }
        q = next;
        k = k + 1;
    }
    Ok((v, q))
}

/// The string constants.
pub open spec fn p_strings(s: Seq<u8>, p: int, h: Encoding, n: nat, acc: Seq<Seq<char>>) -> Result<
    (Seq<Seq<char>>, int),
    DecodeError,
>
    decreases n,
{
    if n == 0 {
        Ok((acc, p))
    } else {
        match p_string(s, p, h) {
            Err(e) => Err(e),
            Ok((x, q)) => p_strings(s, q, h, (n - 1) as nat, acc.push(x)),
        }
    }
}

/// Reads `n` items in a row from `pos`.
fn strings(input: &[u8], pos: usize, header: &Header, n: u32) -> (r: Result<(Vec<String>, usize), DecodeError>)
    requires
        encoding_supported(*header),
    ensures
        match r {
            Ok((v, e)) => p_strings(input@, pos as int, encoding_of(*header), n as nat, Seq::empty()) == Ok::<
                (Seq<Seq<char>>, int),
                DecodeError,
            >((v@.map_values(|t: String| t@), e as int)) && pos <= e && (n > 0 ==> e <= input@.len()),
            Err(e) => p_strings(input@, pos as int, encoding_of(*header), n as nat, Seq::empty()) == Err::<
                (Seq<Seq<char>>, int),
                DecodeError,
            >(e),
        },
{
    let mut v: Vec<String> = Vec::new();
    let mut q = pos;
    let mut k: u32 = 0;
    assert(v@.map_values(|t: String| t@) =~= Seq::<Seq<char>>::empty());
    while k < n
        invariant
            encoding_supported(*header),
            k <= n,
            pos <= q,
            k > 0 ==> q <= input@.len(),
            p_strings(input@, pos as int, encoding_of(*header), n as nat, Seq::empty()) == p_strings(
                input@,
                q as int,
                encoding_of(*header),
                (n - k) as nat,
                v@.map_values(|t: String| t@),
            ),
        decreases n - k,
    {
        let (x, next) = string(input, q, header)?;
        let ghost before = v@;
        v.push(x);
        proof {
            assert(v@.map_values(|t: String| t@) =~= before.map_values(|t: String| t@).push(x@));
        }
        q = next;
        k = k + 1;
    }
    Ok((v, q))
}

/// The number constants.
pub open spec fn p_numbers(s: Seq<u8>, p: int, h: Encoding, n: nat, acc: Seq<LuaNumber>) -> Result<
    (Seq<LuaNumber>, int),
    DecodeError,
>
    decreases n,
{
    if n == 0 {
        Ok((acc, p))
    } else {
        match p_number(s, p, h) {
            Err(e) => Err(e),
            Ok((x, q)) => p_numbers(s, q, h, (n - 1) as nat, acc.push(x)),
        }
    }
}

/// Reads `n` items in a row from `pos`.
fn numbers(input: &[u8], pos: usize, header: &Header, n: u32) -> (r: Result<(Vec<LuaNumber>, usize), DecodeError>)
    requires
        encoding_supported(*header),
    ensures
        match r {
            Ok((v, e)) => p_numbers(input@, pos as int, encoding_of(*header), n as nat, Seq::empty()) == Ok::<
                (Seq<LuaNumber>, int),
                DecodeError,
            >((v@, e as int)) && pos <= e && (n > 0 ==> e <= input@.len()),
            Err(e) => p_numbers(input@, pos as int, encoding_of(*header), n as nat, Seq::empty()) == Err::<
                (Seq<LuaNumber>, int),
                DecodeError,
            >(e),
        },
{
    let mut v: Vec<LuaNumber> = Vec::new();
    let mut q = pos;
    let mut k: u32 = 0;
    assert(v@ =~= Seq::<LuaNumber>::empty());
    while k < n
        invariant
            encoding_supported(*header),
            k <= n,
            pos <= q,
            k > 0 ==> q <= input@.len(),
            p_numbers(input@, pos as int, encoding_of(*header), n as nat, Seq::empty()) == p_numbers(
                input@,
                q as int,
                encoding_of(*header),
                (n - k) as nat,
                v@,
            ),
        decreases n - k,
    {
        let (x, next) = number(input, q, header)?;
        let ghost before = v@;
        v.push(x);
        proof {
            assert(v@ =~= before.push(x));
        }
        q = next;
        k = k + 1;
    }
    Ok((v, q))
}

/// The code of a function.
pub open spec fn p_instructions(s: Seq<u8>, p: int, h: Encoding, n: nat, acc: Seq<Instruction>) -> Result<
    (Seq<Instruction>, int),
    DecodeError,
>
    decreases n,
{
    if n == 0 {
        Ok((acc, p))
    } else {
        match p_instruction(s, p, h) {
            Err(e) => Err(e),
            Ok((x, q)) => p_instructions(s, q, h, (n - 1) as nat, acc.push(x)),
        }
    }
}

/// Reads `n` items in a row from `pos`.
fn instructions(input: &[u8], pos: usize, header: &Header, n: u32) -> (r: Result<(Vec<Instruction>, usize), DecodeError>)
    requires
        encoding_supported(*header),
    ensures
        match r {
            Ok((v, e)) => p_instructions(input@, pos as int, encoding_of(*header), n as nat, Seq::empty()) == Ok::<
                (Seq<Instruction>, int),
                DecodeError,
            >((v@, e as int)) && pos <= e && (n > 0 ==> e <= input@.len()),
            Err(e) => p_instructions(input@, pos as int, encoding_of(*header), n as nat, Seq::empty()) == Err::<
                (Seq<Instruction>, int),
                DecodeError,
            >(e),
        },
{
    let mut v: Vec<Instruction> = Vec::new();
    let mut q = pos;
    let mut k: u32 = 0;
    assert(v@ =~= Seq::<Instruction>::empty());
    while k < n
        invariant
            encoding_supported(*header),
            k <= n,
            pos <= q,
            k > 0 ==> q <= input@.len(),
            p_instructions(input@, pos as int, encoding_of(*header), n as nat, Seq::empty()) == p_instructions(
                input@,
                q as int,
                encoding_of(*header),
                (n - k) as nat,
                v@,
            ),
        decreases n - k,
    {
        let (x, next) = instruction(input, q, header)?;
        let ghost before = v@;
        v.push(x);
        proof {
            assert(v@ =~= before.push(x));
        }
        q = next;
        k = k + 1;
    }
    Ok((v, q))
}

/// The constants pool of a function.
#[derive(Debug)]
pub struct Constants {
    pub strings: Vec<String>,
    pub numbers: Vec<LuaNumber>,
    pub functions: Vec<Function>,
}

/// A function prototype.
#[derive(Debug)]
pub struct Function {
    pub source: String,
    pub line: i32,
    pub param_count: i32,
    pub is_vararg: bool,
    pub max_stack_size: i32,
    pub locals: Vec<Local>,
    pub lines: Vec<i32>,
    pub constants: Constants,
    pub code: Vec<Instruction>,
}

/// The mathematical form of a [`Function`], its nested functions included.
pub struct FunctionModel {
    pub source: Seq<char>,
    pub line: i32,
    pub param_count: i32,
    pub is_vararg: bool,
    pub max_stack_size: i32,
    pub locals: Seq<LocalModel>,
    pub lines: Seq<i32>,
    pub strings: Seq<Seq<char>>,
    pub numbers: Seq<LuaNumber>,
    pub functions: Seq<FunctionModel>,
    pub code: Seq<Instruction>,
}

pub open spec fn function_model(f: Function) -> FunctionModel
    decreases f,
{
    FunctionModel {
        source: f.source@,
        line: f.line,
        param_count: f.param_count,
        is_vararg: f.is_vararg,
        max_stack_size: f.max_stack_size,
        locals: f.locals@.map_values(|l: Local| l@),
        lines: f.lines@,
        strings: f.constants.strings@.map_values(|t: String| t@),
        numbers: f.constants.numbers@,
        functions: Seq::new(
            f.constants.functions.len() as nat,
            |i: int|
                if 0 <= i < f.constants.functions.len() {
                    function_model(f.constants.functions[i])
                } else {
                    vstd::pervasive::arbitrary()
                },
        ),
        code: f.code@,
    }
}

pub open spec fn function_models(fs: Seq<Function>) -> Seq<FunctionModel> {
    fs.map_values(|f: Function| function_model(f))
}

proof fn lemma_function_model(f: Function)
    ensures
        function_model(f).functions == function_models(f.constants.functions@),
{
    assert(function_model(f).functions =~= function_models(f.constants.functions@));
}

/// A non-negative count.
pub open spec fn p_count(s: Seq<u8>, p: int, h: Encoding) -> Result<(nat, int), DecodeError> {
    match p_int(s, p, h) {
        Err(e) => Err(e),
        Ok((v, q)) => if v < 0 {
            Err(DecodeError::MalformedChunk { offset: p as usize })
        } else {
            Ok((v as nat, q))
        },
    }
}

fn count(input: &[u8], pos: usize, header: &Header) -> (r: Result<(u32, usize), DecodeError>)
    requires
        encoding_supported(*header),
    ensures
        r matches Ok((_, e)) ==> pos < e <= input@.len(),
        match r {
            Ok((n, e)) => p_count(input@, pos as int, encoding_of(*header)) == Ok::<(nat, int), DecodeError>(
                (n as nat, e as int),
            ),
            Err(e) => p_count(input@, pos as int, encoding_of(*header)) == Err::<(nat, int), DecodeError>(e),
        },
{
    let (v, q) = integer(input, pos, header)?;
    if v < 0 {
        return Err(DecodeError::MalformedChunk { offset: pos });
    }
    Ok((v as u32, q))
}

/// The nested functions of a constants pool: `n` function prototypes in a row.
pub open spec fn p_functions(s: Seq<u8>, p: int, h: Encoding, n: nat, acc: Seq<FunctionModel>) -> Result<
    (Seq<FunctionModel>, int),
    DecodeError,
>
    decreases s.len() - p, 2int, n,
{
    if n == 0 {
        Ok((acc, p))
    } else if p > s.len() {
        Err(DecodeError::MalformedChunk { offset: p as usize })
    } else {
        match p_function(s, p, h) {
            Err(e) => Err(e),
            Ok((f, q)) => if p < q <= s.len() {
                p_functions(s, q, h, (n - 1) as nat, acc.push(f))
            } else {
                Err(DecodeError::MalformedChunk { offset: q as usize })
            },
        }
    }
}

/// A function prototype: source name, line, parameter count, vararg flag and stack
/// size; then the count-prefixed locals, line table, strings, numbers, nested
/// functions and code. Its code must end in `End`.
pub open spec fn p_function(s: Seq<u8>, p: int, h: Encoding) -> Result<(FunctionModel, int), DecodeError>
    decreases s.len() - p, 1int, 0nat,
{
    match p_string(s, p, h) {
        Err(e) => Err(e),
        Ok((source, pos1)) => match p_int(s, pos1, h) {
            Err(e) => Err(e),
            Ok((line, pos2)) => match p_int(s, pos2, h) {
                Err(e) => Err(e),
                Ok((param_count, pos3)) => if pos3 < 0 || pos3 >= s.len() {
                    Err(DecodeError::MalformedChunk { offset: pos3 as usize })
                } else {
                    match p_int(s, pos3 + 1, h) {
                        Err(e) => Err(e),
                        Ok((max_stack_size, pos4)) => p_function_tables(
                            s,
                            p,
                            h,
                            source,
                            line,
                            param_count,
                            s[pos3] == 1,
                            max_stack_size,
                            pos4,
                        ),
                    }
                },
            },
        },
    }
}

/// The count-prefixed tables of a function prototype, from `pos4` on.
pub open spec fn p_function_tables(
    s: Seq<u8>,
    p: int,
    h: Encoding,
    source: Seq<char>,
    line: i32,
    param_count: i32,
    is_vararg: bool,
    max_stack_size: i32,
    pos4: int,
) -> Result<(FunctionModel, int), DecodeError>
    decreases s.len() - p, 0int, 0nat,
{
    match p_count(s, pos4, h) {
        Err(e) => Err(e),
        Ok((nl, pos5)) => match p_locals(s, pos5, h, nl, Seq::empty()) {
            Err(e) => Err(e),
            Ok((locals, pos6)) => match p_count(s, pos6, h) {
                Err(e) => Err(e),
                Ok((nli, pos7)) => match p_lines(s, pos7, h, nli, Seq::empty()) {
                    Err(e) => Err(e),
                    Ok((lines, pos8)) => match p_count(s, pos8, h) {
                        Err(e) => Err(e),
                        Ok((ns, pos9)) => match p_strings(s, pos9, h, ns, Seq::empty()) {
                            Err(e) => Err(e),
                            Ok((strings, pos10)) => match p_count(s, pos10, h) {
                                Err(e) => Err(e),
                                Ok((nn, pos11)) => match p_numbers(s, pos11, h, nn, Seq::empty()) {
                                    Err(e) => Err(e),
                                    Ok((numbers, pos12)) => match p_count(s, pos12, h) {
                                        Err(e) => Err(e),
                                        Ok((nf, pos13)) => if p < pos13 <= s.len() {
                                            match p_functions(s, pos13, h, nf, Seq::empty()) {
                                                Err(e) => Err(e),
                                                Ok((functions, pos14)) => p_function_code(
                                                    s,
                                                    h,
                                                    FunctionModel {
                                                        source,
                                                        line,
                                                        param_count,
                                                        is_vararg,
                                                        max_stack_size,
                                                        locals,
                                                        lines,
                                                        strings,
                                                        numbers,
                                                        functions,
                                                        code: Seq::empty(),
                                                    },
                                                    pos14,
                                                ),
                                            }
                                        } else {
                                            Err(DecodeError::MalformedChunk { offset: pos13 as usize })
                                        },
                                    },
                                },
                            },
                        },
                    },
                },
            },
        },
    }
}

/// Whether `code` ends in `End`.
pub open spec fn ends_in_end(code: Seq<Instruction>) -> bool {
    code.len() > 0 && code.last().spec_op() == OpCode::End
}

/// The count-prefixed code of a function prototype, from `p` on, completing `f`.
pub open spec fn p_function_code(s: Seq<u8>, h: Encoding, f: FunctionModel, p: int) -> Result<
    (FunctionModel, int),
    DecodeError,
> {
    match p_count(s, p, h) {
        Err(e) => Err(e),
        Ok((nc, q)) => match p_instructions(s, q, h, nc, Seq::empty()) {
            Err(e) => Err(e),
            Ok((code, end)) => if ends_in_end(code) {
                Ok((FunctionModel { code, ..f }, end))
            } else {
                Err(DecodeError::MalformedChunk { offset: end as usize })
            },
        },
    }
}

/// Reads `n` function prototypes in a row from `pos`.
fn functions(input: &[u8], pos: usize, header: &Header, n: u32) -> (r: Result<(Vec<Function>, usize), DecodeError>)
    requires
        encoding_supported(*header),
    ensures
        match r {
            Ok((v, e)) => p_functions(input@, pos as int, encoding_of(*header), n as nat, Seq::empty())
                == Ok::<(Seq<FunctionModel>, int), DecodeError>((function_models(v@), e as int))
                && pos <= e && (n > 0 ==> e <= input@.len()),
            Err(e) => p_functions(input@, pos as int, encoding_of(*header), n as nat, Seq::empty())
                == Err::<(Seq<FunctionModel>, int), DecodeError>(e),
        },
    decreases input@.len() - pos, 2int, n as nat,
{
    let mut v: Vec<Function> = Vec::new();
    let mut q = pos;
    let mut k: u32 = 0;
    assert(function_models(v@) =~= Seq::<FunctionModel>::empty());
    while k < n
        invariant
            encoding_supported(*header),
            k <= n,
            pos <= q,
            k > 0 ==> q <= input@.len(),
            p_functions(input@, pos as int, encoding_of(*header), n as nat, Seq::empty()) == p_functions(
                input@,
                q as int,
                encoding_of(*header),
                (n - k) as nat,
                function_models(v@),
            ),
        decreases n - k,
    {
        if q > input.len() {
            return Err(DecodeError::MalformedChunk { offset: q });
        }
        let (f, next) = function(input, q, header)?;
        let ghost before = v@;
        v.push(f);
        proof {
            assert(function_models(v@) =~= function_models(before).push(function_model(f)));
        }
        q = next;
        k = k + 1;
    }
    Ok((v, q))
}

/// Reads the function prototype at `pos`, nested prototypes included.
pub fn function(input: &[u8], pos: usize, header: &Header) -> (r: Result<(Function, usize), DecodeError>)
    requires
        encoding_supported(*header),
    ensures
        r matches Ok((_, e)) ==> pos < e <= input@.len(),
        match r {
            Ok((f, e)) => p_function(input@, pos as int, encoding_of(*header)) == Ok::<
                (FunctionModel, int),
                DecodeError,
            >((function_model(f), e as int)),
            Err(e) => p_function(input@, pos as int, encoding_of(*header)) == Err::<
                (FunctionModel, int),
                DecodeError,
            >(e),
        },
    decreases input@.len() - pos, 1int, 0nat,
{
    let (source, pos1) = string(input, pos, header)?;
    let (line, pos2) = integer(input, pos1, header)?;
    let (param_count, pos3) = integer(input, pos2, header)?;
    if pos3 >= input.len() {
        return Err(DecodeError::MalformedChunk { offset: pos3 });
    }
    let is_vararg = input[pos3] == 1;
    let (max_stack_size, pos4) = integer(input, pos3 + 1, header)?;
    let (nl, pos5) = count(input, pos4, header)?;
    let (locals, pos6) = locals(input, pos5, header, nl)?;
    let (nli, pos7) = count(input, pos6, header)?;
    let (lines, pos8) = lines(input, pos7, header, nli)?;
    let (ns, pos9) = count(input, pos8, header)?;
    let (strings, pos10) = strings(input, pos9, header, ns)?;
    let (nn, pos11) = count(input, pos10, header)?;
    let (numbers, pos12) = numbers(input, pos11, header, nn)?;
    let (nf, pos13) = count(input, pos12, header)?;
    let (functions, pos14) = functions(input, pos13, header, nf)?;
    let (nc, pos15) = count(input, pos14, header)?;
    let (code, end) = instructions(input, pos15, header, nc)?;
    if code.len() == 0 || code[code.len() - 1].op() != OpCode::End {
        return Err(DecodeError::MalformedChunk { offset: end });
    }
    let f = Function {
        source,
        line,
        param_count,
        is_vararg,
        max_stack_size,
        locals,
        lines,
        constants: Constants { strings, numbers, functions },
        code,
    };
    proof {
        lemma_function_model(f);
    }
    Ok((f, end))
}

/// The top-level function of the chunk `s`: a header, then one prototype that
/// takes up the rest of the bytes.
pub open spec fn p_chunk(s: Seq<u8>) -> Result<FunctionModel, DecodeError> {
    match header_result(s) {
        Err(e) => Err(e),
        Ok(p) => match p_function(s, p, encoding_in(s)) {
            Err(e) => Err(e),
            Ok((f, end)) => if end == s.len() {
                Ok(f)
            } else {
                Err(DecodeError::MalformedChunk { offset: end as usize })
            },
        },
    }
}

/// Reads a whole chunk: its header and its top-level function, which must end
/// exactly where the input does.
pub fn lua(input: &[u8]) -> (r: Result<(Header, Function), DecodeError>)
    ensures
        match r {
            Ok((h, f)) => p_chunk(input@) == Ok::<FunctionModel, DecodeError>(function_model(f))
                && header_matches(h, input@),
            Err(e) => p_chunk(input@) == Err::<FunctionModel, DecodeError>(e),
        },
{
    let (h, p) = header(input)?;
    assert(encoding_of(h) == encoding_in(input@));
    let (f, end) = function(input, p, &h)?;
    if end != input.len() {
        return Err(DecodeError::MalformedChunk { offset: end });
    }
    Ok((h, f))
}

/// Every supported encoding is read, whatever the remaining bytes hold: a header with
/// the right fixed bytes, supported sizes and its whole sample number is accepted,
/// and ends after that number.
pub proof fn lemma_header_total(s: Seq<u8>)
    requires
        s.len() >= 13,
        magic_ok(s),
        encoding_bytes_ok(s[5], s[6], s[7], s[8], s[9], s[10], s[11], s[12]),
        s.len() >= 13 + s[12],
    ensures
        header_result(s) == Ok::<int, DecodeError>(13 + s[12]),
{
}

/// Input that does not start with the fixed bytes `1B "Lua" 40`, because one of them
/// is wrong or missing, is refused as a header error, whatever else it holds.
pub proof fn lemma_header_rejects_bad_magic(s: Seq<u8>)
    requires
        !magic_ok(s),
    ensures
        header_result(s) matches Err(DecodeError::Header { .. }),
{
}

/// An unsupported size, endianness or field-width combination is rejected as such,
/// never read with another encoding.
pub proof fn lemma_header_rejects_unsupported(s: Seq<u8>)
    requires
        s.len() >= 13,
        magic_ok(s),
        !encoding_bytes_ok(s[5], s[6], s[7], s[8], s[9], s[10], s[11], s[12]),
    ensures
        header_result(s) matches Err(DecodeError::UnsupportedEncoding { .. }),
{
}

/// Every function of a tree of prototypes has code that ends in `End`.
pub open spec fn all_end_in_end(f: FunctionModel) -> bool
    decreases f,
{
    &&& ends_in_end(f.code)
    &&& forall|i: int| 0 <= i < f.functions.len() ==> all_end_in_end(#[trigger] f.functions[i])
}

/// A parsed prototype, and each prototype nested in it, has code that ends in `End`.
pub proof fn lemma_parsed_code_ends_in_end(s: Seq<u8>, p: int, h: Encoding)
    requires
        p_function(s, p, h) is Ok,
    ensures
        all_end_in_end(p_function(s, p, h)->Ok_0.0),
    decreases s.len() - p, 1int, 0nat,
{
    let (source, pos1) = p_string(s, p, h)->Ok_0;
    let (line, pos2) = p_int(s, pos1, h)->Ok_0;
    let (param_count, pos3) = p_int(s, pos2, h)->Ok_0;
    let (max_stack_size, pos4) = p_int(s, pos3 + 1, h)->Ok_0;
    let (nl, pos5) = p_count(s, pos4, h)->Ok_0;
    let (locals, pos6) = p_locals(s, pos5, h, nl, Seq::empty())->Ok_0;
    let (nli, pos7) = p_count(s, pos6, h)->Ok_0;
    let (lines, pos8) = p_lines(s, pos7, h, nli, Seq::empty())->Ok_0;
    let (ns, pos9) = p_count(s, pos8, h)->Ok_0;
    let (strings, pos10) = p_strings(s, pos9, h, ns, Seq::empty())->Ok_0;
    let (nn, pos11) = p_count(s, pos10, h)->Ok_0;
    let (numbers, pos12) = p_numbers(s, pos11, h, nn, Seq::empty())->Ok_0;
    let (nf, pos13) = p_count(s, pos12, h)->Ok_0;
    lemma_parsed_functions_end_in_end(s, pos13, h, nf, Seq::empty());
}

/// The six counts that a prototype at `p` declares: of its locals, lines, strings,
/// numbers, nested functions and instructions, each read where the grammar reads it.
pub open spec fn declared_counts(s: Seq<u8>, p: int, h: Encoding) -> Seq<nat> {
    let pos1 = p_string(s, p, h)->Ok_0.1;
    let pos2 = p_int(s, pos1, h)->Ok_0.1;
    let pos3 = p_int(s, pos2, h)->Ok_0.1;
    let pos4 = p_int(s, pos3 + 1, h)->Ok_0.1;
    let (nl, pos5) = p_count(s, pos4, h)->Ok_0;
    let pos6 = p_locals(s, pos5, h, nl, Seq::empty())->Ok_0.1;
    let (nli, pos7) = p_count(s, pos6, h)->Ok_0;
    let pos8 = p_lines(s, pos7, h, nli, Seq::empty())->Ok_0.1;
    let (ns, pos9) = p_count(s, pos8, h)->Ok_0;
    let pos10 = p_strings(s, pos9, h, ns, Seq::empty())->Ok_0.1;
    let (nn, pos11) = p_count(s, pos10, h)->Ok_0;
    let pos12 = p_numbers(s, pos11, h, nn, Seq::empty())->Ok_0.1;
    let (nf, pos13) = p_count(s, pos12, h)->Ok_0;
    let pos14 = p_functions(s, pos13, h, nf, Seq::empty())->Ok_0.1;
    let (nc, pos15) = p_count(s, pos14, h)->Ok_0;
    seq![nl, nli, ns, nn, nf, nc]
}

/// The table sizes of a prototype.
pub open spec fn table_sizes(f: FunctionModel) -> Seq<nat> {
    seq![
        f.locals.len(),
        f.lines.len(),
        f.strings.len(),
        f.numbers.len(),
        f.functions.len(),
        f.code.len(),
    ]
}

/// A prototype parsed at any position, the top-level one or a nested one, holds
/// exactly the entries that its count prefixes declare, in each of its six tables.
pub proof fn lemma_parsed_counts_declared(s: Seq<u8>, p: int, h: Encoding)
    requires
        p_function(s, p, h) is Ok,
    ensures
        table_sizes(p_function(s, p, h)->Ok_0.0) == declared_counts(s, p, h),
{
    let pos1 = p_string(s, p, h)->Ok_0.1;
    let pos2 = p_int(s, pos1, h)->Ok_0.1;
    let pos3 = p_int(s, pos2, h)->Ok_0.1;
    let pos4 = p_int(s, pos3 + 1, h)->Ok_0.1;
    let (nl, pos5) = p_count(s, pos4, h)->Ok_0;
    lemma_locals_count(s, pos5, h, nl, Seq::empty());
    let pos6 = p_locals(s, pos5, h, nl, Seq::empty())->Ok_0.1;
    let (nli, pos7) = p_count(s, pos6, h)->Ok_0;
    lemma_lines_count(s, pos7, h, nli, Seq::empty());
    let pos8 = p_lines(s, pos7, h, nli, Seq::empty())->Ok_0.1;
    let (ns, pos9) = p_count(s, pos8, h)->Ok_0;
    lemma_strings_count(s, pos9, h, ns, Seq::empty());
    let pos10 = p_strings(s, pos9, h, ns, Seq::empty())->Ok_0.1;
    let (nn, pos11) = p_count(s, pos10, h)->Ok_0;
    lemma_numbers_count(s, pos11, h, nn, Seq::empty());
    let pos12 = p_numbers(s, pos11, h, nn, Seq::empty())->Ok_0.1;
    let (nf, pos13) = p_count(s, pos12, h)->Ok_0;
    lemma_functions_count(s, pos13, h, nf, Seq::empty());
    let pos14 = p_functions(s, pos13, h, nf, Seq::empty())->Ok_0.1;
    let (nc, pos15) = p_count(s, pos14, h)->Ok_0;
    lemma_instructions_count(s, pos15, h, nc, Seq::empty());
    assert(table_sizes(p_function(s, p, h)->Ok_0.0) =~= declared_counts(s, p, h));
}

proof fn lemma_parsed_functions_end_in_end(s: Seq<u8>, p: int, h: Encoding, n: nat, acc: Seq<FunctionModel>)
    requires
        p_functions(s, p, h, n, acc) is Ok,
        forall|i: int| 0 <= i < acc.len() ==> all_end_in_end(#[trigger] acc[i]),
    ensures
        forall|i: int|
            0 <= i < p_functions(s, p, h, n, acc)->Ok_0.0.len() ==> all_end_in_end(
                #[trigger] p_functions(s, p, h, n, acc)->Ok_0.0[i],
            ),
    decreases s.len() - p, 2int, n,
{
    if n > 0 {
        lemma_parsed_code_ends_in_end(s, p, h);
        let (f, q) = p_function(s, p, h)->Ok_0;
        let acc2 = acc.push(f);
        assert forall|i: int| 0 <= i < acc2.len() implies all_end_in_end(#[trigger] acc2[i]) by {
            if i < acc.len() {
                assert(acc2[i] == acc[i]);
            }
        }
        lemma_parsed_functions_end_in_end(s, q, h, (n - 1) as nat, acc2);
    }
}

/// The locals table of a prototype holds exactly as many items as its count declares.
pub proof fn lemma_locals_count(s: Seq<u8>, p: int, h: Encoding, n: nat, acc: Seq<LocalModel>)
    requires
        p_locals(s, p, h, n, acc) is Ok,
    ensures
        p_locals(s, p, h, n, acc)->Ok_0.0.len() == acc.len() + n,
    decreases n,
{
    if n > 0 {
        let (x, q) = p_local(s, p, h)->Ok_0;
        lemma_locals_count(s, q, h, (n - 1) as nat, acc.push(x));
    }
}

/// The line table of a prototype holds exactly as many items as its count declares.
pub proof fn lemma_lines_count(s: Seq<u8>, p: int, h: Encoding, n: nat, acc: Seq<i32>)
    requires
        p_lines(s, p, h, n, acc) is Ok,
    ensures
        p_lines(s, p, h, n, acc)->Ok_0.0.len() == acc.len() + n,
    decreases n,
{
    if n > 0 {
        let (x, q) = p_int(s, p, h)->Ok_0;
        lemma_lines_count(s, q, h, (n - 1) as nat, acc.push(x));
    }
}

/// The string constants of a prototype holds exactly as many items as its count declares.
pub proof fn lemma_strings_count(s: Seq<u8>, p: int, h: Encoding, n: nat, acc: Seq<Seq<char>>)
    requires
        p_strings(s, p, h, n, acc) is Ok,
    ensures
        p_strings(s, p, h, n, acc)->Ok_0.0.len() == acc.len() + n,
    decreases n,
{
    if n > 0 {
        let (x, q) = p_string(s, p, h)->Ok_0;
        lemma_strings_count(s, q, h, (n - 1) as nat, acc.push(x));
    }
}

/// The number constants of a prototype holds exactly as many items as its count declares.
pub proof fn lemma_numbers_count(s: Seq<u8>, p: int, h: Encoding, n: nat, acc: Seq<LuaNumber>)
    requires
        p_numbers(s, p, h, n, acc) is Ok,
    ensures
        p_numbers(s, p, h, n, acc)->Ok_0.0.len() == acc.len() + n,
    decreases n,
{
    if n > 0 {
        let (x, q) = p_number(s, p, h)->Ok_0;
        lemma_numbers_count(s, q, h, (n - 1) as nat, acc.push(x));
    }
}

/// The nested functions of a prototype holds exactly as many items as its count declares.
pub proof fn lemma_functions_count(s: Seq<u8>, p: int, h: Encoding, n: nat, acc: Seq<FunctionModel>)
    requires
        p_functions(s, p, h, n, acc) is Ok,
    ensures
        p_functions(s, p, h, n, acc)->Ok_0.0.len() == acc.len() + n,
    decreases n,
{
    if n > 0 {
        let (x, q) = p_function(s, p, h)->Ok_0;
        lemma_functions_count(s, q, h, (n - 1) as nat, acc.push(x));
    }
}

/// The code of a prototype holds exactly as many items as its count declares.
pub proof fn lemma_instructions_count(s: Seq<u8>, p: int, h: Encoding, n: nat, acc: Seq<Instruction>)
    requires
        p_instructions(s, p, h, n, acc) is Ok,
    ensures
        p_instructions(s, p, h, n, acc)->Ok_0.0.len() == acc.len() + n,
    decreases n,
{
    if n > 0 {
        let (x, q) = p_instruction(s, p, h)->Ok_0;
        lemma_instructions_count(s, q, h, (n - 1) as nat, acc.push(x));
    }
}

} // verus!
