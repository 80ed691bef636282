//! A decompiler front end for Lua 4.0 bytecode chunks: a header and primitive
//! decoder, an instruction decoder with the opcode table, a recursive function
//! prototype parser, a tree builder that rebuilds statements and expressions from
//! the flat instruction stream, and a generator that renders them as Lua-like text.
//!
//! Beside it stand the size rules of the game's texture packs and the DirectDraw
//! Surface header that textures are exported with.

pub mod bytes;
pub mod chunk;
pub mod dds;
pub mod error;
pub mod instruction;
pub mod opcode;
pub mod render;
pub mod text;
pub mod texture;
pub mod tree;
