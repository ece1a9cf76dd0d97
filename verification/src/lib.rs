//! A two-pass assembler for a small fixed-width 16-bit instruction set.
//!
//! Source text is parsed line by line into an intermediate representation
//! ([`ir::IRInstruction`]), the first pass assigns each line its address
//! and builds the symbol table ([`passes::to_ir1`]), the second pass
//! resolves label references and expands pseudo-instructions
//! ([`passes::to_ir2`]), and the encoder renders each resolved
//! instruction as a 16-bit word of a memory-initialization listing
//! ([`encoder::to_mif`]). [`encoder::assemble`] runs the whole pipeline
//! on one source text.

pub mod encoder;
pub mod error;
pub mod ir;
pub mod parser;
pub mod passes;
pub mod render;
pub mod symtab;
pub mod text;
