//! A verified two-pass assembler for a small register/stack instruction
//! language.
//!
//! The first pass collects label declarations into an address table; the
//! second pass tokenizes each remaining line, validates the opcode and its
//! operands, resolves symbolic jump targets through the table, and emits an
//! ordered instruction stream.  Malformed lines contribute diagnostics
//! instead of instructions; assembly always runs to completion (or to the
//! first `hlt`) and always hands back a stream terminated by exactly one
//! `Hlt`.

pub mod assembler;
pub mod inst;
pub mod labels;
pub mod render;
pub mod text;

pub use assembler::assemble;
pub use assembler::parse_code;
pub use assembler::scan_labels;
pub use assembler::Assembly;
pub use assembler::Diag;
pub use assembler::DiagKind;
pub use inst::CmpKind;
pub use inst::Instruction;
pub use inst::Register;
pub use labels::LabelTable;
