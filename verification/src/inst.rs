//! The instruction set: registers, comparison kinds, and decoded
//! instructions.

use crate::text::tok_is;
use vstd::prelude::*;

verus! {

/// A register of the machine: six general-purpose slots, the instruction
/// pointer, the stack pointer, the status register, and the comparison flag
/// register.  Only `drg` may name the flag register.
#[derive(Clone, Copy, PartialEq, Eq, Structural, Debug)]
pub enum Register {
    A,
    B,
    C,
    D,
    E,
    F,
    Ip,
    Sp,
    St,
    Eq,
}

/// The comparison a test instruction performs between its two registers.
#[derive(Clone, Copy, PartialEq, Eq, Structural, Debug)]
pub enum CmpKind {
    Equal,
    NotEqual,
    Less,
    Greater,
    LessOrEqual,
    GreaterOrEqual,
}

/// A decoded instruction.  Addresses carried by `Gto` and `Jmp` are signed
/// integers: either a numeric operand taken verbatim or a resolved label
/// address.
#[derive(Clone, Copy, PartialEq, Eq, Structural, Debug)]
pub enum Instruction {
    Dmp,
    Gto(i32),
    Prt(Register),
    Tst(CmpKind, Register, Register),
    Jmp(i32),
    Psh(i32),
    Mov(Register, Register),
    Add(Register, Register),
    Sub(Register, Register),
    Mul(Register, Register),
    Div(Register, Register),
    Pop,
    Drg(Register),
    Hlt,
}

/// The register a operand token names.  The tokens `e` and `d` map to
/// registers `D` and `E` respectively — an inverted pair that the source
/// language fixed long ago and that every decoder must keep.  The flag
/// register's token `eq` is accepted only where `allow_flag` is set.
pub open spec fn reg_of_tok(t: Seq<char>, allow_flag: bool) -> Option<Register> {
    if t == "a"@ {
        Some(Register::A)
    } else if t == "b"@ {
        Some(Register::B)
    } else if t == "c"@ {
        Some(Register::C)
    } else if t == "e"@ {
        Some(Register::D)
    } else if t == "d"@ {
        Some(Register::E)
    } else if t == "f"@ {
        Some(Register::F)
    } else if t == "ip"@ {
        Some(Register::Ip)
    } else if t == "sp"@ {
        Some(Register::Sp)
    } else if t == "st"@ {
        Some(Register::St)
    } else if allow_flag && t == "eq"@ {
        Some(Register::Eq)
    } else {
        None
    }
}

/// Decodes a register name, exactly as `reg_of_tok` describes.
pub fn parse_register(t: &Vec<char>, allow_flag: bool) -> (r: Option<Register>)
    ensures
        r == reg_of_tok(t@, allow_flag),
{
    if tok_is(t, "a") {
        Some(Register::A)
    } else if tok_is(t, "b") {
        Some(Register::B)
    } else if tok_is(t, "c") {
        Some(Register::C)
    } else if tok_is(t, "e") {
        Some(Register::D)
    } else if tok_is(t, "d") {
        Some(Register::E)
    } else if tok_is(t, "f") {
        Some(Register::F)
    } else if tok_is(t, "ip") {
        Some(Register::Ip)
    } else if tok_is(t, "sp") {
        Some(Register::Sp)
    } else if tok_is(t, "st") {
        Some(Register::St)
    } else if allow_flag && tok_is(t, "eq") {
        Some(Register::Eq)
    } else {
        None
    }
}

} // verus!
