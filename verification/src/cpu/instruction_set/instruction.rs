pub mod addressing_mode;

use addressing_mode::AddressingMode;
use vstd::prelude::*;

verus! {

/// An immutable instruction descriptor: one opcode byte, its mnemonic, the
/// addressing mode its operand uses, and the instruction's total byte length
/// (opcode byte included).
pub struct Instruction {
    pub opcode: u8,
    pub mnemonic: &'static str,
    pub mode: AddressingMode,
    pub length: u8,
}

impl Instruction {
    pub fn new(opcode: u8, mnemonic: &'static str, mode: AddressingMode, length: u8) -> (r: Self)
        ensures
            r.opcode == opcode,
            r.mnemonic == mnemonic,
            r.mode == mode,
            r.length == length,
    {
        Instruction { opcode, mnemonic, mode, length }
    }
}

} // verus!
