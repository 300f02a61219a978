pub mod instruction;

use instruction::addressing_mode::AddressingMode;
use instruction::Instruction;
use vstd::prelude::*;

verus! {

/// The mathematical image of one table entry: what the decoder knows about
/// an opcode.
pub struct InstructionInfo {
    pub mnemonic: Seq<char>,
    pub mode: AddressingMode,
    pub length: u8,
}

/// The opcode table as a mathematical map: `Some` exactly for the opcodes
/// this machine models, giving each one mnemonic, addressing mode and byte
/// length.  Opcode uniqueness is inherent in the shape of this function:
/// each opcode selects at most one entry.
pub open spec fn spec_instruction(opcode: u8) -> Option<InstructionInfo> {
    if opcode == 0x29 {
        Some(InstructionInfo { mnemonic: "AND"@, mode: AddressingMode::Immediate, length: 2 })
    } else if opcode == 0x25 {
        Some(InstructionInfo { mnemonic: "AND"@, mode: AddressingMode::ZeroPage, length: 2 })
    } else if opcode == 0x35 {
        Some(InstructionInfo { mnemonic: "AND"@, mode: AddressingMode::ZeroPageX, length: 2 })
    } else if opcode == 0x2D {
        Some(InstructionInfo { mnemonic: "AND"@, mode: AddressingMode::Absolute, length: 3 })
    } else if opcode == 0x3D {
        Some(InstructionInfo { mnemonic: "AND"@, mode: AddressingMode::AbsoluteX, length: 3 })
    } else if opcode == 0x39 {
        Some(InstructionInfo { mnemonic: "AND"@, mode: AddressingMode::AbsoluteY, length: 3 })
    } else if opcode == 0x21 {
        Some(InstructionInfo { mnemonic: "AND"@, mode: AddressingMode::IndirectX, length: 2 })
    } else if opcode == 0x31 {
        Some(InstructionInfo { mnemonic: "AND"@, mode: AddressingMode::IndirectY, length: 2 })
    } else if opcode == 0x0A {
        Some(InstructionInfo { mnemonic: "ASL"@, mode: AddressingMode::Accumulator, length: 1 })
    } else if opcode == 0x06 {
        Some(InstructionInfo { mnemonic: "ASL"@, mode: AddressingMode::ZeroPage, length: 2 })
    } else if opcode == 0x16 {
        Some(InstructionInfo { mnemonic: "ASL"@, mode: AddressingMode::ZeroPageX, length: 2 })
    } else if opcode == 0x0E {
        Some(InstructionInfo { mnemonic: "ASL"@, mode: AddressingMode::Absolute, length: 3 })
    } else if opcode == 0x1E {
        Some(InstructionInfo { mnemonic: "ASL"@, mode: AddressingMode::AbsoluteX, length: 3 })
    } else if opcode == 0x90 {
        Some(InstructionInfo { mnemonic: "BCC"@, mode: AddressingMode::Relative, length: 2 })
    } else if opcode == 0xB0 {
        Some(InstructionInfo { mnemonic: "BCS"@, mode: AddressingMode::Relative, length: 2 })
    } else if opcode == 0xF0 {
        Some(InstructionInfo { mnemonic: "BEQ"@, mode: AddressingMode::Relative, length: 2 })
    } else if opcode == 0x00 {
        Some(InstructionInfo { mnemonic: "BRK"@, mode: AddressingMode::Implicit, length: 1 })
    } else if opcode == 0x24 {
        Some(InstructionInfo { mnemonic: "BIT"@, mode: AddressingMode::ZeroPage, length: 2 })
    } else if opcode == 0x2C {
        Some(InstructionInfo { mnemonic: "BIT"@, mode: AddressingMode::Absolute, length: 3 })
    } else if opcode == 0xE8 {
        Some(InstructionInfo { mnemonic: "INX"@, mode: AddressingMode::Implicit, length: 1 })
    } else if opcode == 0xA9 {
        Some(InstructionInfo { mnemonic: "LDA"@, mode: AddressingMode::Immediate, length: 2 })
    } else if opcode == 0xA2 {
        Some(InstructionInfo { mnemonic: "LDX"@, mode: AddressingMode::Immediate, length: 2 })
    } else if opcode == 0xA0 {
        Some(InstructionInfo { mnemonic: "LDY"@, mode: AddressingMode::Immediate, length: 2 })
    } else if opcode == 0xAA {
        Some(InstructionInfo { mnemonic: "TAX"@, mode: AddressingMode::Implicit, length: 1 })
    } else if opcode == 0x85 {
        Some(InstructionInfo { mnemonic: "STA"@, mode: AddressingMode::ZeroPage, length: 2 })
    } else {
        None
    }
}

/// Decode an opcode byte against the instruction table.  Returns a
/// descriptor exactly for the opcodes the table models; a miss is a fatal
/// decode error for the caller to report.
pub fn lookup(opcode: u8) -> (r: Option<Instruction>)
    ensures
        match r {
            Some(ins) => {
                &&& ins.opcode == opcode
                &&& 1 <= ins.length
                &&& spec_instruction(opcode) == Some(
                    InstructionInfo { mnemonic: ins.mnemonic@, mode: ins.mode, length: ins.length },
                )
            },
            None => spec_instruction(opcode) is None,
        },
{
    match opcode {
        0x29 => Some(Instruction::new(0x29, "AND", AddressingMode::Immediate, 2)),
        0x25 => Some(Instruction::new(0x25, "AND", AddressingMode::ZeroPage, 2)),
        0x35 => Some(Instruction::new(0x35, "AND", AddressingMode::ZeroPageX, 2)),
        0x2D => Some(Instruction::new(0x2D, "AND", AddressingMode::Absolute, 3)),
        0x3D => Some(Instruction::new(0x3D, "AND", AddressingMode::AbsoluteX, 3)),
        0x39 => Some(Instruction::new(0x39, "AND", AddressingMode::AbsoluteY, 3)),
        0x21 => Some(Instruction::new(0x21, "AND", AddressingMode::IndirectX, 2)),
        0x31 => Some(Instruction::new(0x31, "AND", AddressingMode::IndirectY, 2)),
        0x0A => Some(Instruction::new(0x0A, "ASL", AddressingMode::Accumulator, 1)),
        0x06 => Some(Instruction::new(0x06, "ASL", AddressingMode::ZeroPage, 2)),
        0x16 => Some(Instruction::new(0x16, "ASL", AddressingMode::ZeroPageX, 2)),
        0x0E => Some(Instruction::new(0x0E, "ASL", AddressingMode::Absolute, 3)),
        0x1E => Some(Instruction::new(0x1E, "ASL", AddressingMode::AbsoluteX, 3)),
        0x90 => Some(Instruction::new(0x90, "BCC", AddressingMode::Relative, 2)),
        0xB0 => Some(Instruction::new(0xB0, "BCS", AddressingMode::Relative, 2)),
        0xF0 => Some(Instruction::new(0xF0, "BEQ", AddressingMode::Relative, 2)),
        0x00 => Some(Instruction::new(0x00, "BRK", AddressingMode::Implicit, 1)),
        0x24 => Some(Instruction::new(0x24, "BIT", AddressingMode::ZeroPage, 2)),
        0x2C => Some(Instruction::new(0x2C, "BIT", AddressingMode::Absolute, 3)),
        0xE8 => Some(Instruction::new(0xE8, "INX", AddressingMode::Implicit, 1)),
        0xA9 => Some(Instruction::new(0xA9, "LDA", AddressingMode::Immediate, 2)),
        0xA2 => Some(Instruction::new(0xA2, "LDX", AddressingMode::Immediate, 2)),
        0xA0 => Some(Instruction::new(0xA0, "LDY", AddressingMode::Immediate, 2)),
        0xAA => Some(Instruction::new(0xAA, "TAX", AddressingMode::Implicit, 1)),
        0x85 => Some(Instruction::new(0x85, "STA", AddressingMode::ZeroPage, 2)),
        _ => None,
    }
}

} // verus!
