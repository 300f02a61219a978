pub mod instruction_set;
pub mod semantics;
pub mod status_flag;

use crate::util;
use instruction_set::instruction::addressing_mode::AddressingMode;
use semantics::lemma_steps_succ;
use semantics::spec_and;
use semantics::spec_asl;
use semantics::spec_bit_test;
use semantics::spec_branch;
use semantics::spec_execute;
use semantics::spec_inx;
use semantics::spec_lda;
use semantics::spec_ldx;
use semantics::spec_ldy;
use semantics::spec_load;
use semantics::spec_mem_word;
use semantics::spec_mem_write_word;
use semantics::spec_operand_addr;
use semantics::spec_operand_value;
use semantics::spec_reset;
use semantics::spec_sta;
use semantics::spec_step;
use semantics::spec_steps;
use semantics::spec_tax;
use semantics::CpuView;
use semantics::StepSpec;
use status_flag::spec_flag_set;
use status_flag::spec_set_bit;
use status_flag::spec_unset_bit;
use status_flag::spec_update_flag;
use status_flag::spec_update_zero_and_negative;
use status_flag::StatusFlag;
use vstd::prelude::*;

verus! {

/// Bytes in the flat address space: 64 KiB.
pub const MEMORY_SIZE: usize = 0x10000;

/// A fatal condition raised while executing: either the fetched opcode is
/// absent from the instruction table, or a handler asked for an address in a
/// mode that has none (a table-consistency bug, not a data error).
/// `StepLimit` reports that `run` spent its whole step budget of `u64::MAX`
/// steps without halting or faulting; the budget exists so that the run loop
/// provably terminates.
#[derive(Clone, Copy, Debug, PartialEq, Eq, Structural)]
pub enum CpuError {
    UnknownOpcode { opcode: u8, pc: u16 },
    UnsupportedAddressing { mode: AddressingMode },
    StepLimit,
}

/// What a successful step reports: the machine executed one instruction and
/// can continue, or it fetched BRK and halted.
#[derive(Clone, Copy, Debug, PartialEq, Eq, Structural)]
pub enum StepOutcome {
    Stepped,
    Halted,
}

/// The machine itself: registers, status byte, program counter and memory.
pub struct CPU {
    pub register_a: u8,
    pub register_x: u8,
    pub register_y: u8,
    pub status: u8,
    pub program_counter: u16,
    memory: Vec<u8>,
}

impl View for CPU {
    type V = CpuView;

    closed spec fn view(&self) -> CpuView {
        CpuView {
            a: self.register_a,
            x: self.register_x,
            y: self.register_y,
            status: self.status,
            pc: self.program_counter,
            mem: self.memory@,
        }
    }
}

impl CPU {
    pub open spec fn wf(&self) -> bool {
        self@.wf()
    }

    pub fn new() -> (r: Self)
        ensures
            r.wf(),
            r@ == semantics::spec_initial(),
    {
        let mut memory: Vec<u8> = Vec::new();
        while memory.len() < MEMORY_SIZE
            invariant
                memory@.len() <= MEMORY_SIZE,
                forall|i: int| 0 <= i < memory@.len() ==> memory@[i] == 0,
            decreases MEMORY_SIZE - memory@.len(),
        {
            memory.push(0);
        }
        let r = CPU {
            register_a: 0,
            register_x: 0,
            register_y: 0,
            status: 0,
            program_counter: 0,
            memory,
        };
        proof {
            assert(r@.mem =~= semantics::spec_initial().mem);
            assert(r@ =~= semantics::spec_initial());
        }
        r
    }

    pub fn mem_read(&self, addr: u16) -> (r: u8)
        requires
            self.wf(),
        ensures
            r == self@.mem[addr as int],
    {
        self.memory[addr as usize]
    }

    pub fn mem_write(&mut self, addr: u16, data: u8)
        requires
            old(self).wf(),
        ensures
            final(self).wf(),
            final(self)@ == (CpuView { mem: old(self)@.mem.update(addr as int, data), ..old(self)@ }),
    {
        self.memory[addr as usize] = data;
    }

    pub fn mem_read_u16(&self, pos: u16) -> (r: u16)
        requires
            self.wf(),
        ensures
            r == spec_mem_word(self@.mem, pos),
    {
        let lo = self.mem_read(pos);
        let hi = self.mem_read(pos.wrapping_add(1));
        lo as u16 + (hi as u16) * 256
    }

    pub fn mem_write_u16(&mut self, pos: u16, data: u16)
        requires
            old(self).wf(),
        ensures
            final(self).wf(),
            final(self)@ == (CpuView {
                mem: spec_mem_write_word(old(self)@.mem, pos, data),
                ..old(self)@
            }),
    {
        let hi = (data / 256) as u8;
        let lo = (data % 256) as u8;
        self.mem_write(pos, lo);
        self.mem_write(pos.wrapping_add(1), hi);
    }

    pub fn reset(&mut self)
        requires
            old(self).wf(),
        ensures
            final(self).wf(),
            final(self)@ == spec_reset(old(self)@),
    {
        self.register_a = 0;
        self.register_x = 0;
        self.register_y = 0;
        self.status = 0;

        self.program_counter = self.mem_read_u16(0xFFFC);
    }

    pub fn load(&mut self, program: Vec<u8>)
        requires
            old(self).wf(),
            program@.len() <= 0x8000,
        ensures
            final(self).wf(),
            final(self)@ == spec_load(old(self)@, program@),
    {
        let ghost entry = self@;
        let mut i: usize = 0;
        while i < program.len()
            invariant
                self.wf(),
                entry.wf(),
                i <= program@.len(),
                program@.len() <= 0x8000,
                self@.a == entry.a,
                self@.x == entry.x,
                self@.y == entry.y,
                self@.status == entry.status,
                self@.pc == entry.pc,
                self@.mem.len() == entry.mem.len(),
                forall|j: int|
                    0 <= j < entry.mem.len() ==> self@.mem[j] == (if 0x8000 <= j < 0x8000 + i {
                        program@[j - 0x8000]
                    } else {
                        entry.mem[j]
                    }),
            decreases program@.len() - i,
        {
            self.mem_write((0x8000 + i) as u16, program[i]);
            i = i + 1;
        }
        self.mem_write_u16(0xFFFC, 0x8000);
        proof {
            assert(self@.mem =~= spec_load(entry, program@).mem);
            assert(self@ =~= spec_load(entry, program@));
        }
    }

    fn set_status_bit(&mut self, flag: StatusFlag)
        ensures
            final(self)@ == (CpuView { status: spec_set_bit(old(self)@.status, flag), ..old(self)@ }),
    {
        self.status = self.status | flag.mask();
    }

    fn unset_status_bit(&mut self, flag: StatusFlag)
        ensures
            final(self)@ == (CpuView { status: spec_unset_bit(old(self)@.status, flag), ..old(self)@ }),
    {
        self.status = self.status & !flag.mask();
    }

    pub fn is_flag_set(&self, flag: StatusFlag) -> (r: bool)
        ensures
            r == spec_flag_set(self@.status, flag),
    {
        let mask = flag.mask();
        self.status & mask != 0
    }

    fn update_zero_flag(&mut self, result: u8)
        ensures
            final(self)@ == (CpuView {
                status: spec_update_flag(old(self)@.status, StatusFlag::Zero, result == 0),
                ..old(self)@
            }),
    {
        if result == 0 {
            self.set_status_bit(StatusFlag::Zero)
        } else {
            self.unset_status_bit(StatusFlag::Zero)
        }
    }

    fn update_zero_and_negative_flags(&mut self, result: u8)
        ensures
            final(self)@ == (CpuView {
                status: spec_update_zero_and_negative(old(self)@.status, result),
                ..old(self)@
            }),
    {
        self.update_zero_flag(result);

        if result & 0b1000_0000 != 0 {
            self.set_status_bit(StatusFlag::Negative)
        } else {
            self.unset_status_bit(StatusFlag::Negative)
        }
    }

    fn update_carry_flag(&mut self, should_set: bool)
        ensures
            final(self)@ == (CpuView {
                status: spec_update_flag(old(self)@.status, StatusFlag::Carry, should_set),
                ..old(self)@
            }),
    {
        if should_set {
            self.set_status_bit(StatusFlag::Carry)
        } else {
            self.unset_status_bit(StatusFlag::Carry)
        }
    }

    fn update_flag(&mut self, flag: StatusFlag, should_set: bool)
        ensures
            final(self)@ == (CpuView {
                status: spec_update_flag(old(self)@.status, flag, should_set),
                ..old(self)@
            }),
    {
        if should_set {
            self.set_status_bit(flag)
        } else {
            self.unset_status_bit(flag)
        }
    }

    /// The addressing resolver.  Reads the mode's operand location from the
    /// current state; Implicit and Accumulator resolve to no address and are
    /// reported as `UnsupportedAddressing`.
    pub fn get_operand_address(&self, mode: &AddressingMode) -> (r: Result<u16, CpuError>)
        requires
            self.wf(),
        ensures
            match r {
                Ok(addr) => mode.has_address() && addr == spec_operand_addr(*mode, self@),
                Err(e) => !mode.has_address() && e == (CpuError::UnsupportedAddressing {
                    mode: *mode,
                }),
            },
    {
        match mode {
            AddressingMode::Immediate | AddressingMode::Relative => Ok(self.program_counter),
            AddressingMode::ZeroPage => Ok(self.mem_read(self.program_counter) as u16),
            AddressingMode::Absolute => Ok(self.mem_read_u16(self.program_counter)),
            AddressingMode::ZeroPageX => {
                let pos = self.mem_read(self.program_counter);
                let addr = pos.wrapping_add(self.register_x) as u16;
                proof {
                    util::lemma_wrap_add8_cases(pos, self.register_x);
                }
                Ok(addr)
            },
            AddressingMode::ZeroPageY => {
                let pos = self.mem_read(self.program_counter);
                let addr = pos.wrapping_add(self.register_y) as u16;
                proof {
                    util::lemma_wrap_add8_cases(pos, self.register_y);
                }
                Ok(addr)
            },
            AddressingMode::AbsoluteX => {
                let base = self.mem_read_u16(self.program_counter);
                let addr = base.wrapping_add(self.register_x as u16);
                proof {
                    util::lemma_wrap_add16_cases(base, self.register_x as u16);
                }
                Ok(addr)
            },
            AddressingMode::AbsoluteY => {
                let base = self.mem_read_u16(self.program_counter);
                let addr = base.wrapping_add(self.register_y as u16);
                proof {
                    util::lemma_wrap_add16_cases(base, self.register_y as u16);
                }
                Ok(addr)
            },
            AddressingMode::IndirectX => {
                let base = self.mem_read(self.program_counter);
                let ptr: u8 = base.wrapping_add(self.register_x);
                proof {
                    util::lemma_wrap_add8_cases(base, self.register_x);
                    util::lemma_wrap_add8_cases(ptr, 1);
                }
                let lo = self.mem_read(ptr as u16);
                let hi = self.mem_read(ptr.wrapping_add(1) as u16);
                Ok(lo as u16 + (hi as u16) * 256)
            },
            AddressingMode::IndirectY => {
                let base = self.mem_read(self.program_counter);
                proof {
                    util::lemma_wrap_add8_cases(base, 1);
                }
                let lo = self.mem_read(base as u16);
                let hi = self.mem_read(base.wrapping_add(1) as u16);
                let deref_base = lo as u16 + (hi as u16) * 256;
                let deref = deref_base.wrapping_add(self.register_y as u16);
                proof {
                    util::lemma_wrap_add16_cases(deref_base, self.register_y as u16);
                }
                Ok(deref)
            },
            AddressingMode::Implicit | AddressingMode::Accumulator => Err(
                CpuError::UnsupportedAddressing { mode: *mode },
            ),
        }
    }

    /// The operand's value under `mode`: the accumulator directly, or the
    /// byte at the resolved address.
    pub fn get_operand_value(&self, mode: &AddressingMode) -> (r: Result<u8, CpuError>)
        requires
            self.wf(),
        ensures
            match r {
                Ok(v) => mode.has_value() && v == spec_operand_value(*mode, self@),
                Err(e) => !mode.has_value() && e == (CpuError::UnsupportedAddressing {
                    mode: *mode,
                }),
            },
    {
        match mode {
            AddressingMode::Accumulator => Ok(self.register_a),
            _ => {
                let addr = match self.get_operand_address(mode) {
                    Ok(addr) => addr,
                    Err(e) => {
                        return Err(e);
                    },
                };
                Ok(self.mem_read(addr))
            },
        }
    }

    fn branch(&mut self, mode: &AddressingMode)
        requires
            old(self).wf(),
            *mode is Relative,
        ensures
            final(self).wf(),
            final(self)@ == spec_branch(old(self)@),
    {
        let operand = self.get_operand_value(mode).unwrap();
        self.program_counter = util::get_address_from_offset(self.program_counter, operand);
    }

    fn and(&mut self, mode: &AddressingMode)
        requires
            old(self).wf(),
            mode.has_value(),
        ensures
            final(self).wf(),
            final(self)@ == spec_and(*mode, old(self)@),
    {
        let operand = self.get_operand_value(mode).unwrap();

        self.register_a = self.register_a & operand;
        self.update_zero_and_negative_flags(self.register_a);
    }

    fn asl(&mut self, mode: &AddressingMode)
        requires
            old(self).wf(),
            mode.has_value(),
        ensures
            final(self).wf(),
            final(self)@ == spec_asl(*mode, old(self)@),
    {
        let operand = self.get_operand_value(mode).unwrap();
        let result = operand << 1;

        self.update_carry_flag(util::get_bit_at(operand, 7));
        self.update_zero_and_negative_flags(result);

        match mode {
            AddressingMode::Accumulator => {
                self.register_a = result;
            },
            _ => {
                let address = self.get_operand_address(mode).unwrap();
                self.mem_write(address, result)
            },
        }
    }

    fn bcc(&mut self)
        requires
            old(self).wf(),
        ensures
            final(self).wf(),
            final(self)@ == (if !spec_flag_set(old(self)@.status, StatusFlag::Carry) {
                spec_branch(old(self)@)
            } else {
                old(self)@
            }),
    {
        if !self.is_flag_set(StatusFlag::Carry) {
            self.branch(&AddressingMode::Relative);
        }
    }

    fn bcs(&mut self)
        requires
            old(self).wf(),
        ensures
            final(self).wf(),
            final(self)@ == (if spec_flag_set(old(self)@.status, StatusFlag::Carry) {
                spec_branch(old(self)@)
            } else {
                old(self)@
            }),
    {
        if self.is_flag_set(StatusFlag::Carry) {
            self.branch(&AddressingMode::Relative);
        }
    }

    fn beq(&mut self)
        requires
            old(self).wf(),
        ensures
            final(self).wf(),
            final(self)@ == (if spec_flag_set(old(self)@.status, StatusFlag::Zero) {
                spec_branch(old(self)@)
            } else {
                old(self)@
            }),
    {
        if self.is_flag_set(StatusFlag::Zero) {
            self.branch(&AddressingMode::Relative);
        }
    }

    fn bit(&mut self, mode: &AddressingMode)
        requires
            old(self).wf(),
            mode.has_value(),
        ensures
            final(self).wf(),
            final(self)@ == spec_bit_test(*mode, old(self)@),
    {
        let operand = self.get_operand_value(mode).unwrap();
        let result = self.register_a & operand;

        self.update_zero_flag(result);
        self.update_flag(StatusFlag::Overflow, util::get_bit_at(operand, 6));
        self.update_flag(StatusFlag::Negative, util::get_bit_at(operand, 7));
    }

    fn inx(&mut self)
        requires
            old(self).wf(),
        ensures
            final(self).wf(),
            final(self)@ == spec_inx(old(self)@),
    {
        self.register_x = self.register_x.wrapping_add(1);
        self.update_zero_and_negative_flags(self.register_x);
    }

    fn lda(&mut self, mode: &AddressingMode)
        requires
            old(self).wf(),
            mode.has_value(),
        ensures
            final(self).wf(),
            final(self)@ == spec_lda(*mode, old(self)@),
    {
        self.register_a = self.get_operand_value(mode).unwrap();
        self.update_zero_and_negative_flags(self.register_a);
    }

    fn ldx(&mut self, mode: &AddressingMode)
        requires
            old(self).wf(),
            mode.has_value(),
        ensures
            final(self).wf(),
            final(self)@ == spec_ldx(*mode, old(self)@),
    {
        self.register_x = self.get_operand_value(mode).unwrap();
        self.update_zero_and_negative_flags(self.register_x);
    }

    fn ldy(&mut self, mode: &AddressingMode)
        requires
            old(self).wf(),
            mode.has_value(),
        ensures
            final(self).wf(),
            final(self)@ == spec_ldy(*mode, old(self)@),
    {
        self.register_y = self.get_operand_value(mode).unwrap();
        self.update_zero_and_negative_flags(self.register_y);
    }

    fn tax(&mut self)
        requires
            old(self).wf(),
        ensures
            final(self).wf(),
            final(self)@ == spec_tax(old(self)@),
    {
        self.register_x = self.register_a;
        self.update_zero_and_negative_flags(self.register_x);
    }

    fn sta(&mut self, mode: &AddressingMode)
        requires
            old(self).wf(),
            mode.has_address(),
        ensures
            final(self).wf(),
            final(self)@ == spec_sta(*mode, old(self)@),
    {
        let address = self.get_operand_address(mode).unwrap();
        self.mem_write(address, self.register_a);
    }

    /// One fetch-decode-execute step, exactly `spec_step` on the machine's
    /// state.  A decode miss returns the `UnknownOpcode` error and leaves
    /// the whole state untouched; BRK halts with the program counter one
    /// byte past it.
    pub fn step(&mut self) -> (r: Result<StepOutcome, CpuError>)
        requires
            old(self).wf(),
        ensures
            final(self).wf(),
            match r {
                Ok(StepOutcome::Stepped) => spec_step(old(self)@) == StepSpec::Next(final(self)@),
                Ok(StepOutcome::Halted) => spec_step(old(self)@) == StepSpec::Halt(final(self)@),
                Err(e) => final(self)@ == old(self)@ && spec_step(old(self)@) == StepSpec::Fail(e),
            },
    {
        let ghost s0 = self@;

        // Fetch
        let opcode = self.mem_read(self.program_counter);

        // Decode
        let instruction = match instruction_set::lookup(opcode) {
            Some(instruction) => instruction,
            None => {
                return Err(CpuError::UnknownOpcode { opcode, pc: self.program_counter });
            },
        };

        self.program_counter = self.program_counter.wrapping_add(1);
        let ghost fetched = self@;

        if opcode == 0x00 {
            return Ok(StepOutcome::Halted);
        }
        // Used to check whether the handler redirected control flow.  See
        // the end of this function.
        let program_counter_state = self.program_counter;

        // Execute
        match opcode {
            // AND
            0x29 | 0x25 | 0x35 | 0x2D | 0x3D | 0x39 | 0x21 | 0x31 => self.and(&instruction.mode),
            // ASL
            0x0A | 0x06 | 0x16 | 0x0E | 0x1E => self.asl(&instruction.mode),
            // BCC
            0x90 => self.bcc(),
            // BCS
            0xB0 => self.bcs(),
            // BEQ
            0xF0 => self.beq(),
            // BIT
            0x24 | 0x2C => self.bit(&instruction.mode),
            // LDA
            0xA9 => self.lda(&instruction.mode),
            // LDX
            0xA2 => self.ldx(&instruction.mode),
            // LDY
            0xA0 => self.ldy(&instruction.mode),
            // STA
            0x85 => self.sta(&instruction.mode),
            // Implicit addressing opcodes
            0xAA => self.tax(),
            0xE8 => self.inx(),
            _ => {
                proof {
                    assert(false);
                }
            },
        }

        proof {
            assert(self@ == spec_execute(opcode, instruction.mode, fetched));
        }
        // A handler that moved the program counter (a taken branch) keeps
        // its target; otherwise skip the operand bytes.
        if self.program_counter == program_counter_state {
            self.program_counter = self.program_counter.wrapping_add(
                (instruction.length - 1) as u16,
            );
        }

        Ok(StepOutcome::Stepped)
    }

    /// Run until BRK halts the machine or decoding fails.  The loop spends
    /// at most `u64::MAX` steps so that it provably terminates; a program
    /// still running after that budget ends with `CpuError::StepLimit`.
    pub fn run(&mut self) -> (r: Result<(), CpuError>)
        requires
            old(self).wf(),
        ensures
            final(self).wf(),
            match r {
                Ok(_) => exists|n: nat|
                    spec_steps(old(self)@, n) == StepSpec::Halt(final(self)@),
                Err(e) => if e is StepLimit {
                    spec_steps(old(self)@, u64::MAX as nat) == StepSpec::Next(final(self)@)
                } else {
                    exists|n: nat|
                        spec_steps(old(self)@, n) == StepSpec::Next(final(self)@) && spec_step(
                            final(self)@,
                        ) == StepSpec::Fail(e)
                },
            },
    {
        let ghost s0 = self@;
        let ghost mut n: nat = 0;
        let mut budget: u64 = u64::MAX;
        while budget > 0
            invariant
                self.wf(),
                s0 == old(self)@,
                n + budget == u64::MAX,
                spec_steps(s0, n) == StepSpec::Next(self@),
            decreases budget,
        {
            let ghost prev = self@;
            match self.step() {
                Ok(StepOutcome::Stepped) => {
                    proof {
                        lemma_steps_succ(s0, prev, n);
                        n = n + 1;
                    }
                },
                Ok(StepOutcome::Halted) => {
                    proof {
                        lemma_steps_succ(s0, prev, n);
                        assert(spec_steps(s0, (n + 1) as nat) == StepSpec::Halt(self@));
                        assert(exists|m: nat| spec_steps(s0, m) == StepSpec::Halt(self@));
                    }
                    return Ok(());
                },
                Err(e) => {
                    proof {
                        assert(spec_steps(s0, n) == StepSpec::Next(self@));
                        assert(spec_step(self@) == StepSpec::Fail(e));
                        assert(!(e is StepLimit));
                        assert(exists|m: nat|
                            spec_steps(s0, m) == StepSpec::Next(self@) && spec_step(self@)
                                == StepSpec::Fail(e));
                    }
                    return Err(e);
                },
            }
            budget = budget - 1;
        }
        Err(CpuError::StepLimit)
    }

    /// Load a program at the fixed origin, reset, and run it to completion.
    pub fn load_and_run(&mut self, program: Vec<u8>) -> (r: Result<(), CpuError>)
        requires
            old(self).wf(),
            program@.len() <= 0x8000,
        ensures
            final(self).wf(),
            match r {
                Ok(_) => exists|n: nat|
                    spec_steps(spec_reset(spec_load(old(self)@, program@)), n) == StepSpec::Halt(
                        final(self)@,
                    ),
                Err(e) => if e is StepLimit {
                    spec_steps(spec_reset(spec_load(old(self)@, program@)), u64::MAX as nat)
                        == StepSpec::Next(final(self)@)
                } else {
                    exists|n: nat|
                        spec_steps(spec_reset(spec_load(old(self)@, program@)), n)
                            == StepSpec::Next(final(self)@) && spec_step(final(self)@)
                            == StepSpec::Fail(e)
                },
            },
    {
        self.load(program);
        self.reset();
        self.run()
    }
}

} // verus!

