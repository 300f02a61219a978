use super::status_flag::lemma_update_flag;
use super::status_flag::lemma_update_zero_and_negative;
use super::status_flag::spec_flag_set;
use super::status_flag::spec_update_flag;
use super::status_flag::spec_update_zero_and_negative;
use super::status_flag::StatusFlag;
use super::CpuError;
use super::MEMORY_SIZE;
use crate::cpu::instruction_set::instruction::addressing_mode::AddressingMode;
use crate::cpu::instruction_set::spec_instruction;
use crate::util::lemma_get_bit_masks;
use crate::util::lemma_wrap_add16_cases;
use crate::util::lemma_wrap_sub16_cases;
use crate::util::spec_address_from_offset;
use crate::util::spec_get_bit;
use crate::util::wrap_add16;
use crate::util::wrap_add8;
use crate::util::wrap_sub16;
use vstd::prelude::*;

verus! {

/// The mathematical image of the whole programmer-visible machine: the three
/// 8-bit registers, the status byte, the program counter and the 64 KiB
/// memory.
#[verifier::ext_equal]
pub struct CpuView {
    pub a: u8,
    pub x: u8,
    pub y: u8,
    pub status: u8,
    pub pc: u16,
    pub mem: Seq<u8>,
}

impl CpuView {
    pub open spec fn wf(self) -> bool {
        self.mem.len() == MEMORY_SIZE
    }
}

/// The machine as it is constructed: every register, flag and memory cell
/// zero.
pub open spec fn spec_initial() -> CpuView {
    CpuView {
        a: 0,
        x: 0,
        y: 0,
        status: 0,
        pc: 0,
        mem: Seq::new(MEMORY_SIZE as nat, |i: int| 0u8),
    }
}

/// The little-endian word stored at `pos`: low byte at `pos`, high byte one
/// address up, wrapping at the end of the address space.
pub open spec fn spec_mem_word(m: Seq<u8>, pos: u16) -> u16
    recommends
        m.len() == MEMORY_SIZE,
{
    (m[pos as int] + 256 * m[wrap_add16(pos, 1) as int]) as u16
}

/// Memory after a little-endian word write of `data` at `pos`.
pub open spec fn spec_mem_write_word(m: Seq<u8>, pos: u16, data: u16) -> Seq<u8>
    recommends
        m.len() == MEMORY_SIZE,
{
    m.update(pos as int, (data % 256) as u8).update(wrap_add16(pos, 1) as int, (data / 256) as u8)
}

/// The state after `reset`: registers and status zeroed, the program counter
/// taken from the reset vector at 0xFFFC, memory untouched.
pub open spec fn spec_reset(s: CpuView) -> CpuView
    recommends
        s.wf(),
{
    CpuView { a: 0, x: 0, y: 0, status: 0, pc: spec_mem_word(s.mem, 0xFFFC), ..s }
}

/// The state after `load`: the program bytes copied to the fixed origin
/// 0x8000 and the reset vector at 0xFFFC pointed at that origin.  Registers
/// and program counter are untouched.  The vector write lands after the
/// copy, so it wins where the two overlap.
pub open spec fn spec_load(s: CpuView, bytes: Seq<u8>) -> CpuView
    recommends
        s.wf(),
        bytes.len() <= 0x8000,
{
    CpuView {
        mem: Seq::new(
            s.mem.len(),
            |i: int|
                if i == 0xFFFC {
                    0u8
                } else if i == 0xFFFD {
                    0x80u8
                } else if 0x8000 <= i < 0x8000 + bytes.len() {
                    bytes[i - 0x8000]
                } else {
                    s.mem[i]
                },
        ),
        ..s
    }
}

/// The little-endian word read from the zero page at `ptr`: the high byte's
/// address wraps within the page, never reaching 0x0100.
pub open spec fn spec_zp_word(m: Seq<u8>, ptr: u8) -> u16
    recommends
        m.len() == MEMORY_SIZE,
{
    (m[ptr as int] + 256 * m[wrap_add8(ptr, 1) as int]) as u16
}

/// The addressing resolver: the effective memory address an operand lives
/// at, computed from the mode, the program counter (already past the opcode
/// byte) and the index registers.  Pure: reads state, never changes it.
/// Implicit and Accumulator have no address; the resolver's executable
/// counterpart reports them as errors.
pub open spec fn spec_operand_addr(mode: AddressingMode, s: CpuView) -> u16
    recommends
        s.wf(),
        mode.has_address(),
{
    match mode {
        AddressingMode::Immediate => s.pc,
        AddressingMode::Relative => s.pc,
        AddressingMode::ZeroPage => s.mem[s.pc as int] as u16,
        AddressingMode::ZeroPageX => wrap_add8(s.mem[s.pc as int], s.x) as u16,
        AddressingMode::ZeroPageY => wrap_add8(s.mem[s.pc as int], s.y) as u16,
        AddressingMode::Absolute => spec_mem_word(s.mem, s.pc),
        AddressingMode::AbsoluteX => wrap_add16(spec_mem_word(s.mem, s.pc), s.x as u16),
        AddressingMode::AbsoluteY => wrap_add16(spec_mem_word(s.mem, s.pc), s.y as u16),
        AddressingMode::IndirectX => spec_zp_word(s.mem, wrap_add8(s.mem[s.pc as int], s.x)),
        AddressingMode::IndirectY => wrap_add16(
            spec_zp_word(s.mem, s.mem[s.pc as int]),
            s.y as u16,
        ),
        AddressingMode::Implicit => 0,
        AddressingMode::Accumulator => 0,
    }
}

/// The operand's value: the accumulator for Accumulator mode, otherwise the
/// byte at the resolved address.
pub open spec fn spec_operand_value(mode: AddressingMode, s: CpuView) -> u8
    recommends
        s.wf(),
        mode.has_value(),
{
    if mode is Accumulator {
        s.a
    } else {
        s.mem[spec_operand_addr(mode, s) as int]
    }
}

/// AND: A anded with the operand, Zero/Negative updated from the result.
pub open spec fn spec_and(mode: AddressingMode, s: CpuView) -> CpuView
    recommends
        s.wf(),
        mode.has_value(),
{
    let v = spec_operand_value(mode, s);
    CpuView { a: s.a & v, status: spec_update_zero_and_negative(s.status, s.a & v), ..s }
}

/// ASL: the operand shifted left one bit, the lost bit 7 moved into Carry,
/// Zero/Negative updated from the result, which lands in A (Accumulator
/// mode) or back at the operand's address (every other mode).
pub open spec fn spec_asl(mode: AddressingMode, s: CpuView) -> CpuView
    recommends
        s.wf(),
        mode.has_value(),
{
    let v = spec_operand_value(mode, s);
    let r = v << 1;
    let st = spec_update_zero_and_negative(
        spec_update_flag(s.status, StatusFlag::Carry, spec_get_bit(v, 7)),
        r,
    );
    if mode is Accumulator {
        CpuView { a: r, status: st, ..s }
    } else {
        CpuView { status: st, mem: s.mem.update(spec_operand_addr(mode, s) as int, r), ..s }
    }
}

/// A taken branch: the program counter moved by the sign-magnitude offset
/// byte it points at, with 16-bit wraparound.  Nothing else changes.
pub open spec fn spec_branch(s: CpuView) -> CpuView
    recommends
        s.wf(),
{
    CpuView { pc: spec_address_from_offset(s.pc, s.mem[s.pc as int]), ..s }
}

/// BIT: Zero from `A & operand`, Overflow and Negative copied from bits 6
/// and 7 of the operand; A itself is unchanged.
pub open spec fn spec_bit_test(mode: AddressingMode, s: CpuView) -> CpuView
    recommends
        s.wf(),
        mode.has_value(),
{
    let v = spec_operand_value(mode, s);
    let st = spec_update_flag(
        spec_update_flag(
            spec_update_flag(s.status, StatusFlag::Zero, s.a & v == 0),
            StatusFlag::Overflow,
            spec_get_bit(v, 6),
        ),
        StatusFlag::Negative,
        spec_get_bit(v, 7),
    );
    CpuView { status: st, ..s }
}

/// LDA: the operand loaded into A, Zero/Negative updated from it.
pub open spec fn spec_lda(mode: AddressingMode, s: CpuView) -> CpuView
    recommends
        s.wf(),
        mode.has_value(),
{
    let v = spec_operand_value(mode, s);
    CpuView { a: v, status: spec_update_zero_and_negative(s.status, v), ..s }
}

/// LDX: the operand loaded into X, Zero/Negative updated from it.
pub open spec fn spec_ldx(mode: AddressingMode, s: CpuView) -> CpuView
    recommends
        s.wf(),
        mode.has_value(),
{
    let v = spec_operand_value(mode, s);
    CpuView { x: v, status: spec_update_zero_and_negative(s.status, v), ..s }
}

/// LDY: the operand loaded into Y, Zero/Negative updated from it.
pub open spec fn spec_ldy(mode: AddressingMode, s: CpuView) -> CpuView
    recommends
        s.wf(),
        mode.has_value(),
{
    let v = spec_operand_value(mode, s);
    CpuView { y: v, status: spec_update_zero_and_negative(s.status, v), ..s }
}

/// TAX: A copied into X, Zero/Negative updated from it.
pub open spec fn spec_tax(s: CpuView) -> CpuView {
    CpuView { x: s.a, status: spec_update_zero_and_negative(s.status, s.a), ..s }
}

/// INX: X incremented with 8-bit wraparound, Zero/Negative updated from it.
pub open spec fn spec_inx(s: CpuView) -> CpuView {
    let x = wrap_add8(s.x, 1);
    CpuView { x: x, status: spec_update_zero_and_negative(s.status, x), ..s }
}

/// STA: A written to the operand's address; no flag changes.
pub open spec fn spec_sta(mode: AddressingMode, s: CpuView) -> CpuView
    recommends
        s.wf(),
        mode.has_address(),
{
    CpuView { mem: s.mem.update(spec_operand_addr(mode, s) as int, s.a), ..s }
}

/// Whether a branch opcode's tested flag matches its condition: BCC takes
/// the branch on Carry clear, BCS on Carry set, BEQ on Zero set.
pub open spec fn spec_branch_cond(opcode: u8, status: u8) -> bool
    recommends
        opcode == 0x90 || opcode == 0xB0 || opcode == 0xF0,
{
    if opcode == 0x90 {
        !spec_flag_set(status, StatusFlag::Carry)
    } else if opcode == 0xB0 {
        spec_flag_set(status, StatusFlag::Carry)
    } else {
        spec_flag_set(status, StatusFlag::Zero)
    }
}

/// The state change a handler makes, given the opcode, its table mode and
/// the state with the program counter already past the opcode byte.  BRK is
/// not here: the step function halts on it before dispatch.
pub open spec fn spec_execute(opcode: u8, mode: AddressingMode, s: CpuView) -> CpuView
    recommends
        s.wf(),
{
    if opcode == 0x29 || opcode == 0x25 || opcode == 0x35 || opcode == 0x2D || opcode == 0x3D
        || opcode == 0x39 || opcode == 0x21 || opcode == 0x31 {
        spec_and(mode, s)
    } else if opcode == 0x0A || opcode == 0x06 || opcode == 0x16 || opcode == 0x0E || opcode
        == 0x1E {
        spec_asl(mode, s)
    } else if opcode == 0x90 || opcode == 0xB0 || opcode == 0xF0 {
        if spec_branch_cond(opcode, s.status) {
            spec_branch(s)
        } else {
            s
        }
    } else if opcode == 0x24 || opcode == 0x2C {
        spec_bit_test(mode, s)
    } else if opcode == 0xA9 {
        spec_lda(mode, s)
    } else if opcode == 0xA2 {
        spec_ldx(mode, s)
    } else if opcode == 0xA0 {
        spec_ldy(mode, s)
    } else if opcode == 0x85 {
        spec_sta(mode, s)
    } else if opcode == 0xAA {
        spec_tax(s)
    } else if opcode == 0xE8 {
        spec_inx(s)
    } else {
        s
    }
}

/// What one fetch-decode-execute step does to a state: run on to the next
/// state, halt on BRK, or fail on an opcode the table does not know.  A
/// failing step changes nothing: each step is all-or-nothing.
pub enum StepSpec {
    Next(CpuView),
    Halt(CpuView),
    Fail(CpuError),
}

/// One fetch-decode-execute step.  The opcode is fetched at PC; a table
/// miss fails, reporting the opcode and the PC it was fetched at.  BRK
/// halts with PC one byte past it.  Otherwise the handler runs against the
/// post-fetch PC, and if it left PC alone the operand bytes are skipped by
/// adding the descriptor length less the opcode byte; a handler that moved
/// PC (a taken branch) keeps its target.
pub open spec fn spec_step(s: CpuView) -> StepSpec
    recommends
        s.wf(),
{
    let opcode = s.mem[s.pc as int];
    match spec_instruction(opcode) {
        Option::None => StepSpec::Fail(CpuError::UnknownOpcode { opcode, pc: s.pc }),
        Option::Some(info) => {
            let fetched = CpuView { pc: wrap_add16(s.pc, 1), ..s };
            if opcode == 0x00 {
                StepSpec::Halt(fetched)
            } else {
                let t = spec_execute(opcode, info.mode, fetched);
                StepSpec::Next(
                    if t.pc == fetched.pc {
                        CpuView { pc: wrap_add16(t.pc, (info.length - 1) as u16), ..t }
                    } else {
                        t
                    },
                )
            }
        },
    }
}

/// The machine `n` steps later: still running (`Next`), or already halted
/// or failed somewhere within those `n` steps.
pub open spec fn spec_steps(s: CpuView, n: nat) -> StepSpec
    decreases n,
{
    if n == 0 {
        StepSpec::Next(s)
    } else {
        match spec_step(s) {
            StepSpec::Next(t) => spec_steps(t, (n - 1) as nat),
            done => done,
        }
    }
}

/// Zero and Negative track an 8-bit result: Zero set iff it is zero,
/// Negative set iff its bit 7 is set.
pub open spec fn spec_flags_track(status: u8, r: u8) -> bool {
    &&& spec_flag_set(status, StatusFlag::Zero) == (r == 0)
    &&& spec_flag_set(status, StatusFlag::Negative) == (r & 0b1000_0000 != 0)
}

/// The Zero/Negative law at the instruction level: every load, transfer,
/// increment and logical instruction leaves Zero and Negative tracking the
/// 8-bit result it wrote.
pub proof fn lemma_written_result_flags(mode: AddressingMode, s: CpuView)
    requires
        s.wf(),
        mode.has_value(),
    ensures
        spec_flags_track(spec_and(mode, s).status, spec_and(mode, s).a),
        spec_flags_track(spec_lda(mode, s).status, spec_lda(mode, s).a),
        spec_flags_track(spec_ldx(mode, s).status, spec_ldx(mode, s).x),
        spec_flags_track(spec_ldy(mode, s).status, spec_ldy(mode, s).y),
        spec_flags_track(spec_tax(s).status, spec_tax(s).x),
        spec_flags_track(spec_inx(s).status, spec_inx(s).x),
{
    let v = spec_operand_value(mode, s);
    lemma_update_zero_and_negative(s.status, s.a & v);
    lemma_update_zero_and_negative(s.status, v);
    lemma_update_zero_and_negative(s.status, s.a);
    lemma_update_zero_and_negative(s.status, wrap_add8(s.x, 1));
}

/// The ASL law: for every operand value, Carry afterwards is the operand's
/// old bit 7, the result is the operand doubled modulo 256 (the shifted-out
/// bit is discarded), Zero and Negative follow the result, and the result
/// lands in A under Accumulator mode and back at the operand's address
/// under every other mode.
pub proof fn lemma_asl_law(mode: AddressingMode, s: CpuView)
    requires
        s.wf(),
        mode.has_value(),
    ensures
        ({
            let v = spec_operand_value(mode, s);
            let r = v << 1;
            let t = spec_asl(mode, s);
            &&& r as int == (2 * (v as int)) % 256
            &&& spec_flag_set(t.status, StatusFlag::Carry) == spec_get_bit(v, 7)
            &&& spec_flag_set(t.status, StatusFlag::Zero) == (r == 0)
            &&& spec_flag_set(t.status, StatusFlag::Negative) == spec_get_bit(r, 7)
            &&& if mode is Accumulator {
                t.a == r
            } else {
                t.mem[spec_operand_addr(mode, s) as int] == r
            }
        }),
{
    let v = spec_operand_value(mode, s);
    let r = v << 1;
    assert((v << 1) == (((v as u16) * 2) % 256) as u8) by (bit_vector);
    lemma_get_bit_masks(r);
    let st1 = spec_update_flag(s.status, StatusFlag::Carry, spec_get_bit(v, 7));
    lemma_update_flag(s.status, StatusFlag::Carry, spec_get_bit(v, 7), StatusFlag::Carry);
    lemma_update_zero_and_negative(st1, r);
}

/// The BIT law: Zero afterwards reports whether `A & operand` is zero,
/// Overflow and Negative are copies of the operand's bits 6 and 7, and A,
/// the other registers, the program counter and memory are unchanged.
pub proof fn lemma_bit_law(mode: AddressingMode, s: CpuView)
    requires
        s.wf(),
        mode.has_value(),
    ensures
        ({
            let v = spec_operand_value(mode, s);
            let t = spec_bit_test(mode, s);
            &&& spec_flag_set(t.status, StatusFlag::Zero) == (s.a & v == 0)
            &&& spec_flag_set(t.status, StatusFlag::Overflow) == spec_get_bit(v, 6)
            &&& spec_flag_set(t.status, StatusFlag::Negative) == spec_get_bit(v, 7)
            &&& t.a == s.a
            &&& t.x == s.x
            &&& t.y == s.y
            &&& t.pc == s.pc
            &&& t.mem == s.mem
        }),
{
    let v = spec_operand_value(mode, s);
    let st1 = spec_update_flag(s.status, StatusFlag::Zero, s.a & v == 0);
    let st2 = spec_update_flag(st1, StatusFlag::Overflow, spec_get_bit(v, 6));
    lemma_update_flag(s.status, StatusFlag::Zero, s.a & v == 0, StatusFlag::Zero);
    lemma_update_flag(st1, StatusFlag::Overflow, spec_get_bit(v, 6), StatusFlag::Zero);
    lemma_update_flag(st1, StatusFlag::Overflow, spec_get_bit(v, 6), StatusFlag::Overflow);
    lemma_update_flag(st2, StatusFlag::Negative, spec_get_bit(v, 7), StatusFlag::Zero);
    lemma_update_flag(st2, StatusFlag::Negative, spec_get_bit(v, 7), StatusFlag::Overflow);
    lemma_update_flag(st2, StatusFlag::Negative, spec_get_bit(v, 7), StatusFlag::Negative);
}

/// The branch law.  A branch instruction takes its branch exactly when the
/// tested flag matches its condition.  Not taken, the program counter moves
/// two bytes on, past opcode and offset.  Taken with a nonzero offset
/// magnitude, the program counter becomes the post-opcode-fetch position
/// moved by the sign-magnitude offset with 16-bit wraparound.  (A taken
/// branch whose offset magnitude is zero leaves the program counter where a
/// handler that did nothing would have, so the engine's control-flow
/// heuristic advances it as if the branch were not taken; such offsets are
/// left out here.)  Nothing but the program counter changes either way.
pub proof fn lemma_branch_law(s: CpuView, opcode: u8)
    requires
        s.wf(),
        opcode == 0x90 || opcode == 0xB0 || opcode == 0xF0,
        s.mem[s.pc as int] == opcode,
    ensures
        ({
            let taken = spec_branch_cond(opcode, s.status);
            let pc1 = wrap_add16(s.pc, 1);
            let offset = s.mem[pc1 as int];
            &&& !taken ==> spec_step(s) == StepSpec::Next(
                (CpuView { pc: wrap_add16(s.pc, 2), ..s }),
            )
            &&& taken && offset & 0x7F != 0 ==> spec_step(s) == StepSpec::Next(
                (CpuView { pc: spec_address_from_offset(pc1, offset), ..s }),
            )
        }),
{
    let taken = spec_branch_cond(opcode, s.status);
    let pc1 = wrap_add16(s.pc, 1);
    let offset = s.mem[pc1 as int];
    let fetched = CpuView { pc: pc1, ..s };
    lemma_wrap_add16_cases(s.pc, 1);
    lemma_wrap_add16_cases(s.pc, 2);
    lemma_wrap_add16_cases(pc1, 1);
    if !taken {
        assert(spec_execute(opcode, AddressingMode::Relative, fetched) == fetched);
        assert(wrap_add16(pc1, 1) == wrap_add16(s.pc, 2));
    } else if offset & 0x7F != 0 {
        let value = (offset & 0x7F) as u16;
        assert(offset & 0x7F < 0x80) by (bit_vector);
        let target = spec_address_from_offset(pc1, offset);
        lemma_wrap_add16_cases(pc1, value);
        lemma_wrap_sub16_cases(pc1, value);
        assert(target != pc1);
    }
}

/// The zero-page indexed wraparound law: ZeroPageX and ZeroPageY resolve to
/// the operand byte plus the index register modulo 256, so the effective
/// address never leaves the zero page (base 0xFF with index 1 resolves to
/// 0x00, not 0x0100).
pub proof fn lemma_zero_page_indexed_wraps(mode: AddressingMode, s: CpuView)
    requires
        s.wf(),
        mode is ZeroPageX || mode is ZeroPageY,
    ensures
        spec_operand_addr(mode, s) < 0x100,
        spec_operand_addr(mode, s) as int == (s.mem[s.pc as int] + (if mode is ZeroPageX {
            s.x
        } else {
            s.y
        })) % 0x100,
{
}

/// A step preserves well-formedness of the state it hands on.
pub proof fn lemma_step_wf(s: CpuView)
    requires
        s.wf(),
    ensures
        spec_step(s) matches StepSpec::Next(t) ==> t.wf(),
        spec_step(s) matches StepSpec::Halt(t) ==> t.wf(),
{
}

/// A halting step is a BRK fetch: the opcode byte at the program counter is
/// 0x00, and the machine stops with the program counter one byte past it,
/// everything else untouched.
pub proof fn lemma_step_halt(s: CpuView)
    requires
        s.wf(),
        spec_step(s) is Halt,
    ensures
        s.mem[s.pc as int] == 0x00,
        spec_step(s) == StepSpec::Halt((CpuView { pc: wrap_add16(s.pc, 1), ..s })),
{
}

/// A run that halts ends exactly one byte past a terminal BRK: the byte
/// just before the final program counter, with 16-bit wraparound, is 0x00.
pub proof fn lemma_halt_past_brk(s0: CpuView, t: CpuView, n: nat)
    requires
        s0.wf(),
        spec_steps(s0, n) == StepSpec::Halt(t),
    ensures
        t.wf(),
        t.mem[wrap_sub16(t.pc, 1) as int] == 0x00,
    decreases n,
{
    if n == 0 {
        assert(spec_steps(s0, 0) == StepSpec::Next(s0));
    } else {
        lemma_step_wf(s0);
        match spec_step(s0) {
            StepSpec::Next(u) => {
                lemma_halt_past_brk(u, t, (n - 1) as nat);
            },
            StepSpec::Halt(h) => {
                lemma_step_halt(s0);
                lemma_wrap_add16_cases(s0.pc, 1);
                lemma_wrap_sub16_cases(wrap_add16(s0.pc, 1), 1);
                assert(wrap_sub16(wrap_add16(s0.pc, 1), 1) == s0.pc);
            },
            StepSpec::Fail(_) => {},
        }
    }
}

/// Loading then resetting leaves the machine ready at the fixed origin:
/// registers and status zero, the program counter 0x8000 from the installed
/// reset vector, and (so long as the program stays clear of the vector
/// itself) the bytes at `[0x8000, 0x8000 + len)` are exactly the program.
pub proof fn lemma_load_reset(s: CpuView, bytes: Seq<u8>)
    requires
        s.wf(),
        bytes.len() <= 0x8000,
    ensures
        ({
            let t = spec_reset(spec_load(s, bytes));
            &&& t.wf()
            &&& t.a == 0 && t.x == 0 && t.y == 0 && t.status == 0
            &&& t.pc == 0x8000
            &&& bytes.len() <= 0x7FFC ==> t.mem.subrange(0x8000, 0x8000 + bytes.len() as int)
                =~= bytes
        }),
{
    let loaded = spec_load(s, bytes);
    lemma_wrap_add16_cases(0xFFFC, 1);
    assert(loaded.mem[0xFFFC] == 0 && loaded.mem[0xFFFD] == 0x80);
    assert(spec_mem_word(loaded.mem, 0xFFFC) == 0x8000);
}

/// Taking one more step from a still-running state appends that step's
/// outcome to the step sequence.
pub proof fn lemma_steps_succ(s0: CpuView, s1: CpuView, n: nat)
    requires
        spec_steps(s0, n) == StepSpec::Next(s1),
    ensures
        spec_steps(s0, n + 1) == spec_step(s1),
    decreases n,
{
    if n == 0 {
        assert(s1 == s0);
        match spec_step(s0) {
            StepSpec::Next(t) => {
                assert(spec_steps(t, 0) == StepSpec::Next(t));
            },
            _ => {},
        }
    } else {
        match spec_step(s0) {
            StepSpec::Next(t) => {
                lemma_steps_succ(t, s1, (n - 1) as nat);
            },
            _ => {},
        }
    }
}

} // verus!
