use emu6502::cpu::status_flag::StatusFlag;
use emu6502::cpu::CpuError;
use emu6502::cpu::CPU;

#[test]
fn test_0xa9_lda_immediate_load_data() {
    let mut cpu = CPU::new();
    cpu.load_and_run(vec![0xa9, 0x05, 0x00]).unwrap();
    assert_eq!(cpu.register_a, 0x05);
    assert!(cpu.status & 0b0000_0010 == 0b00);
    assert!(cpu.status & 0b1000_0000 == 0);
}

#[test]
fn test_0xa9_lda_zero_flag() {
    let mut cpu = CPU::new();
    cpu.load_and_run(vec![0xa9, 0x00, 0x00]).unwrap();
    assert!(cpu.status & 0b0000_0010 == 0b10);
}

#[test]
fn test_0xaa_tax_move_a_to_x() {
    let mut cpu = CPU::new();
    cpu.load_and_run(vec![0xa9, 0x10, 0xaa, 0x00]).unwrap();
    assert_eq!(cpu.register_x, 0x10);
}

#[test]
fn test_0xe8_inx_increments_base() {
    let mut cpu = CPU::new();
    cpu.load_and_run(vec![0xe8, 0x00]).unwrap();

    assert_eq!(cpu.register_x, 1)
}

#[test]
fn test_0xe8_inx_increments_wraps() {
    let mut cpu = CPU::new();
    cpu.load_and_run(vec![0xA9, 0xFF, 0xAA, 0xE8, 0x00]).unwrap();
    assert_eq!(cpu.register_x, 0b0000_0000);
    assert!(cpu.status & StatusFlag::Zero.mask() == StatusFlag::Zero.mask());
}

#[test]
fn test_0xe8_inx_set_negative_flag() {
    let mut cpu = CPU::new();
    cpu.register_x = 0b0111_1111;
    cpu.load_and_run(vec![0xA9, 0b0111_1111, 0xAA, 0xE8, 0xe8, 0x00]).unwrap();
    assert!(cpu.status & StatusFlag::Negative.mask() == StatusFlag::Negative.mask());
}

#[test]
fn test_0xe8_inx_no_negative_flag() {
    let mut cpu = CPU::new();
    cpu.register_x = 0b0111_1110;
    cpu.load_and_run(vec![0xe8, 0x00]).unwrap();
    assert!(cpu.status & StatusFlag::Negative.mask() == 0);
}

#[test]
fn test_5_ops_working_together() {
    let mut cpu = CPU::new();
    cpu.load_and_run(vec![0xa9, 0xc0, 0xaa, 0xe8, 0x00]).unwrap();
    assert_eq!(cpu.register_x, 0xc1)
}

#[test]
fn test_inx_overflow() {
    let mut cpu = CPU::new();
    cpu.load_and_run(vec![0xa9, 0xff, 0xaa, 0xe8, 0xe8, 0x00]).unwrap();
    assert_eq!(cpu.register_x, 1)
}

#[test]
fn test_unknown_opcode() {
    let mut cpu = CPU::new();
    let result = cpu.load_and_run(vec![0x02, 0x00]);
    assert_eq!(result, Err(CpuError::UnknownOpcode { opcode: 0x02, pc: 0x8000 }));
}

// AND

// Immediate
#[test]
fn test_0x29_and() {
    let mut cpu = CPU::new();
    cpu.load_and_run(vec![0xa9, 0b1010_1101, 0x29, 0b1111_1110, 0x00]).unwrap();
    assert_eq!(cpu.register_a, 0b1010_1100);
    assert_eq!(cpu.status & StatusFlag::Negative.mask(), StatusFlag::Negative.mask());
    assert_eq!(cpu.status & StatusFlag::Zero.mask(), 0);
}

// Zero Page
#[test]
fn test_0x25_and() {
    let mut cpu = CPU::new();
    cpu.load_and_run(vec![
        0xa9,
        0xFF,
        0x85,
        0x10,
        0xa9,
        0b1111_0111,
        0x25,
        0x10,
        0x00,
    ])
    .unwrap();
    assert_eq!(cpu.register_a, 0b1111_0111);
    assert_eq!(cpu.status & StatusFlag::Negative.mask(), StatusFlag::Negative.mask());
    assert_eq!(cpu.status & StatusFlag::Zero.mask(), 0);
}

// Zero Page X
#[test]
fn test_0x35_and() {
    let mut cpu = CPU::new();
    cpu.load_and_run(vec![
        0xa9,
        0xFF,
        0x85,
        0x10,
        0xa9,
        0b1111_0111,
        0x35,
        0x10,
        0x00,
    ])
    .unwrap();
    assert_eq!(cpu.register_a, 0b1111_0111);
    assert_eq!(cpu.status & StatusFlag::Negative.mask(), StatusFlag::Negative.mask());
    assert_eq!(cpu.status & StatusFlag::Zero.mask(), 0);
}

// Absolute
#[test]
fn test_0x2d_and() {
    let mut cpu = CPU::new();
    cpu.mem_write(0x1234, 0b1111_1111);
    cpu.load_and_run(vec![0xa9, 0b1010_1010, 0x2d, 0x34, 0x12, 0x00]).unwrap();
    assert_eq!(cpu.register_a, 0b1010_1010);
}

// Absolute X
#[test]
fn test_0x3d_and() {
    let mut cpu = CPU::new();
    cpu.mem_write(0x4321, 0b1111_1111);
    // Load A with 42. Load X with 1. Address 0x4320 + 1 (see above). AND with A (42)
    cpu.load_and_run(vec![0xa9, 42, 0xa2, 1, 0x3d, 0x20, 0x43, 0x00]).unwrap();
    assert_eq!(cpu.register_a, 42);
}

// Absoulute Y
#[test]
fn test_0x39_and() {
    let mut cpu = CPU::new();
    cpu.mem_write(0x4321, 0b0000_1000);
    // Load A with bits. Load Y with 3. Address 0x431E + Y (see above). AND that with A's bits
    cpu.load_and_run(vec![0xa9, 0b0000_1111, 0xa0, 3, 0x39, 0x1E, 0x43, 0x00]).unwrap();
    assert_eq!(cpu.register_a, 8);
}

// Indexed Indirect (Indirect X)
#[test]
fn test_0x21_and() {
    let mut cpu = CPU::new();
    cpu.mem_write_u16(0x14, 0x1234);
    cpu.mem_write(0x1234, 0b0010_0010);
    cpu.load_and_run(vec![0xa9, 0b0000_1111, 0xa2, 4, 0x21, 0x10, 0x00]).unwrap();
    assert_eq!(cpu.register_a, 2);
}

// Indirect Indexed (Indirect Y)
#[test]
fn test_0x31_and() {
    let mut cpu = CPU::new();
    cpu.mem_write_u16(0x10, 0x1234);
    cpu.mem_write(0x1238, 0b0010_0010);
    cpu.load_and_run(vec![0xa9, 0b0000_1111, 0xa0, 4, 0x31, 0x10, 0x00]).unwrap();
    assert_eq!(cpu.register_a, 2);
}

// ASL
#[test]
fn test_0x0a_asl() {
    let mut cpu = CPU::new();
    cpu.load_and_run(vec![0xa9, 2, 0x0a, 0x0a, 0x00]).unwrap();
    assert_eq!(cpu.register_a, 8);
    assert_eq!(cpu.status & StatusFlag::Zero.mask(), 0);
    assert_eq!(cpu.status & StatusFlag::Negative.mask(), 0);
    assert_eq!(cpu.status & StatusFlag::Carry.mask(), 0);
}

#[test]
fn test_0x0a_asl_overflow() {
    let mut cpu = CPU::new();
    cpu.load_and_run(vec![0xa9, 0xFF, 0x0a, 0x00]).unwrap();
    assert_eq!(cpu.register_a, 0b1111_1110);
    assert!(!cpu.is_flag_set(StatusFlag::Zero));
    assert!(cpu.is_flag_set(StatusFlag::Negative));
    assert!(cpu.is_flag_set(StatusFlag::Carry));
}

#[test]
fn test_0x0e_asl() {
    let mut cpu = CPU::new();
    cpu.mem_write(0x1234, 0b0111_0011);
    cpu.load_and_run(vec![0x0e, 0x34, 0x12, 0x00]).unwrap();

    let result = cpu.mem_read(0x1234);
    assert_eq!(result, 0b1110_0110);
    assert!(cpu.is_flag_set(StatusFlag::Negative));
    assert!(!cpu.is_flag_set(StatusFlag::Carry));
    assert!(!cpu.is_flag_set(StatusFlag::Zero));
}
// Other ASL: 0x06, 0x16, 0x1E

// BCC
#[test]
fn test_0x90_bcc() {
    let mut cpu = CPU::new();
    cpu.load_and_run(vec![0x90, 3, 0xa9, 123, 0x00]).unwrap();
    assert_eq!(cpu.register_a, 0);
}

#[test]
fn test_0x90_bcc_no_branch() {
    let mut cpu = CPU::new();
    cpu.load_and_run(vec![0xa9, 0xFF, 0x0a, 0x90, 3, 0xa9, 123, 0x00]).unwrap();
    assert_eq!(cpu.register_a, 123);
}

// BCS
#[test]
fn test_0xb0_bcs() {
    let mut cpu = CPU::new();
    cpu.load_and_run(vec![0xa9, 0xFF, 0x0a, 0xb0, 3, 0xa9, 123, 0x00]).unwrap();
    assert_eq!(cpu.register_a, 0xFF << 1);
}

#[test]
fn test_0xb0_bcs_no_branch() {
    let mut cpu = CPU::new();
    cpu.load_and_run(vec![0xb0, 3, 0xa9, 123, 0x00]).unwrap();
    assert_eq!(cpu.register_a, 123);
}

// BEQ
#[test]
fn test_0xf0_beq() {
    let mut cpu = CPU::new();
    cpu.load_and_run(vec![0xa9, 0, 0xf0, 3, 0xa9, 0xff, 0xa2, 0x15, 0x00]).unwrap();
    assert_eq!(cpu.register_a, 0);
    assert_eq!(cpu.register_x, 0x15);
}

// BIT
#[test]
fn test_0x2c_bit() {
    let mut cpu = CPU::new();
    cpu.mem_write(0x1234, 0xff);
    cpu.load_and_run(vec![0xa9, 1, 0x2c, 0x34, 0x12]).unwrap();
    assert!(!cpu.is_flag_set(StatusFlag::Zero));
    assert!(cpu.is_flag_set(StatusFlag::Negative));
    assert!(cpu.is_flag_set(StatusFlag::Overflow));
}

#[test]
fn test_0x2c_bit_2() {
    let mut cpu = CPU::new();
    cpu.mem_write(0x1234, 0xff);
    cpu.load_and_run(vec![0x2c, 0x34, 0x12]).unwrap();
    assert!(cpu.is_flag_set(StatusFlag::Zero));
    assert!(cpu.is_flag_set(StatusFlag::Negative));
    assert!(cpu.is_flag_set(StatusFlag::Overflow));
}

#[test]
fn test_0x2c_bit_3() {
    let mut cpu = CPU::new();
    cpu.mem_write(0x1234, 0b_0011_1111);
    cpu.load_and_run(vec![0xa9, 1, 0x2c, 0x34, 0x12]).unwrap();
    assert!(!cpu.is_flag_set(StatusFlag::Zero));
    assert!(!cpu.is_flag_set(StatusFlag::Negative));
    assert!(!cpu.is_flag_set(StatusFlag::Overflow));
}

#[test]
fn test_0x2c_bit_4() {
    let mut cpu = CPU::new();
    cpu.mem_write(0x1234, 0b_0111_1111);
    cpu.load_and_run(vec![0xa9, 1, 0x2c, 0x34, 0x12]).unwrap();
    assert!(!cpu.is_flag_set(StatusFlag::Zero));
    assert!(!cpu.is_flag_set(StatusFlag::Negative));
    assert!(cpu.is_flag_set(StatusFlag::Overflow));
}

// LDX
#[test]
fn test_0xa2_ldx() {
    let mut cpu = CPU::new();
    cpu.load_and_run(vec![0xa2, 0xee, 0x00]).unwrap();
    assert_eq!(cpu.register_x, 0xee);
}

// LDY
#[test]
fn test_0xa0_ldy() {
    let mut cpu = CPU::new();
    cpu.load_and_run(vec![0xa0, 0x12, 0x00]).unwrap();
    assert_eq!(cpu.register_y, 0x12);
}

// STA
#[test]
fn test_0x85_sta() {
    let mut cpu = CPU::new();
    cpu.load_and_run(vec![0xa9, 0xFF, 0x85, 0x10, 0x00]).unwrap();
    assert_eq!(cpu.mem_read(0x10 as u16), 0xFF);
}
