use gbars::execute::{add_with_carry, alu, execute, immediate_operand, sign_extend_24, Outcome};
use gbars::instruction::{Condition, DataProcessingOpCode, Instruction, InstructionOp, Operand};
use gbars::{Cpu, CpuState, Flags, Memory, Register};

const NO_FLAGS: Flags = Flags { n: false, z: false, c: false, v: false };

fn run(cpu: &mut Cpu, word: u32) -> Outcome {
    let mut mem = Memory::new();
    execute(cpu, &mut mem, Instruction::decode_arm(word).unwrap())
}

fn run_with(cpu: &mut Cpu, mem: &mut Memory, word: u32) -> Outcome {
    execute(cpu, mem, Instruction::decode_arm(word).unwrap())
}

fn mov_r1_shifted_by_r2(shift: u8) -> Instruction {
    Instruction {
        condition: Condition::Always,
        instruction: InstructionOp::DataProcessing {
            opcode: DataProcessingOpCode::Mov,
            dest: Register::R1,
            operand1: Register::R0,
            operand2: Operand::Register { shift, register: Register::R0 },
            alter_condition: false,
        },
    }
}

#[test]
fn test_sign_extend() {
    let no_extend: u32 = 0b00111;

    assert_eq!(no_extend as i32, sign_extend_24(no_extend));

    let extend = 0b0000000_11111111_11111111_11111000;

    assert_eq!(-8i32, sign_extend_24(extend));
}

#[test]
fn sign_extend_range_ends() {
    assert_eq!(sign_extend_24(0x7F_FFFF), 0x7F_FFFF);
    assert_eq!(sign_extend_24(0x80_0000), -0x80_0000);
    assert_eq!(sign_extend_24(0xFF_FFFF), -1);
}

#[test]
fn immediate_rotate_values() {
    assert_eq!(immediate_operand(0, 0x42, true), (0x42, true));
    assert_eq!(immediate_operand(0, 0x42, false), (0x42, false));
    assert_eq!(immediate_operand(1, 0xFF, false), (0xC000_003F, true));
    assert_eq!(immediate_operand(8, 0x12, true), (0x0012_0000, false));
    assert_eq!(immediate_operand(15, 0x03, false), (0x0000_000C, false));
}

#[test]
fn add_with_carry_flags() {
    assert_eq!(add_with_carry(1, 2, false), (3, false, false));
    assert_eq!(add_with_carry(0x7FFF_FFFF, 1, false), (0x8000_0000, false, true));
    assert_eq!(add_with_carry(0xFFFF_FFFF, 1, false), (0, true, false));
    assert_eq!(add_with_carry(0x8000_0000, 0x8000_0000, false), (0, true, true));
    assert_eq!(add_with_carry(5, 5, true), (11, false, false));
}

#[test]
fn alu_subtract_compare_and_logic() {
    let (v, f) = alu(DataProcessingOpCode::Sub, 5, 5, false, NO_FLAGS);
    assert_eq!(v, 0);
    assert_eq!(f, Flags { n: false, z: true, c: true, v: false });
    let (v, f) = alu(DataProcessingOpCode::Sub, 3, 5, false, NO_FLAGS);
    assert_eq!(v, 0xFFFF_FFFE);
    assert_eq!(f, Flags { n: true, z: false, c: false, v: false });
    let (v, _) = alu(DataProcessingOpCode::Rsb, 3, 5, false, NO_FLAGS);
    assert_eq!(v, 2);
    let with_carry = Flags { n: false, z: false, c: true, v: true };
    let (v, f) = alu(DataProcessingOpCode::Bic, 0xFF, 0x0F, true, with_carry);
    assert_eq!(v, 0xF0);
    assert_eq!(f, Flags { n: false, z: false, c: true, v: true });
    let (v, f) = alu(DataProcessingOpCode::Mvn, 0, 0, false, NO_FLAGS);
    assert_eq!(v, 0xFFFF_FFFF);
    assert!(f.n);
    let (v, _) = alu(DataProcessingOpCode::Adc, 1, 1, false, with_carry);
    assert_eq!(v, 3);
    let (v, _) = alu(DataProcessingOpCode::Sbc, 5, 1, false, NO_FLAGS);
    assert_eq!(v, 3);
    let (v, _) = alu(DataProcessingOpCode::Rsc, 1, 5, false, NO_FLAGS);
    assert_eq!(v, 3);
    let (v, _) = alu(DataProcessingOpCode::Eor, 0b1100, 0b1010, false, NO_FLAGS);
    assert_eq!(v, 0b0110);
    let (v, _) = alu(DataProcessingOpCode::Orr, 0b1100, 0b1010, false, NO_FLAGS);
    assert_eq!(v, 0b1110);
}

#[test]
fn mov_immediate_writes_register() {
    let mut cpu = Cpu::new();
    assert_eq!(run(&mut cpu, 0xE3A0_0005), Outcome::Continue);
    assert_eq!(cpu.r0, 5);
    assert_eq!(cpu.flags(), NO_FLAGS);
}

#[test]
fn adds_sets_overflow_and_negative() {
    let mut cpu = Cpu::new();
    cpu.r0 = 0x7FFF_FFFF;
    cpu.r1 = 1;
    assert_eq!(run(&mut cpu, 0xE090_2001), Outcome::Continue);
    assert_eq!(cpu.r2, 0x8000_0000);
    assert_eq!(cpu.flags(), Flags { n: true, z: false, c: false, v: true });
    assert_eq!(cpu.cpsr() & 0x0FFF_FFFF, 0b1101_0011);
}

#[test]
fn cmp_sets_flags_without_writing() {
    let mut cpu = Cpu::new();
    cpu.r0 = 7;
    cpu.r2 = 99;
    assert_eq!(run(&mut cpu, 0xE150_0000), Outcome::Continue);
    assert_eq!(cpu.r0, 7);
    assert_eq!(cpu.r2, 99);
    assert_eq!(cpu.flags(), Flags { n: false, z: true, c: true, v: false });
}

#[test]
fn register_shifts() {
    let mut cpu = Cpu::new();
    cpu.r0 = 0x8000_0001;
    // MOVS R1, R0, LSL #4
    run(&mut cpu, 0xE1B0_1200);
    assert_eq!(cpu.r1, 0x0000_0010);
    assert!(!cpu.flags().c);
    // MOVS R1, R0, LSR #1
    run(&mut cpu, 0xE1B0_10A0);
    assert_eq!(cpu.r1, 0x4000_0000);
    assert!(cpu.flags().c);
    // MOV R1, R0, ASR #4
    run(&mut cpu, 0xE1A0_1240);
    assert_eq!(cpu.r1, 0xF800_0000);
    // MOV R1, R0, ROR #4
    run(&mut cpu, 0xE1A0_1260);
    assert_eq!(cpu.r1, 0x1800_0000);
    // MOV R1, R0, LSR #32 (amount field 0)
    run(&mut cpu, 0xE1A0_1020);
    assert_eq!(cpu.r1, 0);
    // MOV R1, R0, LSL R2 with R2 = 36
    cpu.r2 = 36;
    let mut mem = Memory::new();
    execute(&mut cpu, &mut mem, mov_r1_shifted_by_r2(0x21));
    assert_eq!(cpu.r1, 0);
    // MOV R1, R0, ROR R2 with R2 = 36 (rotates by 4)
    execute(&mut cpu, &mut mem, mov_r1_shifted_by_r2(0x27));
    assert_eq!(cpu.r1, 0x1800_0000);
    // MOV R1, R0, LSR R2 with R2 = 0: no shift
    cpu.r2 = 0;
    execute(&mut cpu, &mut mem, mov_r1_shifted_by_r2(0x23));
    assert_eq!(cpu.r1, 0x8000_0001);
}

#[test]
fn rrx_rotates_through_carry() {
    let mut cpu = Cpu::new();
    cpu.set_flags(Flags { n: false, z: false, c: true, v: false });
    cpu.r0 = 0x2;
    // MOVS R1, R0, RRX
    run(&mut cpu, 0xE1B0_1060);
    assert_eq!(cpu.r1, 0x8000_0001);
    assert!(!cpu.flags().c);
}

#[test]
fn multiply_and_accumulate() {
    let mut cpu = Cpu::new();
    cpu.r2 = 6;
    cpu.r3 = 7;
    assert_eq!(run(&mut cpu, 0xE003_0392), Outcome::Continue);
    assert_eq!(cpu.r3, 42);
    cpu.r0 = 0x1_0000;
    cpu.r1 = 0x1_0000;
    cpu.r4 = 5;
    // MLA R5, R0, R1, R4
    run(&mut cpu, 0xE025_4190);
    assert_eq!(cpu.r5, 5);
}

#[test]
fn false_condition_changes_nothing() {
    let mut cpu = Cpu::new();
    cpu.r14 = 0x0800_0101;
    let before = cpu;
    // MOVEQ R0, #5 with Z clear
    assert_eq!(run(&mut cpu, 0x03A0_0005), Outcome::Continue);
    // BEQ with Z clear
    assert_eq!(run(&mut cpu, 0x0A00_0010), Outcome::Continue);
    // BXEQ LR with Z clear
    assert_eq!(run(&mut cpu, 0x012F_FF1E), Outcome::Continue);
    assert_eq!(cpu, before);
}

#[test]
fn false_condition_leaves_memory_alone() {
    let mut cpu = Cpu::new();
    let mut mem = Memory::new();
    cpu.r0 = 0xAABB_CCDD;
    cpu.r1 = 0x0300_0000;
    cpu.r13 = 0x0300_0100;
    let before = cpu;
    // STREQ R0, [R1] with Z clear
    assert_eq!(run_with(&mut cpu, &mut mem, 0x0581_0000), Outcome::Continue);
    // STMDBEQ SP!, {R0, R1} with Z clear
    assert_eq!(run_with(&mut cpu, &mut mem, 0x092D_0003), Outcome::Continue);
    assert_eq!(cpu, before);
    assert_eq!(mem.get_word(0x0300_0000), 0);
    assert_eq!(mem.get_word(0x0300_00F8), 0);
}

#[test]
fn true_condition_executes() {
    let mut cpu = Cpu::new();
    cpu.set_flags(Flags { n: false, z: true, c: false, v: false });
    assert_eq!(run(&mut cpu, 0x03A0_0005), Outcome::Continue);
    assert_eq!(cpu.r0, 5);
}

#[test]
fn branch_offset_and_link() {
    let mut cpu = Cpu::new();
    cpu.r15 = 0x0800_0008;
    // B +50 words
    assert_eq!(run(&mut cpu, 0xEA00_0032), Outcome::Redirected);
    assert_eq!(cpu.r15, 0x0800_0008 + 200);
    let mut cpu = Cpu::new();
    cpu.r15 = 0x0800_0108;
    // BL -2 words
    assert_eq!(run(&mut cpu, 0xEBFF_FFFE), Outcome::Redirected);
    assert_eq!(cpu.r15, 0x0800_0100);
    assert_eq!(cpu.r14, 0x0800_0104);
}

#[test]
fn branch_exchange_selects_state() {
    let mut cpu = Cpu::new();
    cpu.r14 = 0x0800_0101;
    assert_eq!(run(&mut cpu, 0xE12F_FF1E), Outcome::Redirected);
    assert_eq!(cpu.r15, 0x0800_0100);
    assert_eq!(cpu.state(), CpuState::Thumb);
    cpu.r3 = 0x0800_0200;
    cpu.set_state(CpuState::Arm);
    assert_eq!(run(&mut cpu, 0xE12F_FF13), Outcome::Redirected);
    assert_eq!(cpu.get_register(Register::R15), 0x0800_0200);
    assert_eq!(cpu.state(), CpuState::Arm);
}

#[test]
fn mov_to_pc_redirects() {
    let mut cpu = Cpu::new();
    cpu.r14 = 0x0800_0040;
    // MOV PC, LR
    assert_eq!(run(&mut cpu, 0xE1A0_F00E), Outcome::Redirected);
    assert_eq!(cpu.r15, 0x0800_0040);
}

#[test]
fn store_then_load_word() {
    let mut cpu = Cpu::new();
    let mut mem = Memory::new();
    cpu.r11 = 0x0300_0010;
    cpu.r3 = 0xDEAD_BEEF;
    // STR R3, [R11, #-8]
    assert_eq!(run_with(&mut cpu, &mut mem, 0xE50B_3008), Outcome::Continue);
    assert_eq!(mem.get_word(0x0300_0008), 0xDEAD_BEEF);
    assert_eq!(cpu.r11, 0x0300_0010);
    // LDR R2, [R11, #-8]
    assert_eq!(run_with(&mut cpu, &mut mem, 0xE51B_2008), Outcome::Continue);
    assert_eq!(cpu.r2, 0xDEAD_BEEF);
}

#[test]
fn push_and_pop_write_back_the_base() {
    let mut cpu = Cpu::new();
    let mut mem = Memory::new();
    cpu.r13 = 0x0300_0100;
    cpu.r11 = 0x1234;
    // STR R11, [SP, #-4]!
    run_with(&mut cpu, &mut mem, 0xE52D_B004);
    assert_eq!(cpu.r13, 0x0300_00FC);
    assert_eq!(mem.get_word(0x0300_00FC), 0x1234);
    cpu.r11 = 0;
    // LDR R11, [SP], #4
    run_with(&mut cpu, &mut mem, 0xE49D_B004);
    assert_eq!(cpu.r11, 0x1234);
    assert_eq!(cpu.r13, 0x0300_0100);
}

#[test]
fn unaligned_and_byte_loads() {
    let mut cpu = Cpu::new();
    let mut mem = Memory::new();
    mem.set_word(0x0300_0000, 0x4433_2211);
    cpu.r1 = 0x0300_0001;
    // LDR R2, [R1]
    run_with(&mut cpu, &mut mem, 0xE591_2000);
    assert_eq!(cpu.r2, 0x1144_3322);
    // LDRB R2, [R1]
    run_with(&mut cpu, &mut mem, 0xE5D1_2000);
    assert_eq!(cpu.r2, 0x22);
    // STRB R3, [R1]
    cpu.r3 = 0xAB;
    run_with(&mut cpu, &mut mem, 0xE5C1_3000);
    assert_eq!(mem.get_word(0x0300_0000), 0x4433_AB11);
}

#[test]
fn store_to_rom_is_ignored() {
    let mut cpu = Cpu::new();
    let mut mem = Memory::new_with_bios_and_rom(vec![], vec![1, 2, 3, 4]);
    cpu.r1 = 0x0800_0000;
    cpu.r2 = 0xFFFF_FFFF;
    // STR R2, [R1]
    assert_eq!(run_with(&mut cpu, &mut mem, 0xE581_2000), Outcome::Continue);
    assert_eq!(mem.get_word(0x0800_0000), 0x0403_0201);
}

#[test]
fn load_into_pc_redirects() {
    let mut cpu = Cpu::new();
    let mut mem = Memory::new();
    mem.set_word(0x0200_0000, 0x0800_0100);
    cpu.r1 = 0x0200_0000;
    // LDR PC, [R1]
    assert_eq!(run_with(&mut cpu, &mut mem, 0xE591_F000), Outcome::Redirected);
    assert_eq!(cpu.r15, 0x0800_0100);
}

#[test]
fn swap_exchanges_register_and_memory() {
    let mut cpu = Cpu::new();
    let mut mem = Memory::new();
    mem.set_word(0x0300_0000, 0x4433_2211);
    cpu.r1 = 0x0300_0000;
    cpu.r2 = 0x55;
    // SWP R2, R2, [R1]
    assert_eq!(run_with(&mut cpu, &mut mem, 0xE101_2092), Outcome::Continue);
    assert_eq!(cpu.r2, 0x4433_2211);
    assert_eq!(mem.get_word(0x0300_0000), 0x55);
}

#[test]
fn push_and_pop_register_blocks() {
    let mut cpu = Cpu::new();
    let mut mem = Memory::new();
    cpu.r13 = 0x0300_0100;
    cpu.r11 = 3;
    cpu.r14 = 0x0800_0004;
    // STMDB SP!, {R11, LR}
    assert_eq!(run_with(&mut cpu, &mut mem, 0xE92D_4800), Outcome::Continue);
    assert_eq!(cpu.r13, 0x0300_00F8);
    assert_eq!(mem.get_word(0x0300_00F8), 3);
    assert_eq!(mem.get_word(0x0300_00FC), 0x0800_0004);
    cpu.r11 = 0;
    // LDMIA SP!, {R11, PC}
    assert_eq!(run_with(&mut cpu, &mut mem, 0xE8BD_8800), Outcome::Redirected);
    assert_eq!(cpu.r11, 3);
    assert_eq!(cpu.r15, 0x0800_0004);
    assert_eq!(cpu.r13, 0x0300_0100);
}

#[test]
fn block_addressing_modes() {
    let mut cpu = Cpu::new();
    let mut mem = Memory::new();
    cpu.r0 = 0x0200_0010;
    cpu.r1 = 0x11;
    cpu.r2 = 0x22;
    // STMIA R0, {R1, R2}: no write-back
    run_with(&mut cpu, &mut mem, 0xE880_0006);
    assert_eq!(cpu.r0, 0x0200_0010);
    assert_eq!(mem.get_word(0x0200_0010), 0x11);
    assert_eq!(mem.get_word(0x0200_0014), 0x22);
    // LDMDA R0!, {R1, R2} with R0 = 0x0200_0014
    cpu.r0 = 0x0200_0014;
    cpu.r1 = 0;
    cpu.r2 = 0;
    run_with(&mut cpu, &mut mem, 0xE830_0006);
    assert_eq!((cpu.r1, cpu.r2), (0x11, 0x22));
    assert_eq!(cpu.r0, 0x0200_000C);
    // LDMIB R0, {R1} with R0 = 0x0200_000C
    run_with(&mut cpu, &mut mem, 0xE990_0002);
    assert_eq!(cpu.r1, 0x11);
}

#[test]
fn long_multiplies() {
    let mut cpu = Cpu::new();
    cpu.r2 = 0xFFFF_FFFF;
    cpu.r3 = 2;
    // UMULL R0, R1, R2, R3
    assert_eq!(run(&mut cpu, 0xE081_0392), Outcome::Continue);
    assert_eq!((cpu.r1, cpu.r0), (1, 0xFFFF_FFFE));
    // UMLAL R0, R1, R2, R3: adds 0x1_FFFF_FFFE again
    run(&mut cpu, 0xE0A1_0392);
    assert_eq!((cpu.r1, cpu.r0), (3, 0xFFFF_FFFC));
    // SMULL R0, R1, R2, R3: -1 * 2
    run(&mut cpu, 0xE0C1_0392);
    assert_eq!((cpu.r1, cpu.r0), (0xFFFF_FFFF, 0xFFFF_FFFE));
    assert!(!cpu.flags().n);
    // SMULLS R0, R1, R2, R3 sets N
    run(&mut cpu, 0xE0D1_0392);
    assert!(cpu.flags().n);
    assert!(!cpu.flags().z);
    // SMLAL R0, R1, R2, R3 with accumulator 2: -2 + 2 = 0
    cpu.r1 = 0;
    cpu.r0 = 2;
    run(&mut cpu, 0xE0E1_0392);
    assert_eq!((cpu.r1, cpu.r0), (0, 0));
}
