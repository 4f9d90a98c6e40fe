use gbars::cpu::CycleError;
use gbars::instruction::{DecodeError, DecodeReason};
use gbars::{Cpu, CpuState, Flags, Memory, Register};

const ROM: u32 = 0x0800_0000;

fn rom_of(words: &[u32]) -> Memory {
    let mut bytes = Vec::new();
    for w in words {
        bytes.extend_from_slice(&w.to_le_bytes());
    }
    Memory::new_with_bios_and_rom(vec![0; 0x4000], bytes)
}

#[test]
fn new_cpu_is_reset() {
    let cpu = Cpu::new();
    for r in [Register::R0, Register::R7, Register::R13, Register::R14, Register::R15] {
        assert_eq!(cpu.get_register(r), 0);
    }
    assert_eq!(cpu.cpsr(), 0b1101_0011);
    assert_eq!(cpu.state(), CpuState::Arm);
    assert_eq!(cpu.flags(), Flags { n: false, z: false, c: false, v: false });
}

#[test]
fn set_register_and_flags() {
    let mut cpu = Cpu::new();
    cpu.set_register(Register::R9, 0xDEAD_BEEF);
    assert_eq!(cpu.r9, 0xDEAD_BEEF);
    assert_eq!(cpu.get_register(Register::R9), 0xDEAD_BEEF);
    let f = Flags { n: true, z: false, c: true, v: false };
    cpu.set_flags(f);
    assert_eq!(cpu.flags(), f);
    assert_eq!(cpu.cpsr(), 0xA000_00D3);
}

#[test]
fn mov_then_bx_reaches_sentinel() {
    let mut mem = rom_of(&[0xE3A0_0005, 0xE12F_FF1E]);
    let mut cpu = Cpu::new();
    let sentinel = 0x1234_1235;
    cpu.r15 = ROM;
    cpu.r14 = sentinel;
    let mut cycles = 0;
    while cpu.r15 != sentinel & !1 {
        assert!(cycles < 10, "did not reach the sentinel in time");
        cpu.cycle(&mut mem).unwrap();
        cycles += 1;
    }
    assert_eq!(cpu.r0, 5);
    assert_eq!(cpu.r15, 0x1234_1234);
    assert_eq!(cycles, 4);
}

#[test]
fn pipeline_fills_for_two_cycles() {
    // MOV R0, #5 at ROM
    let mut mem = rom_of(&[0xE3A0_0005, 0, 0]);
    let mut cpu = Cpu::new();
    cpu.r15 = ROM;
    cpu.cycle(&mut mem).unwrap();
    assert_eq!(cpu.r15, ROM + 4);
    assert_eq!(cpu.r0, 0);
    cpu.cycle(&mut mem).unwrap();
    assert_eq!(cpu.r15, ROM + 8);
    assert_eq!(cpu.r0, 0);
    cpu.cycle(&mut mem).unwrap();
    assert_eq!(cpu.r15, ROM + 12);
    assert_eq!(cpu.r0, 5);
}

#[test]
fn refill_after_branch_takes_two_cycles() {
    // B +0 (to ROM + 8), skipped word, then MOV R0, #5 at ROM + 8
    let mut mem = rom_of(&[0xEA00_0000, 0xE3A0_0007, 0xE3A0_0005, 0, 0]);
    let mut cpu = Cpu::new();
    cpu.r15 = ROM;
    for _ in 0..3 {
        cpu.cycle(&mut mem).unwrap();
    }
    assert_eq!(cpu.r15, ROM + 8);
    cpu.cycle(&mut mem).unwrap();
    assert_eq!(cpu.r0, 0);
    assert_eq!(cpu.r15, ROM + 12);
    cpu.cycle(&mut mem).unwrap();
    assert_eq!(cpu.r0, 0);
    assert_eq!(cpu.r15, ROM + 16);
    cpu.cycle(&mut mem).unwrap();
    assert_eq!(cpu.r0, 5);
}

#[test]
fn branch_with_link_from_fetch() {
    // BL +3 at ROM: lands at ROM + 8 + 12, R14 = ROM + 4
    let mut mem = rom_of(&[0xEB00_0003, 0, 0]);
    let mut cpu = Cpu::new();
    cpu.r15 = ROM;
    for _ in 0..3 {
        cpu.cycle(&mut mem).unwrap();
    }
    assert_eq!(cpu.r15, ROM + 20);
    assert_eq!(cpu.r14, ROM + 4);
}

#[test]
fn backward_branch_from_fetch() {
    // B -4 at ROM + 8: lands at ROM + 16 - 16 = ROM
    let mut mem = rom_of(&[0, 0, 0xEAFF_FFFC, 0, 0]);
    let mut cpu = Cpu::new();
    cpu.r15 = ROM + 8;
    for _ in 0..3 {
        cpu.cycle(&mut mem).unwrap();
    }
    assert_eq!(cpu.r15, ROM);
}

#[test]
fn decode_error_fails_cycle_without_change() {
    let mut mem = rom_of(&[0xF000_0000, 0, 0]);
    let mut cpu = Cpu::new();
    cpu.r15 = ROM;
    cpu.cycle(&mut mem).unwrap();
    cpu.cycle(&mut mem).unwrap();
    let before = cpu;
    assert_eq!(
        cpu.cycle(&mut mem),
        Err(CycleError::Decode(DecodeError {
            word: 0xF000_0000,
            reason: DecodeReason::ReservedCondition
        }))
    );
    assert_eq!(cpu, before);
}

#[test]
fn call_and_return_through_the_stack() {
    // BL +1 ; (skipped) ; MOV R0, #9 ; (skipped)
    // callee at ROM + 12: STMDB SP!, {LR} ; MOV R1, #1 ; LDMIA SP!, {PC}
    let mut mem = rom_of(&[
        0xEB00_0001,
        0xE3A0_0009,
        0,
        0xE92D_4000,
        0xE3A0_1001,
        0xE8BD_8000,
        0,
        0,
    ]);
    let mut cpu = Cpu::new();
    cpu.r15 = ROM;
    cpu.r13 = 0x0300_0100;
    let mut cycles = 0;
    while cpu.r0 != 9 {
        assert!(cycles < 20, "did not return in time");
        cpu.cycle(&mut mem).unwrap();
        cycles += 1;
    }
    assert_eq!(cpu.r1, 1);
    assert_eq!(cpu.r13, 0x0300_0100);
    assert_eq!(cpu.r14, ROM + 4);
}

#[test]
fn thumb_state_fails_cycle() {
    let mut mem = rom_of(&[0xE12F_FF1E, 0, 0]);
    let mut cpu = Cpu::new();
    cpu.r15 = ROM;
    cpu.r14 = ROM + 0x41;
    for _ in 0..3 {
        cpu.cycle(&mut mem).unwrap();
    }
    assert_eq!(cpu.state(), CpuState::Thumb);
    assert_eq!(cpu.r15, ROM + 0x40);
    let before = cpu;
    assert_eq!(cpu.cycle(&mut mem), Err(CycleError::ThumbState));
    assert_eq!(cpu, before);
}

#[test]
fn store_in_program_reaches_memory() {
    // MOV R0, #0x42 ; MOV R1, #0x3000000 ; STR R0, [R1]
    let mut mem = rom_of(&[0xE3A0_0042, 0xE3A0_1403, 0xE581_0000, 0, 0]);
    let mut cpu = Cpu::new();
    cpu.r15 = ROM;
    for _ in 0..5 {
        cpu.cycle(&mut mem).unwrap();
    }
    assert_eq!(cpu.r1, 0x0300_0000);
    assert_eq!(mem.get_word(0x0300_0000), 0x42);
}

#[test]
fn flush_pipeline_restarts_filling() {
    let mut mem = rom_of(&[0xE3A0_0005, 0xE3A0_1006, 0, 0]);
    let mut cpu = Cpu::new();
    cpu.r15 = ROM;
    cpu.cycle(&mut mem).unwrap();
    cpu.cycle(&mut mem).unwrap();
    cpu.flush_pipeline();
    cpu.cycle(&mut mem).unwrap();
    assert_eq!(cpu.r0, 0);
    assert_eq!(cpu.r15, ROM + 12);
}
