use vstd::prelude::*;

use crate::bits::{bit, lemma_wrap_add, wrap};
use crate::execute::{execute, executes, lemma_offset_branch_executes, sext24, Outcome};
use crate::instruction::{
    decodes, lemma_decode_deterministic, Branch, Condition, DecodeError, Instruction,
    InstructionOp,
};
use crate::memory::Memory;

verus! {

/// Status word at reset: IRQ and FIQ masked, ARM state, supervisor mode.
pub const INITIAL_CPSR: u32 = 0b1101_0011;

/// The status-word bits that are not condition flags.
pub const CONTROL_MASK: u32 = 0x0FFF_FFFF;

/// Execution state: 32-bit ARM or 16-bit Thumb instructions.
#[derive(Clone, Copy, Debug, PartialEq, Eq, Structural)]
pub enum CpuState {
    Arm,
    Thumb,
}

/// Registers as seen by the program, with no banking by privilege mode.
#[derive(Clone, Copy, Debug, PartialEq, Eq, Structural)]
pub enum Register {
    R0,
    R1,
    R2,
    R3,
    R4,
    R5,
    R6,
    R7,
    R8,
    R9,
    R10,
    R11,
    R12,
    R13,
    R14,
    R15,
}

impl Register {
    /// The register's number, 0 to 15.
    pub open spec fn index(self) -> int {
        match self {
            Register::R0 => 0,
            Register::R1 => 1,
            Register::R2 => 2,
            Register::R3 => 3,
            Register::R4 => 4,
            Register::R5 => 5,
            Register::R6 => 6,
            Register::R7 => 7,
            Register::R8 => 8,
            Register::R9 => 9,
            Register::R10 => 10,
            Register::R11 => 11,
            Register::R12 => 12,
            Register::R13 => 13,
            Register::R14 => 14,
            Register::R15 => 15,
        }
    }
}

/// The register numbered `n`; numbers past 15 name R15.
pub open spec fn register_of(n: u32) -> Register {
    if n == 0 {
        Register::R0
    } else if n == 1 {
        Register::R1
    } else if n == 2 {
        Register::R2
    } else if n == 3 {
        Register::R3
    } else if n == 4 {
        Register::R4
    } else if n == 5 {
        Register::R5
    } else if n == 6 {
        Register::R6
    } else if n == 7 {
        Register::R7
    } else if n == 8 {
        Register::R8
    } else if n == 9 {
        Register::R9
    } else if n == 10 {
        Register::R10
    } else if n == 11 {
        Register::R11
    } else if n == 12 {
        Register::R12
    } else if n == 13 {
        Register::R13
    } else if n == 14 {
        Register::R14
    } else {
        Register::R15
    }
}

/// The condition flags: Negative, Zero, Carry, Overflow.
#[derive(Clone, Copy, Debug, PartialEq, Eq, Structural)]
pub struct Flags {
    pub n: bool,
    pub z: bool,
    pub c: bool,
    pub v: bool,
}

/// The condition flags held in bits 31 to 28 of a status word.
pub open spec fn flags_of(cpsr: u32) -> Flags {
    Flags { n: bit(cpsr, 31), z: bit(cpsr, 30), c: bit(cpsr, 29), v: bit(cpsr, 28) }
}

/// Why a cycle did not complete. A failed cycle changes nothing.
#[derive(Clone, Copy, Debug, PartialEq, Eq, Structural)]
pub enum CycleError {
    /// The word in the decode latch does not decode.
    Decode(DecodeError),
    /// The core is in Thumb state: Thumb instructions are not implemented.
    ThumbState,
}

/// Register file, status word and the two pipeline latches.
///
/// R13, R14 and R15 serve as stack pointer, link register and program
/// counter. While an instruction executes, R15 is 8 bytes past its address.
#[derive(Clone, Copy, Debug, PartialEq, Eq)]
pub struct Cpu {
    state: CpuState,
    pub r0: u32,
    pub r1: u32,
    pub r2: u32,
    pub r3: u32,
    pub r4: u32,
    pub r5: u32,
    pub r6: u32,
    pub r7: u32,
    pub r8: u32,
    pub r9: u32,
    pub r10: u32,
    pub r11: u32,
    pub r12: u32,
    pub r13: u32,
    pub r14: u32,
    pub r15: u32,
    cpsr: u32,
    fetched: Option<u32>,
    decoded: Option<u32>,
}

impl Cpu {
    /// The sixteen registers, R0 first.
    pub closed spec fn regs(&self) -> Seq<u32> {
        seq![
            self.r0, self.r1, self.r2, self.r3, self.r4, self.r5, self.r6, self.r7,
            self.r8, self.r9, self.r10, self.r11, self.r12, self.r13, self.r14, self.r15,
        ]
    }

    /// The execution state.
    pub closed spec fn spec_state(&self) -> CpuState {
        self.state
    }

    /// The whole status word.
    pub closed spec fn spec_cpsr(&self) -> u32 {
        self.cpsr
    }

    /// The fetch latch: the word fetched on the last cycle, if any.
    pub closed spec fn spec_fetched(&self) -> Option<u32> {
        self.fetched
    }

    /// The decode latch: the word to execute on the next cycle, if any.
    pub closed spec fn spec_decoded(&self) -> Option<u32> {
        self.decoded
    }

    pub open spec fn spec_flags(&self) -> Flags {
        flags_of(self.spec_cpsr())
    }

    /// Both latches are empty: the pipeline is at reset or was just flushed.
    pub open spec fn pipeline_empty(&self) -> bool {
        self.spec_fetched() is None && self.spec_decoded() is None
    }

    /// `self` with its latches replaced.
    pub closed spec fn with_latches(self, fetched: Option<u32>, decoded: Option<u32>) -> Cpu {
        Cpu { fetched, decoded, ..self }
    }

    /// `self` with R15 replaced.
    pub closed spec fn with_pc(self, pc: u32) -> Cpu {
        Cpu { r15: pc, ..self }
    }

    /// `self` and `other` differ at most in their registers.
    pub open spec fn same_but_regs(&self, other: &Cpu) -> bool {
        &&& self.spec_state() == other.spec_state()
        &&& self.spec_cpsr() == other.spec_cpsr()
        &&& self.spec_fetched() == other.spec_fetched()
        &&& self.spec_decoded() == other.spec_decoded()
    }

    /// There are sixteen registers.
    pub proof fn lemma_regs_len(c: Cpu)
        ensures
            c.regs().len() == 16,
    {
    }

    /// A core at reset: ARM state, all registers zero, status word
    /// `INITIAL_CPSR` (condition flags clear), empty pipeline.
    pub fn new() -> (cpu: Cpu)
        ensures
            cpu.regs() == Seq::new(16, |i: int| 0u32),
            cpu.spec_state() == CpuState::Arm,
            cpu.spec_cpsr() == INITIAL_CPSR,
            cpu.spec_flags() == (Flags { n: false, z: false, c: false, v: false }),
            cpu.pipeline_empty(),
    {
        let cpu = Cpu {
            state: CpuState::Arm,
            r0: 0,
            r1: 0,
            r2: 0,
            r3: 0,
            r4: 0,
            r5: 0,
            r6: 0,
            r7: 0,
            r8: 0,
            r9: 0,
            r10: 0,
            r11: 0,
            r12: 0,
            r13: 0,
            r14: 0,
            r15: 0,
            cpsr: INITIAL_CPSR,
            fetched: None,
            decoded: None,
        };
        assert(cpu.regs() =~= Seq::new(16, |i: int| 0u32));
        assert(flags_of(0b1101_0011u32) == (Flags { n: false, z: false, c: false, v: false }))
            by (bit_vector);
        cpu
    }

    /// Empties both pipeline latches; nothing else changes.
    pub fn flush_pipeline(&mut self)
        ensures
            final(self).pipeline_empty(),
            final(self).regs() == old(self).regs(),
            final(self).spec_state() == old(self).spec_state(),
            final(self).spec_cpsr() == old(self).spec_cpsr(),
    {
        self.fetched = None;
        self.decoded = None;
    }

    /// One pipeline cycle: fetch the word at R15 into the fetch latch, move
    /// the fetch latch into the decode latch, decode and execute what the
    /// decode latch held, then advance R15 by 4 unless the instruction
    /// redirected control flow (which flushed the pipeline). In Thumb state,
    /// or where the word does not decode, the cycle fails and nothing
    /// changes.
    pub fn cycle(&mut self, mem: &mut Memory) -> (r: Result<(), CycleError>)
        ensures
            cycle_post(*old(self), *old(mem), *final(self), *final(mem), r),
    {
        proof {
            reveal(cycle_post);
        }
        if matches!(self.state, CpuState::Thumb) {
            return Err(CycleError::ThumbState);
        }
        let prev_fetched = self.fetched;
        let prev_decoded = self.decoded;
        let new_fetch = mem.get_word(self.r15);
        match prev_decoded {
            None => {
                self.fetched = Some(new_fetch);
                self.decoded = prev_fetched;
                self.r15 = self.r15.wrapping_add(4);
                Ok(())
            },
            Some(word) => {
                let instr = match Instruction::decode_arm(word) {
                    Ok(i) => i,
                    Err(e) => {
                        return Err(CycleError::Decode(e));
                    },
                };
                let ghost i = instr;
                self.fetched = Some(new_fetch);
                self.decoded = prev_fetched;
                let ghost mid = *self;
                let ghost m0 = *mem;
                let o = execute(self, mem, instr);
                assert(executes(mid, m0, i, *self, *mem, o));
                match o {
                    Outcome::Redirected => Ok(()),
                    Outcome::Continue => {
                        self.r15 = self.r15.wrapping_add(4);
                        Ok(())
                    },
                }
            },
        }
    }

    /// The value of register `reg`.
    pub fn get_register(&self, reg: Register) -> (r: u32)
        ensures
            r == self.regs()[reg.index()],
    {
        match reg {
            Register::R0 => self.r0,
            Register::R1 => self.r1,
            Register::R2 => self.r2,
            Register::R3 => self.r3,
            Register::R4 => self.r4,
            Register::R5 => self.r5,
            Register::R6 => self.r6,
            Register::R7 => self.r7,
            Register::R8 => self.r8,
            Register::R9 => self.r9,
            Register::R10 => self.r10,
            Register::R11 => self.r11,
            Register::R12 => self.r12,
            Register::R13 => self.r13,
            Register::R14 => self.r14,
            Register::R15 => self.r15,
        }
    }

    /// Writes `value` into register `reg`; nothing else changes.
    pub fn set_register(&mut self, reg: Register, value: u32)
        ensures
            final(self).regs() == old(self).regs().update(reg.index(), value),
            final(self).same_but_regs(old(self)),
    {
        match reg {
            Register::R0 => self.r0 = value,
            Register::R1 => self.r1 = value,
            Register::R2 => self.r2 = value,
            Register::R3 => self.r3 = value,
            Register::R4 => self.r4 = value,
            Register::R5 => self.r5 = value,
            Register::R6 => self.r6 = value,
            Register::R7 => self.r7 = value,
            Register::R8 => self.r8 = value,
            Register::R9 => self.r9 = value,
            Register::R10 => self.r10 = value,
            Register::R11 => self.r11 = value,
            Register::R12 => self.r12 = value,
            Register::R13 => self.r13 = value,
            Register::R14 => self.r14 = value,
            Register::R15 => self.r15 = value,
        }
        assert(self.regs() =~= old(self).regs().update(reg.index(), value));
    }

    /// The execution state.
    pub fn state(&self) -> (r: CpuState)
        ensures
            r == self.spec_state(),
    {
        self.state
    }

    /// Sets the execution state; nothing else changes.
    pub fn set_state(&mut self, state: CpuState)
        ensures
            final(self).spec_state() == state,
            final(self).regs() == old(self).regs(),
            final(self).spec_cpsr() == old(self).spec_cpsr(),
            final(self).spec_fetched() == old(self).spec_fetched(),
            final(self).spec_decoded() == old(self).spec_decoded(),
    {
        self.state = state;
    }

    /// The whole status word.
    pub fn cpsr(&self) -> (r: u32)
        ensures
            r == self.spec_cpsr(),
    {
        self.cpsr
    }

    /// The condition flags.
    pub fn flags(&self) -> (f: Flags)
        ensures
            f == self.spec_flags(),
    {
        let c = self.cpsr;
        Flags { n: (c >> 31) & 1 == 1, z: (c >> 30) & 1 == 1, c: (c >> 29) & 1 == 1, v: (c >> 28) & 1 == 1 }
    }

    /// Sets the condition flags; the other status bits and everything else
    /// stay as they were.
    pub fn set_flags(&mut self, f: Flags)
        ensures
            final(self).spec_flags() == f,
            final(self).spec_cpsr() & CONTROL_MASK == old(self).spec_cpsr() & CONTROL_MASK,
            final(self).regs() == old(self).regs(),
            final(self).spec_state() == old(self).spec_state(),
            final(self).spec_fetched() == old(self).spec_fetched(),
            final(self).spec_decoded() == old(self).spec_decoded(),
    {
        let n: u32 = if f.n { 1 } else { 0 };
        let z: u32 = if f.z { 1 } else { 0 };
        let c: u32 = if f.c { 1 } else { 0 };
        let v: u32 = if f.v { 1 } else { 0 };
        let old_cpsr = self.cpsr;
        let new_cpsr = (old_cpsr & CONTROL_MASK) | (n << 31) | (z << 30) | (c << 29) | (v << 28);
        assert(((new_cpsr >> 31) & 1 == 1) == (n == 1) && ((new_cpsr >> 30) & 1 == 1) == (z == 1)
            && ((new_cpsr >> 29) & 1 == 1) == (c == 1) && ((new_cpsr >> 28) & 1 == 1) == (v == 1)
            && new_cpsr & 0x0FFF_FFFF == old_cpsr & 0x0FFF_FFFF) by (bit_vector)
            requires
                n <= 1,
                z <= 1,
                c <= 1,
                v <= 1,
                new_cpsr == (old_cpsr & 0x0FFF_FFFF) | (n << 31) | (z << 30) | (c << 29) | (v << 28),
        ;
        self.cpsr = new_cpsr;
    }
}

/// After a flush the pipeline refills for two cycles before it executes
/// again: from an empty pipeline in ARM state (as every redirection leaves
/// it, see `lemma_redirect_flushes`), the next two cycles succeed
/// and only fetch, each advancing R15 by 4 and leaving memory and everything
/// else as it was; after them the word first fetched waits in the decode
/// latch, to be executed by the third cycle.
pub proof fn lemma_refill_after_flush(
    c0: Cpu,
    m0: Memory,
    c1: Cpu,
    m1: Memory,
    r1: Result<(), CycleError>,
    c2: Cpu,
    m2: Memory,
    r2: Result<(), CycleError>,
)
    requires
        c0.pipeline_empty(),
        c0.spec_state() == CpuState::Arm,
        cycle_post(c0, m0, c1, m1, r1),
        cycle_post(c1, m1, c2, m2, r2),
    ensures
        r1 is Ok,
        r2 is Ok,
        m1 == m0 && m2 == m0,
        c1.regs() == c0.regs().update(15, wrap(c0.regs()[15] + 4)),
        c2.regs() == c1.regs().update(15, wrap(c1.regs()[15] + 4)),
        c1.spec_cpsr() == c0.spec_cpsr() && c2.spec_cpsr() == c0.spec_cpsr(),
        c1.spec_state() == CpuState::Arm && c2.spec_state() == CpuState::Arm,
        c1.spec_decoded() is None,
        c2.spec_decoded() == Some(m0.word_at(c0.regs()[15])),
        c2.spec_fetched() == Some(m0.word_at(c1.regs()[15])),
{
    reveal(cycle_post);
    assert(c1.regs() =~= c0.regs().update(15, wrap(c0.regs()[15] + 4)));
    assert(c2.regs() =~= c1.regs().update(15, wrap(c1.regs()[15] + 4)));
}

/// An offset branch fetched at `pc` into an empty pipeline executes on the
/// third cycle, with R15 = `pc + 8`: it lands at `pc + 8 + 4k`, `k` its
/// signed word offset, and a linking one leaves `pc + 4`, the address after
/// it, in R14. The pipeline is then empty again.
pub proof fn lemma_branch_from_fetch(
    c0: Cpu,
    m0: Memory,
    c1: Cpu,
    m1: Memory,
    r1: Result<(), CycleError>,
    c2: Cpu,
    m2: Memory,
    r2: Result<(), CycleError>,
    c3: Cpu,
    m3: Memory,
    r3: Result<(), CycleError>,
    offset: u32,
    link: bool,
)
    requires
        c0.pipeline_empty(),
        c0.spec_state() == CpuState::Arm,
        cycle_post(c0, m0, c1, m1, r1),
        cycle_post(c1, m1, c2, m2, r2),
        cycle_post(c2, m2, c3, m3, r3),
        decodes(
            m0.word_at(c0.regs()[15]),
            Ok(
                Instruction {
                    condition: Condition::Always,
                    instruction: InstructionOp::Branch { branch: Branch::Offset { offset, link } },
                },
            ),
        ),
    ensures
        r3 is Ok,
        m3 == m0,
        c3.regs()[15] == wrap(c0.regs()[15] + 8 + 4 * sext24(offset & 0xFF_FFFF)),
        c3.regs()[14] == if link {
            wrap(c0.regs()[15] + 4)
        } else {
            c0.regs()[14]
        },
        c3.pipeline_empty(),
{
    let pc = c0.regs()[15];
    let k = sext24(offset & 0xFF_FFFF);
    lemma_refill_after_flush(c0, m0, c1, m1, r1, c2, m2, r2);
    lemma_offset_branch_cycle(c2, m2, c3, m3, r3, offset, link);
    lemma_wrap_add(pc + 4, 4);
    lemma_wrap_add(pc + 8, 4 * k);
    lemma_wrap_add(pc + 8, -4);
    assert(c2.regs()[14] == c0.regs()[14]);
}

/// A cycle that finds an unconditional offset branch in the decode latch
/// takes it, as `lemma_offset_branch_executes` says.
proof fn lemma_offset_branch_cycle(
    c2: Cpu,
    m2: Memory,
    c3: Cpu,
    m3: Memory,
    r3: Result<(), CycleError>,
    offset: u32,
    link: bool,
)
    requires
        c2.spec_state() == CpuState::Arm,
        c2.spec_decoded() is Some,
        cycle_post(c2, m2, c3, m3, r3),
        decodes(
            c2.spec_decoded()->Some_0,
            Ok(
                Instruction {
                    condition: Condition::Always,
                    instruction: InstructionOp::Branch { branch: Branch::Offset { offset, link } },
                },
            ),
        ),
    ensures
        r3 is Ok,
        m3 == m2,
        c3.regs()[15] == wrap(c2.regs()[15] + 4 * sext24(offset & 0xFF_FFFF)),
        c3.regs()[14] == if link {
            wrap(c2.regs()[15] - 4)
        } else {
            c2.regs()[14]
        },
        c3.pipeline_empty(),
{
    reveal(cycle_post);
    let w = c2.spec_decoded()->Some_0;
    let b = Instruction {
        condition: Condition::Always,
        instruction: InstructionOp::Branch { branch: Branch::Offset { offset, link } },
    };
    let mid = c2.with_latches(Some(m2.word_at(c2.regs()[15])), c2.spec_fetched());
    assert(mid.regs() == c2.regs());
    match r3 {
        Err(CycleError::Decode(e)) => {
            lemma_decode_deterministic(w, Ok(b), Err(e));
        },
        Err(CycleError::ThumbState) => {},
        Ok(_) => {
            let (i, after, o) = choose|i: Instruction, after: Cpu, o: Outcome|
                {
                    &&& decodes(w, Ok(i))
                    &&& #[trigger] executes(mid, m2, i, after, m3, o)
                    &&& c3 == if o == Outcome::Redirected {
                        after
                    } else {
                        after.with_pc(wrap(after.regs()[15] + 4))
                    }
                };
            lemma_decode_deterministic(w, Ok(b), Ok(i));
            assert(i == b);
            lemma_offset_branch_executes(mid, m2, offset, link, after, m3, o);
        },
    }
}

/// `c1`, `m1` and `r` are what one cycle of `c0` over memory `m0` gives; see
/// `Cpu::cycle`.
#[verifier::opaque]
pub open spec fn cycle_post(
    c0: Cpu,
    m0: Memory,
    c1: Cpu,
    m1: Memory,
    r: Result<(), CycleError>,
) -> bool {
    let pc = c0.regs()[15];
    let mid = c0.with_latches(Some(m0.word_at(pc)), c0.spec_fetched());
    if c0.spec_state() == CpuState::Thumb {
        c1 == c0 && m1 == m0 && r == Err::<(), CycleError>(CycleError::ThumbState)
    } else {
        match c0.spec_decoded() {
            None => r == Ok::<(), CycleError>(()) && c1 == mid.with_pc(wrap(pc + 4)) && m1 == m0,
            Some(w) => match r {
                Err(CycleError::Decode(e)) => decodes(w, Err(e)) && c1 == c0 && m1 == m0,
                Err(CycleError::ThumbState) => false,
                Ok(_) => exists|i: Instruction, after: Cpu, o: Outcome|
                    {
                        &&& decodes(w, Ok(i))
                        &&& #[trigger] executes(mid, m0, i, after, m1, o)
                        &&& c1 == if o == Outcome::Redirected {
                            after
                        } else {
                            after.with_pc(wrap(after.regs()[15] + 4))
                        }
                    },
            },
        }
    }
}

} // verus!
