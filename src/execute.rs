use vstd::prelude::*;

use crate::bits::{bit, lemma_wrap_add, lemma_wrap_sub, lemma_wrapping_ops, signed, test_bit, wrap};
use crate::cpu::{register_of, Cpu, CpuState, Flags, Register, CONTROL_MASK};
use crate::instruction::{
    read_register, Branch, Condition, DataProcessingOpCode, Instruction, InstructionOp, Offset,
    Operand,
};
use crate::memory::{byte_stored, word_stored, Memory};

verus! {

/// What executing an instruction did to control flow.
#[derive(Clone, Copy, Debug, PartialEq, Eq, Structural)]
pub enum Outcome {
    /// Execution goes on with the next instruction.
    Continue,
    /// R15 was written and the pipeline flushed.
    Redirected,
}

/// Whether condition `c` holds against the flags `f`.
pub open spec fn condition_holds(c: Condition, f: Flags) -> bool {
    match c {
        Condition::Equal => f.z,
        Condition::NotEqual => !f.z,
        Condition::UnsignedGe => f.c,
        Condition::UnsignedLt => !f.c,
        Condition::Negative => f.n,
        Condition::Positive => !f.n,
        Condition::Overflow => f.v,
        Condition::NoOverflow => !f.v,
        Condition::UnsignedGt => f.c && !f.z,
        Condition::UnsignedLe => !f.c || f.z,
        Condition::Ge => f.n == f.v,
        Condition::Lt => f.n != f.v,
        Condition::Gt => !f.z && f.n == f.v,
        Condition::Le => f.z || f.n != f.v,
        Condition::Always => true,
    }
}

/// A 24-bit two's complement field as an integer.
pub open spec fn sext24(x: u32) -> int {
    if x >= 0x80_0000 {
        x - 0x100_0000
    } else {
        x as int
    }
}

/// `x` rotated right by `n` bits, for `n` below 32.
pub open spec fn ror(x: u32, n: u32) -> u32 {
    if n == 0 {
        x
    } else {
        (x >> n) | (x << (32 - n) as u32)
    }
}

/// `x` shifted right by `n` bits, copies of bit 31 shifted in.
pub open spec fn asr(x: u32, n: u32) -> u32 {
    if bit(x, 31) {
        !((!x) >> n)
    } else {
        x >> n
    }
}

/// An immediate second operand and the shifter's carry-out: `value` rotated
/// right by twice `rotate` (mod 32); the carry is bit 31 of the result, or
/// `c` where nothing rotates.
pub open spec fn immediate_operand_of(rotate: u8, value: u8, c: bool) -> (u32, bool) {
    let amount = ((2 * rotate) % 32) as u32;
    let v = ror(value as u32, amount);
    (v, if amount == 0 { c } else { bit(v, 31) })
}

/// The barrel shifter with an amount from the instruction: shift `kind` 0 to
/// 3 is LSL, LSR, ASR, ROR. An amount of 0 means LSL #0 (no shift), LSR #32,
/// ASR #32 and RRX (rotate right by one through the carry).
pub open spec fn shift_by_immediate_of(rm: u32, kind: u32, amount: u32, c: bool) -> (u32, bool) {
    if kind == 0 {
        if amount == 0 {
            (rm, c)
        } else {
            (rm << amount, bit(rm, (32 - amount) as u32))
        }
    } else if kind == 1 {
        if amount == 0 {
            (0, bit(rm, 31))
        } else {
            (rm >> amount, bit(rm, (amount - 1) as u32))
        }
    } else if kind == 2 {
        if amount == 0 {
            (if bit(rm, 31) { 0xFFFF_FFFFu32 } else { 0u32 }, bit(rm, 31))
        } else {
            (asr(rm, amount), bit(rm, (amount - 1) as u32))
        }
    } else {
        if amount == 0 {
            ((if c { 0x8000_0000u32 } else { 0u32 }) | (rm >> 1), bit(rm, 0))
        } else {
            (ror(rm, amount), bit(rm, (amount - 1) as u32))
        }
    }
}

/// The barrel shifter with an amount from a register's low byte: 0 leaves
/// `rm` and the carry as they are; amounts of 32 and more shift everything
/// out (LSL, LSR) or fill with bit 31 (ASR); ROR takes the amount mod 32.
pub open spec fn shift_by_register_of(rm: u32, kind: u32, amount: u32, c: bool) -> (u32, bool) {
    if amount == 0 {
        (rm, c)
    } else if kind == 0 {
        if amount < 32 {
            (rm << amount, bit(rm, (32 - amount) as u32))
        } else if amount == 32 {
            (0, bit(rm, 0))
        } else {
            (0, false)
        }
    } else if kind == 1 {
        if amount < 32 {
            (rm >> amount, bit(rm, (amount - 1) as u32))
        } else if amount == 32 {
            (0, bit(rm, 31))
        } else {
            (0, false)
        }
    } else if kind == 2 {
        if amount < 32 {
            (asr(rm, amount), bit(rm, (amount - 1) as u32))
        } else {
            (if bit(rm, 31) { 0xFFFF_FFFFu32 } else { 0u32 }, bit(rm, 31))
        }
    } else {
        let r = amount % 32;
        if r == 0 {
            (rm, bit(rm, 31))
        } else {
            (ror(rm, r), bit(rm, (r - 1) as u32))
        }
    }
}

/// The second operand of a data-processing instruction in state `cpu`, with
/// the shifter's carry-out. A register operand's shift descriptor holds, from
/// bit 0: the shift-by-register flag, the shift kind (2 bits), then either a
/// 5-bit amount or, above a clear bit, the number of the amount register.
pub open spec fn operand2_of(cpu: Cpu, op: Operand) -> (u32, bool) {
    let c = cpu.spec_flags().c;
    match op {
        Operand::Immediate { rotate, value } => immediate_operand_of(rotate, value, c),
        Operand::Register { shift, register } => {
            let s = shift as u32;
            let rm = cpu.regs()[register.index()];
            let kind = (s >> 1) & 3;
            if s & 1 == 1 {
                shift_by_register_of(rm, kind, cpu.regs()[register_of(s >> 4).index()] & 0xFF, c)
            } else {
                shift_by_immediate_of(rm, kind, s >> 3, c)
            }
        },
    }
}

/// `a + b + cin` on 32-bit words: the result, the carry out of bit 31, and
/// whether the signed sum overflowed.
pub open spec fn add_with_carry_of(a: u32, b: u32, cin: bool) -> (u32, bool, bool) {
    let ci: int = if cin { 1 } else { 0 };
    let u = a + b + ci;
    let v = wrap(u);
    (v, u >= 0x1_0000_0000, signed(a) + signed(b) + ci != signed(v))
}

/// Result and flags of a logical operation: N and Z from the result, C from
/// the shifter, V kept.
pub open spec fn logical_of(v: u32, shifter_carry: bool, f: Flags) -> (u32, Flags) {
    (v, Flags { n: bit(v, 31), z: v == 0, c: shifter_carry, v: f.v })
}

/// Result and flags of an arithmetic operation: N and Z from the result, C
/// and V from the adder.
pub open spec fn arithmetic_of(s: (u32, bool, bool)) -> (u32, Flags) {
    (s.0, Flags { n: bit(s.0, 31), z: s.0 == 0, c: s.1, v: s.2 })
}

/// The value and the flags that operation `opcode` gives on operands `a` and
/// `b`, with shifter carry-out `sc` and current flags `f`. Subtraction adds
/// the complement with a carry in of 1 (or C, for the carrying forms).
pub open spec fn alu_of(opcode: DataProcessingOpCode, a: u32, b: u32, sc: bool, f: Flags) -> (
    u32,
    Flags,
) {
    match opcode {
        DataProcessingOpCode::And => logical_of(a & b, sc, f),
        DataProcessingOpCode::Eor => logical_of(a ^ b, sc, f),
        DataProcessingOpCode::Sub => arithmetic_of(add_with_carry_of(a, !b, true)),
        DataProcessingOpCode::Rsb => arithmetic_of(add_with_carry_of(b, !a, true)),
        DataProcessingOpCode::Add => arithmetic_of(add_with_carry_of(a, b, false)),
        DataProcessingOpCode::Adc => arithmetic_of(add_with_carry_of(a, b, f.c)),
        DataProcessingOpCode::Sbc => arithmetic_of(add_with_carry_of(a, !b, f.c)),
        DataProcessingOpCode::Rsc => arithmetic_of(add_with_carry_of(b, !a, f.c)),
        DataProcessingOpCode::Tst => logical_of(a & b, sc, f),
        DataProcessingOpCode::Teq => logical_of(a ^ b, sc, f),
        DataProcessingOpCode::Cmp => arithmetic_of(add_with_carry_of(a, !b, true)),
        DataProcessingOpCode::Cmn => arithmetic_of(add_with_carry_of(a, b, false)),
        DataProcessingOpCode::Orr => logical_of(a | b, sc, f),
        DataProcessingOpCode::Mov => logical_of(b, sc, f),
        DataProcessingOpCode::Bic => logical_of(a & !b, sc, f),
        DataProcessingOpCode::Mvn => logical_of(!b, sc, f),
    }
}

/// All operations but the compares and tests write their result.
pub open spec fn writes_result(opcode: DataProcessingOpCode) -> bool {
    !(opcode is Tst || opcode is Teq || opcode is Cmp || opcode is Cmn)
}

/// From `c0` to `c1`, register `dest` received `v`: a write of R15 flushes
/// the pipeline and redirects; any other write keeps the latches.
pub open spec fn register_written(c0: Cpu, c1: Cpu, dest: Register, v: u32, o: Outcome) -> bool {
    &&& c1.regs() == c0.regs().update(dest.index(), v)
    &&& c1.spec_state() == c0.spec_state()
    &&& if dest == Register::R15 {
        c1.pipeline_empty() && o == Outcome::Redirected
    } else {
        c1.spec_fetched() == c0.spec_fetched() && c1.spec_decoded() == c0.spec_decoded() && o
            == Outcome::Continue
    }
}

/// The flags of `c1` are `f` where `alter` is set and those of `c0`
/// otherwise; the other status bits are kept.
pub open spec fn flags_updated(c0: Cpu, c1: Cpu, alter: bool, f: Flags) -> bool {
    &&& c1.spec_flags() == if alter { f } else { c0.spec_flags() }
    &&& c1.spec_cpsr() & CONTROL_MASK == c0.spec_cpsr() & CONTROL_MASK
    &&& !alter ==> c1.spec_cpsr() == c0.spec_cpsr()
}

/// The offset of a single data transfer: the immediate, or the register
/// shifted by an amount from the instruction.
pub open spec fn transfer_offset_of(cpu: Cpu, offset: Offset) -> u32 {
    match offset {
        Offset::Immediate { offset } => offset as u32,
        Offset::Register { shift, register } => {
            let s = shift as u32;
            shift_by_immediate_of(
                cpu.regs()[register.index()],
                (s >> 1) & 3,
                s >> 3,
                cpu.spec_flags().c,
            ).0
        },
    }
}

/// What a word load from `addr` gives: the aligned word that holds `addr`,
/// rotated right so that the byte at `addr` comes lowest.
pub open spec fn loaded_word(m: Memory, addr: u32) -> u32 {
    ror(m.word_at(addr & 0xFFFF_FFFC), (8 * (addr & 3)) as u32)
}

/// What a load from `addr` gives: a zero-extended byte, or a word.
pub open spec fn loaded(m: Memory, addr: u32, byte: bool) -> u32 {
    if byte {
        m.byte_at(addr) as u32
    } else {
        loaded_word(m, addr)
    }
}

/// `m1` is `m0` after a store of `v` at `addr`: its low byte, or the word.
pub open spec fn stored(m0: Memory, m1: Memory, addr: u32, v: u32, byte: bool) -> bool {
    if byte {
        byte_stored(m0, m1, addr, v as u8)
    } else {
        word_stored(m0, m1, addr, v)
    }
}

/// From `c0` to `c1` the registers became `regs`, status and state were
/// kept, and the pipeline was flushed exactly where R15 was written.
pub open spec fn registers_replaced(
    c0: Cpu,
    c1: Cpu,
    regs: Seq<u32>,
    pc_written: bool,
    o: Outcome,
) -> bool {
    &&& c1.regs() == regs
    &&& c1.spec_cpsr() == c0.spec_cpsr()
    &&& c1.spec_state() == c0.spec_state()
    &&& if pc_written {
        c1.pipeline_empty() && o == Outcome::Redirected
    } else {
        c1.spec_fetched() == c0.spec_fetched() && c1.spec_decoded() == c0.spec_decoded() && o
            == Outcome::Continue
    }
}

/// A single data transfer from state `c0` and memory `m0`. The address is
/// the base register moved by the offset (up or down) where the transfer is
/// pre-indexed, else the base itself; the moved address is written back to
/// the base where asked and always after a post-indexed transfer. A load
/// writes its register after the write-back.
pub open spec fn single_data_transfer_executes(
    c0: Cpu,
    m0: Memory,
    base: Register,
    source_dest: Register,
    load: bool,
    write_back: bool,
    write_byte: bool,
    add_offset: bool,
    pre_index: bool,
    offset: Offset,
    c1: Cpu,
    m1: Memory,
    o: Outcome,
) -> bool {
    let b = c0.regs()[base.index()];
    let off = transfer_offset_of(c0, offset);
    let moved = if add_offset {
        wrap(b + off)
    } else {
        wrap(b - off)
    };
    let addr = if pre_index {
        moved
    } else {
        b
    };
    let wb = write_back || !pre_index;
    let regs = if wb {
        c0.regs().update(base.index(), moved)
    } else {
        c0.regs()
    };
    let pc_written = (wb && base == Register::R15) || (load && source_dest == Register::R15);
    &&& if load {
        m1 == m0
    } else {
        stored(m0, m1, addr, c0.regs()[source_dest.index()], write_byte)
    }
    &&& registers_replaced(
        c0,
        c1,
        if load {
            regs.update(source_dest.index(), loaded(m0, addr, write_byte))
        } else {
            regs
        },
        pc_written,
        o,
    )
}

/// A swap from state `c0` and memory `m0`: the register `dest` receives what
/// was loaded from the address in `base`, and the value of `source` is
/// stored there.
pub open spec fn swap_executes(
    c0: Cpu,
    m0: Memory,
    source: Register,
    dest: Register,
    base: Register,
    byte: bool,
    c1: Cpu,
    m1: Memory,
    o: Outcome,
) -> bool {
    let addr = c0.regs()[base.index()];
    &&& stored(m0, m1, addr, c0.regs()[source.index()], byte)
    &&& registers_replaced(
        c0,
        c1,
        c0.regs().update(dest.index(), loaded(m0, addr, byte)),
        dest == Register::R15,
        o,
    )
}

/// The 64-bit result of a long multiply in state `c0`: the product of the
/// operands, read as signed or unsigned, plus the 64-bit accumulator held
/// in the destination pair where asked, reduced mod 2^64.
pub open spec fn long_product_of(
    c0: Cpu,
    dest_high: Register,
    dest_low: Register,
    operand1: Register,
    operand2: Register,
    accumulate: bool,
    signed_operands: bool,
) -> int {
    let a = c0.regs()[operand1.index()];
    let b = c0.regs()[operand2.index()];
    let product: int = if signed_operands {
        signed(a) * signed(b)
    } else {
        a * b
    };
    let acc: int = if accumulate {
        c0.regs()[dest_high.index()] * 0x1_0000_0000 + c0.regs()[dest_low.index()]
    } else {
        0
    };
    (product + acc) % 0x1_0000_0000_0000_0000
}

/// A long multiply: the low word of the result goes to `dest_low`, then the
/// high word to `dest_high`; N and Z come from the 64-bit result where asked.
pub open spec fn multiply_long_executes(
    c0: Cpu,
    dest_high: Register,
    dest_low: Register,
    operand1: Register,
    operand2: Register,
    accumulate: bool,
    signed_operands: bool,
    alter_condition: bool,
    c1: Cpu,
    o: Outcome,
) -> bool {
    let r = long_product_of(
        c0,
        dest_high,
        dest_low,
        operand1,
        operand2,
        accumulate,
        signed_operands,
    );
    let lo = (r % 0x1_0000_0000) as u32;
    let hi = (r / 0x1_0000_0000) as u32;
    let f = Flags { n: bit(hi, 31), z: r == 0, c: c0.spec_flags().c, v: c0.spec_flags().v };
    &&& c1.regs() == c0.regs().update(dest_low.index(), lo).update(dest_high.index(), hi)
    &&& flags_updated(c0, c1, alter_condition, f)
    &&& c1.spec_state() == c0.spec_state()
    &&& if dest_high == Register::R15 || dest_low == Register::R15 {
        c1.pipeline_empty() && o == Outcome::Redirected
    } else {
        c1.spec_fetched() == c0.spec_fetched() && c1.spec_decoded() == c0.spec_decoded() && o
            == Outcome::Continue
    }
}

/// The address of the `i`-th word of a block transfer whose lowest word is
/// at `start`.
pub open spec fn block_address(start: u32, i: int) -> u32 {
    wrap(start + 4 * i)
}

/// The lowest address of a block transfer of `n` words from base `b`:
/// incrementing after or before, or decrementing after or before.
pub open spec fn block_start(b: u32, n: int, add_offset: bool, pre_index: bool) -> u32 {
    if add_offset {
        if pre_index {
            wrap(b + 4)
        } else {
            b
        }
    } else {
        if pre_index {
            wrap(b - 4 * n)
        } else {
            wrap(b - 4 * n + 4)
        }
    }
}

/// `regs` after the first `k` registers of `list` were loaded, in order,
/// from consecutive words of `m` from `start` on.
pub open spec fn regs_after_loads(
    regs: Seq<u32>,
    list: Seq<Register>,
    m: Memory,
    start: u32,
    k: nat,
) -> Seq<u32>
    decreases k,
{
    if k == 0 {
        regs
    } else {
        regs_after_loads(regs, list, m, start, (k - 1) as nat).update(
            list[k - 1].index(),
            loaded_word(m, block_address(start, k - 1)),
        )
    }
}

/// `m1` is `m0` after `values` were stored, in order, as consecutive words
/// from `start` on: there is a chain of memories, one word store apart.
pub open spec fn stores_in_order(m0: Memory, m1: Memory, start: u32, values: Seq<u32>) -> bool {
    exists|ms: Seq<Memory>|
        {
            &&& ms.len() == values.len() + 1
            &&& ms[0] == m0
            &&& ms.last() == m1
            &&& forall|j: int|
                0 <= j < values.len() ==> word_stored(
                    #[trigger] ms[j],
                    ms[j + 1],
                    block_address(start, j),
                    values[j],
                )
        }
}

/// A block data transfer from state `c0` and memory `m0`: the registers of
/// `list` go to or come from consecutive words, the first at the lowest
/// address. Stores take the registers' values from before the instruction;
/// the base is written back, where asked, before loads, so a loaded base
/// keeps its loaded value. The status word has no banked copies here, so the
/// force-mode flag changes nothing.
pub open spec fn block_data_transfer_executes(
    c0: Cpu,
    m0: Memory,
    base: Register,
    load: bool,
    write_back: bool,
    add_offset: bool,
    pre_index: bool,
    list: Seq<Register>,
    c1: Cpu,
    m1: Memory,
    o: Outcome,
) -> bool {
    let n = list.len() as int;
    let b = c0.regs()[base.index()];
    let start = block_start(b, n, add_offset, pre_index);
    let moved = if add_offset {
        wrap(b + 4 * n)
    } else {
        wrap(b - 4 * n)
    };
    let regs = if write_back {
        c0.regs().update(base.index(), moved)
    } else {
        c0.regs()
    };
    let pc_written = (write_back && base == Register::R15) || (load && list.contains(
        Register::R15,
    ));
    &&& if load {
        m1 == m0
    } else {
        stores_in_order(m0, m1, start, list.map_values(|r: Register| c0.regs()[r.index()]))
    }
    &&& registers_replaced(
        c0,
        c1,
        if load {
            regs_after_loads(regs, list, m0, start, list.len())
        } else {
            regs
        },
        pc_written,
        o,
    )
}

/// Executing `i` in state `c0` leads to state `c1` with outcome `o`. While
/// an instruction executes, R15 holds its address plus 8.
#[verifier::opaque]
pub open spec fn executes(c0: Cpu, m0: Memory, i: Instruction, c1: Cpu, m1: Memory, o: Outcome) -> bool {
    if !condition_holds(i.condition, c0.spec_flags()) {
        c1 == c0 && m1 == m0 && o == Outcome::Continue
    } else {
        match i.instruction {
            InstructionOp::SingleDataTransfer {
                base,
                source_dest,
                load,
                write_back,
                write_byte,
                add_offset,
                pre_index,
                offset,
            } => single_data_transfer_executes(
                c0,
                m0,
                base,
                source_dest,
                load,
                write_back,
                write_byte,
                add_offset,
                pre_index,
                offset,
                c1,
                m1,
                o,
            ),
            InstructionOp::MultiplyLong {
                dest_high,
                dest_low,
                operand1,
                operand2,
                accumulate,
                signed,
                alter_condition,
            } => m1 == m0 && multiply_long_executes(
                c0,
                dest_high,
                dest_low,
                operand1,
                operand2,
                accumulate,
                signed,
                alter_condition,
                c1,
                o,
            ),
            InstructionOp::BlockDataTransfer {
                base,
                load,
                write_back,
                force_psr,
                add_offset,
                pre_index,
                register_list,
            } => block_data_transfer_executes(
                c0,
                m0,
                base,
                load,
                write_back,
                add_offset,
                pre_index,
                register_list@,
                c1,
                m1,
                o,
            ),
            InstructionOp::Swap { source, dest, base, byte } => swap_executes(
                c0,
                m0,
                source,
                dest,
                base,
                byte,
                c1,
                m1,
                o,
            ),
            InstructionOp::DataProcessing { opcode, dest, operand1, operand2, alter_condition } => {
                let (b, sc) = operand2_of(c0, operand2);
                let (v, f) = alu_of(opcode, c0.regs()[operand1.index()], b, sc, c0.spec_flags());
                &&& m1 == m0
                &&& flags_updated(c0, c1, alter_condition, f)
                &&& if writes_result(opcode) {
                    register_written(c0, c1, dest, v, o)
                } else {
                    &&& c1.regs() == c0.regs()
                    &&& c1.spec_state() == c0.spec_state()
                    &&& c1.spec_fetched() == c0.spec_fetched()
                    &&& c1.spec_decoded() == c0.spec_decoded()
                    &&& o == Outcome::Continue
                }
            },
            InstructionOp::Multiply {
                dest,
                operand1,
                operand2,
                accumulate,
                acc_operand,
                alter_condition,
            } => {
                let acc: int = if accumulate {
                    c0.regs()[acc_operand.index()] as int
                } else {
                    0
                };
                let v = wrap(c0.regs()[operand1.index()] * c0.regs()[operand2.index()] + acc);
                let f = Flags { n: bit(v, 31), z: v == 0, c: c0.spec_flags().c, v: c0.spec_flags().v };
                &&& m1 == m0
                &&& flags_updated(c0, c1, alter_condition, f)
                &&& register_written(c0, c1, dest, v, o)
            },
            InstructionOp::Branch { branch: Branch::Offset { offset, link } } => {
                let pc = c0.regs()[15];
                let regs = if link {
                    c0.regs().update(14, wrap(pc - 4))
                } else {
                    c0.regs()
                };
                &&& m1 == m0
                &&& c1.regs() == regs.update(15, wrap(pc + 4 * sext24(offset & 0xFF_FFFF)))
                &&& c1.spec_cpsr() == c0.spec_cpsr()
                &&& c1.spec_state() == c0.spec_state()
                &&& c1.pipeline_empty()
                &&& o == Outcome::Redirected
            },
            InstructionOp::Branch { branch: Branch::Exchange { register } } => {
                let target = c0.regs()[register.index()];
                &&& m1 == m0
                &&& c1.regs() == c0.regs().update(15, target & 0xFFFF_FFFE)
                &&& c1.spec_cpsr() == c0.spec_cpsr()
                &&& c1.spec_state() == if bit(target, 0) {
                    CpuState::Thumb
                } else {
                    CpuState::Arm
                }
                &&& c1.pipeline_empty()
                &&& o == Outcome::Redirected
            },
        }
    }
}

/// The immediate operand is `value` rotated right by twice `rotate`: bit `i`
/// of it is bit `(i + 2 * rotate) % 32` of `value`.
pub proof fn lemma_immediate_rotate(rotate: u8, value: u8, c: bool)
    requires
        rotate < 16,
    ensures
        forall|i: u32|
            i < 32 ==> #[trigger] bit(immediate_operand_of(rotate, value, c).0, i) == bit(
                value as u32,
                ((i + 2 * rotate) % 32) as u32,
            ),
{
    let n = (2 * rotate) as u32;
    let x = value as u32;
    assert((2 * rotate) % 32 == n);
    assert forall|i: u32| i < 32 implies #[trigger] bit(ror(x, n), i) == bit(
        x,
        ((i + 2 * rotate) % 32) as u32,
    ) by {
        let j = ((i + 2 * rotate) % 32) as u32;
        assert(j == (i + n) % 32);
        if n == 0 {
            assert(((x >> i) & 1 == 1) == ((x >> ((i + n) % 32) as u32) & 1 == 1)) by (bit_vector)
                requires
                    i < 32,
                    n == 0,
            ;
        } else {
            assert(((((x >> n) | (x << (32 - n) as u32)) >> i) & 1 == 1) == ((x >> ((i + n)
                % 32) as u32) & 1 == 1)) by (bit_vector)
                requires
                    i < 32,
                    0 < n < 32,
            ;
        }
    }
}

/// Every redirection of control flow leaves both pipeline latches empty,
/// whatever the instruction.
pub proof fn lemma_redirect_flushes(
    c0: Cpu,
    m0: Memory,
    i: Instruction,
    c1: Cpu,
    m1: Memory,
    o: Outcome,
)
    requires
        executes(c0, m0, i, c1, m1, o),
        o == Outcome::Redirected,
    ensures
        c1.pipeline_empty(),
{
    reveal(executes);
}

/// An unconditional offset branch sets R15 to `R15 + 4k` (`k` its signed
/// word offset), saves `R15 - 4` in R14 when linking, and flushes.
pub proof fn lemma_offset_branch_executes(
    c0: Cpu,
    m0: Memory,
    offset: u32,
    link: bool,
    c1: Cpu,
    m1: Memory,
    o: Outcome,
)
    requires
        executes(
            c0,
            m0,
            Instruction {
                condition: Condition::Always,
                instruction: InstructionOp::Branch { branch: Branch::Offset { offset, link } },
            },
            c1,
            m1,
            o,
        ),
    ensures
        o == Outcome::Redirected,
        m1 == m0,
        c1.regs()[15] == wrap(c0.regs()[15] + 4 * sext24(offset & 0xFF_FFFF)),
        c1.regs()[14] == if link {
            wrap(c0.regs()[15] - 4)
        } else {
            c0.regs()[14]
        },
        c1.pipeline_empty(),
        c1.spec_cpsr() == c0.spec_cpsr(),
        c1.spec_state() == c0.spec_state(),
{
    reveal(executes);
    Cpu::lemma_regs_len(c0);
}

/// Sign-extends a 24-bit two's complement field.
pub fn sign_extend_24(num: u32) -> (r: i32)
    requires
        num < 0x100_0000,
    ensures
        r as int == sext24(num),
{
    if num >= 0x80_0000 {
        (num as i32) - 0x100_0000
    } else {
        num as i32
    }
}

/// Whether condition `c` holds against the flags `f`.
pub fn condition_passes(c: Condition, f: Flags) -> (r: bool)
    ensures
        r == condition_holds(c, f),
{
    match c {
        Condition::Equal => f.z,
        Condition::NotEqual => !f.z,
        Condition::UnsignedGe => f.c,
        Condition::UnsignedLt => !f.c,
        Condition::Negative => f.n,
        Condition::Positive => !f.n,
        Condition::Overflow => f.v,
        Condition::NoOverflow => !f.v,
        Condition::UnsignedGt => f.c && !f.z,
        Condition::UnsignedLe => !f.c || f.z,
        Condition::Ge => f.n == f.v,
        Condition::Lt => f.n != f.v,
        Condition::Gt => !f.z && f.n == f.v,
        Condition::Le => f.z || f.n != f.v,
        Condition::Always => true,
    }
}

/// `value` rotated right by twice `rotate` (mod 32), and the shifter's
/// carry-out.
pub fn immediate_operand(rotate: u8, value: u8, c: bool) -> (r: (u32, bool))
    ensures
        r == immediate_operand_of(rotate, value, c),
{
    let amount: u32 = (rotate as u32 * 2) % 32;
    let x = value as u32;
    let v = if amount == 0 {
        x
    } else {
        (x >> amount) | (x << (32 - amount))
    };
    (v, if amount == 0 { c } else { (v >> 31) & 1 == 1 })
}

fn shift_by_immediate(rm: u32, kind: u32, amount: u32, c: bool) -> (r: (u32, bool))
    requires
        amount < 32,
    ensures
        r == shift_by_immediate_of(rm, kind, amount, c),
{
    if kind == 0 {
        if amount == 0 {
            (rm, c)
        } else {
            (rm << amount, test_bit(rm, 32 - amount))
        }
    } else if kind == 1 {
        if amount == 0 {
            (0, test_bit(rm, 31))
        } else {
            (rm >> amount, test_bit(rm, amount - 1))
        }
    } else if kind == 2 {
        if amount == 0 {
            (if test_bit(rm, 31) { 0xFFFF_FFFFu32 } else { 0u32 }, test_bit(rm, 31))
        } else {
            (arithmetic_shift_right(rm, amount), test_bit(rm, amount - 1))
        }
    } else {
        if amount == 0 {
            ((if c { 0x8000_0000u32 } else { 0u32 }) | (rm >> 1), test_bit(rm, 0))
        } else {
            ((rm >> amount) | (rm << (32 - amount)), test_bit(rm, amount - 1))
        }
    }
}

fn shift_by_register(rm: u32, kind: u32, amount: u32, c: bool) -> (r: (u32, bool))
    ensures
        r == shift_by_register_of(rm, kind, amount, c),
{
    if amount == 0 {
        (rm, c)
    } else if kind == 0 {
        if amount < 32 {
            (rm << amount, test_bit(rm, 32 - amount))
        } else if amount == 32 {
            (0, test_bit(rm, 0))
        } else {
            (0, false)
        }
    } else if kind == 1 {
        if amount < 32 {
            (rm >> amount, test_bit(rm, amount - 1))
        } else if amount == 32 {
            (0, test_bit(rm, 31))
        } else {
            (0, false)
        }
    } else if kind == 2 {
        if amount < 32 {
            (arithmetic_shift_right(rm, amount), test_bit(rm, amount - 1))
        } else {
            (if test_bit(rm, 31) { 0xFFFF_FFFFu32 } else { 0u32 }, test_bit(rm, 31))
        }
    } else {
        let r = amount % 32;
        if r == 0 {
            (rm, test_bit(rm, 31))
        } else {
            ((rm >> r) | (rm << (32 - r)), test_bit(rm, r - 1))
        }
    }
}

fn arithmetic_shift_right(x: u32, n: u32) -> (r: u32)
    requires
        n < 32,
    ensures
        r == asr(x, n),
{
    if test_bit(x, 31) {
        !((!x) >> n)
    } else {
        x >> n
    }
}

/// The second operand of a data-processing instruction, with the shifter's
/// carry-out.
fn operand2_value(cpu: &Cpu, op: Operand, c: bool) -> (r: (u32, bool))
    requires
        c == cpu.spec_flags().c,
    ensures
        r == operand2_of(*cpu, op),
{
    match op {
        Operand::Immediate { rotate, value } => immediate_operand(rotate, value, c),
        Operand::Register { shift, register } => {
            let s = shift as u32;
            let rm = cpu.get_register(register);
            let kind = (s >> 1) & 3;
            if s & 1 == 1 {
                assert(s >> 4 < 16) by (bit_vector)
                    requires
                        s < 256,
                ;
                let rs = cpu.get_register(read_register((s >> 4) as u8));
                shift_by_register(rm, kind, rs & 0xFF, c)
            } else {
                assert(s >> 3 < 32) by (bit_vector)
                    requires
                        s < 256,
                ;
                shift_by_immediate(rm, kind, s >> 3, c)
            }
        },
    }
}

/// `a + b + cin`, with carry out and signed overflow.
pub fn add_with_carry(a: u32, b: u32, cin: bool) -> (r: (u32, bool, bool))
    ensures
        r == add_with_carry_of(a, b, cin),
{
    let ci: u64 = if cin { 1 } else { 0 };
    let u: u64 = a as u64 + b as u64 + ci;
    let v: u32 = (u % 0x1_0000_0000) as u32;
    let sa: i64 = if a >= 0x8000_0000 { a as i64 - 0x1_0000_0000 } else { a as i64 };
    let sb: i64 = if b >= 0x8000_0000 { b as i64 - 0x1_0000_0000 } else { b as i64 };
    let sv: i64 = if v >= 0x8000_0000 { v as i64 - 0x1_0000_0000 } else { v as i64 };
    (v, u >= 0x1_0000_0000, sa + sb + ci as i64 != sv)
}

fn logical(v: u32, shifter_carry: bool, f: Flags) -> (r: (u32, Flags))
    ensures
        r == logical_of(v, shifter_carry, f),
{
    (v, Flags { n: test_bit(v, 31), z: v == 0, c: shifter_carry, v: f.v })
}

fn arithmetic(s: (u32, bool, bool)) -> (r: (u32, Flags))
    ensures
        r == arithmetic_of(s),
{
    (s.0, Flags { n: test_bit(s.0, 31), z: s.0 == 0, c: s.1, v: s.2 })
}

/// Executes `instr` against `cpu`: a no-op where its condition fails, else
/// the instruction's effect on registers, flags, state and pipeline.
pub fn execute(cpu: &mut Cpu, mem: &mut Memory, instr: Instruction) -> (o: Outcome)
    ensures
        executes(*old(cpu), *old(mem), instr, *final(cpu), *final(mem), o),
        !condition_holds(instr.condition, old(cpu).spec_flags()) ==> *final(cpu) == *old(cpu)
            && *final(mem) == *old(mem) && o == Outcome::Continue,
{
    proof {
        reveal(executes);
    }
    let f = cpu.flags();
    if !condition_passes(instr.condition, f) {
        return Outcome::Continue;
    }
    match instr.instruction {
        InstructionOp::DataProcessing { opcode, dest, operand1, operand2, alter_condition } => {
            execute_data_processing(cpu, opcode, dest, operand1, operand2, alter_condition)
        },
        InstructionOp::Multiply {
            dest,
            operand1,
            operand2,
            accumulate,
            acc_operand,
            alter_condition,
        } => execute_multiply(cpu, dest, operand1, operand2, accumulate, acc_operand, alter_condition),
        InstructionOp::Branch { branch } => {
            let ghost c0 = *cpu;
            let o = execute_branch(cpu, branch);
            assert(executes(
                c0,
                *mem,
                Instruction {
                    condition: Condition::Always,
                    instruction: InstructionOp::Branch { branch },
                },
                *cpu,
                *mem,
                o,
            ));
            o
        },
        InstructionOp::SingleDataTransfer {
            base,
            source_dest,
            load,
            write_back,
            write_byte,
            add_offset,
            pre_index,
            offset,
        } => execute_single_data_transfer(
            cpu,
            mem,
            base,
            source_dest,
            load,
            write_back,
            write_byte,
            add_offset,
            pre_index,
            offset,
        ),
        InstructionOp::MultiplyLong {
            dest_high,
            dest_low,
            operand1,
            operand2,
            accumulate,
            signed,
            alter_condition,
        } => execute_multiply_long(
            cpu,
            dest_high,
            dest_low,
            operand1,
            operand2,
            accumulate,
            signed,
            alter_condition,
        ),
        InstructionOp::BlockDataTransfer {
            base,
            load,
            write_back,
            force_psr,
            add_offset,
            pre_index,
            register_list,
        } => execute_block_data_transfer(
            cpu,
            mem,
            base,
            load,
            write_back,
            add_offset,
            pre_index,
            &register_list,
        ),
        InstructionOp::Swap { source, dest, base, byte } => execute_swap(
            cpu,
            mem,
            source,
            dest,
            base,
            byte,
        ),
    }
}

/// `x` rotated right by `n` bits.
fn rotate_right(x: u32, n: u32) -> (r: u32)
    requires
        n < 32,
    ensures
        r == ror(x, n),
{
    if n == 0 {
        x
    } else {
        (x >> n) | (x << (32 - n))
    }
}

/// Loads a zero-extended byte, or a word, from `addr`.
fn load_from(mem: &Memory, addr: u32, byte: bool) -> (r: u32)
    ensures
        r == loaded(*mem, addr, byte),
{
    if byte {
        mem.get_byte(addr) as u32
    } else {
        let low = addr & 3;
        assert(low < 4) by (bit_vector)
            requires
                low == addr & 3,
        ;
        rotate_right(mem.get_word(addr & 0xFFFF_FFFC), low * 8)
    }
}

/// Stores the low byte of `v`, or the word `v`, at `addr`.
fn store_to(mem: &mut Memory, addr: u32, v: u32, byte: bool)
    ensures
        stored(*old(mem), *final(mem), addr, v, byte),
{
    if byte {
        mem.set_byte(addr, v as u8);
    } else {
        mem.set_word(addr, v);
    }
}

/// The offset of a single data transfer.
fn transfer_offset(cpu: &Cpu, offset: Offset) -> (r: u32)
    ensures
        r == transfer_offset_of(*cpu, offset),
{
    match offset {
        Offset::Immediate { offset } => offset as u32,
        Offset::Register { shift, register } => {
            let s = shift as u32;
            assert(s >> 3 < 32) by (bit_vector)
                requires
                    s < 256,
            ;
            let c = cpu.flags().c;
            shift_by_immediate(cpu.get_register(register), (s >> 1) & 3, s >> 3, c).0
        },
    }
}

fn execute_single_data_transfer(
    cpu: &mut Cpu,
    mem: &mut Memory,
    base: Register,
    source_dest: Register,
    load: bool,
    write_back: bool,
    write_byte: bool,
    add_offset: bool,
    pre_index: bool,
    offset: Offset,
) -> (o: Outcome)
    ensures
        single_data_transfer_executes(
            *old(cpu),
            *old(mem),
            base,
            source_dest,
            load,
            write_back,
            write_byte,
            add_offset,
            pre_index,
            offset,
            *final(cpu),
            *final(mem),
            o,
        ),
{
    let b = cpu.get_register(base);
    let off = transfer_offset(cpu, offset);
    let moved = if add_offset {
        b.wrapping_add(off)
    } else {
        b.wrapping_sub(off)
    };
    let addr = if pre_index {
        moved
    } else {
        b
    };
    let value = cpu.get_register(source_dest);
    let data = if load {
        load_from(mem, addr, write_byte)
    } else {
        store_to(mem, addr, value, write_byte);
        0
    };
    let mut pc_written = false;
    if write_back || !pre_index {
        cpu.set_register(base, moved);
        pc_written = matches!(base, Register::R15);
    }
    if load {
        cpu.set_register(source_dest, data);
        pc_written = pc_written || matches!(source_dest, Register::R15);
    }
    if pc_written {
        cpu.flush_pipeline();
        Outcome::Redirected
    } else {
        Outcome::Continue
    }
}

fn execute_swap(
    cpu: &mut Cpu,
    mem: &mut Memory,
    source: Register,
    dest: Register,
    base: Register,
    byte: bool,
) -> (o: Outcome)
    ensures
        swap_executes(*old(cpu), *old(mem), source, dest, base, byte, *final(cpu), *final(mem), o),
{
    let addr = cpu.get_register(base);
    let data = load_from(mem, addr, byte);
    let value = cpu.get_register(source);
    store_to(mem, addr, value, byte);
    cpu.set_register(dest, data);
    if matches!(dest, Register::R15) {
        cpu.flush_pipeline();
        Outcome::Redirected
    } else {
        Outcome::Continue
    }
}

/// Writes `v` into `dest`; a write of R15 flushes the pipeline.
fn write_result(cpu: &mut Cpu, dest: Register, v: u32) -> (o: Outcome)
    ensures
        register_written(*old(cpu), *final(cpu), dest, v, o),
        final(cpu).spec_cpsr() == old(cpu).spec_cpsr(),
{
    cpu.set_register(dest, v);
    if matches!(dest, Register::R15) {
        cpu.flush_pipeline();
        Outcome::Redirected
    } else {
        Outcome::Continue
    }
}

fn execute_data_processing(
    cpu: &mut Cpu,
    opcode: DataProcessingOpCode,
    dest: Register,
    operand1: Register,
    operand2: Operand,
    alter_condition: bool,
) -> (o: Outcome)
    ensures
        ({
            let c0 = *old(cpu);
            let c1 = *final(cpu);
            let (b, sc) = operand2_of(c0, operand2);
            let (v, f) = alu_of(opcode, c0.regs()[operand1.index()], b, sc, c0.spec_flags());
            &&& flags_updated(c0, c1, alter_condition, f)
            &&& if writes_result(opcode) {
                register_written(c0, c1, dest, v, o)
            } else {
                &&& c1.regs() == c0.regs()
                &&& c1.spec_state() == c0.spec_state()
                &&& c1.spec_fetched() == c0.spec_fetched()
                &&& c1.spec_decoded() == c0.spec_decoded()
                &&& o == Outcome::Continue
            }
        }),
{
    let f = cpu.flags();
    let (b, sc) = operand2_value(cpu, operand2, f.c);
    let a = cpu.get_register(operand1);
    let (v, nf) = alu(opcode, a, b, sc, f);
    if alter_condition {
        cpu.set_flags(nf);
    }
    if writes_result_exec(opcode) {
        write_result(cpu, dest, v)
    } else {
        Outcome::Continue
    }
}

fn writes_result_exec(opcode: DataProcessingOpCode) -> (r: bool)
    ensures
        r == writes_result(opcode),
{
    !matches!(
        opcode,
        DataProcessingOpCode::Tst | DataProcessingOpCode::Teq | DataProcessingOpCode::Cmp
            | DataProcessingOpCode::Cmn
    )
}

fn execute_multiply(
    cpu: &mut Cpu,
    dest: Register,
    operand1: Register,
    operand2: Register,
    accumulate: bool,
    acc_operand: Register,
    alter_condition: bool,
) -> (o: Outcome)
    ensures
        ({
            let c0 = *old(cpu);
            let c1 = *final(cpu);
            let acc: int = if accumulate {
                c0.regs()[acc_operand.index()] as int
            } else {
                0
            };
            let v = wrap(c0.regs()[operand1.index()] * c0.regs()[operand2.index()] + acc);
            let f = Flags { n: bit(v, 31), z: v == 0, c: c0.spec_flags().c, v: c0.spec_flags().v };
            &&& flags_updated(c0, c1, alter_condition, f)
            &&& register_written(c0, c1, dest, v, o)
        }),
{
    let rm = cpu.get_register(operand1) as u64;
    let rs = cpu.get_register(operand2) as u64;
    let acc: u64 = if accumulate { cpu.get_register(acc_operand) as u64 } else { 0 };
    assert(rm * rs <= 0xFFFF_FFFE_0000_0001) by (nonlinear_arith)
        requires
            rm <= 0xFFFF_FFFF,
            rs <= 0xFFFF_FFFF,
    ;
    let total: u64 = rm * rs + acc;
    let v: u32 = (total % 0x1_0000_0000) as u32;
    if alter_condition {
        let f = cpu.flags();
        cpu.set_flags(Flags { n: test_bit(v, 31), z: v == 0, c: f.c, v: f.v });
    }
    write_result(cpu, dest, v)
}

fn execute_block_data_transfer(
    cpu: &mut Cpu,
    mem: &mut Memory,
    base: Register,
    load: bool,
    write_back: bool,
    add_offset: bool,
    pre_index: bool,
    register_list: &Vec<Register>,
) -> (o: Outcome)
    ensures
        block_data_transfer_executes(
            *old(cpu),
            *old(mem),
            base,
            load,
            write_back,
            add_offset,
            pre_index,
            register_list@,
            *final(cpu),
            *final(mem),
            o,
        ),
{
    let b = cpu.get_register(base);
    let (start, moved) = block_bounds(b, register_list.len(), add_offset, pre_index);
    if load {
        load_block(cpu, mem, base, write_back, moved, start, register_list)
    } else {
        store_block(cpu, mem, start, register_list);
        if write_back {
            cpu.set_register(base, moved);
            if matches!(base, Register::R15) {
                cpu.flush_pipeline();
                return Outcome::Redirected;
            }
        }
        Outcome::Continue
    }
}

/// The lowest address of a block transfer of `n` words from base `b`, and
/// the base moved past the block.
fn block_bounds(b: u32, n: usize, add_offset: bool, pre_index: bool) -> (r: (u32, u32))
    ensures
        r.0 == block_start(b, n as int, add_offset, pre_index),
        r.1 == if add_offset {
            wrap(b + 4 * n)
        } else {
            wrap(b - 4 * n)
        },
{
    let count = (n as u64 % 0x1_0000_0000) as u32;
    let total = count.wrapping_mul(4);
    proof {
        lemma_wrapping_ops(count, 4);
        vstd::arithmetic::div_mod::lemma_mul_mod_noop_right(4, n as int, 0x1_0000_0000);
        assert(total == wrap(4 * n));
        lemma_wrapping_ops(b, 4);
        lemma_wrapping_ops(b, total);
        lemma_wrapping_ops(b.wrapping_sub(total), 4);
        lemma_wrap_sub(b as int, 4 * n);
        lemma_wrap_add(b - 4 * n, 4);
        lemma_wrap_add(4 * n, b as int);
    }
    let start = if add_offset {
        if pre_index {
            b.wrapping_add(4)
        } else {
            b
        }
    } else {
        if pre_index {
            b.wrapping_sub(total)
        } else {
            b.wrapping_sub(total).wrapping_add(4)
        }
    };
    let moved = if add_offset {
        b.wrapping_add(total)
    } else {
        b.wrapping_sub(total)
    };
    (start, moved)
}

/// Loads the registers of `list` from consecutive words from `start` on,
/// after writing `moved` back to `base` where asked.
fn load_block(
    cpu: &mut Cpu,
    mem: &Memory,
    base: Register,
    write_back: bool,
    moved: u32,
    start: u32,
    register_list: &Vec<Register>,
) -> (o: Outcome)
    ensures
        registers_replaced(
            *old(cpu),
            *final(cpu),
            regs_after_loads(
                if write_back {
                    old(cpu).regs().update(base.index(), moved)
                } else {
                    old(cpu).regs()
                },
                register_list@,
                *mem,
                start,
                register_list@.len(),
            ),
            (write_back && base == Register::R15) || register_list@.contains(Register::R15),
            o,
        ),
{
    let ghost list = register_list@;
    let n = register_list.len();
    let mut pc_written = false;
    if write_back {
        cpu.set_register(base, moved);
        pc_written = matches!(base, Register::R15);
    }
    let ghost regs_wb = cpu.regs();
    let ghost c_wb = *cpu;
    let mut i: usize = 0;
    let mut addr = start;
    while i < n
        invariant
            n == list.len(),
            list == register_list@,
            i <= n,
            addr == block_address(start, i as int),
            cpu.regs() == regs_after_loads(regs_wb, list, *mem, start, i as nat),
            cpu.same_but_regs(&c_wb),
            pc_written == ((write_back && base == Register::R15) || exists|j: int|
                0 <= j < i && #[trigger] list[j] == Register::R15),
        decreases n - i,
    {
        let r = register_list[i];
        let v = load_from(mem, addr, false);
        cpu.set_register(r, v);
        if matches!(r, Register::R15) {
            pc_written = true;
        }
        proof {
            lemma_wrap_add(start + 4 * i, 4);
        }
        addr = addr.wrapping_add(4);
        i = i + 1;
    }
    assert(list.contains(Register::R15) == exists|j: int|
        0 <= j < n && #[trigger] list[j] == Register::R15);
    if pc_written {
        cpu.flush_pipeline();
        Outcome::Redirected
    } else {
        Outcome::Continue
    }
}

/// Stores the registers of `list`, in order, as consecutive words from
/// `start` on.
fn store_block(cpu: &Cpu, mem: &mut Memory, start: u32, register_list: &Vec<Register>)
    ensures
        stores_in_order(
            *old(mem),
            *final(mem),
            start,
            register_list@.map_values(|r: Register| cpu.regs()[r.index()]),
        ),
{
    let ghost m0 = *mem;
    let ghost list = register_list@;
    let ghost values = list.map_values(|r: Register| cpu.regs()[r.index()]);
    let ghost mut ms: Seq<Memory> = seq![m0];
    let n = register_list.len();
    let mut i: usize = 0;
    let mut addr = start;
    while i < n
        invariant
            n == list.len(),
            list == register_list@,
            values == list.map_values(|r: Register| cpu.regs()[r.index()]),
            i <= n,
            addr == block_address(start, i as int),
            ms.len() == i + 1,
            ms[0] == m0,
            ms.last() == *mem,
            forall|j: int|
                0 <= j < i ==> word_stored(
                    #[trigger] ms[j],
                    ms[j + 1],
                    block_address(start, j),
                    values[j],
                ),
        decreases n - i,
    {
        let v = cpu.get_register(register_list[i]);
        mem.set_word(addr, v);
        proof {
            let prev = ms;
            ms = ms.push(*mem);
            assert(forall|j: int| 0 <= j <= i ==> #[trigger] ms[j] == prev[j]);
            lemma_wrap_add(start + 4 * i, 4);
        }
        addr = addr.wrapping_add(4);
        i = i + 1;
    }
    assert(stores_in_order(m0, *mem, start, values));
}

/// A word as a signed or unsigned integer.
fn operand_value(w: u32, signed_operand: bool) -> (r: i128)
    ensures
        r == if signed_operand {
            signed(w)
        } else {
            w as int
        },
{
    if signed_operand && w >= 0x8000_0000 {
        w as i128 - 0x1_0000_0000
    } else {
        w as i128
    }
}

fn execute_multiply_long(
    cpu: &mut Cpu,
    dest_high: Register,
    dest_low: Register,
    operand1: Register,
    operand2: Register,
    accumulate: bool,
    signed_operands: bool,
    alter_condition: bool,
) -> (o: Outcome)
    ensures
        multiply_long_executes(
            *old(cpu),
            dest_high,
            dest_low,
            operand1,
            operand2,
            accumulate,
            signed_operands,
            alter_condition,
            *final(cpu),
            o,
        ),
{
    let a = operand_value(cpu.get_register(operand1), signed_operands);
    let b = operand_value(cpu.get_register(operand2), signed_operands);
    let acc: i128 = if accumulate {
        cpu.get_register(dest_high) as i128 * 0x1_0000_0000 + cpu.get_register(dest_low) as i128
    } else {
        0
    };
    assert(-0x1_0000_0000_0000_0000 <= a * b <= 0x1_0000_0000_0000_0000) by (nonlinear_arith)
        requires
            -0x8000_0000 <= a < 0x1_0000_0000,
            -0x8000_0000 <= b < 0x1_0000_0000,
    ;
    let sum: i128 = a * b + acc;
    let shifted: u128 = (sum + 0x1_0000_0000_0000_0000) as u128;
    proof {
        vstd::arithmetic::div_mod::lemma_mod_add_multiples_vanish(
            sum as int,
            0x1_0000_0000_0000_0000,
        );
    }
    let r: u128 = shifted % 0x1_0000_0000_0000_0000;
    let lo = (r % 0x1_0000_0000) as u32;
    let hi = (r / 0x1_0000_0000) as u32;
    if alter_condition {
        let f = cpu.flags();
        cpu.set_flags(Flags { n: test_bit(hi, 31), z: r == 0, c: f.c, v: f.v });
    }
    cpu.set_register(dest_low, lo);
    cpu.set_register(dest_high, hi);
    if matches!(dest_high, Register::R15) || matches!(dest_low, Register::R15) {
        cpu.flush_pipeline();
        Outcome::Redirected
    } else {
        Outcome::Continue
    }
}

/// Executes a branch: by offset from R15 (saving R15 - 4 in R14 when
/// linking), or to a register's value with bit 0 selecting Thumb state.
/// Either way the pipeline is flushed.
fn execute_branch(cpu: &mut Cpu, branch: Branch) -> (o: Outcome)
    ensures
        forall|m: Memory|
            executes(
                *old(cpu),
                m,
                Instruction {
                    condition: Condition::Always,
                    instruction: InstructionOp::Branch { branch },
                },
                *final(cpu),
                m,
                o,
            ),
{
    proof {
        reveal(executes);
    }
    match branch {
        Branch::Offset { offset, link } => {
            let pc = cpu.get_register(Register::R15);
            if link {
                cpu.set_register(Register::R14, pc.wrapping_sub(4));
            }
            let field = offset & 0xFF_FFFF;
            assert(field < 0x100_0000) by (bit_vector)
                requires
                    field == offset & 0xFF_FFFF,
            ;
            let k = sign_extend_24(field);
            let target = if k < 0 {
                pc.wrapping_sub((-(k as i64) * 4) as u32)
            } else {
                pc.wrapping_add((k as u32) * 4)
            };
            cpu.set_register(Register::R15, target);
            cpu.flush_pipeline();
            Outcome::Redirected
        },
        Branch::Exchange { register } => {
            let target = cpu.get_register(register);
            let thumb = test_bit(target, 0);
            cpu.set_register(Register::R15, target & 0xFFFF_FFFE);
            cpu.set_state(if thumb { CpuState::Thumb } else { CpuState::Arm });
            cpu.flush_pipeline();
            Outcome::Redirected
        },
    }
}

/// The value and flags of a data-processing operation.
pub fn alu(opcode: DataProcessingOpCode, a: u32, b: u32, sc: bool, f: Flags) -> (r: (u32, Flags))
    ensures
        r == alu_of(opcode, a, b, sc, f),
{
    match opcode {
        DataProcessingOpCode::And => logical(a & b, sc, f),
        DataProcessingOpCode::Eor => logical(a ^ b, sc, f),
        DataProcessingOpCode::Sub => arithmetic(add_with_carry(a, !b, true)),
        DataProcessingOpCode::Rsb => arithmetic(add_with_carry(b, !a, true)),
        DataProcessingOpCode::Add => arithmetic(add_with_carry(a, b, false)),
        DataProcessingOpCode::Adc => arithmetic(add_with_carry(a, b, f.c)),
        DataProcessingOpCode::Sbc => arithmetic(add_with_carry(a, !b, f.c)),
        DataProcessingOpCode::Rsc => arithmetic(add_with_carry(b, !a, f.c)),
        DataProcessingOpCode::Tst => logical(a & b, sc, f),
        DataProcessingOpCode::Teq => logical(a ^ b, sc, f),
        DataProcessingOpCode::Cmp => arithmetic(add_with_carry(a, !b, true)),
        DataProcessingOpCode::Cmn => arithmetic(add_with_carry(a, b, false)),
        DataProcessingOpCode::Orr => logical(a | b, sc, f),
        DataProcessingOpCode::Mov => logical(b, sc, f),
        DataProcessingOpCode::Bic => logical(a & !b, sc, f),
        DataProcessingOpCode::Mvn => logical(!b, sc, f),
    }
}

} // verus!
