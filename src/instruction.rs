use vstd::prelude::*;

use crate::bits::{bit, nibble, read_nibble, test_bit};
use crate::cpu::{register_of, Register};

verus! {

/// The bits of an instruction word below the condition field.
pub const CONDITION_MASK: u32 = 0x0FFF_FFFF;

/// A decoded ARM instruction: its condition and its operation.
#[derive(Debug, PartialEq, Eq)]
pub struct Instruction {
    pub condition: Condition,
    pub instruction: InstructionOp,
}

/// The condition under which an instruction takes effect.
#[derive(Clone, Copy, Debug, PartialEq, Eq, Structural)]
pub enum Condition {
    Equal,
    NotEqual,
    UnsignedGe,
    UnsignedLt,
    Negative,
    Positive,
    Overflow,
    NoOverflow,
    UnsignedGt,
    UnsignedLe,
    Ge,
    Lt,
    Gt,
    Le,
    Always,
}

/// The operation of an instruction, one variant per instruction family.
#[derive(Debug, PartialEq, Eq)]
pub enum InstructionOp {
    DataProcessing {
        opcode: DataProcessingOpCode,
        dest: Register,
        operand1: Register,
        operand2: Operand,
        alter_condition: bool,
    },
    Multiply {
        dest: Register,
        operand1: Register,
        operand2: Register,
        accumulate: bool,
        acc_operand: Register,
        alter_condition: bool,
    },
    MultiplyLong {
        dest_high: Register,
        dest_low: Register,
        operand1: Register,
        operand2: Register,
        accumulate: bool,
        signed: bool,
        alter_condition: bool,
    },
    Swap { source: Register, dest: Register, base: Register, byte: bool },
    Branch { branch: Branch },
    /// `load` is false for a store, `write_byte` false for a word transfer,
    /// `add_offset` false where the offset is subtracted, `pre_index` false
    /// where the offset is applied after the transfer.
    SingleDataTransfer {
        base: Register,
        source_dest: Register,
        load: bool,
        write_back: bool,
        write_byte: bool,
        add_offset: bool,
        pre_index: bool,
        offset: Offset,
    },
    /// `register_list` holds the registers present, in ascending order.
    BlockDataTransfer {
        base: Register,
        load: bool,
        write_back: bool,
        force_psr: bool,
        add_offset: bool,
        pre_index: bool,
        register_list: Vec<Register>,
    },
}

/// A branch: to a register's value, possibly changing state, or by a signed
/// 24-bit word offset, possibly saving the return address in R14.
#[derive(Clone, Copy, Debug, PartialEq, Eq, Structural)]
pub enum Branch {
    Exchange { register: Register },
    Offset { offset: u32, link: bool },
}

/// The offset of a single data transfer: a 12-bit immediate, or a register
/// with an 8-bit shift descriptor.
#[derive(Clone, Copy, Debug, PartialEq, Eq, Structural)]
pub enum Offset {
    Immediate { offset: u16 },
    Register { shift: u8, register: Register },
}

#[derive(Clone, Copy, Debug, PartialEq, Eq, Structural)]
pub enum DataProcessingOpCode {
    And,
    Eor,
    Sub,
    Rsb,
    Add,
    Adc,
    Sbc,
    Rsc,
    Tst,
    Teq,
    Cmp,
    Cmn,
    Orr,
    Mov,
    Bic,
    Mvn,
}

/// The second operand of a data-processing instruction: a register with an
/// 8-bit shift descriptor, or an 8-bit value rotated right by twice a 4-bit
/// amount.
#[derive(Clone, Copy, Debug, PartialEq, Eq, Structural)]
pub enum Operand {
    Register { shift: u8, register: Register },
    Immediate { rotate: u8, value: u8 },
}

/// Why a word does not decode.
#[derive(Clone, Copy, Debug, PartialEq, Eq, Structural)]
pub enum DecodeReason {
    /// Condition field 15.
    ReservedCondition,
    HalfwordTransfer,
    Undefined,
    CoprocessorOrSoftwareInterrupt,
}

/// A word that does not decode, and why.
#[derive(Clone, Copy, Debug, PartialEq, Eq, Structural)]
pub struct DecodeError {
    pub word: u32,
    pub reason: DecodeReason,
}

/// The condition coded by the four-bit field `c`; 15 codes none.
pub open spec fn condition_of(c: u32) -> Option<Condition> {
    if c == 0 {
        Some(Condition::Equal)
    } else if c == 1 {
        Some(Condition::NotEqual)
    } else if c == 2 {
        Some(Condition::UnsignedGe)
    } else if c == 3 {
        Some(Condition::UnsignedLt)
    } else if c == 4 {
        Some(Condition::Negative)
    } else if c == 5 {
        Some(Condition::Positive)
    } else if c == 6 {
        Some(Condition::Overflow)
    } else if c == 7 {
        Some(Condition::NoOverflow)
    } else if c == 8 {
        Some(Condition::UnsignedGt)
    } else if c == 9 {
        Some(Condition::UnsignedLe)
    } else if c == 10 {
        Some(Condition::Ge)
    } else if c == 11 {
        Some(Condition::Lt)
    } else if c == 12 {
        Some(Condition::Gt)
    } else if c == 13 {
        Some(Condition::Le)
    } else if c == 14 {
        Some(Condition::Always)
    } else {
        None
    }
}

/// The data-processing operation coded by the four-bit field `n`.
pub open spec fn opcode_of(n: u32) -> DataProcessingOpCode {
    if n == 0 {
        DataProcessingOpCode::And
    } else if n == 1 {
        DataProcessingOpCode::Eor
    } else if n == 2 {
        DataProcessingOpCode::Sub
    } else if n == 3 {
        DataProcessingOpCode::Rsb
    } else if n == 4 {
        DataProcessingOpCode::Add
    } else if n == 5 {
        DataProcessingOpCode::Adc
    } else if n == 6 {
        DataProcessingOpCode::Sbc
    } else if n == 7 {
        DataProcessingOpCode::Rsc
    } else if n == 8 {
        DataProcessingOpCode::Tst
    } else if n == 9 {
        DataProcessingOpCode::Teq
    } else if n == 10 {
        DataProcessingOpCode::Cmp
    } else if n == 11 {
        DataProcessingOpCode::Cmn
    } else if n == 12 {
        DataProcessingOpCode::Orr
    } else if n == 13 {
        DataProcessingOpCode::Mov
    } else if n == 14 {
        DataProcessingOpCode::Bic
    } else {
        DataProcessingOpCode::Mvn
    }
}

/// The register named by the four-bit field of `w` at bit `lo`.
pub open spec fn reg_field(w: u32, lo: u32) -> Register {
    register_of(nibble(w, lo))
}

/// The registers whose bits are set among the lowest `n` bits of `mask`, in
/// ascending order.
pub open spec fn registers_in(mask: u32, n: nat) -> Seq<Register>
    decreases n,
{
    if n == 0 {
        Seq::empty()
    } else {
        let below = registers_in(mask, (n - 1) as nat);
        if bit(mask, (n - 1) as u32) {
            below.push(register_of((n - 1) as u32))
        } else {
            below
        }
    }
}

pub open spec fn data_processing_of(body: u32, immediate: bool) -> InstructionOp {
    InstructionOp::DataProcessing {
        opcode: opcode_of(nibble(body, 21)),
        dest: reg_field(body, 12),
        operand1: reg_field(body, 16),
        operand2: if immediate {
            Operand::Immediate { rotate: nibble(body, 8) as u8, value: (body & 0xFF) as u8 }
        } else {
            Operand::Register { shift: ((body >> 4) & 0xFF) as u8, register: reg_field(body, 0) }
        },
        alter_condition: bit(body, 20),
    }
}

pub open spec fn multiply_of(body: u32) -> InstructionOp {
    InstructionOp::Multiply {
        dest: reg_field(body, 16),
        operand1: reg_field(body, 0),
        operand2: reg_field(body, 8),
        accumulate: bit(body, 21),
        acc_operand: reg_field(body, 12),
        alter_condition: bit(body, 20),
    }
}

pub open spec fn multiply_long_of(body: u32) -> InstructionOp {
    InstructionOp::MultiplyLong {
        dest_high: reg_field(body, 16),
        dest_low: reg_field(body, 12),
        operand1: reg_field(body, 0),
        operand2: reg_field(body, 8),
        accumulate: bit(body, 21),
        signed: bit(body, 22),
        alter_condition: bit(body, 20),
    }
}

pub open spec fn swap_of(body: u32) -> InstructionOp {
    InstructionOp::Swap {
        source: reg_field(body, 0),
        dest: reg_field(body, 12),
        base: reg_field(body, 16),
        byte: bit(body, 22),
    }
}

pub open spec fn branch_exchange_of(body: u32) -> InstructionOp {
    InstructionOp::Branch { branch: Branch::Exchange { register: reg_field(body, 0) } }
}

pub open spec fn branch_of(body: u32) -> InstructionOp {
    InstructionOp::Branch { branch: Branch::Offset { offset: body & 0xFF_FFFF, link: bit(body, 24) } }
}

pub open spec fn single_data_transfer_of(body: u32) -> InstructionOp {
    InstructionOp::SingleDataTransfer {
        base: reg_field(body, 16),
        source_dest: reg_field(body, 12),
        load: bit(body, 20),
        write_back: bit(body, 21),
        write_byte: bit(body, 22),
        add_offset: bit(body, 23),
        pre_index: bit(body, 24),
        offset: if bit(body, 25) {
            Offset::Register { shift: ((body >> 4) & 0xFF) as u8, register: reg_field(body, 0) }
        } else {
            Offset::Immediate { offset: (body & 0xFFF) as u16 }
        },
    }
}

/// `op` is the block data transfer coded by `body`.
pub open spec fn is_block_data_transfer_of(body: u32, op: InstructionOp) -> bool {
    match op {
        InstructionOp::BlockDataTransfer {
            base,
            load,
            write_back,
            force_psr,
            add_offset,
            pre_index,
            register_list,
        } => {
            &&& base == reg_field(body, 16)
            &&& load == bit(body, 20)
            &&& write_back == bit(body, 21)
            &&& force_psr == bit(body, 22)
            &&& add_offset == bit(body, 23)
            &&& pre_index == bit(body, 24)
            &&& register_list@ == registers_in(body, 16)
        },
        _ => false,
    }
}

/// `r` is what the 28 bits below the condition field, `body`, decode to.
pub open spec fn decodes_op(body: u32, r: Result<InstructionOp, DecodeReason>) -> bool {
    let top = (body >> 26) & 3;
    if top == 0 {
        if bit(body, 25) {
            r == Ok::<InstructionOp, DecodeReason>(data_processing_of(body, true))
        } else if !bit(body, 4) {
            r == Ok::<InstructionOp, DecodeReason>(data_processing_of(body, false))
        } else if !bit(body, 7) {
            r == Ok::<InstructionOp, DecodeReason>(branch_exchange_of(body))
        } else if bit(body, 5) || bit(body, 6) {
            r == Err::<InstructionOp, DecodeReason>(DecodeReason::HalfwordTransfer)
        } else if bit(body, 24) {
            r == Ok::<InstructionOp, DecodeReason>(swap_of(body))
        } else if bit(body, 23) {
            r == Ok::<InstructionOp, DecodeReason>(multiply_long_of(body))
        } else {
            r == Ok::<InstructionOp, DecodeReason>(multiply_of(body))
        }
    } else if top == 1 {
        if bit(body, 25) && bit(body, 4) {
            r == Err::<InstructionOp, DecodeReason>(DecodeReason::Undefined)
        } else {
            r == Ok::<InstructionOp, DecodeReason>(single_data_transfer_of(body))
        }
    } else if top == 2 {
        if bit(body, 25) {
            r == Ok::<InstructionOp, DecodeReason>(branch_of(body))
        } else {
            match r {
                Ok(op) => is_block_data_transfer_of(body, op),
                Err(_) => false,
            }
        }
    } else {
        r == Err::<InstructionOp, DecodeReason>(DecodeReason::CoprocessorOrSoftwareInterrupt)
    }
}

/// `r` is what the word `w` decodes to: its condition field first, then the
/// rest.
pub open spec fn decodes(w: u32, r: Result<Instruction, DecodeError>) -> bool {
    match condition_of(w >> 28) {
        None => r == Err::<Instruction, DecodeError>(
            DecodeError { word: w, reason: DecodeReason::ReservedCondition },
        ),
        Some(c) => match r {
            Ok(i) => i.condition == c && decodes_op(w & CONDITION_MASK, Ok(i.instruction)),
            Err(e) => e.word == w && decodes_op(w & CONDITION_MASK, Err(e.reason)),
        },
    }
}

/// `x` and `y` are the same operation: equal, with register lists of equal
/// contents.
pub open spec fn same_op(x: InstructionOp, y: InstructionOp) -> bool {
    match (x, y) {
        (
            InstructionOp::BlockDataTransfer {
                base: x_base,
                load: x_load,
                write_back: x_wb,
                force_psr: x_force,
                add_offset: x_up,
                pre_index: x_pre,
                register_list: x_list,
            },
            InstructionOp::BlockDataTransfer {
                base: y_base,
                load: y_load,
                write_back: y_wb,
                force_psr: y_force,
                add_offset: y_up,
                pre_index: y_pre,
                register_list: y_list,
            },
        ) => x_base == y_base && x_load == y_load && x_wb == y_wb && x_force == y_force && x_up == y_up && x_pre == y_pre && x_list@ == y_list@,
        _ => x == y,
    }
}

/// A signed word offset in the range of 24 bits, as its two's complement
/// field.
pub open spec fn encode24(k: int) -> u32 {
    if k >= 0 {
        k as u32
    } else {
        (k + 0x100_0000) as u32
    }
}

/// Decoding has no hidden state: whatever two results a word may decode to
/// are the same result.
pub proof fn lemma_decode_deterministic(
    w: u32,
    a: Result<Instruction, DecodeError>,
    b: Result<Instruction, DecodeError>,
)
    requires
        decodes(w, a),
        decodes(w, b),
    ensures
        match (a, b) {
            (Ok(x), Ok(y)) => x.condition == y.condition && same_op(x.instruction, y.instruction),
            (Err(e1), Err(e2)) => e1 == e2,
            _ => false,
        },
{
}

/// Replacing the condition field of a word by any four-bit `c` changes only
/// the decoded condition: the rest of the word decodes as before.
pub proof fn lemma_condition_field_independent(w: u32, c: u32)
    requires
        c < 16,
    ensures
        ({
            let w2 = (w & CONDITION_MASK) | (c << 28);
            &&& w2 >> 28 == c
            &&& forall|r: Result<InstructionOp, DecodeReason>|
                decodes_op(w & CONDITION_MASK, r) == #[trigger] decodes_op(w2 & CONDITION_MASK, r)
            &&& forall|i: Instruction|
                #![trigger decodes(w, Ok(i))]
                decodes(w, Ok(i)) && condition_of(c) is Some ==> decodes(
                    w2,
                    Ok(Instruction { condition: condition_of(c)->Some_0, instruction: i.instruction }),
                )
        }),
{
    let w2 = (w & CONDITION_MASK) | (c << 28);
    assert(w2 >> 28 == c && w2 & 0x0FFF_FFFF == w & 0x0FFF_FFFF) by (bit_vector)
        requires
            c < 16,
            w2 == (w & 0x0FFF_FFFFu32) | (c << 28),
    ;
}

/// Every signed word offset `k` of 24 bits survives encoding into a branch
/// word and decoding back: the branch field is `encode24(k)`, whose signed
/// value is `k`.
pub proof fn lemma_branch_offset_round_trip(k: int, link: bool)
    requires
        -0x80_0000 <= k < 0x80_0000,
    ensures
        encode24(k) < 0x100_0000,
        ({
            let field = encode24(k);
            let f: int = if field >= 0x80_0000 {
                field - 0x100_0000
            } else {
                field as int
            };
            f == k
        }),
        decodes(
            0xEA00_0000u32 | (if link { 0x0100_0000u32 } else { 0u32 }) | encode24(k),
            Ok(
                Instruction {
                    condition: Condition::Always,
                    instruction: InstructionOp::Branch {
                        branch: Branch::Offset { offset: encode24(k), link },
                    },
                },
            ),
        ),
{
    let field = encode24(k);
    let l: u32 = if link { 0x0100_0000u32 } else { 0u32 };
    let w = 0xEA00_0000u32 | l | field;
    assert(w >> 28 == 14 && (w & 0x0FFF_FFFF) >> 26 & 3 == 2 && bit(w & 0x0FFF_FFFF, 25)
        && (w & 0x0FFF_FFFF) & 0xFF_FFFF == field && bit(w & 0x0FFF_FFFF, 24) == (l != 0))
        by (bit_vector)
        requires
            field < 0x100_0000,
            l == 0 || l == 0x0100_0000,
            w == 0xEA00_0000u32 | l | field,
    ;
}

impl Instruction {
    /// Decodes one ARM instruction word.
    pub fn decode_arm(instr: u32) -> (r: Result<Instruction, DecodeError>)
        ensures
            decodes(instr, r),
    {
        let condition = match read_condition(instr >> 28) {
            Some(c) => c,
            None => {
                return Err(DecodeError { word: instr, reason: DecodeReason::ReservedCondition });
            },
        };
        match read_instruction_op(instr & CONDITION_MASK) {
            Ok(instruction) => Ok(Instruction { condition, instruction }),
            Err(reason) => Err(DecodeError { word: instr, reason }),
        }
    }
}

fn read_condition(cond: u32) -> (r: Option<Condition>)
    ensures
        r == condition_of(cond),
{
    match cond {
        0 => Some(Condition::Equal),
        1 => Some(Condition::NotEqual),
        2 => Some(Condition::UnsignedGe),
        3 => Some(Condition::UnsignedLt),
        4 => Some(Condition::Negative),
        5 => Some(Condition::Positive),
        6 => Some(Condition::Overflow),
        7 => Some(Condition::NoOverflow),
        8 => Some(Condition::UnsignedGt),
        9 => Some(Condition::UnsignedLe),
        10 => Some(Condition::Ge),
        11 => Some(Condition::Lt),
        12 => Some(Condition::Gt),
        13 => Some(Condition::Le),
        14 => Some(Condition::Always),
        _ => None,
    }
}

fn read_instruction_op(op: u32) -> (r: Result<InstructionOp, DecodeReason>)
    ensures
        decodes_op(op, r),
{
    let top = (op >> 26) & 3;
    if top == 0 {
        if test_bit(op, 25) {
            Ok(decode_data_processing(true, op))
        } else if !test_bit(op, 4) {
            Ok(decode_data_processing(false, op))
        } else if !test_bit(op, 7) {
            Ok(decode_branch_exchange(op))
        } else if test_bit(op, 5) || test_bit(op, 6) {
            Err(DecodeReason::HalfwordTransfer)
        } else if test_bit(op, 24) {
            Ok(decode_swap(op))
        } else if test_bit(op, 23) {
            Ok(decode_multiply_long(op))
        } else {
            Ok(decode_multiply(op))
        }
    } else if top == 1 {
        if test_bit(op, 25) && test_bit(op, 4) {
            Err(DecodeReason::Undefined)
        } else {
            Ok(decode_single_data_transfer(op))
        }
    } else if top == 2 {
        if test_bit(op, 25) {
            Ok(decode_branch(op))
        } else {
            Ok(decode_block_data_transfer(op))
        }
    } else {
        Err(DecodeReason::CoprocessorOrSoftwareInterrupt)
    }
}

/// The register named by the four-bit field of `w` at bit `lo`.
fn register_field(w: u32, lo: u32) -> (r: Register)
    requires
        lo < 32,
    ensures
        r == reg_field(w, lo),
{
    read_register(read_nibble(w, lo))
}

fn decode_data_processing(immediate: bool, bits: u32) -> (r: InstructionOp)
    ensures
        r == data_processing_of(bits, immediate),
{
    let alter_condition = test_bit(bits, 20);
    let opcode = read_dataprocessing_opcode(read_nibble(bits, 21));
    let rd = register_field(bits, 12);
    let rn = register_field(bits, 16);
    let operand2 = if immediate {
        Operand::Immediate { rotate: read_nibble(bits, 8), value: (bits & 0xFF) as u8 }
    } else {
        Operand::Register { shift: ((bits >> 4) & 0xFF) as u8, register: register_field(bits, 0) }
    };
    InstructionOp::DataProcessing { opcode, dest: rd, operand1: rn, operand2, alter_condition }
}

fn decode_single_data_transfer(bits: u32) -> (r: InstructionOp)
    ensures
        r == single_data_transfer_of(bits),
{
    let offset = if test_bit(bits, 25) {
        Offset::Register { shift: ((bits >> 4) & 0xFF) as u8, register: register_field(bits, 0) }
    } else {
        Offset::Immediate { offset: (bits & 0xFFF) as u16 }
    };
    InstructionOp::SingleDataTransfer {
        base: register_field(bits, 16),
        source_dest: register_field(bits, 12),
        load: test_bit(bits, 20),
        write_back: test_bit(bits, 21),
        write_byte: test_bit(bits, 22),
        add_offset: test_bit(bits, 23),
        pre_index: test_bit(bits, 24),
        offset,
    }
}

fn decode_branch_exchange(bits: u32) -> (r: InstructionOp)
    ensures
        r == branch_exchange_of(bits),
{
    InstructionOp::Branch { branch: Branch::Exchange { register: register_field(bits, 0) } }
}

fn decode_branch(bits: u32) -> (r: InstructionOp)
    ensures
        r == branch_of(bits),
{
    InstructionOp::Branch {
        branch: Branch::Offset { offset: bits & 0xFF_FFFF, link: test_bit(bits, 24) },
    }
}

fn decode_multiply(bits: u32) -> (r: InstructionOp)
    ensures
        r == multiply_of(bits),
{
    InstructionOp::Multiply {
        dest: register_field(bits, 16),
        operand1: register_field(bits, 0),
        operand2: register_field(bits, 8),
        accumulate: test_bit(bits, 21),
        acc_operand: register_field(bits, 12),
        alter_condition: test_bit(bits, 20),
    }
}

fn decode_multiply_long(bits: u32) -> (r: InstructionOp)
    ensures
        r == multiply_long_of(bits),
{
    InstructionOp::MultiplyLong {
        dest_high: register_field(bits, 16),
        dest_low: register_field(bits, 12),
        operand1: register_field(bits, 0),
        operand2: register_field(bits, 8),
        accumulate: test_bit(bits, 21),
        signed: test_bit(bits, 22),
        alter_condition: test_bit(bits, 20),
    }
}

fn decode_swap(bits: u32) -> (r: InstructionOp)
    ensures
        r == swap_of(bits),
{
    InstructionOp::Swap {
        source: register_field(bits, 0),
        dest: register_field(bits, 12),
        base: register_field(bits, 16),
        byte: test_bit(bits, 22),
    }
}

fn decode_block_data_transfer(bits: u32) -> (r: InstructionOp)
    ensures
        is_block_data_transfer_of(bits, r),
{
    let mut register_list: Vec<Register> = Vec::new();
    let mut reg: u32 = 0;
    while reg < 16
        invariant
            reg <= 16,
            register_list@ == registers_in(bits, reg as nat),
        decreases 16 - reg,
    {
        if test_bit(bits, reg) {
            register_list.push(read_register(reg as u8));
        }
        reg = reg + 1;
    }
    InstructionOp::BlockDataTransfer {
        base: register_field(bits, 16),
        load: test_bit(bits, 20),
        write_back: test_bit(bits, 21),
        force_psr: test_bit(bits, 22),
        add_offset: test_bit(bits, 23),
        pre_index: test_bit(bits, 24),
        register_list,
    }
}

fn read_dataprocessing_opcode(bits: u8) -> (r: DataProcessingOpCode)
    requires
        bits < 16,
    ensures
        r == opcode_of(bits as u32),
{
    match bits {
        0b0000 => DataProcessingOpCode::And,
        0b0001 => DataProcessingOpCode::Eor,
        0b0010 => DataProcessingOpCode::Sub,
        0b0011 => DataProcessingOpCode::Rsb,
        0b0100 => DataProcessingOpCode::Add,
        0b0101 => DataProcessingOpCode::Adc,
        0b0110 => DataProcessingOpCode::Sbc,
        0b0111 => DataProcessingOpCode::Rsc,
        0b1000 => DataProcessingOpCode::Tst,
        0b1001 => DataProcessingOpCode::Teq,
        0b1010 => DataProcessingOpCode::Cmp,
        0b1011 => DataProcessingOpCode::Cmn,
        0b1100 => DataProcessingOpCode::Orr,
        0b1101 => DataProcessingOpCode::Mov,
        0b1110 => DataProcessingOpCode::Bic,
        _ => DataProcessingOpCode::Mvn,
    }
}

/// The register numbered `bits`.
pub(crate) fn read_register(bits: u8) -> (r: Register)
    requires
        bits < 16,
    ensures
        r == register_of(bits as u32),
{
    match bits {
        0b0000 => Register::R0,
        0b0001 => Register::R1,
        0b0010 => Register::R2,
        0b0011 => Register::R3,
        0b0100 => Register::R4,
        0b0101 => Register::R5,
        0b0110 => Register::R6,
        0b0111 => Register::R7,
        0b1000 => Register::R8,
        0b1001 => Register::R9,
        0b1010 => Register::R10,
        0b1011 => Register::R11,
        0b1100 => Register::R12,
        0b1101 => Register::R13,
        0b1110 => Register::R14,
        _ => Register::R15,
    }
}

} // verus!
