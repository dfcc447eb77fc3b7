//! The canonical model of the target CPU's instruction set: registers,
//! conditions, operand widths, the closed enumeration of operations, and the
//! fixed binary encoding (opcode byte and operand bytes) of each operation.
//!
//! This module is the single source of truth for instruction sizes and byte
//! layouts: the encoder serializes exactly `Instruction::spec_bytes`, and
//! every instruction's encoded length is pinned by `Instruction::spec_len`.

use vstd::prelude::*;

verus! {

/// One of the eight 8-bit register operands. `M` denotes the memory cell
/// addressed by the `HL` register pair rather than a physical register.
#[derive(Copy, Clone, Debug, Hash, PartialEq, Eq, Structural)]
pub enum Register8 {
    B,
    C,
    D,
    E,
    H,
    L,
    M,
    A,
}

impl Register8 {
    /// The three-bit field that selects this register inside an opcode.
    pub open spec fn spec_code(self) -> u8 {
        match self {
            Register8::B => 0,
            Register8::C => 1,
            Register8::D => 2,
            Register8::E => 3,
            Register8::H => 4,
            Register8::L => 5,
            Register8::M => 6,
            Register8::A => 7,
        }
    }

    pub(crate) fn code(&self) -> (r: u8)
        ensures
            r == self.spec_code(),
    {
        match self {
            Register8::B => 0,
            Register8::C => 1,
            Register8::D => 2,
            Register8::E => 3,
            Register8::H => 4,
            Register8::L => 5,
            Register8::M => 6,
            Register8::A => 7,
        }
    }
}

/// One of the four 16-bit register pairs. In opcodes that take a stack
/// operand, the pair field value of `Sp` selects the processor-status word
/// instead of the stack pointer; the field encoding is the same.
#[derive(Copy, Clone, Debug, Hash, PartialEq, Eq, Structural)]
pub enum Register16 {
    Bc,
    De,
    Hl,
    Sp,
}

impl Register16 {
    /// The two-bit field that selects this register pair inside an opcode.
    pub open spec fn spec_code(self) -> u8 {
        match self {
            Register16::Bc => 0,
            Register16::De => 1,
            Register16::Hl => 2,
            Register16::Sp => 3,
        }
    }

    pub(crate) fn code(&self) -> (r: u8)
        ensures
            r == self.spec_code(),
    {
        match self {
            Register16::Bc => 0,
            Register16::De => 1,
            Register16::Hl => 2,
            Register16::Sp => 3,
        }
    }
}

/// Either kind of register operand.
#[derive(Copy, Clone, Debug, Hash, PartialEq, Eq, Structural)]
pub enum Register {
    Register8(Register8),
    Register16(Register16),
}

pub type Data8 = u8;

/// A 16-bit value stored as its little-endian halves.
#[derive(Copy, Clone, Debug, Hash, PartialEq, Eq, Structural)]
pub struct Data16 {
    pub low: Data8,
    pub high: Data8,
}

impl Data16 {
    pub open spec fn spec_value(self) -> u16 {
        (self.low + 256 * self.high) as u16
    }

    pub fn new(low: Data8, high: Data8) -> (r: Self)
        ensures
            r == (Data16 { low, high }),
    {
        Self { low, high }
    }

    /// The numeric value, with `low` as the less significant byte.
    pub fn value(&self) -> (r: u16)
        ensures
            r == self.spec_value(),
    {
        self.low as u16 + (self.high as u16) * 256
    }
}

impl From<u16> for Data16 {
    /// Splits a 16-bit value into its little-endian halves.
    fn from(value: u16) -> (r: Self)
        ensures
            r == Data16::spec_from_u16(value),
    {
        Self { low: (value % 256) as u8, high: (value / 256) as u8 }
    }
}

impl vstd::std_specs::convert::FromSpecImpl<u16> for Data16 {
    open spec fn obeys_from_spec() -> bool {
        true
    }

    open spec fn from_spec(value: u16) -> Data16 {
        Data16::spec_from_u16(value)
    }
}

impl Data16 {
    pub open spec fn spec_from_u16(value: u16) -> Data16 {
        Data16 { low: (value % 256) as u8, high: (value / 256) as u8 }
    }

    /// Splitting a value into halves and reading them back is the identity.
    pub proof fn lemma_from_value_roundtrip(value: u16)
        ensures
            Data16::spec_from_u16(value).spec_value() == value,
    {
    }
}

/// A 16-bit address, stored like any other 16-bit operand.
pub type Address = Data16;

pub type Port = Data8;

/// One of the eight flag tests available to conditional jumps, calls and
/// returns.
#[derive(Copy, Clone, Debug, Hash, PartialEq, Eq, Structural)]
pub enum Condition {
    Carry,
    NoCarry,
    Zero,
    NoZero,
    Positive,
    Minus,
    ParityEven,
    ParityOdd,
}

impl Condition {
    /// The three-bit field that selects this flag test inside an opcode.
    pub open spec fn spec_code(self) -> u8 {
        match self {
            Condition::NoZero => 0,
            Condition::Zero => 1,
            Condition::NoCarry => 2,
            Condition::Carry => 3,
            Condition::ParityOdd => 4,
            Condition::ParityEven => 5,
            Condition::Positive => 6,
            Condition::Minus => 7,
        }
    }

    pub(crate) fn code(&self) -> (r: u8)
        ensures
            r == self.spec_code(),
    {
        match self {
            Condition::NoZero => 0,
            Condition::Zero => 1,
            Condition::NoCarry => 2,
            Condition::Carry => 3,
            Condition::ParityOdd => 4,
            Condition::ParityEven => 5,
            Condition::Positive => 6,
            Condition::Minus => 7,
        }
    }
}

/// One of the eight fixed restart vectors.
#[derive(Copy, Clone, Debug, Hash, PartialEq, Eq, Structural)]
pub enum ResetNumber {
    R0,
    R1,
    R2,
    R3,
    R4,
    R5,
    R6,
    R7,
}

impl ResetNumber {
    /// The selector byte that follows a restart opcode.
    pub open spec fn spec_code(self) -> u8 {
        match self {
            ResetNumber::R0 => 0,
            ResetNumber::R1 => 1,
            ResetNumber::R2 => 2,
            ResetNumber::R3 => 3,
            ResetNumber::R4 => 4,
            ResetNumber::R5 => 5,
            ResetNumber::R6 => 6,
            ResetNumber::R7 => 7,
        }
    }

    pub(crate) fn code(&self) -> (r: u8)
        ensures
            r == self.spec_code(),
    {
        match self {
            ResetNumber::R0 => 0,
            ResetNumber::R1 => 1,
            ResetNumber::R2 => 2,
            ResetNumber::R3 => 3,
            ResetNumber::R4 => 4,
            ResetNumber::R5 => 5,
            ResetNumber::R6 => 6,
            ResetNumber::R7 => 7,
        }
    }
}

/// The closed enumeration of CPU operations. Every variant has a fixed
/// operand shape and a fixed encoded length of one, two or three bytes.
#[derive(Copy, Clone, Debug, Hash, PartialEq, Eq, Structural)]
pub enum Instruction {
    Nop,
    Lxi(Register16, Data16),
    Stax(Register16),
    Inx(Register16),
    Inr(Register8),
    Dcr(Register8),
    Mvi(Register8, Data8),
    Dad(Register16),
    Ldax(Register16),
    Dcx(Register16),
    Rlc,
    Rrc,
    Ral,
    Rar,
    Shld(Address),
    Daa,
    Lhld(Address),
    Cma,
    Sta(Address),
    Stc,
    Lda(Address),
    Cmc,
    Mov(Register8, Register8),
    Hlt,
    Add(Register8),
    Adc(Register8),
    Sub(Register8),
    Sbb(Register8),
    Ana(Register8),
    Xra(Register8),
    Ora(Register8),
    Cmp(Register8),
    Rcc(Condition),
    Pop(Register16),
    Jcc(Condition, Address),
    Jmp(Address),
    Ccc(Condition, Address),
    Push(Register16),
    Adi(Data8),
    Aci(Data8),
    Sui(Data8),
    Sbi(Data8),
    Ani(Data8),
    Xri(Data8),
    Ori(Data8),
    Cpi(Data8),
    Rst(ResetNumber),
    Ret,
    Call(Address),
    Out(Port),
    In(Port),
    Xthl,
    Pchl,
    Xchg,
    Di,
    Sphl,
    Ei,
}

impl Instruction {
    /// The first (and for one-byte operations the only) encoded byte.
    pub open spec fn spec_opcode(self) -> u8 {
        match self {
            Instruction::Nop => 0x00,
            Instruction::Lxi(rp, _) => (0x01 + 16 * rp.spec_code()) as u8,
            Instruction::Stax(rp) => (0x02 + 16 * rp.spec_code()) as u8,
            Instruction::Inx(rp) => (0x03 + 16 * rp.spec_code()) as u8,
            Instruction::Inr(r) => (0x04 + 8 * r.spec_code()) as u8,
            Instruction::Dcr(r) => (0x05 + 8 * r.spec_code()) as u8,
            Instruction::Mvi(r, _) => (0x06 + 8 * r.spec_code()) as u8,
            Instruction::Dad(rp) => (0x09 + 16 * rp.spec_code()) as u8,
            Instruction::Ldax(rp) => (0x0a + 16 * rp.spec_code()) as u8,
            Instruction::Dcx(rp) => (0x0b + 16 * rp.spec_code()) as u8,
            Instruction::Rlc => 0x07,
            Instruction::Rrc => 0x0f,
            Instruction::Ral => 0x17,
            Instruction::Rar => 0x1f,
            Instruction::Shld(_) => 0x22,
            Instruction::Daa => 0x27,
            Instruction::Lhld(_) => 0x2a,
            Instruction::Cma => 0x2f,
            Instruction::Sta(_) => 0x32,
            Instruction::Stc => 0x37,
            Instruction::Lda(_) => 0x3a,
            Instruction::Cmc => 0x3f,
            Instruction::Mov(d, s) => (0x40 + 8 * d.spec_code() + s.spec_code()) as u8,
            Instruction::Hlt => 0x76,
            Instruction::Add(r) => (0x80 + r.spec_code()) as u8,
            Instruction::Adc(r) => (0x88 + r.spec_code()) as u8,
            Instruction::Sub(r) => (0x90 + r.spec_code()) as u8,
            Instruction::Sbb(r) => (0x98 + r.spec_code()) as u8,
            Instruction::Ana(r) => (0xa0 + r.spec_code()) as u8,
            Instruction::Xra(r) => (0xa8 + r.spec_code()) as u8,
            Instruction::Ora(r) => (0xb0 + r.spec_code()) as u8,
            Instruction::Cmp(r) => (0xb8 + r.spec_code()) as u8,
            Instruction::Rcc(c) => (0xc0 + 8 * c.spec_code()) as u8,
            Instruction::Pop(rp) => (0xc1 + 16 * rp.spec_code()) as u8,
            Instruction::Jcc(c, _) => (0xc2 + 8 * c.spec_code()) as u8,
            Instruction::Jmp(_) => 0xc3,
            Instruction::Ccc(c, _) => (0xc4 + 8 * c.spec_code()) as u8,
            Instruction::Push(rp) => (0xc5 + 16 * rp.spec_code()) as u8,
            Instruction::Adi(_) => 0xc6,
            Instruction::Aci(_) => 0xce,
            Instruction::Sui(_) => 0xd6,
            Instruction::Sbi(_) => 0xde,
            Instruction::Ani(_) => 0xe6,
            Instruction::Xri(_) => 0xee,
            Instruction::Ori(_) => 0xf6,
            Instruction::Cpi(_) => 0xfe,
            Instruction::Rst(_) => 0xc7,
            Instruction::Ret => 0xc9,
            Instruction::Call(_) => 0xcd,
            Instruction::Out(_) => 0xd3,
            Instruction::In(_) => 0xdb,
            Instruction::Xthl => 0xe3,
            Instruction::Pchl => 0xe9,
            Instruction::Xchg => 0xeb,
            Instruction::Di => 0xf3,
            Instruction::Sphl => 0xf9,
            Instruction::Ei => 0xfb,
        }
    }

    /// The encoded bytes that follow the opcode: nothing, one immediate
    /// byte, or a 16-bit value split low byte first.
    pub open spec fn spec_operand_bytes(self) -> Seq<u8> {
        match self {
            Instruction::Lxi(_, d) => seq![d.low, d.high],
            Instruction::Shld(a) => seq![a.low, a.high],
            Instruction::Lhld(a) => seq![a.low, a.high],
            Instruction::Sta(a) => seq![a.low, a.high],
            Instruction::Lda(a) => seq![a.low, a.high],
            Instruction::Jcc(_, a) => seq![a.low, a.high],
            Instruction::Jmp(a) => seq![a.low, a.high],
            Instruction::Ccc(_, a) => seq![a.low, a.high],
            Instruction::Call(a) => seq![a.low, a.high],
            Instruction::Mvi(_, d) => seq![d],
            Instruction::Adi(d) => seq![d],
            Instruction::Aci(d) => seq![d],
            Instruction::Sui(d) => seq![d],
            Instruction::Sbi(d) => seq![d],
            Instruction::Ani(d) => seq![d],
            Instruction::Xri(d) => seq![d],
            Instruction::Ori(d) => seq![d],
            Instruction::Cpi(d) => seq![d],
            Instruction::Out(p) => seq![p],
            Instruction::In(p) => seq![p],
            Instruction::Rst(n) => seq![n.spec_code()],
            _ => seq![],
        }
    }

    /// The complete encoding: the opcode byte followed by the operand bytes.
    pub open spec fn spec_bytes(self) -> Seq<u8> {
        seq![self.spec_opcode()] + self.spec_operand_bytes()
    }

    /// The encoded length in bytes, fixed per operation.
    pub open spec fn spec_len(self) -> int {
        self.spec_bytes().len() as int
    }

    /// Every instruction encodes to one, two or three bytes.
    pub proof fn lemma_len_bounds(self)
        ensures
            1 <= self.spec_len() <= 3,
    {
    }
}

/// One atomic piece of encoder output: a single byte, a 16-bit word split
/// low byte first, a decoded instruction, or an opaque byte run.
#[derive(Clone, Debug, PartialEq, Eq)]
pub enum InstructionOrData {
    Byte(u8),
    Word(Data16),
    Instruction(Instruction),
    Slice(Vec<u8>),
}

/// The mathematical model of an emission unit, with byte runs abstracted to
/// sequences.
pub enum EmissionUnit {
    Byte(u8),
    Word(Data16),
    Instruction(Instruction),
    Slice(Seq<u8>),
}

impl View for InstructionOrData {
    type V = EmissionUnit;

    open spec fn view(&self) -> EmissionUnit {
        match self {
            InstructionOrData::Byte(b) => EmissionUnit::Byte(*b),
            InstructionOrData::Word(d) => EmissionUnit::Word(*d),
            InstructionOrData::Instruction(i) => EmissionUnit::Instruction(*i),
            InstructionOrData::Slice(bytes) => EmissionUnit::Slice(bytes@),
        }
    }
}

} // verus!
