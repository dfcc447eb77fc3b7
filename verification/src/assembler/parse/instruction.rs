//! Statement-level grammar and resolution: the parsed form of data
//! directives and instructions, their statically known byte lengths, and
//! the conversion of parsed operands into fully resolved instructions via
//! the completed label table.

use vstd::prelude::*;
use vstd::slice::{slice_subrange, slice_to_vec};
use crate::assembler::labels::{Label, LabelLookup};
use crate::assembler::parse::number::{parse_literal_number, spec_is_number_word, spec_number_value, LiteralNumber};
use crate::assembler::parse::{
    read_word, skip_ws, spec_read_word, spec_skip_ws, ParseError, ParseErrorKind, AT_SIGN, COMMA,
    QUESTION_MARK, QUOTE, L_A, L_B, L_C, L_D, L_E, L_G, L_H, L_I, L_J, L_L, L_M, L_N, L_O, L_P,
    L_R, L_S, L_T, L_U, L_V, L_W, L_X, L_Z,
};
use crate::instruction::{Address, Condition, Data16, Instruction, Register8, Register16, ResetNumber};

verus! {

/// One source statement: a data directive or an instruction.
#[derive(Clone, Debug, PartialEq, Eq)]
pub enum Statement {
    DataStatement(DataStatement),
    Instruction(ParsedInstruction),
}

impl Statement {
    /// The statement's statically determined byte length, computable
    /// before any label is resolved.
    pub open spec fn spec_len(self) -> int {
        match self {
            Statement::DataStatement(d) => d.spec_len(),
            Statement::Instruction(p) => p.spec_len(),
        }
    }
}

/// No statement has a negative length.
pub proof fn lemma_statement_len_nonneg(s: Statement)
    ensures
        s.spec_len() >= 0,
{
}

/// The raw bytes of a quoted string literal, quotes excluded.
#[derive(Clone, Debug, PartialEq, Eq)]
pub struct LiteralString {
    pub bytes: Vec<u8>,
}

/// The operand of a byte-define directive.
#[derive(Clone, Debug, PartialEq, Eq)]
pub enum LiteralStringOrNumber {
    String(LiteralString),
    Number(LiteralNumber),
}

/// The bytes a byte-define operand emits: the string's raw bytes verbatim,
/// or exactly one byte, absent when the number does not fit in it.
pub open spec fn spec_data_bytes(l: LiteralStringOrNumber) -> Option<Seq<u8>> {
    match l {
        LiteralStringOrNumber::String(s) => Some(s.bytes@),
        LiteralStringOrNumber::Number(n) => if n.value < 256 {
            Some(seq![n.value as u8])
        } else {
            None
        },
    }
}

impl LiteralStringOrNumber {
    /// The emitted bytes, or nothing when a numeric operand overflows one
    /// byte.
    pub fn get(self) -> (r: Option<Vec<u8>>)
        ensures
            match r {
                Some(v) => spec_data_bytes(self) == Some(v@),
                None => spec_data_bytes(self) is None,
            },
    {
        match self {
            LiteralStringOrNumber::String(s) => Some(s.bytes),
            LiteralStringOrNumber::Number(n) => match n.to_u8() {
                Some(b) => {
                    let mut v = Vec::new();
                    v.push(b);
                    proof {
                        assert(v@ =~= seq![n.value as u8]);
                    }
                    Some(v)
                },
                None => None,
            },
        }
    }
}

/// A data directive: define-byte, define-word or storage reservation.
#[derive(Clone, Debug, PartialEq, Eq)]
pub enum DataStatement {
    DefineByte(LiteralStringOrNumber),
    DefineWord(LabelOrLiteralNumber),
    DefineStorage(LiteralNumber),
}

impl DataStatement {
    /// The directive's contribution to the address counter: the literal's
    /// length or one for define-byte, two for define-word, and the operand
    /// value for storage reservation.
    pub open spec fn spec_len(self) -> int {
        match self {
            DataStatement::DefineByte(LiteralStringOrNumber::String(s)) => s.bytes@.len() as int,
            DataStatement::DefineByte(LiteralStringOrNumber::Number(_)) => 1,
            DataStatement::DefineWord(_) => 2,
            DataStatement::DefineStorage(n) => n.value as int,
        }
    }

    /// The directive's byte length, absent when it exceeds the address
    /// space.
    pub fn byte_length(&self) -> (r: Option<u16>)
        ensures
            match r {
                Some(l) => self.spec_len() == l,
                None => self.spec_len() > 0xffff,
            },
    {
        match self {
            DataStatement::DefineByte(LiteralStringOrNumber::String(s)) => {
                let n = s.bytes.len();
                if n <= 0xffff {
                    Some(n as u16)
                } else {
                    None
                }
            },
            DataStatement::DefineByte(LiteralStringOrNumber::Number(_)) => Some(1),
            DataStatement::DefineWord(_) => Some(2),
            DataStatement::DefineStorage(n) => Some(n.value),
        }
    }
}

/// A 16-bit operand spelled either as a label reference or as a numeric
/// literal.
#[derive(Clone, Debug, PartialEq, Eq)]
pub enum LabelOrLiteralNumber {
    Label(Label),
    LiteralNumber(LiteralNumber),
}

/// What a 16-bit operand resolves to under a label table: the table's entry
/// for a label (absent when the label is unknown), or the literal's value.
pub open spec fn spec_resolve_operand(o: LabelOrLiteralNumber, m: Map<Seq<u8>, u16>) -> Option<
    u16,
> {
    match o {
        LabelOrLiteralNumber::Label(l) => if m.contains_key(l@) {
            Some(m[l@])
        } else {
            None
        },
        LabelOrLiteralNumber::LiteralNumber(n) => Some(n.value),
    }
}

impl LabelOrLiteralNumber {
    /// Resolves the operand against the completed label table.
    pub fn get(self, label_lookup: &LabelLookup) -> (r: Option<Address>)
        ensures
            match spec_resolve_operand(self, label_lookup@) {
                Some(v) => r == Some(Data16::spec_from_u16(v)),
                None => r is None,
            },
    {
        match self {
            LabelOrLiteralNumber::Label(label) => label_lookup.lookup(label),
            LabelOrLiteralNumber::LiteralNumber(n) => Some(Address::from(n.value)),
        }
    }
}

/// Why a parsed statement failed to resolve: a reference to a label with
/// no definition, or a literal that does not fit its operand width.
#[derive(Copy, Clone, Debug, PartialEq, Eq, Structural)]
pub enum ResolveError {
    UnknownLabel,
    InvalidNumber,
}

/// An instruction as parsed: the mnemonic's shape with operands still in
/// source form (labels unresolved, numbers not yet narrowed).
#[derive(Clone, Debug, PartialEq, Eq)]
pub struct ParsedInstruction {
    pub inner: ParsedInstructionInner,
}

/// One variant per mnemonic, carrying that mnemonic's operands.
#[derive(Clone, Debug, PartialEq, Eq)]
pub enum ParsedInstructionInner {
    Mov(Register8, Register8),
    Mvi(Register8, LiteralNumber),
    Lxi(Register16, LabelOrLiteralNumber),
    Lda(Label),
    Sta(Label),
    Lhld(LabelOrLiteralNumber),
    Shld(LabelOrLiteralNumber),
    Ldax(Register16),
    Stax(Register16),
    Xchg,
    Add(Register8),
    Adi(LiteralNumber),
    Adc(Register8),
    Aci(LiteralNumber),
    Sub(Register8),
    Sui(LiteralNumber),
    Sbb(Register8),
    Sbi(LiteralNumber),
    Inr(Register8),
    Dcr(Register8),
    Inx(Register16),
    Dcx(Register16),
    Dad(Register16),
    Daa,
    Ana(Register8),
    Ani(LiteralNumber),
    Xra(Register8),
    Xri(LiteralNumber),
    Ora(Register8),
    Ori(LiteralNumber),
    Cmp(Register8),
    Cpi(LiteralNumber),
    Rlc,
    Rrc,
    Ral,
    Rar,
    Cma,
    Cmc,
    Stc,
    Jmp(LabelOrLiteralNumber),
    Jc(LabelOrLiteralNumber),
    Jnc(LabelOrLiteralNumber),
    Jz(LabelOrLiteralNumber),
    Jnz(LabelOrLiteralNumber),
    Jp(LabelOrLiteralNumber),
    Jm(LabelOrLiteralNumber),
    Jpe(LabelOrLiteralNumber),
    Jpo(LabelOrLiteralNumber),
    Call(LabelOrLiteralNumber),
    Cc(LabelOrLiteralNumber),
    Cnc(LabelOrLiteralNumber),
    Cz(LabelOrLiteralNumber),
    Cnz(LabelOrLiteralNumber),
    Cp(LabelOrLiteralNumber),
    Cm(LabelOrLiteralNumber),
    Cpe(LabelOrLiteralNumber),
    Cpo(LabelOrLiteralNumber),
    Ret,
    Rc,
    Rnc,
    Rz,
    Rnz,
    Rp,
    Rm,
    Rpe,
    Rpo,
    Rst(LiteralNumber),
    Pchl,
    Push(Register16),
    Pop(Register16),
    Xthl,
    Sphl,
    In(LiteralNumber),
    Out(LiteralNumber),
    Ei,
    Di,
    Hlt,
    Nop,
}

/// An eight-bit immediate, absent when the literal does not fit.
pub open spec fn spec_narrow8(n: LiteralNumber) -> Option<u8> {
    if n.value < 256 {
        Some(n.value as u8)
    } else {
        None
    }
}

/// The restart vector a literal selects, absent above seven.
pub open spec fn spec_reset_number(n: LiteralNumber) -> Option<ResetNumber> {
    if n.value == 0 {
        Some(ResetNumber::R0)
    } else if n.value == 1 {
        Some(ResetNumber::R1)
    } else if n.value == 2 {
        Some(ResetNumber::R2)
    } else if n.value == 3 {
        Some(ResetNumber::R3)
    } else if n.value == 4 {
        Some(ResetNumber::R4)
    } else if n.value == 5 {
        Some(ResetNumber::R5)
    } else if n.value == 6 {
        Some(ResetNumber::R6)
    } else if n.value == 7 {
        Some(ResetNumber::R7)
    } else {
        None
    }
}

/// An address operand's resolution, as a 16-bit pair.
pub open spec fn spec_resolve_address(o: LabelOrLiteralNumber, m: Map<Seq<u8>, u16>) -> Result<
    Data16,
    ResolveError,
> {
    match spec_resolve_operand(o, m) {
        Some(v) => Ok(Data16::spec_from_u16(v)),
        None => Err(ResolveError::UnknownLabel),
    }
}

/// A label-only address operand's resolution.
pub open spec fn spec_resolve_label(l: Label, m: Map<Seq<u8>, u16>) -> Result<
    Data16,
    ResolveError,
> {
    if m.contains_key(l@) {
        Ok(Data16::spec_from_u16(m[l@]))
    } else {
        Err(ResolveError::UnknownLabel)
    }
}

/// An eight-bit immediate operand's resolution.
pub open spec fn spec_resolve_data8(n: LiteralNumber) -> Result<u8, ResolveError> {
    match spec_narrow8(n) {
        Some(d) => Ok(d),
        None => Err(ResolveError::InvalidNumber),
    }
}

/// What a parsed instruction resolves to under a label table: the fully
/// decoded instruction, or the first operand failure.
pub open spec fn spec_resolve_instruction(
    pi: ParsedInstructionInner,
    m: Map<Seq<u8>, u16>,
) -> Result<Instruction, ResolveError> {
    match pi {
        ParsedInstructionInner::Mov(d, s) => Ok(Instruction::Mov(d, s)),
        ParsedInstructionInner::Mvi(r, n) => match spec_resolve_data8(n) {
            Ok(d) => Ok(Instruction::Mvi(r, d)),
            Err(e) => Err(e),
        },
        ParsedInstructionInner::Lxi(rp, o) => match spec_resolve_address(o, m) {
            Ok(a) => Ok(Instruction::Lxi(rp, a)),
            Err(e) => Err(e),
        },
        ParsedInstructionInner::Lda(l) => match spec_resolve_label(l, m) {
            Ok(a) => Ok(Instruction::Lda(a)),
            Err(e) => Err(e),
        },
        ParsedInstructionInner::Sta(l) => match spec_resolve_label(l, m) {
            Ok(a) => Ok(Instruction::Sta(a)),
            Err(e) => Err(e),
        },
        ParsedInstructionInner::Lhld(o) => match spec_resolve_address(o, m) {
            Ok(a) => Ok(Instruction::Lhld(a)),
            Err(e) => Err(e),
        },
        ParsedInstructionInner::Shld(o) => match spec_resolve_address(o, m) {
            Ok(a) => Ok(Instruction::Shld(a)),
            Err(e) => Err(e),
        },
        ParsedInstructionInner::Ldax(rp) => Ok(Instruction::Ldax(rp)),
        ParsedInstructionInner::Stax(rp) => Ok(Instruction::Stax(rp)),
        ParsedInstructionInner::Xchg => Ok(Instruction::Xchg),
        ParsedInstructionInner::Add(r) => Ok(Instruction::Add(r)),
        ParsedInstructionInner::Adi(n) => match spec_resolve_data8(n) {
            Ok(d) => Ok(Instruction::Adi(d)),
            Err(e) => Err(e),
        },
        ParsedInstructionInner::Adc(r) => Ok(Instruction::Adc(r)),
        ParsedInstructionInner::Aci(n) => match spec_resolve_data8(n) {
            Ok(d) => Ok(Instruction::Aci(d)),
            Err(e) => Err(e),
        },
        ParsedInstructionInner::Sub(r) => Ok(Instruction::Sub(r)),
        ParsedInstructionInner::Sui(n) => match spec_resolve_data8(n) {
            Ok(d) => Ok(Instruction::Sui(d)),
            Err(e) => Err(e),
        },
        ParsedInstructionInner::Sbb(r) => Ok(Instruction::Sbb(r)),
        ParsedInstructionInner::Sbi(n) => match spec_resolve_data8(n) {
            Ok(d) => Ok(Instruction::Sbi(d)),
            Err(e) => Err(e),
        },
        ParsedInstructionInner::Inr(r) => Ok(Instruction::Inr(r)),
        ParsedInstructionInner::Dcr(r) => Ok(Instruction::Dcr(r)),
        ParsedInstructionInner::Inx(rp) => Ok(Instruction::Inx(rp)),
        ParsedInstructionInner::Dcx(rp) => Ok(Instruction::Dcx(rp)),
        ParsedInstructionInner::Dad(rp) => Ok(Instruction::Dad(rp)),
        ParsedInstructionInner::Daa => Ok(Instruction::Daa),
        ParsedInstructionInner::Ana(r) => Ok(Instruction::Ana(r)),
        ParsedInstructionInner::Ani(n) => match spec_resolve_data8(n) {
            Ok(d) => Ok(Instruction::Ani(d)),
            Err(e) => Err(e),
        },
        ParsedInstructionInner::Xra(r) => Ok(Instruction::Xra(r)),
        ParsedInstructionInner::Xri(n) => match spec_resolve_data8(n) {
            Ok(d) => Ok(Instruction::Xri(d)),
            Err(e) => Err(e),
        },
        ParsedInstructionInner::Ora(r) => Ok(Instruction::Ora(r)),
        ParsedInstructionInner::Ori(n) => match spec_resolve_data8(n) {
            Ok(d) => Ok(Instruction::Ori(d)),
            Err(e) => Err(e),
        },
        ParsedInstructionInner::Cmp(r) => Ok(Instruction::Cmp(r)),
        ParsedInstructionInner::Cpi(n) => match spec_resolve_data8(n) {
            Ok(d) => Ok(Instruction::Cpi(d)),
            Err(e) => Err(e),
        },
        ParsedInstructionInner::Rlc => Ok(Instruction::Rlc),
        ParsedInstructionInner::Rrc => Ok(Instruction::Rrc),
        ParsedInstructionInner::Ral => Ok(Instruction::Ral),
        ParsedInstructionInner::Rar => Ok(Instruction::Rar),
        ParsedInstructionInner::Cma => Ok(Instruction::Cma),
        ParsedInstructionInner::Cmc => Ok(Instruction::Cmc),
        ParsedInstructionInner::Stc => Ok(Instruction::Stc),
        ParsedInstructionInner::Jmp(o) => match spec_resolve_address(o, m) {
            Ok(a) => Ok(Instruction::Jmp(a)),
            Err(e) => Err(e),
        },
        ParsedInstructionInner::Jc(o) => match spec_resolve_address(o, m) {
            Ok(a) => Ok(Instruction::Jcc(Condition::Carry, a)),
            Err(e) => Err(e),
        },
        ParsedInstructionInner::Jnc(o) => match spec_resolve_address(o, m) {
            Ok(a) => Ok(Instruction::Jcc(Condition::NoCarry, a)),
            Err(e) => Err(e),
        },
        ParsedInstructionInner::Jz(o) => match spec_resolve_address(o, m) {
            Ok(a) => Ok(Instruction::Jcc(Condition::Zero, a)),
            Err(e) => Err(e),
        },
        ParsedInstructionInner::Jnz(o) => match spec_resolve_address(o, m) {
            Ok(a) => Ok(Instruction::Jcc(Condition::NoZero, a)),
            Err(e) => Err(e),
        },
        ParsedInstructionInner::Jp(o) => match spec_resolve_address(o, m) {
            Ok(a) => Ok(Instruction::Jcc(Condition::Positive, a)),
            Err(e) => Err(e),
        },
        ParsedInstructionInner::Jm(o) => match spec_resolve_address(o, m) {
            Ok(a) => Ok(Instruction::Jcc(Condition::Minus, a)),
            Err(e) => Err(e),
        },
        ParsedInstructionInner::Jpe(o) => match spec_resolve_address(o, m) {
            Ok(a) => Ok(Instruction::Jcc(Condition::ParityEven, a)),
            Err(e) => Err(e),
        },
        ParsedInstructionInner::Jpo(o) => match spec_resolve_address(o, m) {
            Ok(a) => Ok(Instruction::Jcc(Condition::ParityOdd, a)),
            Err(e) => Err(e),
        },
        ParsedInstructionInner::Call(o) => match spec_resolve_address(o, m) {
            Ok(a) => Ok(Instruction::Call(a)),
            Err(e) => Err(e),
        },
        ParsedInstructionInner::Cc(o) => match spec_resolve_address(o, m) {
            Ok(a) => Ok(Instruction::Ccc(Condition::Carry, a)),
            Err(e) => Err(e),
        },
        ParsedInstructionInner::Cnc(o) => match spec_resolve_address(o, m) {
            Ok(a) => Ok(Instruction::Ccc(Condition::NoCarry, a)),
            Err(e) => Err(e),
        },
        ParsedInstructionInner::Cz(o) => match spec_resolve_address(o, m) {
            Ok(a) => Ok(Instruction::Ccc(Condition::Zero, a)),
            Err(e) => Err(e),
        },
        ParsedInstructionInner::Cnz(o) => match spec_resolve_address(o, m) {
            Ok(a) => Ok(Instruction::Ccc(Condition::NoZero, a)),
            Err(e) => Err(e),
        },
        ParsedInstructionInner::Cp(o) => match spec_resolve_address(o, m) {
            Ok(a) => Ok(Instruction::Ccc(Condition::Positive, a)),
            Err(e) => Err(e),
        },
        ParsedInstructionInner::Cm(o) => match spec_resolve_address(o, m) {
            Ok(a) => Ok(Instruction::Ccc(Condition::Minus, a)),
            Err(e) => Err(e),
        },
        ParsedInstructionInner::Cpe(o) => match spec_resolve_address(o, m) {
            Ok(a) => Ok(Instruction::Ccc(Condition::ParityEven, a)),
            Err(e) => Err(e),
        },
        ParsedInstructionInner::Cpo(o) => match spec_resolve_address(o, m) {
            Ok(a) => Ok(Instruction::Ccc(Condition::ParityOdd, a)),
            Err(e) => Err(e),
        },
        ParsedInstructionInner::Ret => Ok(Instruction::Ret),
        ParsedInstructionInner::Rc => Ok(Instruction::Rcc(Condition::Carry)),
        ParsedInstructionInner::Rnc => Ok(Instruction::Rcc(Condition::NoCarry)),
        ParsedInstructionInner::Rz => Ok(Instruction::Rcc(Condition::Zero)),
        ParsedInstructionInner::Rnz => Ok(Instruction::Rcc(Condition::NoZero)),
        ParsedInstructionInner::Rp => Ok(Instruction::Rcc(Condition::Positive)),
        ParsedInstructionInner::Rm => Ok(Instruction::Rcc(Condition::Minus)),
        ParsedInstructionInner::Rpe => Ok(Instruction::Rcc(Condition::ParityEven)),
        ParsedInstructionInner::Rpo => Ok(Instruction::Rcc(Condition::ParityOdd)),
        ParsedInstructionInner::Rst(n) => match spec_reset_number(n) {
            Some(v) => Ok(Instruction::Rst(v)),
            None => Err(ResolveError::InvalidNumber),
        },
        ParsedInstructionInner::Pchl => Ok(Instruction::Pchl),
        ParsedInstructionInner::Push(rp) => Ok(Instruction::Push(rp)),
        ParsedInstructionInner::Pop(rp) => Ok(Instruction::Pop(rp)),
        ParsedInstructionInner::Xthl => Ok(Instruction::Xthl),
        ParsedInstructionInner::Sphl => Ok(Instruction::Sphl),
        ParsedInstructionInner::In(n) => match spec_resolve_data8(n) {
            Ok(d) => Ok(Instruction::In(d)),
            Err(e) => Err(e),
        },
        ParsedInstructionInner::Out(n) => match spec_resolve_data8(n) {
            Ok(d) => Ok(Instruction::Out(d)),
            Err(e) => Err(e),
        },
        ParsedInstructionInner::Ei => Ok(Instruction::Ei),
        ParsedInstructionInner::Di => Ok(Instruction::Di),
        ParsedInstructionInner::Hlt => Ok(Instruction::Hlt),
        ParsedInstructionInner::Nop => Ok(Instruction::Nop),
    }
}

impl ParsedInstruction {
    /// The mnemonic's fixed encoded length, known before any label is
    /// resolved.
    pub open spec fn spec_len(self) -> int {
        match self.inner {
            ParsedInstructionInner::Mvi(_, _) => 2,
            ParsedInstructionInner::Adi(_) => 2,
            ParsedInstructionInner::Aci(_) => 2,
            ParsedInstructionInner::Sui(_) => 2,
            ParsedInstructionInner::Sbi(_) => 2,
            ParsedInstructionInner::Ani(_) => 2,
            ParsedInstructionInner::Xri(_) => 2,
            ParsedInstructionInner::Ori(_) => 2,
            ParsedInstructionInner::Cpi(_) => 2,
            ParsedInstructionInner::In(_) => 2,
            ParsedInstructionInner::Out(_) => 2,
            ParsedInstructionInner::Rst(_) => 2,
            ParsedInstructionInner::Lxi(_, _) => 3,
            ParsedInstructionInner::Lda(_) => 3,
            ParsedInstructionInner::Sta(_) => 3,
            ParsedInstructionInner::Lhld(_) => 3,
            ParsedInstructionInner::Shld(_) => 3,
            ParsedInstructionInner::Jmp(_) => 3,
            ParsedInstructionInner::Jc(_) => 3,
            ParsedInstructionInner::Jnc(_) => 3,
            ParsedInstructionInner::Jz(_) => 3,
            ParsedInstructionInner::Jnz(_) => 3,
            ParsedInstructionInner::Jp(_) => 3,
            ParsedInstructionInner::Jm(_) => 3,
            ParsedInstructionInner::Jpe(_) => 3,
            ParsedInstructionInner::Jpo(_) => 3,
            ParsedInstructionInner::Call(_) => 3,
            ParsedInstructionInner::Cc(_) => 3,
            ParsedInstructionInner::Cnc(_) => 3,
            ParsedInstructionInner::Cz(_) => 3,
            ParsedInstructionInner::Cnz(_) => 3,
            ParsedInstructionInner::Cp(_) => 3,
            ParsedInstructionInner::Cm(_) => 3,
            ParsedInstructionInner::Cpe(_) => 3,
            ParsedInstructionInner::Cpo(_) => 3,
            _ => 1,
        }
    }

    /// Resolves every operand against the completed label table, yielding
    /// the decoded instruction.
    #[verifier::rlimit(100)]
    pub fn into_inner(self, label_lookup: &LabelLookup) -> (r: Result<Instruction, ResolveError>)
        ensures
            r == spec_resolve_instruction(self.inner, label_lookup@),
    {
        match self.inner {
            ParsedInstructionInner::Mov(d, s) => Ok(Instruction::Mov(d, s)),
            ParsedInstructionInner::Mvi(r, n) => match n.to_u8() {
                Some(d) => Ok(Instruction::Mvi(r, d)),
                None => Err(ResolveError::InvalidNumber),
            },
            ParsedInstructionInner::Lxi(rp, o) => match o.get(label_lookup) {
                Some(a) => Ok(Instruction::Lxi(rp, a)),
                None => Err(ResolveError::UnknownLabel),
            },
            ParsedInstructionInner::Lda(l) => match label_lookup.lookup(l) {
                Some(a) => Ok(Instruction::Lda(a)),
                None => Err(ResolveError::UnknownLabel),
            },
            ParsedInstructionInner::Sta(l) => match label_lookup.lookup(l) {
                Some(a) => Ok(Instruction::Sta(a)),
                None => Err(ResolveError::UnknownLabel),
            },
            ParsedInstructionInner::Lhld(o) => match o.get(label_lookup) {
                Some(a) => Ok(Instruction::Lhld(a)),
                None => Err(ResolveError::UnknownLabel),
            },
            ParsedInstructionInner::Shld(o) => match o.get(label_lookup) {
                Some(a) => Ok(Instruction::Shld(a)),
                None => Err(ResolveError::UnknownLabel),
            },
            ParsedInstructionInner::Ldax(rp) => Ok(Instruction::Ldax(rp)),
            ParsedInstructionInner::Stax(rp) => Ok(Instruction::Stax(rp)),
            ParsedInstructionInner::Xchg => Ok(Instruction::Xchg),
            ParsedInstructionInner::Add(r) => Ok(Instruction::Add(r)),
            ParsedInstructionInner::Adi(n) => match n.to_u8() {
                Some(d) => Ok(Instruction::Adi(d)),
                None => Err(ResolveError::InvalidNumber),
            },
            ParsedInstructionInner::Adc(r) => Ok(Instruction::Adc(r)),
            ParsedInstructionInner::Aci(n) => match n.to_u8() {
                Some(d) => Ok(Instruction::Aci(d)),
                None => Err(ResolveError::InvalidNumber),
            },
            ParsedInstructionInner::Sub(r) => Ok(Instruction::Sub(r)),
            ParsedInstructionInner::Sui(n) => match n.to_u8() {
                Some(d) => Ok(Instruction::Sui(d)),
                None => Err(ResolveError::InvalidNumber),
            },
            ParsedInstructionInner::Sbb(r) => Ok(Instruction::Sbb(r)),
            ParsedInstructionInner::Sbi(n) => match n.to_u8() {
                Some(d) => Ok(Instruction::Sbi(d)),
                None => Err(ResolveError::InvalidNumber),
            },
            ParsedInstructionInner::Inr(r) => Ok(Instruction::Inr(r)),
            ParsedInstructionInner::Dcr(r) => Ok(Instruction::Dcr(r)),
            ParsedInstructionInner::Inx(rp) => Ok(Instruction::Inx(rp)),
            ParsedInstructionInner::Dcx(rp) => Ok(Instruction::Dcx(rp)),
            ParsedInstructionInner::Dad(rp) => Ok(Instruction::Dad(rp)),
            ParsedInstructionInner::Daa => Ok(Instruction::Daa),
            ParsedInstructionInner::Ana(r) => Ok(Instruction::Ana(r)),
            ParsedInstructionInner::Ani(n) => match n.to_u8() {
                Some(d) => Ok(Instruction::Ani(d)),
                None => Err(ResolveError::InvalidNumber),
            },
            ParsedInstructionInner::Xra(r) => Ok(Instruction::Xra(r)),
            ParsedInstructionInner::Xri(n) => match n.to_u8() {
                Some(d) => Ok(Instruction::Xri(d)),
                None => Err(ResolveError::InvalidNumber),
            },
            ParsedInstructionInner::Ora(r) => Ok(Instruction::Ora(r)),
            ParsedInstructionInner::Ori(n) => match n.to_u8() {
                Some(d) => Ok(Instruction::Ori(d)),
                None => Err(ResolveError::InvalidNumber),
            },
            ParsedInstructionInner::Cmp(r) => Ok(Instruction::Cmp(r)),
            ParsedInstructionInner::Cpi(n) => match n.to_u8() {
                Some(d) => Ok(Instruction::Cpi(d)),
                None => Err(ResolveError::InvalidNumber),
            },
            ParsedInstructionInner::Rlc => Ok(Instruction::Rlc),
            ParsedInstructionInner::Rrc => Ok(Instruction::Rrc),
            ParsedInstructionInner::Ral => Ok(Instruction::Ral),
            ParsedInstructionInner::Rar => Ok(Instruction::Rar),
            ParsedInstructionInner::Cma => Ok(Instruction::Cma),
            ParsedInstructionInner::Cmc => Ok(Instruction::Cmc),
            ParsedInstructionInner::Stc => Ok(Instruction::Stc),
            ParsedInstructionInner::Jmp(o) => match o.get(label_lookup) {
                Some(a) => Ok(Instruction::Jmp(a)),
                None => Err(ResolveError::UnknownLabel),
            },
            ParsedInstructionInner::Jc(o) => match o.get(label_lookup) {
                Some(a) => Ok(Instruction::Jcc(Condition::Carry, a)),
                None => Err(ResolveError::UnknownLabel),
            },
            ParsedInstructionInner::Jnc(o) => match o.get(label_lookup) {
                Some(a) => Ok(Instruction::Jcc(Condition::NoCarry, a)),
                None => Err(ResolveError::UnknownLabel),
            },
            ParsedInstructionInner::Jz(o) => match o.get(label_lookup) {
                Some(a) => Ok(Instruction::Jcc(Condition::Zero, a)),
                None => Err(ResolveError::UnknownLabel),
            },
            ParsedInstructionInner::Jnz(o) => match o.get(label_lookup) {
                Some(a) => Ok(Instruction::Jcc(Condition::NoZero, a)),
                None => Err(ResolveError::UnknownLabel),
            },
            ParsedInstructionInner::Jp(o) => match o.get(label_lookup) {
                Some(a) => Ok(Instruction::Jcc(Condition::Positive, a)),
                None => Err(ResolveError::UnknownLabel),
            },
            ParsedInstructionInner::Jm(o) => match o.get(label_lookup) {
                Some(a) => Ok(Instruction::Jcc(Condition::Minus, a)),
                None => Err(ResolveError::UnknownLabel),
            },
            ParsedInstructionInner::Jpe(o) => match o.get(label_lookup) {
                Some(a) => Ok(Instruction::Jcc(Condition::ParityEven, a)),
                None => Err(ResolveError::UnknownLabel),
            },
            ParsedInstructionInner::Jpo(o) => match o.get(label_lookup) {
                Some(a) => Ok(Instruction::Jcc(Condition::ParityOdd, a)),
                None => Err(ResolveError::UnknownLabel),
            },
            ParsedInstructionInner::Call(o) => match o.get(label_lookup) {
                Some(a) => Ok(Instruction::Call(a)),
                None => Err(ResolveError::UnknownLabel),
            },
            ParsedInstructionInner::Cc(o) => match o.get(label_lookup) {
                Some(a) => Ok(Instruction::Ccc(Condition::Carry, a)),
                None => Err(ResolveError::UnknownLabel),
            },
            ParsedInstructionInner::Cnc(o) => match o.get(label_lookup) {
                Some(a) => Ok(Instruction::Ccc(Condition::NoCarry, a)),
                None => Err(ResolveError::UnknownLabel),
            },
            ParsedInstructionInner::Cz(o) => match o.get(label_lookup) {
                Some(a) => Ok(Instruction::Ccc(Condition::Zero, a)),
                None => Err(ResolveError::UnknownLabel),
            },
            ParsedInstructionInner::Cnz(o) => match o.get(label_lookup) {
                Some(a) => Ok(Instruction::Ccc(Condition::NoZero, a)),
                None => Err(ResolveError::UnknownLabel),
            },
            ParsedInstructionInner::Cp(o) => match o.get(label_lookup) {
                Some(a) => Ok(Instruction::Ccc(Condition::Positive, a)),
                None => Err(ResolveError::UnknownLabel),
            },
            ParsedInstructionInner::Cm(o) => match o.get(label_lookup) {
                Some(a) => Ok(Instruction::Ccc(Condition::Minus, a)),
                None => Err(ResolveError::UnknownLabel),
            },
            ParsedInstructionInner::Cpe(o) => match o.get(label_lookup) {
                Some(a) => Ok(Instruction::Ccc(Condition::ParityEven, a)),
                None => Err(ResolveError::UnknownLabel),
            },
            ParsedInstructionInner::Cpo(o) => match o.get(label_lookup) {
                Some(a) => Ok(Instruction::Ccc(Condition::ParityOdd, a)),
                None => Err(ResolveError::UnknownLabel),
            },
            ParsedInstructionInner::Ret => Ok(Instruction::Ret),
            ParsedInstructionInner::Rc => Ok(Instruction::Rcc(Condition::Carry)),
            ParsedInstructionInner::Rnc => Ok(Instruction::Rcc(Condition::NoCarry)),
            ParsedInstructionInner::Rz => Ok(Instruction::Rcc(Condition::Zero)),
            ParsedInstructionInner::Rnz => Ok(Instruction::Rcc(Condition::NoZero)),
            ParsedInstructionInner::Rp => Ok(Instruction::Rcc(Condition::Positive)),
            ParsedInstructionInner::Rm => Ok(Instruction::Rcc(Condition::Minus)),
            ParsedInstructionInner::Rpe => Ok(Instruction::Rcc(Condition::ParityEven)),
            ParsedInstructionInner::Rpo => Ok(Instruction::Rcc(Condition::ParityOdd)),
            ParsedInstructionInner::Rst(n) => {
                if n.value == 0 {
                    Ok(Instruction::Rst(ResetNumber::R0))
                } else if n.value == 1 {
                    Ok(Instruction::Rst(ResetNumber::R1))
                } else if n.value == 2 {
                    Ok(Instruction::Rst(ResetNumber::R2))
                } else if n.value == 3 {
                    Ok(Instruction::Rst(ResetNumber::R3))
                } else if n.value == 4 {
                    Ok(Instruction::Rst(ResetNumber::R4))
                } else if n.value == 5 {
                    Ok(Instruction::Rst(ResetNumber::R5))
                } else if n.value == 6 {
                    Ok(Instruction::Rst(ResetNumber::R6))
                } else if n.value == 7 {
                    Ok(Instruction::Rst(ResetNumber::R7))
                } else {
                    Err(ResolveError::InvalidNumber)
                }
            },
            ParsedInstructionInner::Pchl => Ok(Instruction::Pchl),
            ParsedInstructionInner::Push(rp) => Ok(Instruction::Push(rp)),
            ParsedInstructionInner::Pop(rp) => Ok(Instruction::Pop(rp)),
            ParsedInstructionInner::Xthl => Ok(Instruction::Xthl),
            ParsedInstructionInner::Sphl => Ok(Instruction::Sphl),
            ParsedInstructionInner::In(n) => match n.to_u8() {
                Some(d) => Ok(Instruction::In(d)),
                None => Err(ResolveError::InvalidNumber),
            },
            ParsedInstructionInner::Out(n) => match n.to_u8() {
                Some(d) => Ok(Instruction::Out(d)),
                None => Err(ResolveError::InvalidNumber),
            },
            ParsedInstructionInner::Ei => Ok(Instruction::Ei),
            ParsedInstructionInner::Di => Ok(Instruction::Di),
            ParsedInstructionInner::Hlt => Ok(Instruction::Hlt),
            ParsedInstructionInner::Nop => Ok(Instruction::Nop),
        }
    }

    /// The mnemonic's fixed encoded length.
    pub fn instruction_length(&self) -> (r: u16)
        ensures
            r == self.spec_len(),
    {
        match self.inner {
            ParsedInstructionInner::Mvi(_, _) => 2,
            ParsedInstructionInner::Adi(_) => 2,
            ParsedInstructionInner::Aci(_) => 2,
            ParsedInstructionInner::Sui(_) => 2,
            ParsedInstructionInner::Sbi(_) => 2,
            ParsedInstructionInner::Ani(_) => 2,
            ParsedInstructionInner::Xri(_) => 2,
            ParsedInstructionInner::Ori(_) => 2,
            ParsedInstructionInner::Cpi(_) => 2,
            ParsedInstructionInner::In(_) => 2,
            ParsedInstructionInner::Out(_) => 2,
            ParsedInstructionInner::Rst(_) => 2,
            ParsedInstructionInner::Lxi(_, _) => 3,
            ParsedInstructionInner::Lda(_) => 3,
            ParsedInstructionInner::Sta(_) => 3,
            ParsedInstructionInner::Lhld(_) => 3,
            ParsedInstructionInner::Shld(_) => 3,
            ParsedInstructionInner::Jmp(_) => 3,
            ParsedInstructionInner::Jc(_) => 3,
            ParsedInstructionInner::Jnc(_) => 3,
            ParsedInstructionInner::Jz(_) => 3,
            ParsedInstructionInner::Jnz(_) => 3,
            ParsedInstructionInner::Jp(_) => 3,
            ParsedInstructionInner::Jm(_) => 3,
            ParsedInstructionInner::Jpe(_) => 3,
            ParsedInstructionInner::Jpo(_) => 3,
            ParsedInstructionInner::Call(_) => 3,
            ParsedInstructionInner::Cc(_) => 3,
            ParsedInstructionInner::Cnc(_) => 3,
            ParsedInstructionInner::Cz(_) => 3,
            ParsedInstructionInner::Cnz(_) => 3,
            ParsedInstructionInner::Cp(_) => 3,
            ParsedInstructionInner::Cm(_) => 3,
            ParsedInstructionInner::Cpe(_) => 3,
            ParsedInstructionInner::Cpo(_) => 3,
            _ => 1,
        }
    }
}

/// Resolution never changes an instruction's shape: a parsed instruction
/// that resolves occupies exactly the bytes its mnemonic promised, whatever
/// the label table held.
#[verifier::rlimit(100)]
pub proof fn lemma_resolved_instruction_len(
    p: ParsedInstruction,
    m: Map<Seq<u8>, u16>,
    i: Instruction,
)
    requires
        spec_resolve_instruction(p.inner, m) == Ok::<Instruction, ResolveError>(i),
    ensures
        i.spec_len() == p.spec_len(),
{
    match p.inner {
        ParsedInstructionInner::Mov(..) => {},
        ParsedInstructionInner::Mvi(..) => {},
        ParsedInstructionInner::Lxi(..) => {},
        ParsedInstructionInner::Lda(..) => {},
        ParsedInstructionInner::Sta(..) => {},
        ParsedInstructionInner::Lhld(..) => {},
        ParsedInstructionInner::Shld(..) => {},
        ParsedInstructionInner::Ldax(..) => {},
        ParsedInstructionInner::Stax(..) => {},
        ParsedInstructionInner::Xchg => {},
        ParsedInstructionInner::Add(..) => {},
        ParsedInstructionInner::Adi(..) => {},
        ParsedInstructionInner::Adc(..) => {},
        ParsedInstructionInner::Aci(..) => {},
        ParsedInstructionInner::Sub(..) => {},
        ParsedInstructionInner::Sui(..) => {},
        ParsedInstructionInner::Sbb(..) => {},
        ParsedInstructionInner::Sbi(..) => {},
        ParsedInstructionInner::Inr(..) => {},
        ParsedInstructionInner::Dcr(..) => {},
        ParsedInstructionInner::Inx(..) => {},
        ParsedInstructionInner::Dcx(..) => {},
        ParsedInstructionInner::Dad(..) => {},
        ParsedInstructionInner::Daa => {},
        ParsedInstructionInner::Ana(..) => {},
        ParsedInstructionInner::Ani(..) => {},
        ParsedInstructionInner::Xra(..) => {},
        ParsedInstructionInner::Xri(..) => {},
        ParsedInstructionInner::Ora(..) => {},
        ParsedInstructionInner::Ori(..) => {},
        ParsedInstructionInner::Cmp(..) => {},
        ParsedInstructionInner::Cpi(..) => {},
        ParsedInstructionInner::Rlc => {},
        ParsedInstructionInner::Rrc => {},
        ParsedInstructionInner::Ral => {},
        ParsedInstructionInner::Rar => {},
        ParsedInstructionInner::Cma => {},
        ParsedInstructionInner::Cmc => {},
        ParsedInstructionInner::Stc => {},
        ParsedInstructionInner::Jmp(..) => {},
        ParsedInstructionInner::Jc(..) => {},
        ParsedInstructionInner::Jnc(..) => {},
        ParsedInstructionInner::Jz(..) => {},
        ParsedInstructionInner::Jnz(..) => {},
        ParsedInstructionInner::Jp(..) => {},
        ParsedInstructionInner::Jm(..) => {},
        ParsedInstructionInner::Jpe(..) => {},
        ParsedInstructionInner::Jpo(..) => {},
        ParsedInstructionInner::Call(..) => {},
        ParsedInstructionInner::Cc(..) => {},
        ParsedInstructionInner::Cnc(..) => {},
        ParsedInstructionInner::Cz(..) => {},
        ParsedInstructionInner::Cnz(..) => {},
        ParsedInstructionInner::Cp(..) => {},
        ParsedInstructionInner::Cm(..) => {},
        ParsedInstructionInner::Cpe(..) => {},
        ParsedInstructionInner::Cpo(..) => {},
        ParsedInstructionInner::Ret => {},
        ParsedInstructionInner::Rc => {},
        ParsedInstructionInner::Rnc => {},
        ParsedInstructionInner::Rz => {},
        ParsedInstructionInner::Rnz => {},
        ParsedInstructionInner::Rp => {},
        ParsedInstructionInner::Rm => {},
        ParsedInstructionInner::Rpe => {},
        ParsedInstructionInner::Rpo => {},
        ParsedInstructionInner::Rst(..) => {},
        ParsedInstructionInner::Pchl => {},
        ParsedInstructionInner::Push(..) => {},
        ParsedInstructionInner::Pop(..) => {},
        ParsedInstructionInner::Xthl => {},
        ParsedInstructionInner::Sphl => {},
        ParsedInstructionInner::In(..) => {},
        ParsedInstructionInner::Out(..) => {},
        ParsedInstructionInner::Ei => {},
        ParsedInstructionInner::Di => {},
        ParsedInstructionInner::Hlt => {},
        ParsedInstructionInner::Nop => {},
    }
}


/// The mathematical model of a 16-bit operand: a label name or a value.
pub enum OperandModel {
    Label(Seq<u8>),
    Number(u16),
}

impl View for LabelOrLiteralNumber {
    type V = OperandModel;

    open spec fn view(&self) -> OperandModel {
        match self {
            LabelOrLiteralNumber::Label(l) => OperandModel::Label(l@),
            LabelOrLiteralNumber::LiteralNumber(n) => OperandModel::Number(n.value),
        }
    }
}

/// The mathematical model of a byte-define operand: string bytes or a
/// value.
pub enum DataOperandModel {
    String(Seq<u8>),
    Number(u16),
}

impl View for LiteralStringOrNumber {
    type V = DataOperandModel;

    open spec fn view(&self) -> DataOperandModel {
        match self {
            LiteralStringOrNumber::String(st) => DataOperandModel::String(st.bytes@),
            LiteralStringOrNumber::Number(n) => DataOperandModel::Number(n.value),
        }
    }
}

/// What an eight-bit register word at `pos` parses to: exactly one of the
/// eight register letters.
pub open spec fn spec_parse_reg8(src: Seq<u8>, pos: int) -> Result<(Register8, int), ParseError> {
    let end = spec_read_word(src, pos);
    if end == pos + 1 {
        if src[pos] == L_B {
            Ok((Register8::B, end))
        } else if src[pos] == L_C {
            Ok((Register8::C, end))
        } else if src[pos] == L_D {
            Ok((Register8::D, end))
        } else if src[pos] == L_E {
            Ok((Register8::E, end))
        } else if src[pos] == L_H {
            Ok((Register8::H, end))
        } else if src[pos] == L_L {
            Ok((Register8::L, end))
        } else if src[pos] == L_M {
            Ok((Register8::M, end))
        } else if src[pos] == L_A {
            Ok((Register8::A, end))
        } else {
            Err(ParseError { pos: pos as usize, kind: ParseErrorKind::Syntax })
        }
    } else {
        Err(ParseError { pos: pos as usize, kind: ParseErrorKind::Syntax })
    }
}

/// What a register-pair word at `pos` parses to: `B`, `D`, `H` or `SP`.
pub open spec fn spec_parse_reg16(src: Seq<u8>, pos: int) -> Result<(Register16, int), ParseError> {
    let end = spec_read_word(src, pos);
    if end == pos + 1 && src[pos] == L_B {
        Ok((Register16::Bc, end))
    } else if end == pos + 1 && src[pos] == L_D {
        Ok((Register16::De, end))
    } else if end == pos + 1 && src[pos] == L_H {
        Ok((Register16::Hl, end))
    } else if end == pos + 2 && src[pos] == L_S && src[pos + 1] == L_P {
        Ok((Register16::Sp, end))
    } else {
        Err(ParseError { pos: pos as usize, kind: ParseErrorKind::Syntax })
    }
}

/// What an indirect-pair word at `pos` parses to: only `B` or `D`.
pub open spec fn spec_parse_reg16_indirect(src: Seq<u8>, pos: int) -> Result<
    (Register16, int),
    ParseError,
> {
    let end = spec_read_word(src, pos);
    if end == pos + 1 && src[pos] == L_B {
        Ok((Register16::Bc, end))
    } else if end == pos + 1 && src[pos] == L_D {
        Ok((Register16::De, end))
    } else {
        Err(ParseError { pos: pos as usize, kind: ParseErrorKind::Syntax })
    }
}

/// What a stack-pair word at `pos` parses to: `B`, `D`, `H` or `PSW`.
pub open spec fn spec_parse_reg16_stack(src: Seq<u8>, pos: int) -> Result<
    (Register16, int),
    ParseError,
> {
    let end = spec_read_word(src, pos);
    if end == pos + 1 && src[pos] == L_B {
        Ok((Register16::Bc, end))
    } else if end == pos + 1 && src[pos] == L_D {
        Ok((Register16::De, end))
    } else if end == pos + 1 && src[pos] == L_H {
        Ok((Register16::Hl, end))
    } else if end == pos + 3 && src[pos] == L_P && src[pos + 1] == L_S && src[pos + 2] == L_W {
        Ok((Register16::Sp, end))
    } else {
        Err(ParseError { pos: pos as usize, kind: ParseErrorKind::Syntax })
    }
}

/// Where an operand separator at `pos` ends: optional whitespace, a comma,
/// optional whitespace.
pub open spec fn spec_parse_comma(src: Seq<u8>, pos: int) -> Result<int, ParseError> {
    let p = spec_skip_ws(src, pos);
    if p < src.len() && src[p] == COMMA {
        Ok(spec_skip_ws(src, p + 1))
    } else {
        Err(ParseError { pos: p as usize, kind: ParseErrorKind::Syntax })
    }
}

/// The first position in `[i, end)` whose byte is not a letter or digit.
pub open spec fn spec_label_scan(src: Seq<u8>, i: int, end: int) -> Option<int>
    decreases end - i,
{
    if i >= end {
        None
    } else if !(L_A <= src[i] <= L_Z || 48 <= src[i] <= 57) {
        Some(i)
    } else {
        spec_label_scan(src, i + 1, end)
    }
}

/// What a label word at `pos` parses to: its byte run and end, or the
/// offset of the first byte outside the label grammar.
pub open spec fn spec_parse_label_word(src: Seq<u8>, pos: int) -> Result<
    (Seq<u8>, int),
    ParseError,
> {
    let end = spec_read_word(src, pos);
    if end == pos {
        Err(ParseError { pos: pos as usize, kind: ParseErrorKind::Syntax })
    } else if !(src[pos] == AT_SIGN || src[pos] == QUESTION_MARK || L_A <= src[pos] <= L_Z) {
        Err(ParseError { pos: pos as usize, kind: ParseErrorKind::Syntax })
    } else {
        match spec_label_scan(src, pos + 1, end) {
            Some(i) => Err(ParseError { pos: i as usize, kind: ParseErrorKind::Syntax }),
            None => Ok((src.subrange(pos, end), end)),
        }
    }
}

/// What a numeric-literal word at `pos` parses to: its 16-bit value, or a
/// syntax error on an empty word, or an invalid-number error otherwise.
pub open spec fn spec_parse_number_operand(src: Seq<u8>, pos: int) -> Result<
    (u16, int),
    ParseError,
> {
    let end = spec_read_word(src, pos);
    let word = src.subrange(pos, end);
    if end == pos {
        Err(ParseError { pos: pos as usize, kind: ParseErrorKind::Syntax })
    } else if spec_is_number_word(word) && spec_number_value(word) <= 0xffff {
        Ok((spec_number_value(word) as u16, end))
    } else {
        Err(ParseError { pos: pos as usize, kind: ParseErrorKind::InvalidNumber })
    }
}

/// What a 16-bit operand at `pos` parses to: a number when it starts with
/// a digit, a label reference otherwise.
pub open spec fn spec_parse_operand16(src: Seq<u8>, pos: int) -> Result<
    (OperandModel, int),
    ParseError,
> {
    if pos < src.len() && 48 <= src[pos] <= 57 {
        match spec_parse_number_operand(src, pos) {
            Ok(t) => Ok((OperandModel::Number(t.0), t.1)),
            Err(e) => Err(e),
        }
    } else {
        match spec_parse_label_word(src, pos) {
            Ok(t) => Ok((OperandModel::Label(t.0), t.1)),
            Err(e) => Err(e),
        }
    }
}

/// The first position at or after `i` that ends a quoted string's
/// contents: a closing quote, an illegal byte, or the end of the input.
pub open spec fn spec_string_scan(src: Seq<u8>, i: int) -> int
    decreases src.len() - i,
{
    if i < src.len() && src[i] != QUOTE && (src[i] == 9 || (32 <= src[i] <= 126)) {
        spec_string_scan(src, i + 1)
    } else {
        i
    }
}

/// What a byte-define operand at `pos` parses to: a quoted string's raw
/// bytes, or a numeric literal.
pub open spec fn spec_parse_data_operand(src: Seq<u8>, pos: int) -> Result<
    (DataOperandModel, int),
    ParseError,
> {
    if pos < src.len() && src[pos] == QUOTE {
        let j = spec_string_scan(src, pos + 1);
        if j < src.len() && src[j] == QUOTE {
            Ok((DataOperandModel::String(src.subrange(pos + 1, j)), j + 1))
        } else {
            Err(ParseError { pos: pos as usize, kind: ParseErrorKind::Syntax })
        }
    } else {
        match spec_parse_number_operand(src, pos) {
            Ok(t) => Ok((DataOperandModel::Number(t.0), t.1)),
            Err(e) => Err(e),
        }
    }
}

/// Parses an eight-bit register operand.
fn parse_reg8(src: &[u8], pos: usize) -> (r: Result<(Register8, usize), ParseError>)
    requires
        pos <= src@.len(),
    ensures
        r matches Ok(t) ==> pos < t.1 <= src@.len(),
        ({
            let s = spec_parse_reg8(src@, pos as int);
            match r {
                Ok(t) => s == Ok::<_, ParseError>((t.0, t.1 as int)),
                Err(e) => s == Err::<(Register8, int), _>(e),
            }
        }),
{
    let end = read_word(src, pos);
    if end - pos == 1 {
        let b = src[pos];
        if b == L_B {
            return Ok((Register8::B, end));
        }
        if b == L_C {
            return Ok((Register8::C, end));
        }
        if b == L_D {
            return Ok((Register8::D, end));
        }
        if b == L_E {
            return Ok((Register8::E, end));
        }
        if b == L_H {
            return Ok((Register8::H, end));
        }
        if b == L_L {
            return Ok((Register8::L, end));
        }
        if b == L_M {
            return Ok((Register8::M, end));
        }
        if b == L_A {
            return Ok((Register8::A, end));
        }
    }
    Err(ParseError { pos, kind: ParseErrorKind::Syntax })
}

/// Parses a register-pair operand: `B`, `D`, `H` or `SP`.
fn parse_reg16(src: &[u8], pos: usize) -> (r: Result<(Register16, usize), ParseError>)
    requires
        pos <= src@.len(),
    ensures
        r matches Ok(t) ==> pos < t.1 <= src@.len(),
        ({
            let s = spec_parse_reg16(src@, pos as int);
            match r {
                Ok(t) => s == Ok::<_, ParseError>((t.0, t.1 as int)),
                Err(e) => s == Err::<(Register16, int), _>(e),
            }
        }),
{
    let end = read_word(src, pos);
    if end - pos == 1 {
        let b = src[pos];
        if b == L_B {
            return Ok((Register16::Bc, end));
        }
        if b == L_D {
            return Ok((Register16::De, end));
        }
        if b == L_H {
            return Ok((Register16::Hl, end));
        }
    } else if end - pos == 2 && src[pos] == L_S && src[pos + 1] == L_P {
        return Ok((Register16::Sp, end));
    }
    Err(ParseError { pos, kind: ParseErrorKind::Syntax })
}

/// Parses the register-pair operand of an indirect load or store: only
/// `B` and `D` address memory this way.
fn parse_reg16_indirect(src: &[u8], pos: usize) -> (r: Result<(Register16, usize), ParseError>)
    requires
        pos <= src@.len(),
    ensures
        r matches Ok(t) ==> pos < t.1 <= src@.len(),
        ({
            let s = spec_parse_reg16_indirect(src@, pos as int);
            match r {
                Ok(t) => s == Ok::<_, ParseError>((t.0, t.1 as int)),
                Err(e) => s == Err::<(Register16, int), _>(e),
            }
        }),
{
    let end = read_word(src, pos);
    if end - pos == 1 {
        let b = src[pos];
        if b == L_B {
            return Ok((Register16::Bc, end));
        }
        if b == L_D {
            return Ok((Register16::De, end));
        }
    }
    Err(ParseError { pos, kind: ParseErrorKind::Syntax })
}

/// Parses the register-pair operand of a stack push or pop: `B`, `D`, `H`
/// or `PSW`, the processor-status word taking the fourth pair encoding.
fn parse_reg16_stack(src: &[u8], pos: usize) -> (r: Result<(Register16, usize), ParseError>)
    requires
        pos <= src@.len(),
    ensures
        r matches Ok(t) ==> pos < t.1 <= src@.len(),
        ({
            let s = spec_parse_reg16_stack(src@, pos as int);
            match r {
                Ok(t) => s == Ok::<_, ParseError>((t.0, t.1 as int)),
                Err(e) => s == Err::<(Register16, int), _>(e),
            }
        }),
{
    let end = read_word(src, pos);
    if end - pos == 1 {
        let b = src[pos];
        if b == L_B {
            return Ok((Register16::Bc, end));
        }
        if b == L_D {
            return Ok((Register16::De, end));
        }
        if b == L_H {
            return Ok((Register16::Hl, end));
        }
    } else if end - pos == 3 && src[pos] == L_P && src[pos + 1] == L_S && src[pos + 2] == L_W {
        return Ok((Register16::Sp, end));
    }
    Err(ParseError { pos, kind: ParseErrorKind::Syntax })
}

/// Consumes an operand separator: optional whitespace, a comma, optional
/// whitespace.
fn parse_comma(src: &[u8], pos: usize) -> (r: Result<usize, ParseError>)
    requires
        pos <= src@.len(),
    ensures
        r matches Ok(p) ==> pos <= p <= src@.len(),
        ({
            let s = spec_parse_comma(src@, pos as int);
            match r {
                Ok(p) => s == Ok::<_, ParseError>(p as int),
                Err(e) => s == Err::<int, _>(e),
            }
        }),
{
    let p = skip_ws(src, pos);
    if p < src.len() && src[p] == COMMA {
        Ok(skip_ws(src, p + 1))
    } else {
        Err(ParseError { pos: p, kind: ParseErrorKind::Syntax })
    }
}

/// Parses a label reference: a word matching the label grammar.
pub fn parse_label_word(src: &[u8], pos: usize) -> (r: Result<(Label, usize), ParseError>)
    requires
        pos <= src@.len(),
    ensures
        r matches Ok(t) ==> pos < t.1 <= src@.len() && Label::spec_valid(t.0@) && t.0@
            == src@.subrange(pos as int, t.1 as int),
        ({
            let s = spec_parse_label_word(src@, pos as int);
            match r {
                Ok(t) => s == Ok::<_, ParseError>((t.0@, t.1 as int)),
                Err(e) => s == Err::<(Seq<u8>, int), _>(e),
            }
        }),
{
    let end = read_word(src, pos);
    if end == pos {
        return Err(ParseError { pos, kind: ParseErrorKind::Syntax });
    }
    let b0 = src[pos];
    if !(b0 == AT_SIGN || b0 == QUESTION_MARK || (L_A <= b0 && b0 <= L_Z)) {
        return Err(ParseError { pos, kind: ParseErrorKind::Syntax });
    }
    let mut i = pos + 1;
    while i < end
        invariant
            pos + 1 <= i <= end <= src@.len(),
            end == spec_read_word(src@, pos as int),
            src@[pos as int] == AT_SIGN || src@[pos as int] == QUESTION_MARK || L_A <= src@[pos as int] <= L_Z,
            spec_label_scan(src@, pos + 1, end as int) == spec_label_scan(src@, i as int, end as int),
            forall|j: int|
                pos + 1 <= j < i ==> (L_A <= #[trigger] src@[j] <= L_Z || 48 <= src@[j] <= 57),
        decreases end - i,
    {
        let b = src[i];
        if !((L_A <= b && b <= L_Z) || (48 <= b && b <= 57)) {
            return Err(ParseError { pos: i, kind: ParseErrorKind::Syntax });
        }
        i = i + 1;
    }
    let label = Label { span: slice_to_vec(slice_subrange(src, pos, end)) };
    proof {
        assert(label@ =~= src@.subrange(pos as int, end as int));
    }
    Ok((label, end))
}

/// Parses a numeric-literal operand.
pub(crate) fn parse_number_operand(src: &[u8], pos: usize) -> (r: Result<
    (LiteralNumber, usize),
    ParseError,
>)
    requires
        pos <= src@.len(),
    ensures
        r matches Ok(t) ==> pos < t.1 <= src@.len(),
        ({
            let s = spec_parse_number_operand(src@, pos as int);
            match r {
                Ok(t) => s == Ok::<_, ParseError>((t.0.value, t.1 as int)),
                Err(e) => s == Err::<(u16, int), _>(e),
            }
        }),
{
    let end = read_word(src, pos);
    if end == pos {
        return Err(ParseError { pos, kind: ParseErrorKind::Syntax });
    }
    match parse_literal_number(src, pos, end) {
        Some(n) => Ok((n, end)),
        None => Err(ParseError { pos, kind: ParseErrorKind::InvalidNumber }),
    }
}

/// Parses a 16-bit operand: a numeric literal when it starts with a digit,
/// otherwise a label reference. A label may not start with a digit, so the
/// first byte decides.
fn parse_label_or_number(src: &[u8], pos: usize) -> (r: Result<
    (LabelOrLiteralNumber, usize),
    ParseError,
>)
    requires
        pos <= src@.len(),
    ensures
        r matches Ok(t) ==> pos < t.1 <= src@.len(),
        ({
            let s = spec_parse_operand16(src@, pos as int);
            match r {
                Ok(t) => s == Ok::<_, ParseError>((t.0@, t.1 as int)),
                Err(e) => s == Err::<(OperandModel, int), _>(e),
            }
        }),
{
    if pos < src.len() && 48 <= src[pos] && src[pos] <= 57 {
        let (n, p) = parse_number_operand(src, pos)?;
        Ok((LabelOrLiteralNumber::LiteralNumber(n), p))
    } else {
        let (l, p) = parse_label_word(src, pos)?;
        Ok((LabelOrLiteralNumber::Label(l), p))
    }
}

/// Parses a byte-define operand: a quoted string (raw bytes, no escapes),
/// or a numeric literal.
fn parse_string_or_number(src: &[u8], pos: usize) -> (r: Result<
    (LiteralStringOrNumber, usize),
    ParseError,
>)
    requires
        pos <= src@.len(),
    ensures
        r matches Ok(t) ==> pos < t.1 <= src@.len(),
        ({
            let s = spec_parse_data_operand(src@, pos as int);
            match r {
                Ok(t) => s == Ok::<_, ParseError>((t.0@, t.1 as int)),
                Err(e) => s == Err::<(DataOperandModel, int), _>(e),
            }
        }),
{
    let n = src.len();
    if pos < n && src[pos] == QUOTE {
        let mut j = pos + 1;
        while j < n && src[j] != QUOTE && (src[j] == 9 || (32 <= src[j] && src[j] <= 126))
            invariant
                pos + 1 <= j <= n,
                n == src@.len(),
                spec_string_scan(src@, pos + 1) == spec_string_scan(src@, j as int),
            decreases n - j,
        {
            j = j + 1;
        }
        if j < n && src[j] == QUOTE {
            let bytes = slice_to_vec(slice_subrange(src, pos + 1, j));
            Ok((LiteralStringOrNumber::String(LiteralString { bytes }), j + 1))
        } else {
            Err(ParseError { pos, kind: ParseErrorKind::Syntax })
        }
    } else {
        let (num, p) = parse_number_operand(src, pos)?;
        Ok((LiteralStringOrNumber::Number(num), p))
    }
}


/// A mnemonic of the statement grammar.
pub enum Mnemonic {
    Jc,
    Jz,
    Jp,
    Jm,
    Cc,
    Cz,
    Cp,
    Cm,
    Rc,
    Rz,
    Rp,
    Rm,
    Ei,
    Di,
    In,
    Mov,
    Mvi,
    Lxi,
    Lda,
    Sta,
    Add,
    Adi,
    Adc,
    Aci,
    Sub,
    Sui,
    Sbb,
    Sbi,
    Inr,
    Dcr,
    Inx,
    Dcx,
    Dad,
    Daa,
    Ana,
    Ani,
    Xra,
    Xri,
    Ora,
    Ori,
    Cmp,
    Cpi,
    Rlc,
    Rrc,
    Ral,
    Rar,
    Cma,
    Cmc,
    Stc,
    Jmp,
    Jnc,
    Jnz,
    Jpe,
    Jpo,
    Cnc,
    Cnz,
    Cpe,
    Cpo,
    Ret,
    Rnc,
    Rnz,
    Rpe,
    Rpo,
    Rst,
    Pop,
    Out,
    Hlt,
    Nop,
    Lhld,
    Shld,
    Ldax,
    Stax,
    Xchg,
    Call,
    Pchl,
    Push,
    Xthl,
    Sphl,
}

/// The operands a parsed statement carries, in mathematical form.
pub enum OperandsModel {
    Plain,
    One8(Register8),
    Two8(Register8, Register8),
    EightImm(Register8, u16),
    Pair(Register16),
    PairWide(Register16, OperandModel),
    Wide(OperandModel),
    LabelRef(Seq<u8>),
    Imm(u16),
}

/// The mathematical model of one statement: a data directive with its
/// operand, or a mnemonic with its operands.
pub enum StatementModel {
    DefineByte(DataOperandModel),
    DefineWord(OperandModel),
    DefineStorage(u16),
    Instruction(Mnemonic, OperandsModel),
}

/// The byte `k` positions into a word of length `n`, zero past its end.
pub open spec fn spec_word_byte(src: Seq<u8>, pos: int, k: int, n: int) -> u8 {
    if k < n {
        src[pos + k]
    } else {
        0
    }
}

/// Two eight-bit registers separated by a comma.
pub open spec fn spec_shape_two_reg8(src: Seq<u8>, p: int) -> Result<
    (Register8, Register8, int),
    ParseError,
> {
    match spec_parse_reg8(src, p) {
        Ok(t) => match spec_parse_comma(src, t.1) {
            Ok(p2) => match spec_parse_reg8(src, p2) {
                Ok(t2) => Ok((t.0, t2.0, t2.1)),
                Err(e) => Err(e),
            },
            Err(e) => Err(e),
        },
        Err(e) => Err(e),
    }
}

/// An eight-bit register, a comma, and an eight-bit immediate.
pub open spec fn spec_shape_reg8_imm(src: Seq<u8>, p: int) -> Result<
    (Register8, u16, int),
    ParseError,
> {
    match spec_parse_reg8(src, p) {
        Ok(t) => match spec_parse_comma(src, t.1) {
            Ok(p2) => match spec_parse_number_operand(src, p2) {
                Ok(t2) => Ok((t.0, t2.0, t2.1)),
                Err(e) => Err(e),
            },
            Err(e) => Err(e),
        },
        Err(e) => Err(e),
    }
}

/// A register pair, a comma, and a 16-bit operand.
pub open spec fn spec_shape_pair_wide(src: Seq<u8>, p: int) -> Result<
    (Register16, OperandModel, int),
    ParseError,
> {
    match spec_parse_reg16(src, p) {
        Ok(t) => match spec_parse_comma(src, t.1) {
            Ok(p2) => match spec_parse_operand16(src, p2) {
                Ok(t2) => Ok((t.0, t2.0, t2.1)),
                Err(e) => Err(e),
            },
            Err(e) => Err(e),
        },
        Err(e) => Err(e),
    }
}

/// What one statement starting at the word at `pos` parses to: the
/// mnemonic selects the operand shapes, a recognized mnemonic whose
/// operands do not follow is a fatal error, and an unrecognized word is a
/// syntax error at `pos`.
pub open spec fn spec_statement_parse(src: Seq<u8>, pos: int) -> Result<
    (StatementModel, int),
    ParseError,
> {
    let wend = spec_read_word(src, pos);
    let n = wend - pos;
    let b0 = spec_word_byte(src, pos, 0, n);
    let b1 = spec_word_byte(src, pos, 1, n);
    let b2 = spec_word_byte(src, pos, 2, n);
    let b3 = spec_word_byte(src, pos, 3, n);
    let p = spec_skip_ws(src, wend);
    if n == 0 {
        Err(ParseError { pos: pos as usize, kind: ParseErrorKind::Syntax })
    } else if n == 2 && b0 == L_D && b1 == L_B {
        match spec_parse_data_operand(src, p) {
            Ok(t) => Ok((StatementModel::DefineByte(t.0), t.1)),
            Err(e) => Err(e),
        }
    } else if n == 2 && b0 == L_D && b1 == L_W {
        match spec_parse_operand16(src, p) {
            Ok(t) => Ok((StatementModel::DefineWord(t.0), t.1)),
            Err(e) => Err(e),
        }
    } else if n == 2 && b0 == L_D && b1 == L_S {
        match spec_parse_number_operand(src, p) {
            Ok(t) => Ok((StatementModel::DefineStorage(t.0), t.1)),
            Err(e) => Err(e),
        }
    } else if n == 2 && b0 == L_J && b1 == L_C {
        match spec_parse_operand16(src, p) {
            Ok(t) => Ok((StatementModel::Instruction(Mnemonic::Jc, OperandsModel::Wide(t.0)), t.1)),
            Err(e) => Err(e),
        }
    } else if n == 2 && b0 == L_J && b1 == L_Z {
        match spec_parse_operand16(src, p) {
            Ok(t) => Ok((StatementModel::Instruction(Mnemonic::Jz, OperandsModel::Wide(t.0)), t.1)),
            Err(e) => Err(e),
        }
    } else if n == 2 && b0 == L_J && b1 == L_P {
        match spec_parse_operand16(src, p) {
            Ok(t) => Ok((StatementModel::Instruction(Mnemonic::Jp, OperandsModel::Wide(t.0)), t.1)),
            Err(e) => Err(e),
        }
    } else if n == 2 && b0 == L_J && b1 == L_M {
        match spec_parse_operand16(src, p) {
            Ok(t) => Ok((StatementModel::Instruction(Mnemonic::Jm, OperandsModel::Wide(t.0)), t.1)),
            Err(e) => Err(e),
        }
    } else if n == 2 && b0 == L_C && b1 == L_C {
        match spec_parse_operand16(src, p) {
            Ok(t) => Ok((StatementModel::Instruction(Mnemonic::Cc, OperandsModel::Wide(t.0)), t.1)),
            Err(e) => Err(e),
        }
    } else if n == 2 && b0 == L_C && b1 == L_Z {
        match spec_parse_operand16(src, p) {
            Ok(t) => Ok((StatementModel::Instruction(Mnemonic::Cz, OperandsModel::Wide(t.0)), t.1)),
            Err(e) => Err(e),
        }
    } else if n == 2 && b0 == L_C && b1 == L_P {
        match spec_parse_operand16(src, p) {
            Ok(t) => Ok((StatementModel::Instruction(Mnemonic::Cp, OperandsModel::Wide(t.0)), t.1)),
            Err(e) => Err(e),
        }
    } else if n == 2 && b0 == L_C && b1 == L_M {
        match spec_parse_operand16(src, p) {
            Ok(t) => Ok((StatementModel::Instruction(Mnemonic::Cm, OperandsModel::Wide(t.0)), t.1)),
            Err(e) => Err(e),
        }
    } else if n == 2 && b0 == L_R && b1 == L_C {
        Ok((StatementModel::Instruction(Mnemonic::Rc, OperandsModel::Plain), wend))
    } else if n == 2 && b0 == L_R && b1 == L_Z {
        Ok((StatementModel::Instruction(Mnemonic::Rz, OperandsModel::Plain), wend))
    } else if n == 2 && b0 == L_R && b1 == L_P {
        Ok((StatementModel::Instruction(Mnemonic::Rp, OperandsModel::Plain), wend))
    } else if n == 2 && b0 == L_R && b1 == L_M {
        Ok((StatementModel::Instruction(Mnemonic::Rm, OperandsModel::Plain), wend))
    } else if n == 2 && b0 == L_E && b1 == L_I {
        Ok((StatementModel::Instruction(Mnemonic::Ei, OperandsModel::Plain), wend))
    } else if n == 2 && b0 == L_D && b1 == L_I {
        Ok((StatementModel::Instruction(Mnemonic::Di, OperandsModel::Plain), wend))
    } else if n == 2 && b0 == L_I && b1 == L_N {
        match spec_parse_number_operand(src, p) {
            Ok(t) => Ok((StatementModel::Instruction(Mnemonic::In, OperandsModel::Imm(t.0)), t.1)),
            Err(e) => Err(e),
        }
    } else if n == 3 && b0 == L_M && b1 == L_O && b2 == L_V {
        match spec_shape_two_reg8(src, p) {
            Ok(t) => Ok((StatementModel::Instruction(Mnemonic::Mov, OperandsModel::Two8(t.0, t.1)), t.2)),
            Err(e) => Err(e),
        }
    } else if n == 3 && b0 == L_M && b1 == L_V && b2 == L_I {
        match spec_shape_reg8_imm(src, p) {
            Ok(t) => Ok((StatementModel::Instruction(Mnemonic::Mvi, OperandsModel::EightImm(t.0, t.1)), t.2)),
            Err(e) => Err(e),
        }
    } else if n == 3 && b0 == L_L && b1 == L_X && b2 == L_I {
        match spec_shape_pair_wide(src, p) {
            Ok(t) => Ok((StatementModel::Instruction(Mnemonic::Lxi, OperandsModel::PairWide(t.0, t.1)), t.2)),
            Err(e) => Err(e),
        }
    } else if n == 3 && b0 == L_L && b1 == L_D && b2 == L_A {
        match spec_parse_label_word(src, p) {
            Ok(t) => Ok((StatementModel::Instruction(Mnemonic::Lda, OperandsModel::LabelRef(t.0)), t.1)),
            Err(e) => Err(e),
        }
    } else if n == 3 && b0 == L_S && b1 == L_T && b2 == L_A {
        match spec_parse_label_word(src, p) {
            Ok(t) => Ok((StatementModel::Instruction(Mnemonic::Sta, OperandsModel::LabelRef(t.0)), t.1)),
            Err(e) => Err(e),
        }
    } else if n == 3 && b0 == L_A && b1 == L_D && b2 == L_D {
        match spec_parse_reg8(src, p) {
            Ok(t) => Ok((StatementModel::Instruction(Mnemonic::Add, OperandsModel::One8(t.0)), t.1)),
            Err(e) => Err(e),
        }
    } else if n == 3 && b0 == L_A && b1 == L_D && b2 == L_I {
        match spec_parse_number_operand(src, p) {
            Ok(t) => Ok((StatementModel::Instruction(Mnemonic::Adi, OperandsModel::Imm(t.0)), t.1)),
            Err(e) => Err(e),
        }
    } else if n == 3 && b0 == L_A && b1 == L_D && b2 == L_C {
        match spec_parse_reg8(src, p) {
            Ok(t) => Ok((StatementModel::Instruction(Mnemonic::Adc, OperandsModel::One8(t.0)), t.1)),
            Err(e) => Err(e),
        }
    } else if n == 3 && b0 == L_A && b1 == L_C && b2 == L_I {
        match spec_parse_number_operand(src, p) {
            Ok(t) => Ok((StatementModel::Instruction(Mnemonic::Aci, OperandsModel::Imm(t.0)), t.1)),
            Err(e) => Err(e),
        }
    } else if n == 3 && b0 == L_S && b1 == L_U && b2 == L_B {
        match spec_parse_reg8(src, p) {
            Ok(t) => Ok((StatementModel::Instruction(Mnemonic::Sub, OperandsModel::One8(t.0)), t.1)),
            Err(e) => Err(e),
        }
    } else if n == 3 && b0 == L_S && b1 == L_U && b2 == L_I {
        match spec_parse_number_operand(src, p) {
            Ok(t) => Ok((StatementModel::Instruction(Mnemonic::Sui, OperandsModel::Imm(t.0)), t.1)),
            Err(e) => Err(e),
        }
    } else if n == 3 && b0 == L_S && b1 == L_B && b2 == L_B {
        match spec_parse_reg8(src, p) {
            Ok(t) => Ok((StatementModel::Instruction(Mnemonic::Sbb, OperandsModel::One8(t.0)), t.1)),
            Err(e) => Err(e),
        }
    } else if n == 3 && b0 == L_S && b1 == L_B && b2 == L_I {
        match spec_parse_number_operand(src, p) {
            Ok(t) => Ok((StatementModel::Instruction(Mnemonic::Sbi, OperandsModel::Imm(t.0)), t.1)),
            Err(e) => Err(e),
        }
    } else if n == 3 && b0 == L_I && b1 == L_N && b2 == L_R {
        match spec_parse_reg8(src, p) {
            Ok(t) => Ok((StatementModel::Instruction(Mnemonic::Inr, OperandsModel::One8(t.0)), t.1)),
            Err(e) => Err(e),
        }
    } else if n == 3 && b0 == L_D && b1 == L_C && b2 == L_R {
        match spec_parse_reg8(src, p) {
            Ok(t) => Ok((StatementModel::Instruction(Mnemonic::Dcr, OperandsModel::One8(t.0)), t.1)),
            Err(e) => Err(e),
        }
    } else if n == 3 && b0 == L_I && b1 == L_N && b2 == L_X {
        match spec_parse_reg16(src, p) {
            Ok(t) => Ok((StatementModel::Instruction(Mnemonic::Inx, OperandsModel::Pair(t.0)), t.1)),
            Err(e) => Err(e),
        }
    } else if n == 3 && b0 == L_D && b1 == L_C && b2 == L_X {
        match spec_parse_reg16(src, p) {
            Ok(t) => Ok((StatementModel::Instruction(Mnemonic::Dcx, OperandsModel::Pair(t.0)), t.1)),
            Err(e) => Err(e),
        }
    } else if n == 3 && b0 == L_D && b1 == L_A && b2 == L_D {
        match spec_parse_reg16(src, p) {
            Ok(t) => Ok((StatementModel::Instruction(Mnemonic::Dad, OperandsModel::Pair(t.0)), t.1)),
            Err(e) => Err(e),
        }
    } else if n == 3 && b0 == L_D && b1 == L_A && b2 == L_A {
        Ok((StatementModel::Instruction(Mnemonic::Daa, OperandsModel::Plain), wend))
    } else if n == 3 && b0 == L_A && b1 == L_N && b2 == L_A {
        match spec_parse_reg8(src, p) {
            Ok(t) => Ok((StatementModel::Instruction(Mnemonic::Ana, OperandsModel::One8(t.0)), t.1)),
            Err(e) => Err(e),
        }
    } else if n == 3 && b0 == L_A && b1 == L_N && b2 == L_I {
        match spec_parse_number_operand(src, p) {
            Ok(t) => Ok((StatementModel::Instruction(Mnemonic::Ani, OperandsModel::Imm(t.0)), t.1)),
            Err(e) => Err(e),
        }
    } else if n == 3 && b0 == L_X && b1 == L_R && b2 == L_A {
        match spec_parse_reg8(src, p) {
            Ok(t) => Ok((StatementModel::Instruction(Mnemonic::Xra, OperandsModel::One8(t.0)), t.1)),
            Err(e) => Err(e),
        }
    } else if n == 3 && b0 == L_X && b1 == L_R && b2 == L_I {
        match spec_parse_number_operand(src, p) {
            Ok(t) => Ok((StatementModel::Instruction(Mnemonic::Xri, OperandsModel::Imm(t.0)), t.1)),
            Err(e) => Err(e),
        }
    } else if n == 3 && b0 == L_O && b1 == L_R && b2 == L_A {
        match spec_parse_reg8(src, p) {
            Ok(t) => Ok((StatementModel::Instruction(Mnemonic::Ora, OperandsModel::One8(t.0)), t.1)),
            Err(e) => Err(e),
        }
    } else if n == 3 && b0 == L_O && b1 == L_R && b2 == L_I {
        match spec_parse_number_operand(src, p) {
            Ok(t) => Ok((StatementModel::Instruction(Mnemonic::Ori, OperandsModel::Imm(t.0)), t.1)),
            Err(e) => Err(e),
        }
    } else if n == 3 && b0 == L_C && b1 == L_M && b2 == L_P {
        match spec_parse_reg8(src, p) {
            Ok(t) => Ok((StatementModel::Instruction(Mnemonic::Cmp, OperandsModel::One8(t.0)), t.1)),
            Err(e) => Err(e),
        }
    } else if n == 3 && b0 == L_C && b1 == L_P && b2 == L_I {
        match spec_parse_number_operand(src, p) {
            Ok(t) => Ok((StatementModel::Instruction(Mnemonic::Cpi, OperandsModel::Imm(t.0)), t.1)),
            Err(e) => Err(e),
        }
    } else if n == 3 && b0 == L_R && b1 == L_L && b2 == L_C {
        Ok((StatementModel::Instruction(Mnemonic::Rlc, OperandsModel::Plain), wend))
    } else if n == 3 && b0 == L_R && b1 == L_R && b2 == L_C {
        Ok((StatementModel::Instruction(Mnemonic::Rrc, OperandsModel::Plain), wend))
    } else if n == 3 && b0 == L_R && b1 == L_A && b2 == L_L {
        Ok((StatementModel::Instruction(Mnemonic::Ral, OperandsModel::Plain), wend))
    } else if n == 3 && b0 == L_R && b1 == L_A && b2 == L_R {
        Ok((StatementModel::Instruction(Mnemonic::Rar, OperandsModel::Plain), wend))
    } else if n == 3 && b0 == L_C && b1 == L_M && b2 == L_A {
        Ok((StatementModel::Instruction(Mnemonic::Cma, OperandsModel::Plain), wend))
    } else if n == 3 && b0 == L_C && b1 == L_M && b2 == L_C {
        Ok((StatementModel::Instruction(Mnemonic::Cmc, OperandsModel::Plain), wend))
    } else if n == 3 && b0 == L_S && b1 == L_T && b2 == L_C {
        Ok((StatementModel::Instruction(Mnemonic::Stc, OperandsModel::Plain), wend))
    } else if n == 3 && b0 == L_J && b1 == L_M && b2 == L_P {
        match spec_parse_operand16(src, p) {
            Ok(t) => Ok((StatementModel::Instruction(Mnemonic::Jmp, OperandsModel::Wide(t.0)), t.1)),
            Err(e) => Err(e),
        }
    } else if n == 3 && b0 == L_J && b1 == L_N && b2 == L_C {
        match spec_parse_operand16(src, p) {
            Ok(t) => Ok((StatementModel::Instruction(Mnemonic::Jnc, OperandsModel::Wide(t.0)), t.1)),
            Err(e) => Err(e),
        }
    } else if n == 3 && b0 == L_J && b1 == L_N && b2 == L_Z {
        match spec_parse_operand16(src, p) {
            Ok(t) => Ok((StatementModel::Instruction(Mnemonic::Jnz, OperandsModel::Wide(t.0)), t.1)),
            Err(e) => Err(e),
        }
    } else if n == 3 && b0 == L_J && b1 == L_P && b2 == L_E {
        match spec_parse_operand16(src, p) {
            Ok(t) => Ok((StatementModel::Instruction(Mnemonic::Jpe, OperandsModel::Wide(t.0)), t.1)),
            Err(e) => Err(e),
        }
    } else if n == 3 && b0 == L_J && b1 == L_P && b2 == L_O {
        match spec_parse_operand16(src, p) {
            Ok(t) => Ok((StatementModel::Instruction(Mnemonic::Jpo, OperandsModel::Wide(t.0)), t.1)),
            Err(e) => Err(e),
        }
    } else if n == 3 && b0 == L_C && b1 == L_N && b2 == L_C {
        match spec_parse_operand16(src, p) {
            Ok(t) => Ok((StatementModel::Instruction(Mnemonic::Cnc, OperandsModel::Wide(t.0)), t.1)),
            Err(e) => Err(e),
        }
    } else if n == 3 && b0 == L_C && b1 == L_N && b2 == L_Z {
        match spec_parse_operand16(src, p) {
            Ok(t) => Ok((StatementModel::Instruction(Mnemonic::Cnz, OperandsModel::Wide(t.0)), t.1)),
            Err(e) => Err(e),
        }
    } else if n == 3 && b0 == L_C && b1 == L_P && b2 == L_E {
        match spec_parse_operand16(src, p) {
            Ok(t) => Ok((StatementModel::Instruction(Mnemonic::Cpe, OperandsModel::Wide(t.0)), t.1)),
            Err(e) => Err(e),
        }
    } else if n == 3 && b0 == L_C && b1 == L_P && b2 == L_O {
        match spec_parse_operand16(src, p) {
            Ok(t) => Ok((StatementModel::Instruction(Mnemonic::Cpo, OperandsModel::Wide(t.0)), t.1)),
            Err(e) => Err(e),
        }
    } else if n == 3 && b0 == L_R && b1 == L_E && b2 == L_T {
        Ok((StatementModel::Instruction(Mnemonic::Ret, OperandsModel::Plain), wend))
    } else if n == 3 && b0 == L_R && b1 == L_N && b2 == L_C {
        Ok((StatementModel::Instruction(Mnemonic::Rnc, OperandsModel::Plain), wend))
    } else if n == 3 && b0 == L_R && b1 == L_N && b2 == L_Z {
        Ok((StatementModel::Instruction(Mnemonic::Rnz, OperandsModel::Plain), wend))
    } else if n == 3 && b0 == L_R && b1 == L_P && b2 == L_E {
        Ok((StatementModel::Instruction(Mnemonic::Rpe, OperandsModel::Plain), wend))
    } else if n == 3 && b0 == L_R && b1 == L_P && b2 == L_O {
        Ok((StatementModel::Instruction(Mnemonic::Rpo, OperandsModel::Plain), wend))
    } else if n == 3 && b0 == L_R && b1 == L_S && b2 == L_T {
        match spec_parse_number_operand(src, p) {
            Ok(t) => Ok((StatementModel::Instruction(Mnemonic::Rst, OperandsModel::Imm(t.0)), t.1)),
            Err(e) => Err(e),
        }
    } else if n == 3 && b0 == L_P && b1 == L_O && b2 == L_P {
        match spec_parse_reg16_stack(src, p) {
            Ok(t) => Ok((StatementModel::Instruction(Mnemonic::Pop, OperandsModel::Pair(t.0)), t.1)),
            Err(e) => Err(e),
        }
    } else if n == 3 && b0 == L_O && b1 == L_U && b2 == L_T {
        match spec_parse_number_operand(src, p) {
            Ok(t) => Ok((StatementModel::Instruction(Mnemonic::Out, OperandsModel::Imm(t.0)), t.1)),
            Err(e) => Err(e),
        }
    } else if n == 3 && b0 == L_H && b1 == L_L && b2 == L_T {
        Ok((StatementModel::Instruction(Mnemonic::Hlt, OperandsModel::Plain), wend))
    } else if n == 3 && b0 == L_N && b1 == L_O && b2 == L_P {
        Ok((StatementModel::Instruction(Mnemonic::Nop, OperandsModel::Plain), wend))
    } else if n == 4 && b0 == L_L && b1 == L_H && b2 == L_L && b3 == L_D {
        match spec_parse_operand16(src, p) {
            Ok(t) => Ok((StatementModel::Instruction(Mnemonic::Lhld, OperandsModel::Wide(t.0)), t.1)),
            Err(e) => Err(e),
        }
    } else if n == 4 && b0 == L_S && b1 == L_H && b2 == L_L && b3 == L_D {
        match spec_parse_operand16(src, p) {
            Ok(t) => Ok((StatementModel::Instruction(Mnemonic::Shld, OperandsModel::Wide(t.0)), t.1)),
            Err(e) => Err(e),
        }
    } else if n == 4 && b0 == L_L && b1 == L_D && b2 == L_A && b3 == L_X {
        match spec_parse_reg16_indirect(src, p) {
            Ok(t) => Ok((StatementModel::Instruction(Mnemonic::Ldax, OperandsModel::Pair(t.0)), t.1)),
            Err(e) => Err(e),
        }
    } else if n == 4 && b0 == L_S && b1 == L_T && b2 == L_A && b3 == L_X {
        match spec_parse_reg16_indirect(src, p) {
            Ok(t) => Ok((StatementModel::Instruction(Mnemonic::Stax, OperandsModel::Pair(t.0)), t.1)),
            Err(e) => Err(e),
        }
    } else if n == 4 && b0 == L_X && b1 == L_C && b2 == L_H && b3 == L_G {
        Ok((StatementModel::Instruction(Mnemonic::Xchg, OperandsModel::Plain), wend))
    } else if n == 4 && b0 == L_C && b1 == L_A && b2 == L_L && b3 == L_L {
        match spec_parse_operand16(src, p) {
            Ok(t) => Ok((StatementModel::Instruction(Mnemonic::Call, OperandsModel::Wide(t.0)), t.1)),
            Err(e) => Err(e),
        }
    } else if n == 4 && b0 == L_P && b1 == L_C && b2 == L_H && b3 == L_L {
        Ok((StatementModel::Instruction(Mnemonic::Pchl, OperandsModel::Plain), wend))
    } else if n == 4 && b0 == L_P && b1 == L_U && b2 == L_S && b3 == L_H {
        match spec_parse_reg16_stack(src, p) {
            Ok(t) => Ok((StatementModel::Instruction(Mnemonic::Push, OperandsModel::Pair(t.0)), t.1)),
            Err(e) => Err(e),
        }
    } else if n == 4 && b0 == L_X && b1 == L_T && b2 == L_H && b3 == L_L {
        Ok((StatementModel::Instruction(Mnemonic::Xthl, OperandsModel::Plain), wend))
    } else if n == 4 && b0 == L_S && b1 == L_P && b2 == L_H && b3 == L_L {
        Ok((StatementModel::Instruction(Mnemonic::Sphl, OperandsModel::Plain), wend))
    } else {
        Err(ParseError { pos: pos as usize, kind: ParseErrorKind::Syntax })
    }
}


impl View for Statement {
    type V = StatementModel;

    open spec fn view(&self) -> StatementModel {
        match self {
            Statement::DataStatement(d) => match d {
                DataStatement::DefineByte(l) => StatementModel::DefineByte(l@),
                DataStatement::DefineWord(o) => StatementModel::DefineWord(o@),
                DataStatement::DefineStorage(num) => StatementModel::DefineStorage(num.value),
            },
            Statement::Instruction(parsed) => match &parsed.inner {
                ParsedInstructionInner::Mov(d, s) => StatementModel::Instruction(
                    Mnemonic::Mov,
                    OperandsModel::Two8(*d, *s),
                ),
                ParsedInstructionInner::Mvi(d, num) => StatementModel::Instruction(
                    Mnemonic::Mvi,
                    OperandsModel::EightImm(*d, num.value),
                ),
                ParsedInstructionInner::Lxi(rp, o) => StatementModel::Instruction(
                    Mnemonic::Lxi,
                    OperandsModel::PairWide(*rp, o@),
                ),
                ParsedInstructionInner::Lda(l) => StatementModel::Instruction(
                    Mnemonic::Lda,
                    OperandsModel::LabelRef(l@),
                ),
                ParsedInstructionInner::Sta(l) => StatementModel::Instruction(
                    Mnemonic::Sta,
                    OperandsModel::LabelRef(l@),
                ),
                ParsedInstructionInner::Lhld(o) => StatementModel::Instruction(
                    Mnemonic::Lhld,
                    OperandsModel::Wide(o@),
                ),
                ParsedInstructionInner::Shld(o) => StatementModel::Instruction(
                    Mnemonic::Shld,
                    OperandsModel::Wide(o@),
                ),
                ParsedInstructionInner::Jmp(o) => StatementModel::Instruction(
                    Mnemonic::Jmp,
                    OperandsModel::Wide(o@),
                ),
                ParsedInstructionInner::Jc(o) => StatementModel::Instruction(
                    Mnemonic::Jc,
                    OperandsModel::Wide(o@),
                ),
                ParsedInstructionInner::Jnc(o) => StatementModel::Instruction(
                    Mnemonic::Jnc,
                    OperandsModel::Wide(o@),
                ),
                ParsedInstructionInner::Jz(o) => StatementModel::Instruction(
                    Mnemonic::Jz,
                    OperandsModel::Wide(o@),
                ),
                ParsedInstructionInner::Jnz(o) => StatementModel::Instruction(
                    Mnemonic::Jnz,
                    OperandsModel::Wide(o@),
                ),
                ParsedInstructionInner::Jp(o) => StatementModel::Instruction(
                    Mnemonic::Jp,
                    OperandsModel::Wide(o@),
                ),
                ParsedInstructionInner::Jm(o) => StatementModel::Instruction(
                    Mnemonic::Jm,
                    OperandsModel::Wide(o@),
                ),
                ParsedInstructionInner::Jpe(o) => StatementModel::Instruction(
                    Mnemonic::Jpe,
                    OperandsModel::Wide(o@),
                ),
                ParsedInstructionInner::Jpo(o) => StatementModel::Instruction(
                    Mnemonic::Jpo,
                    OperandsModel::Wide(o@),
                ),
                ParsedInstructionInner::Call(o) => StatementModel::Instruction(
                    Mnemonic::Call,
                    OperandsModel::Wide(o@),
                ),
                ParsedInstructionInner::Cc(o) => StatementModel::Instruction(
                    Mnemonic::Cc,
                    OperandsModel::Wide(o@),
                ),
                ParsedInstructionInner::Cnc(o) => StatementModel::Instruction(
                    Mnemonic::Cnc,
                    OperandsModel::Wide(o@),
                ),
                ParsedInstructionInner::Cz(o) => StatementModel::Instruction(
                    Mnemonic::Cz,
                    OperandsModel::Wide(o@),
                ),
                ParsedInstructionInner::Cnz(o) => StatementModel::Instruction(
                    Mnemonic::Cnz,
                    OperandsModel::Wide(o@),
                ),
                ParsedInstructionInner::Cp(o) => StatementModel::Instruction(
                    Mnemonic::Cp,
                    OperandsModel::Wide(o@),
                ),
                ParsedInstructionInner::Cm(o) => StatementModel::Instruction(
                    Mnemonic::Cm,
                    OperandsModel::Wide(o@),
                ),
                ParsedInstructionInner::Cpe(o) => StatementModel::Instruction(
                    Mnemonic::Cpe,
                    OperandsModel::Wide(o@),
                ),
                ParsedInstructionInner::Cpo(o) => StatementModel::Instruction(
                    Mnemonic::Cpo,
                    OperandsModel::Wide(o@),
                ),
                ParsedInstructionInner::Ldax(rp) => StatementModel::Instruction(
                    Mnemonic::Ldax,
                    OperandsModel::Pair(*rp),
                ),
                ParsedInstructionInner::Stax(rp) => StatementModel::Instruction(
                    Mnemonic::Stax,
                    OperandsModel::Pair(*rp),
                ),
                ParsedInstructionInner::Inx(rp) => StatementModel::Instruction(
                    Mnemonic::Inx,
                    OperandsModel::Pair(*rp),
                ),
                ParsedInstructionInner::Dcx(rp) => StatementModel::Instruction(
                    Mnemonic::Dcx,
                    OperandsModel::Pair(*rp),
                ),
                ParsedInstructionInner::Dad(rp) => StatementModel::Instruction(
                    Mnemonic::Dad,
                    OperandsModel::Pair(*rp),
                ),
                ParsedInstructionInner::Push(rp) => StatementModel::Instruction(
                    Mnemonic::Push,
                    OperandsModel::Pair(*rp),
                ),
                ParsedInstructionInner::Pop(rp) => StatementModel::Instruction(
                    Mnemonic::Pop,
                    OperandsModel::Pair(*rp),
                ),
                ParsedInstructionInner::Add(reg) => StatementModel::Instruction(
                    Mnemonic::Add,
                    OperandsModel::One8(*reg),
                ),
                ParsedInstructionInner::Adc(reg) => StatementModel::Instruction(
                    Mnemonic::Adc,
                    OperandsModel::One8(*reg),
                ),
                ParsedInstructionInner::Sub(reg) => StatementModel::Instruction(
                    Mnemonic::Sub,
                    OperandsModel::One8(*reg),
                ),
                ParsedInstructionInner::Sbb(reg) => StatementModel::Instruction(
                    Mnemonic::Sbb,
                    OperandsModel::One8(*reg),
                ),
                ParsedInstructionInner::Inr(reg) => StatementModel::Instruction(
                    Mnemonic::Inr,
                    OperandsModel::One8(*reg),
                ),
                ParsedInstructionInner::Dcr(reg) => StatementModel::Instruction(
                    Mnemonic::Dcr,
                    OperandsModel::One8(*reg),
                ),
                ParsedInstructionInner::Ana(reg) => StatementModel::Instruction(
                    Mnemonic::Ana,
                    OperandsModel::One8(*reg),
                ),
                ParsedInstructionInner::Xra(reg) => StatementModel::Instruction(
                    Mnemonic::Xra,
                    OperandsModel::One8(*reg),
                ),
                ParsedInstructionInner::Ora(reg) => StatementModel::Instruction(
                    Mnemonic::Ora,
                    OperandsModel::One8(*reg),
                ),
                ParsedInstructionInner::Cmp(reg) => StatementModel::Instruction(
                    Mnemonic::Cmp,
                    OperandsModel::One8(*reg),
                ),
                ParsedInstructionInner::Adi(num) => StatementModel::Instruction(
                    Mnemonic::Adi,
                    OperandsModel::Imm(num.value),
                ),
                ParsedInstructionInner::Aci(num) => StatementModel::Instruction(
                    Mnemonic::Aci,
                    OperandsModel::Imm(num.value),
                ),
                ParsedInstructionInner::Sui(num) => StatementModel::Instruction(
                    Mnemonic::Sui,
                    OperandsModel::Imm(num.value),
                ),
                ParsedInstructionInner::Sbi(num) => StatementModel::Instruction(
                    Mnemonic::Sbi,
                    OperandsModel::Imm(num.value),
                ),
                ParsedInstructionInner::Ani(num) => StatementModel::Instruction(
                    Mnemonic::Ani,
                    OperandsModel::Imm(num.value),
                ),
                ParsedInstructionInner::Xri(num) => StatementModel::Instruction(
                    Mnemonic::Xri,
                    OperandsModel::Imm(num.value),
                ),
                ParsedInstructionInner::Ori(num) => StatementModel::Instruction(
                    Mnemonic::Ori,
                    OperandsModel::Imm(num.value),
                ),
                ParsedInstructionInner::Cpi(num) => StatementModel::Instruction(
                    Mnemonic::Cpi,
                    OperandsModel::Imm(num.value),
                ),
                ParsedInstructionInner::Rst(num) => StatementModel::Instruction(
                    Mnemonic::Rst,
                    OperandsModel::Imm(num.value),
                ),
                ParsedInstructionInner::In(num) => StatementModel::Instruction(
                    Mnemonic::In,
                    OperandsModel::Imm(num.value),
                ),
                ParsedInstructionInner::Out(num) => StatementModel::Instruction(
                    Mnemonic::Out,
                    OperandsModel::Imm(num.value),
                ),
                ParsedInstructionInner::Xchg => StatementModel::Instruction(
                    Mnemonic::Xchg,
                    OperandsModel::Plain,
                ),
                ParsedInstructionInner::Daa => StatementModel::Instruction(
                    Mnemonic::Daa,
                    OperandsModel::Plain,
                ),
                ParsedInstructionInner::Rlc => StatementModel::Instruction(
                    Mnemonic::Rlc,
                    OperandsModel::Plain,
                ),
                ParsedInstructionInner::Rrc => StatementModel::Instruction(
                    Mnemonic::Rrc,
                    OperandsModel::Plain,
                ),
                ParsedInstructionInner::Ral => StatementModel::Instruction(
                    Mnemonic::Ral,
                    OperandsModel::Plain,
                ),
                ParsedInstructionInner::Rar => StatementModel::Instruction(
                    Mnemonic::Rar,
                    OperandsModel::Plain,
                ),
                ParsedInstructionInner::Cma => StatementModel::Instruction(
                    Mnemonic::Cma,
                    OperandsModel::Plain,
                ),
                ParsedInstructionInner::Cmc => StatementModel::Instruction(
                    Mnemonic::Cmc,
                    OperandsModel::Plain,
                ),
                ParsedInstructionInner::Stc => StatementModel::Instruction(
                    Mnemonic::Stc,
                    OperandsModel::Plain,
                ),
                ParsedInstructionInner::Ret => StatementModel::Instruction(
                    Mnemonic::Ret,
                    OperandsModel::Plain,
                ),
                ParsedInstructionInner::Rc => StatementModel::Instruction(
                    Mnemonic::Rc,
                    OperandsModel::Plain,
                ),
                ParsedInstructionInner::Rnc => StatementModel::Instruction(
                    Mnemonic::Rnc,
                    OperandsModel::Plain,
                ),
                ParsedInstructionInner::Rz => StatementModel::Instruction(
                    Mnemonic::Rz,
                    OperandsModel::Plain,
                ),
                ParsedInstructionInner::Rnz => StatementModel::Instruction(
                    Mnemonic::Rnz,
                    OperandsModel::Plain,
                ),
                ParsedInstructionInner::Rp => StatementModel::Instruction(
                    Mnemonic::Rp,
                    OperandsModel::Plain,
                ),
                ParsedInstructionInner::Rm => StatementModel::Instruction(
                    Mnemonic::Rm,
                    OperandsModel::Plain,
                ),
                ParsedInstructionInner::Rpe => StatementModel::Instruction(
                    Mnemonic::Rpe,
                    OperandsModel::Plain,
                ),
                ParsedInstructionInner::Rpo => StatementModel::Instruction(
                    Mnemonic::Rpo,
                    OperandsModel::Plain,
                ),
                ParsedInstructionInner::Pchl => StatementModel::Instruction(
                    Mnemonic::Pchl,
                    OperandsModel::Plain,
                ),
                ParsedInstructionInner::Xthl => StatementModel::Instruction(
                    Mnemonic::Xthl,
                    OperandsModel::Plain,
                ),
                ParsedInstructionInner::Sphl => StatementModel::Instruction(
                    Mnemonic::Sphl,
                    OperandsModel::Plain,
                ),
                ParsedInstructionInner::Ei => StatementModel::Instruction(
                    Mnemonic::Ei,
                    OperandsModel::Plain,
                ),
                ParsedInstructionInner::Di => StatementModel::Instruction(
                    Mnemonic::Di,
                    OperandsModel::Plain,
                ),
                ParsedInstructionInner::Hlt => StatementModel::Instruction(
                    Mnemonic::Hlt,
                    OperandsModel::Plain,
                ),
                ParsedInstructionInner::Nop => StatementModel::Instruction(
                    Mnemonic::Nop,
                    OperandsModel::Plain,
                ),
            },
        }
    }
}

/// Parses one statement starting at the mnemonic word at `pos`: the
/// mnemonic decides the operand shapes, and a recognized mnemonic whose
/// operands do not follow is a fatal error, not a backtrack.
#[verifier::spinoff_prover]
#[verifier::rlimit(100)]
pub fn parse_statement(src: &[u8], pos: usize) -> (r: Result<(Statement, usize), ParseError>)
    requires
        pos <= src@.len(),
    ensures
        r matches Ok(t) ==> pos < t.1 <= src@.len(),
        ({
            let s = spec_statement_parse(src@, pos as int);
            match r {
                Ok(t) => s == Ok::<_, ParseError>((t.0@, t.1 as int)),
                Err(e) => s == Err::<(StatementModel, int), _>(e),
            }
        }),
{
    let wend = read_word(src, pos);
    let n = wend - pos;
    if n == 0 {
        return Err(ParseError { pos, kind: ParseErrorKind::Syntax });
    }
    let b0 = src[pos];
    let b1 = if n > 1 {
        src[pos + 1]
    } else {
        0
    };
    let b2 = if n > 2 {
        src[pos + 2]
    } else {
        0
    };
    let b3 = if n > 3 {
        src[pos + 3]
    } else {
        0
    };
    let p = skip_ws(src, wend);
    if n == 2 {
        if b0 == L_D && b1 == L_B {
            let (v, p) = parse_string_or_number(src, p)?;
            return Ok((data(DataStatement::DefineByte(v)), p));
        }
        if b0 == L_D && b1 == L_W {
            let (v, p) = parse_label_or_number(src, p)?;
            return Ok((data(DataStatement::DefineWord(v)), p));
        }
        if b0 == L_D && b1 == L_S {
            let (v, p) = parse_number_operand(src, p)?;
            return Ok((data(DataStatement::DefineStorage(v)), p));
        }
        if b0 == L_J && b1 == L_C {
            let (v, p) = parse_label_or_number(src, p)?;
            return Ok((instr(ParsedInstructionInner::Jc(v)), p));
        }
        if b0 == L_J && b1 == L_Z {
            let (v, p) = parse_label_or_number(src, p)?;
            return Ok((instr(ParsedInstructionInner::Jz(v)), p));
        }
        if b0 == L_J && b1 == L_P {
            let (v, p) = parse_label_or_number(src, p)?;
            return Ok((instr(ParsedInstructionInner::Jp(v)), p));
        }
        if b0 == L_J && b1 == L_M {
            let (v, p) = parse_label_or_number(src, p)?;
            return Ok((instr(ParsedInstructionInner::Jm(v)), p));
        }
        if b0 == L_C && b1 == L_C {
            let (v, p) = parse_label_or_number(src, p)?;
            return Ok((instr(ParsedInstructionInner::Cc(v)), p));
        }
        if b0 == L_C && b1 == L_Z {
            let (v, p) = parse_label_or_number(src, p)?;
            return Ok((instr(ParsedInstructionInner::Cz(v)), p));
        }
        if b0 == L_C && b1 == L_P {
            let (v, p) = parse_label_or_number(src, p)?;
            return Ok((instr(ParsedInstructionInner::Cp(v)), p));
        }
        if b0 == L_C && b1 == L_M {
            let (v, p) = parse_label_or_number(src, p)?;
            return Ok((instr(ParsedInstructionInner::Cm(v)), p));
        }
        if b0 == L_R && b1 == L_C {
            return Ok((instr(ParsedInstructionInner::Rc), wend));
        }
        if b0 == L_R && b1 == L_Z {
            return Ok((instr(ParsedInstructionInner::Rz), wend));
        }
        if b0 == L_R && b1 == L_P {
            return Ok((instr(ParsedInstructionInner::Rp), wend));
        }
        if b0 == L_R && b1 == L_M {
            return Ok((instr(ParsedInstructionInner::Rm), wend));
        }
        if b0 == L_E && b1 == L_I {
            return Ok((instr(ParsedInstructionInner::Ei), wend));
        }
        if b0 == L_D && b1 == L_I {
            return Ok((instr(ParsedInstructionInner::Di), wend));
        }
        if b0 == L_I && b1 == L_N {
            let (v, p) = parse_number_operand(src, p)?;
            return Ok((instr(ParsedInstructionInner::In(v)), p));
        }
    } else if n == 3 {
        if b0 == L_M && b1 == L_O && b2 == L_V {
            let (d, p) = parse_reg8(src, p)?;
            let p = parse_comma(src, p)?;
            let (s, p) = parse_reg8(src, p)?;
            return Ok((instr(ParsedInstructionInner::Mov(d, s)), p));
        }
        if b0 == L_M && b1 == L_V && b2 == L_I {
            let (d, p) = parse_reg8(src, p)?;
            let p = parse_comma(src, p)?;
            let (v, p) = parse_number_operand(src, p)?;
            return Ok((instr(ParsedInstructionInner::Mvi(d, v)), p));
        }
        if b0 == L_L && b1 == L_X && b2 == L_I {
            let (rp, p) = parse_reg16(src, p)?;
            let p = parse_comma(src, p)?;
            let (v, p) = parse_label_or_number(src, p)?;
            return Ok((instr(ParsedInstructionInner::Lxi(rp, v)), p));
        }
        if b0 == L_L && b1 == L_D && b2 == L_A {
            let (l, p) = parse_label_word(src, p)?;
            return Ok((instr(ParsedInstructionInner::Lda(l)), p));
        }
        if b0 == L_S && b1 == L_T && b2 == L_A {
            let (l, p) = parse_label_word(src, p)?;
            return Ok((instr(ParsedInstructionInner::Sta(l)), p));
        }
        if b0 == L_A && b1 == L_D && b2 == L_D {
            let (reg, p) = parse_reg8(src, p)?;
            return Ok((instr(ParsedInstructionInner::Add(reg)), p));
        }
        if b0 == L_A && b1 == L_D && b2 == L_I {
            let (v, p) = parse_number_operand(src, p)?;
            return Ok((instr(ParsedInstructionInner::Adi(v)), p));
        }
        if b0 == L_A && b1 == L_D && b2 == L_C {
            let (reg, p) = parse_reg8(src, p)?;
            return Ok((instr(ParsedInstructionInner::Adc(reg)), p));
        }
        if b0 == L_A && b1 == L_C && b2 == L_I {
            let (v, p) = parse_number_operand(src, p)?;
            return Ok((instr(ParsedInstructionInner::Aci(v)), p));
        }
        if b0 == L_S && b1 == L_U && b2 == L_B {
            let (reg, p) = parse_reg8(src, p)?;
            return Ok((instr(ParsedInstructionInner::Sub(reg)), p));
        }
        if b0 == L_S && b1 == L_U && b2 == L_I {
            let (v, p) = parse_number_operand(src, p)?;
            return Ok((instr(ParsedInstructionInner::Sui(v)), p));
        }
        if b0 == L_S && b1 == L_B && b2 == L_B {
            let (reg, p) = parse_reg8(src, p)?;
            return Ok((instr(ParsedInstructionInner::Sbb(reg)), p));
        }
        if b0 == L_S && b1 == L_B && b2 == L_I {
            let (v, p) = parse_number_operand(src, p)?;
            return Ok((instr(ParsedInstructionInner::Sbi(v)), p));
        }
        if b0 == L_I && b1 == L_N && b2 == L_R {
            let (reg, p) = parse_reg8(src, p)?;
            return Ok((instr(ParsedInstructionInner::Inr(reg)), p));
        }
        if b0 == L_D && b1 == L_C && b2 == L_R {
            let (reg, p) = parse_reg8(src, p)?;
            return Ok((instr(ParsedInstructionInner::Dcr(reg)), p));
        }
        if b0 == L_I && b1 == L_N && b2 == L_X {
            let (rp, p) = parse_reg16(src, p)?;
            return Ok((instr(ParsedInstructionInner::Inx(rp)), p));
        }
        if b0 == L_D && b1 == L_C && b2 == L_X {
            let (rp, p) = parse_reg16(src, p)?;
            return Ok((instr(ParsedInstructionInner::Dcx(rp)), p));
        }
        if b0 == L_D && b1 == L_A && b2 == L_D {
            let (rp, p) = parse_reg16(src, p)?;
            return Ok((instr(ParsedInstructionInner::Dad(rp)), p));
        }
        if b0 == L_D && b1 == L_A && b2 == L_A {
            return Ok((instr(ParsedInstructionInner::Daa), wend));
        }
        if b0 == L_A && b1 == L_N && b2 == L_A {
            let (reg, p) = parse_reg8(src, p)?;
            return Ok((instr(ParsedInstructionInner::Ana(reg)), p));
        }
        if b0 == L_A && b1 == L_N && b2 == L_I {
            let (v, p) = parse_number_operand(src, p)?;
            return Ok((instr(ParsedInstructionInner::Ani(v)), p));
        }
        if b0 == L_X && b1 == L_R && b2 == L_A {
            let (reg, p) = parse_reg8(src, p)?;
            return Ok((instr(ParsedInstructionInner::Xra(reg)), p));
        }
        if b0 == L_X && b1 == L_R && b2 == L_I {
            let (v, p) = parse_number_operand(src, p)?;
            return Ok((instr(ParsedInstructionInner::Xri(v)), p));
        }
        if b0 == L_O && b1 == L_R && b2 == L_A {
            let (reg, p) = parse_reg8(src, p)?;
            return Ok((instr(ParsedInstructionInner::Ora(reg)), p));
        }
        if b0 == L_O && b1 == L_R && b2 == L_I {
            let (v, p) = parse_number_operand(src, p)?;
            return Ok((instr(ParsedInstructionInner::Ori(v)), p));
        }
        if b0 == L_C && b1 == L_M && b2 == L_P {
            let (reg, p) = parse_reg8(src, p)?;
            return Ok((instr(ParsedInstructionInner::Cmp(reg)), p));
        }
        if b0 == L_C && b1 == L_P && b2 == L_I {
            let (v, p) = parse_number_operand(src, p)?;
            return Ok((instr(ParsedInstructionInner::Cpi(v)), p));
        }
        if b0 == L_R && b1 == L_L && b2 == L_C {
            return Ok((instr(ParsedInstructionInner::Rlc), wend));
        }
        if b0 == L_R && b1 == L_R && b2 == L_C {
            return Ok((instr(ParsedInstructionInner::Rrc), wend));
        }
        if b0 == L_R && b1 == L_A && b2 == L_L {
            return Ok((instr(ParsedInstructionInner::Ral), wend));
        }
        if b0 == L_R && b1 == L_A && b2 == L_R {
            return Ok((instr(ParsedInstructionInner::Rar), wend));
        }
        if b0 == L_C && b1 == L_M && b2 == L_A {
            return Ok((instr(ParsedInstructionInner::Cma), wend));
        }
        if b0 == L_C && b1 == L_M && b2 == L_C {
            return Ok((instr(ParsedInstructionInner::Cmc), wend));
        }
        if b0 == L_S && b1 == L_T && b2 == L_C {
            return Ok((instr(ParsedInstructionInner::Stc), wend));
        }
        if b0 == L_J && b1 == L_M && b2 == L_P {
            let (v, p) = parse_label_or_number(src, p)?;
            return Ok((instr(ParsedInstructionInner::Jmp(v)), p));
        }
        if b0 == L_J && b1 == L_N && b2 == L_C {
            let (v, p) = parse_label_or_number(src, p)?;
            return Ok((instr(ParsedInstructionInner::Jnc(v)), p));
        }
        if b0 == L_J && b1 == L_N && b2 == L_Z {
            let (v, p) = parse_label_or_number(src, p)?;
            return Ok((instr(ParsedInstructionInner::Jnz(v)), p));
        }
        if b0 == L_J && b1 == L_P && b2 == L_E {
            let (v, p) = parse_label_or_number(src, p)?;
            return Ok((instr(ParsedInstructionInner::Jpe(v)), p));
        }
        if b0 == L_J && b1 == L_P && b2 == L_O {
            let (v, p) = parse_label_or_number(src, p)?;
            return Ok((instr(ParsedInstructionInner::Jpo(v)), p));
        }
        if b0 == L_C && b1 == L_N && b2 == L_C {
            let (v, p) = parse_label_or_number(src, p)?;
            return Ok((instr(ParsedInstructionInner::Cnc(v)), p));
        }
        if b0 == L_C && b1 == L_N && b2 == L_Z {
            let (v, p) = parse_label_or_number(src, p)?;
            return Ok((instr(ParsedInstructionInner::Cnz(v)), p));
        }
        if b0 == L_C && b1 == L_P && b2 == L_E {
            let (v, p) = parse_label_or_number(src, p)?;
            return Ok((instr(ParsedInstructionInner::Cpe(v)), p));
        }
        if b0 == L_C && b1 == L_P && b2 == L_O {
            let (v, p) = parse_label_or_number(src, p)?;
            return Ok((instr(ParsedInstructionInner::Cpo(v)), p));
        }
        if b0 == L_R && b1 == L_E && b2 == L_T {
            return Ok((instr(ParsedInstructionInner::Ret), wend));
        }
        if b0 == L_R && b1 == L_N && b2 == L_C {
            return Ok((instr(ParsedInstructionInner::Rnc), wend));
        }
        if b0 == L_R && b1 == L_N && b2 == L_Z {
            return Ok((instr(ParsedInstructionInner::Rnz), wend));
        }
        if b0 == L_R && b1 == L_P && b2 == L_E {
            return Ok((instr(ParsedInstructionInner::Rpe), wend));
        }
        if b0 == L_R && b1 == L_P && b2 == L_O {
            return Ok((instr(ParsedInstructionInner::Rpo), wend));
        }
        if b0 == L_R && b1 == L_S && b2 == L_T {
            let (v, p) = parse_number_operand(src, p)?;
            return Ok((instr(ParsedInstructionInner::Rst(v)), p));
        }
        if b0 == L_P && b1 == L_O && b2 == L_P {
            let (rp, p) = parse_reg16_stack(src, p)?;
            return Ok((instr(ParsedInstructionInner::Pop(rp)), p));
        }
        if b0 == L_O && b1 == L_U && b2 == L_T {
            let (v, p) = parse_number_operand(src, p)?;
            return Ok((instr(ParsedInstructionInner::Out(v)), p));
        }
        if b0 == L_H && b1 == L_L && b2 == L_T {
            return Ok((instr(ParsedInstructionInner::Hlt), wend));
        }
        if b0 == L_N && b1 == L_O && b2 == L_P {
            return Ok((instr(ParsedInstructionInner::Nop), wend));
        }
    } else if n == 4 {
        if b0 == L_L && b1 == L_H && b2 == L_L && b3 == L_D {
            let (v, p) = parse_label_or_number(src, p)?;
            return Ok((instr(ParsedInstructionInner::Lhld(v)), p));
        }
        if b0 == L_S && b1 == L_H && b2 == L_L && b3 == L_D {
            let (v, p) = parse_label_or_number(src, p)?;
            return Ok((instr(ParsedInstructionInner::Shld(v)), p));
        }
        if b0 == L_L && b1 == L_D && b2 == L_A && b3 == L_X {
            let (rp, p) = parse_reg16_indirect(src, p)?;
            return Ok((instr(ParsedInstructionInner::Ldax(rp)), p));
        }
        if b0 == L_S && b1 == L_T && b2 == L_A && b3 == L_X {
            let (rp, p) = parse_reg16_indirect(src, p)?;
            return Ok((instr(ParsedInstructionInner::Stax(rp)), p));
        }
        if b0 == L_X && b1 == L_C && b2 == L_H && b3 == L_G {
            return Ok((instr(ParsedInstructionInner::Xchg), wend));
        }
        if b0 == L_C && b1 == L_A && b2 == L_L && b3 == L_L {
            let (v, p) = parse_label_or_number(src, p)?;
            return Ok((instr(ParsedInstructionInner::Call(v)), p));
        }
        if b0 == L_P && b1 == L_C && b2 == L_H && b3 == L_L {
            return Ok((instr(ParsedInstructionInner::Pchl), wend));
        }
        if b0 == L_P && b1 == L_U && b2 == L_S && b3 == L_H {
            let (rp, p) = parse_reg16_stack(src, p)?;
            return Ok((instr(ParsedInstructionInner::Push(rp)), p));
        }
        if b0 == L_X && b1 == L_T && b2 == L_H && b3 == L_L {
            return Ok((instr(ParsedInstructionInner::Xthl), wend));
        }
        if b0 == L_S && b1 == L_P && b2 == L_H && b3 == L_L {
            return Ok((instr(ParsedInstructionInner::Sphl), wend));
        }
    }
    Err(ParseError { pos, kind: ParseErrorKind::Syntax })
}

/// Wraps a parsed instruction as a statement.
fn instr(inner: ParsedInstructionInner) -> (r: Statement)
    ensures
        r == Statement::Instruction(ParsedInstruction { inner }),
{
    Statement::Instruction(ParsedInstruction { inner })
}

/// Wraps a data directive as a statement.
fn data(d: DataStatement) -> (r: Statement)
    ensures
        r == Statement::DataStatement(d),
{
    Statement::DataStatement(d)
}

} // verus!
