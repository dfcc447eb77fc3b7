//! The encoder: flattens a resolved program into a byte buffer by
//! concatenating the encoding of each emission unit in program order.

use vstd::prelude::*;
use vstd::slice::slice_index_get;
use crate::instruction::{EmissionUnit, Instruction, InstructionOrData};

verus! {

/// The bytes one emission unit contributes to the output.
pub open spec fn spec_unit_bytes(u: EmissionUnit) -> Seq<u8> {
    match u {
        EmissionUnit::Byte(b) => seq![b],
        EmissionUnit::Word(d) => seq![d.low, d.high],
        EmissionUnit::Instruction(i) => i.spec_bytes(),
        EmissionUnit::Slice(s) => s,
    }
}

/// The bytes a whole sequence of emission units contributes, in order.
pub open spec fn spec_units_bytes(units: Seq<EmissionUnit>) -> Seq<u8>
    decreases units.len(),
{
    if units.len() == 0 {
        Seq::empty()
    } else {
        spec_units_bytes(units.drop_last()) + spec_unit_bytes(units.last())
    }
}

/// The statically determined length of one emission unit.
pub open spec fn spec_unit_len(u: EmissionUnit) -> int {
    match u {
        EmissionUnit::Byte(_) => 1,
        EmissionUnit::Word(_) => 2,
        EmissionUnit::Instruction(i) => i.spec_len(),
        EmissionUnit::Slice(s) => s.len() as int,
    }
}

/// The sum of the units' statically determined lengths.
pub open spec fn spec_units_len(units: Seq<EmissionUnit>) -> int
    decreases units.len(),
{
    if units.len() == 0 {
        0
    } else {
        spec_units_len(units.drop_last()) + spec_unit_len(units.last())
    }
}

/// The encoder's output is exactly as long as the sum of the units' fixed
/// lengths: encoding never pads, drops or reorders a unit.
pub proof fn lemma_units_bytes_len(units: Seq<EmissionUnit>)
    ensures
        spec_units_bytes(units).len() == spec_units_len(units),
    decreases units.len(),
{
    if units.len() > 0 {
        lemma_units_bytes_len(units.drop_last());
    }
}

/// Appending a unit appends its bytes.
pub proof fn lemma_units_bytes_push(units: Seq<EmissionUnit>, u: EmissionUnit)
    ensures
        spec_units_bytes(units.push(u)) == spec_units_bytes(units) + spec_unit_bytes(u),
{
    assert(units.push(u).drop_last() =~= units);
    assert(units.push(u).last() == u);
}

/// One unit's bytes are exactly as many as its fixed length.
pub proof fn lemma_unit_bytes_len(u: EmissionUnit)
    ensures
        spec_unit_bytes(u).len() == spec_unit_len(u),
{
}

/// No unit has a negative length.
proof fn lemma_unit_len_nonneg(u: EmissionUnit)
    ensures
        spec_unit_len(u) >= 0,
{
    lemma_unit_bytes_len(u);
}

/// Prefixes of a unit sequence never get longer than the whole.
proof fn lemma_units_len_monotone(units: Seq<EmissionUnit>, i: int, j: int)
    requires
        0 <= i <= j <= units.len(),
    ensures
        spec_units_len(units.take(i)) <= spec_units_len(units.take(j)),
    decreases j - i,
{
    if i < j {
        lemma_units_len_monotone(units, i, j - 1);
        assert(units.take(j).drop_last() =~= units.take(j - 1));
        lemma_unit_len_nonneg(units.take(j).last());
    }
}

/// A buffer built by concatenating known-length units re-segments exactly:
/// between the sum of the lengths before a unit and that sum plus the
/// unit's own length, the buffer holds precisely that unit's bytes. A
/// cursor that reads the fixed lengths in order therefore walks the units
/// without ever re-observing or skipping a byte.
pub proof fn lemma_units_resegment(units: Seq<EmissionUnit>, i: int)
    requires
        0 <= i < units.len(),
    ensures
        0 <= spec_units_len(units.take(i)),
        spec_units_len(units.take(i)) + spec_unit_len(units[i]) <= spec_units_bytes(units).len(),
        spec_units_bytes(units).subrange(
            spec_units_len(units.take(i)),
            spec_units_len(units.take(i)) + spec_unit_len(units[i]),
        ) == spec_unit_bytes(units[i]),
    decreases units.len(),
{
    let off = spec_units_len(units.take(i));
    let body = spec_units_bytes(units.drop_last());
    let tail = spec_unit_bytes(units.last());
    lemma_units_bytes_len(units.drop_last());
    lemma_unit_bytes_len(units.last());
    assert(units.take(0) =~= Seq::<EmissionUnit>::empty());
    lemma_units_len_monotone(units, 0, i);
    if i == units.len() - 1 {
        assert(units.take(i) =~= units.drop_last());
        assert(spec_units_bytes(units).subrange(off, off + spec_unit_len(units[i])) =~= tail);
    } else {
        assert(units.drop_last().take(i) =~= units.take(i));
        assert(units.drop_last()[i] == units[i]);
        lemma_units_resegment(units.drop_last(), i);
        assert(units.drop_last().take(i + 1) =~= units.take(i + 1));
        assert(units.take(i + 1).drop_last() =~= units.take(i));
        lemma_units_len_monotone(units.drop_last(), i + 1, units.len() - 1);
        assert(units.drop_last().take(units.len() - 1) =~= units.drop_last());
        assert(off + spec_unit_len(units[i]) <= body.len());
        assert(spec_units_bytes(units).subrange(off, off + spec_unit_len(units[i])) =~= body.subrange(
            off,
            off + spec_unit_len(units[i]),
        ));
    }
}

/// Appends the encoding of one instruction: its opcode byte, then its
/// operand bytes (a 16-bit operand goes low byte first).
pub fn encode_instruction(instruction: &Instruction, out: &mut Vec<u8>)
    ensures
        final(out)@ == old(out)@ + instruction.spec_bytes(),
{
    let opcode = instruction_opcode(instruction);
    out.push(opcode);
    match instruction {
        Instruction::Lxi(_, d) => {
            out.push(d.low);
            out.push(d.high);
        },
        Instruction::Shld(a) | Instruction::Lhld(a) | Instruction::Sta(a) | Instruction::Lda(a)
            | Instruction::Jcc(_, a) | Instruction::Jmp(a) | Instruction::Ccc(_, a)
            | Instruction::Call(a) => {
            out.push(a.low);
            out.push(a.high);
        },
        Instruction::Mvi(_, d) => {
            out.push(*d);
        },
        Instruction::Adi(d) | Instruction::Aci(d) | Instruction::Sui(d) | Instruction::Sbi(d)
            | Instruction::Ani(d) | Instruction::Xri(d) | Instruction::Ori(d)
            | Instruction::Cpi(d) | Instruction::Out(d) | Instruction::In(d) => {
            out.push(*d);
        },
        Instruction::Rst(n) => {
            out.push(n.code());
        },
        _ => {},
    }
    proof {
        assert(out@ =~= old(out)@ + instruction.spec_bytes());
    }
}

/// Appends the encoding of one emission unit.
pub fn encode_unit(unit: &InstructionOrData, out: &mut Vec<u8>)
    ensures
        final(out)@ == old(out)@ + spec_unit_bytes(unit@),
{
    match unit {
        InstructionOrData::Byte(b) => {
            out.push(*b);
            proof {
                assert(out@ =~= old(out)@ + spec_unit_bytes(unit@));
            }
        },
        InstructionOrData::Word(d) => {
            out.push(d.low);
            out.push(d.high);
            proof {
                assert(out@ =~= old(out)@ + spec_unit_bytes(unit@));
            }
        },
        InstructionOrData::Instruction(i) => {
            encode_instruction(i, out);
        },
        InstructionOrData::Slice(bytes) => {
            let n = bytes.len();
            let mut i: usize = 0;
            while i < n
                invariant
                    i <= n,
                    n == bytes@.len(),
                    out@ == old(out)@ + bytes@.take(i as int),
                decreases n - i,
            {
                out.push(bytes[i]);
                proof {
                    assert(out@ =~= old(out)@ + bytes@.take(i + 1));
                }
                i = i + 1;
            }
            proof {
                assert(bytes@.take(n as int) =~= bytes@);
                assert(out@ =~= old(out)@ + spec_unit_bytes(unit@));
            }
        },
    }
}

/// Appends the encoding of a whole resolved program: the concatenation of
/// each unit's bytes, preserving program order exactly.
pub fn encode_program(program: &mut Vec<u8>, units: &[InstructionOrData])
    ensures
        final(program)@ == old(program)@ + spec_units_bytes(units@.map_values(
            |u: InstructionOrData| u@,
        )),
{
    let n = units.len();
    let mut i: usize = 0;
    while i < n
        invariant
            i <= n,
            n == units@.len(),
            program@ == old(program)@ + spec_units_bytes(
                units@.take(i as int).map_values(|u: InstructionOrData| u@),
            ),
        decreases n - i,
    {
        encode_unit(slice_index_get(units, i), program);
        proof {
            let ghost prefix = units@.take(i as int).map_values(|u: InstructionOrData| u@);
            let ghost next = units@.take(i + 1).map_values(|u: InstructionOrData| u@);
            assert(next =~= prefix.push(units@[i as int]@));
            lemma_units_bytes_push(prefix, units@[i as int]@);
        }
        i = i + 1;
    }
    proof {
        assert(units@.take(n as int) =~= units@);
    }
}

/// The opcode byte of one instruction.
#[verifier::spinoff_prover]
#[verifier::rlimit(100)]
fn instruction_opcode(instruction: &Instruction) -> (r: u8)
    ensures
        r == instruction.spec_opcode(),
{
    match instruction {
        Instruction::Nop => return 0x00,
        Instruction::Lxi(rp, _) => return 0x01 + 16 * rp.code(),
        Instruction::Stax(rp) => return 0x02 + 16 * rp.code(),
        Instruction::Inx(rp) => return 0x03 + 16 * rp.code(),
        Instruction::Inr(r) => return 0x04 + 8 * r.code(),
        Instruction::Dcr(r) => return 0x05 + 8 * r.code(),
        Instruction::Mvi(r, _) => return 0x06 + 8 * r.code(),
        Instruction::Dad(rp) => return 0x09 + 16 * rp.code(),
        Instruction::Ldax(rp) => return 0x0a + 16 * rp.code(),
        Instruction::Dcx(rp) => return 0x0b + 16 * rp.code(),
        Instruction::Rlc => return 0x07,
        Instruction::Rrc => return 0x0f,
        Instruction::Ral => return 0x17,
        Instruction::Rar => return 0x1f,
        Instruction::Shld(_) => return 0x22,
        Instruction::Daa => return 0x27,
        Instruction::Lhld(_) => return 0x2a,
        Instruction::Cma => return 0x2f,
        Instruction::Sta(_) => return 0x32,
        Instruction::Stc => return 0x37,
        Instruction::Lda(_) => return 0x3a,
        Instruction::Cmc => return 0x3f,
        Instruction::Mov(d, s) => return 0x40 + 8 * d.code() + s.code(),
        Instruction::Hlt => return 0x76,
        Instruction::Add(r) => return 0x80 + r.code(),
        Instruction::Adc(r) => return 0x88 + r.code(),
        Instruction::Sub(r) => return 0x90 + r.code(),
        Instruction::Sbb(r) => return 0x98 + r.code(),
        Instruction::Ana(r) => return 0xa0 + r.code(),
        Instruction::Xra(r) => return 0xa8 + r.code(),
        Instruction::Ora(r) => return 0xb0 + r.code(),
        Instruction::Cmp(r) => return 0xb8 + r.code(),
        Instruction::Rcc(c) => return 0xc0 + 8 * c.code(),
        Instruction::Pop(rp) => return 0xc1 + 16 * rp.code(),
        Instruction::Jcc(c, _) => return 0xc2 + 8 * c.code(),
        Instruction::Jmp(_) => return 0xc3,
        Instruction::Ccc(c, _) => return 0xc4 + 8 * c.code(),
        Instruction::Push(rp) => return 0xc5 + 16 * rp.code(),
        Instruction::Adi(_) => return 0xc6,
        Instruction::Aci(_) => return 0xce,
        Instruction::Sui(_) => return 0xd6,
        Instruction::Sbi(_) => return 0xde,
        Instruction::Ani(_) => return 0xe6,
        Instruction::Xri(_) => return 0xee,
        Instruction::Ori(_) => return 0xf6,
        Instruction::Cpi(_) => return 0xfe,
        Instruction::Rst(_) => return 0xc7,
        Instruction::Ret => return 0xc9,
        Instruction::Call(_) => return 0xcd,
        Instruction::Out(_) => return 0xd3,
        Instruction::In(_) => return 0xdb,
        Instruction::Xthl => return 0xe3,
        Instruction::Pchl => return 0xe9,
        Instruction::Xchg => return 0xeb,
        Instruction::Di => return 0xf3,
        Instruction::Sphl => return 0xf9,
        Instruction::Ei => return 0xfb,
    }
}

} // verus!
