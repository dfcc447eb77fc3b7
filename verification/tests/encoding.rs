use leben_asm::coding::encoder::{encode_instruction, encode_program, encode_unit};
use leben_asm::instruction::{
    Condition, Data16, Instruction, InstructionOrData, Register8, Register16, ResetNumber,
};

fn bytes_of(instruction: Instruction) -> Vec<u8> {
    let mut out = Vec::new();
    encode_instruction(&instruction, &mut out);
    out
}

#[test]
fn one_byte_operations_encode_as_their_opcode() {
    assert_eq!(bytes_of(Instruction::Nop), vec![0x00]);
    assert_eq!(bytes_of(Instruction::Hlt), vec![0x76]);
    assert_eq!(bytes_of(Instruction::Ret), vec![0xc9]);
    assert_eq!(bytes_of(Instruction::Xchg), vec![0xeb]);
    assert_eq!(bytes_of(Instruction::Mov(Register8::A, Register8::B)), vec![0x78]);
    assert_eq!(bytes_of(Instruction::Mov(Register8::B, Register8::A)), vec![0x47]);
    assert_eq!(bytes_of(Instruction::Add(Register8::M)), vec![0x86]);
    assert_eq!(bytes_of(Instruction::Inx(Register16::Sp)), vec![0x33]);
    assert_eq!(bytes_of(Instruction::Dad(Register16::Hl)), vec![0x29]);
    assert_eq!(bytes_of(Instruction::Push(Register16::Sp)), vec![0xf5]);
    assert_eq!(bytes_of(Instruction::Pop(Register16::Bc)), vec![0xc1]);
    assert_eq!(bytes_of(Instruction::Rcc(Condition::Zero)), vec![0xc8]);
}

#[test]
fn two_byte_operations_carry_one_immediate_byte() {
    assert_eq!(bytes_of(Instruction::Mvi(Register8::B, 0x3e)), vec![0x06, 0x3e]);
    assert_eq!(bytes_of(Instruction::Adi(0xff)), vec![0xc6, 0xff]);
    assert_eq!(bytes_of(Instruction::Cpi(0x01)), vec![0xfe, 0x01]);
    assert_eq!(bytes_of(Instruction::Out(0x10)), vec![0xd3, 0x10]);
    assert_eq!(bytes_of(Instruction::In(0x20)), vec![0xdb, 0x20]);
    // the restart selector is an operand byte after the opcode
    assert_eq!(bytes_of(Instruction::Rst(ResetNumber::R0)), vec![0xc7, 0x00]);
    assert_eq!(bytes_of(Instruction::Rst(ResetNumber::R7)), vec![0xc7, 0x07]);
}

#[test]
fn three_byte_operations_split_their_word_low_byte_first() {
    assert_eq!(
        bytes_of(Instruction::Jmp(Data16::from(0x1234))),
        vec![0xc3, 0x34, 0x12]
    );
    assert_eq!(
        bytes_of(Instruction::Lxi(Register16::Hl, Data16::from(0xbeef))),
        vec![0x21, 0xef, 0xbe]
    );
    assert_eq!(
        bytes_of(Instruction::Jcc(Condition::Carry, Data16::from(5))),
        vec![0xda, 0x05, 0x00]
    );
    assert_eq!(
        bytes_of(Instruction::Ccc(Condition::NoZero, Data16::from(5))),
        vec![0xc4, 0x05, 0x00]
    );
    assert_eq!(bytes_of(Instruction::Lda(Data16::from(0x40))), vec![0x3a, 0x40, 0x00]);
    assert_eq!(bytes_of(Instruction::Shld(Data16::from(0x40))), vec![0x22, 0x40, 0x00]);
}

#[test]
fn units_concatenate_in_program_order() {
    let units = vec![
        InstructionOrData::Byte(0xaa),
        InstructionOrData::Word(Data16::new(0x01, 0x02)),
        InstructionOrData::Instruction(Instruction::Nop),
        InstructionOrData::Slice(vec![9, 8, 7]),
    ];
    let mut program = Vec::new();
    encode_program(&mut program, &units);
    assert_eq!(program, vec![0xaa, 0x01, 0x02, 0x00, 9, 8, 7]);
}

#[test]
fn encoding_appends_without_touching_earlier_output() {
    let mut out = vec![1, 2];
    encode_unit(&InstructionOrData::Byte(3), &mut out);
    assert_eq!(out, vec![1, 2, 3]);
}
