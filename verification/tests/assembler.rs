use leben_asm::assembler::parse_assembly;
use leben_asm::assembler::assign_addresses;
use leben_asm::assembler::parse::parse_source_file;
use leben_asm::assembler::labels::Label;
use leben_asm::coding::encoder::encode_program;
use leben_asm::instruction::{Data16, Instruction, InstructionOrData, Register8};

#[test]
fn parse_1() {
    let source: &[u8] = b"
                            ; This is a comment
                ORG 10H     ; This is a comment



                MOV A, B
                JMP TEST    ; Jump to subroutine

        TEST:   MOV B, A    ; Moves A into B`

                            ; This is an error; `END` is missing
                END
        ";

    let (instructions, start) = parse_assembly(source).expect("Failed to parse program");
    assert_eq!(
        instructions,
        vec![
            InstructionOrData::Instruction(Instruction::Mov(Register8::A, Register8::B)),
            InstructionOrData::Instruction(Instruction::Jmp(Data16::from(20))),
            InstructionOrData::Instruction(Instruction::Mov(Register8::B, Register8::A)),
        ]
    );
    assert_eq!(start, 16);
}

#[test]
fn example_program_assembles_and_encodes() {
    let source: &[u8] = b"ORG 10H\nMOV A, B\nJMP TEST\nTEST: MOV B, A\nEND\n";
    let (units, origin) = parse_assembly(source).expect("program should assemble");
    assert_eq!(origin, 0x10);
    assert_eq!(
        units,
        vec![
            InstructionOrData::Instruction(Instruction::Mov(Register8::A, Register8::B)),
            InstructionOrData::Instruction(Instruction::Jmp(Data16::from(0x14))),
            InstructionOrData::Instruction(Instruction::Mov(Register8::B, Register8::A)),
        ]
    );
    let mut program = Vec::new();
    encode_program(&mut program, &units);
    // one byte for each register move, three for the jump, low byte first
    assert_eq!(program, vec![0x78, 0xc3, 0x14, 0x00, 0x47]);
    // the output's length is the sum of the statements' fixed lengths
    assert_eq!(program.len(), 1 + 3 + 1);
}

#[test]
fn label_on_end_to_end_example_resolves_to_20() {
    let source: &[u8] = b"ORG 10H\nMOV A, B\nJMP TEST\nTEST: MOV B, A\nEND\n";
    let file = parse_source_file(source).expect("program should parse");
    let table = assign_addresses(&file).expect("no duplicates, no overflow");
    let address = table
        .lookup(Label { span: b"TEST".to_vec() })
        .expect("TEST is defined");
    assert_eq!(address.value(), 20);
}

#[test]
fn define_storage_reserves_zeroed_bytes_at_origin() {
    let source: &[u8] = b"BUF: DS 4\nEND\n";
    let (units, origin) = parse_assembly(source).expect("program should assemble");
    assert_eq!(origin, 0);
    assert_eq!(units, vec![InstructionOrData::Slice(vec![0, 0, 0, 0])]);

    let file = parse_source_file(source).expect("program should parse");
    let table = assign_addresses(&file).expect("no duplicates, no overflow");
    let address = table
        .lookup(Label { span: b"BUF".to_vec() })
        .expect("BUF is defined");
    assert_eq!(address.value(), 0);
}

#[test]
fn duplicate_label_is_rejected_with_offset_of_second_occurrence() {
    let source: &[u8] = b"LOOP: NOP\nLOOP: NOP\nEND\n";
    let message = parse_assembly(source).expect_err("duplicate must be rejected");
    assert_eq!(message, "10: Duplicate label LOOP");
}

#[test]
fn duplicate_label_is_rejected_even_when_first_use_precedes_it() {
    // the second definition comes after a use of the label
    let source: &[u8] = b"LOOP: NOP\nJMP LOOP\nLOOP: NOP\nEND\n";
    let message = parse_assembly(source).expect_err("duplicate must be rejected");
    assert_eq!(message, "19: Duplicate label LOOP");
}

#[test]
fn origin_line_label_counts_toward_duplicates() {
    let source: &[u8] = b"DUP: ORG 0\nDUP: NOP\nEND\n";
    let message = parse_assembly(source).expect_err("duplicate must be rejected");
    assert_eq!(message, "11: Duplicate label DUP");
}

#[test]
fn a_recognized_mnemonic_without_its_operand_is_a_syntax_error() {
    let source: &[u8] = b"MOV A,\nEND\n";
    let message = parse_assembly(source).expect_err("the second operand is required");
    assert_eq!(message, "6: Syntax error");
}

#[test]
fn an_unknown_mnemonic_is_a_syntax_error() {
    let source: &[u8] = b"FROB\nEND\n";
    let message = parse_assembly(source).expect_err("no such mnemonic");
    assert_eq!(message, "0: Syntax error");
}

#[test]
fn two_statements_on_one_line_are_a_syntax_error() {
    let source: &[u8] = b"NOP NOP\nEND\n";
    let message = parse_assembly(source).expect_err("one statement per line");
    assert_eq!(message, "4: Syntax error");
}

#[test]
fn unknown_label_is_rejected_at_the_statement() {
    let source: &[u8] = b"JMP MISSING\nEND\n";
    let message = parse_assembly(source).expect_err("unknown label must be rejected");
    assert_eq!(message, "0: Unknown label");
}

#[test]
fn forward_and_backward_references_resolve_through_the_same_table() {
    // one label used both before and after its definition: both uses must
    // resolve to the same address
    let source: &[u8] = b"JMP HERE\nHERE: NOP\nJMP HERE\nEND\n";
    let (units, origin) = parse_assembly(source).expect("program should assemble");
    assert_eq!(origin, 0);
    assert_eq!(
        units,
        vec![
            InstructionOrData::Instruction(Instruction::Jmp(Data16::from(3))),
            InstructionOrData::Instruction(Instruction::Nop),
            InstructionOrData::Instruction(Instruction::Jmp(Data16::from(3))),
        ]
    );
}

#[test]
fn origin_defaults_to_zero() {
    let source: &[u8] = b"NOP\nEND\n";
    let (units, origin) = parse_assembly(source).expect("program should assemble");
    assert_eq!(origin, 0);
    assert_eq!(units, vec![InstructionOrData::Instruction(Instruction::Nop)]);
}

#[test]
fn address_overflow_is_rejected() {
    let source: &[u8] = b"ORG 0FFFFH\nNOP\nEND\n";
    let message = parse_assembly(source).expect_err("address space must not overflow");
    assert_eq!(message, "11: Memory size overflowed");
}

#[test]
fn eight_bit_immediate_overflow_is_an_invalid_number() {
    let source: &[u8] = b"MVI A, 300H\nEND\n";
    let message = parse_assembly(source).expect_err("wide immediate must be rejected");
    assert_eq!(message, "0: Invalid number");
}

#[test]
fn digit_at_or_above_base_is_an_invalid_number() {
    let source: &[u8] = b"DS 8Q\nEND\n";
    let message = parse_assembly(source).expect_err("octal digit eight must be rejected");
    assert_eq!(message, "3: Invalid number");
}

#[test]
fn missing_end_marker_is_a_syntax_error() {
    let source: &[u8] = b"NOP\n";
    let message = parse_assembly(source).expect_err("a file needs its end marker");
    assert_eq!(message, "4: Syntax error");
}

#[test]
fn content_after_end_marker_is_a_syntax_error() {
    let source: &[u8] = b"NOP\nEND\nNOP\n";
    let message = parse_assembly(source).expect_err("code after the end marker is illegal");
    assert_eq!(message, "8: Syntax error");
}

#[test]
fn comments_and_blank_lines_after_end_are_legal() {
    let source: &[u8] = b"NOP\nEND\n; trailing note\n\n";
    let (units, _) = parse_assembly(source).expect("trailing comments are fine");
    assert_eq!(units.len(), 1);
}

#[test]
fn define_byte_takes_a_string_or_a_byte() {
    let source: &[u8] = b"DB 'HI'\nDB 41H\nEND\n";
    let (units, _) = parse_assembly(source).expect("program should assemble");
    assert_eq!(
        units,
        vec![
            InstructionOrData::Slice(vec![b'H', b'I']),
            InstructionOrData::Slice(vec![0x41]),
        ]
    );
}

#[test]
fn define_word_emits_low_byte_first() {
    let source: &[u8] = b"DW 1234H\nDW AFTER\nAFTER: NOP\nEND\n";
    let (units, _) = parse_assembly(source).expect("program should assemble");
    assert_eq!(
        units,
        vec![
            InstructionOrData::Word(Data16::new(0x34, 0x12)),
            InstructionOrData::Word(Data16::from(4)),
            InstructionOrData::Instruction(Instruction::Nop),
        ]
    );
    let mut program = Vec::new();
    encode_program(&mut program, &units);
    assert_eq!(program, vec![0x34, 0x12, 0x04, 0x00, 0x00]);
}

#[test]
fn a_label_alone_on_a_line_marks_the_next_statement() {
    let source: &[u8] = b"SPOT:\nNOP\nJMP SPOT\nEND\n";
    let (units, _) = parse_assembly(source).expect("program should assemble");
    assert_eq!(
        units,
        vec![
            InstructionOrData::Instruction(Instruction::Nop),
            InstructionOrData::Instruction(Instruction::Jmp(Data16::from(0))),
        ]
    );
}

#[test]
fn stack_operations_take_psw_but_not_sp() {
    let source: &[u8] = b"PUSH PSW\nPOP B\nEND\n";
    let (units, _) = parse_assembly(source).expect("program should assemble");
    let mut program = Vec::new();
    encode_program(&mut program, &units);
    assert_eq!(program, vec![0xf5, 0xc1]);

    let source: &[u8] = b"PUSH SP\nEND\n";
    let message = parse_assembly(source).expect_err("the stack pointer cannot be pushed");
    assert_eq!(message, "5: Syntax error");
}

#[test]
fn indirect_loads_take_only_the_first_two_pairs() {
    let source: &[u8] = b"LDAX B\nSTAX D\nEND\n";
    let (units, _) = parse_assembly(source).expect("program should assemble");
    let mut program = Vec::new();
    encode_program(&mut program, &units);
    assert_eq!(program, vec![0x0a, 0x12]);

    let source: &[u8] = b"LDAX H\nEND\n";
    let message = parse_assembly(source).expect_err("no indirect load through HL");
    assert_eq!(message, "5: Syntax error");
}

#[test]
fn restart_occupies_two_bytes_and_shifts_later_addresses() {
    // opcode plus one selector byte, per the instruction set model
    let source: &[u8] = b"RST 1
AFTER: NOP
JMP AFTER
END
";
    let (units, origin) = parse_assembly(source).expect("program should assemble");
    assert_eq!(origin, 0);
    let mut program = Vec::new();
    encode_program(&mut program, &units);
    // AFTER stands at 2, after the two restart bytes
    assert_eq!(program, vec![0xc7, 0x01, 0x00, 0xc3, 0x02, 0x00]);

    let source: &[u8] = b"RST 8
END
";
    let message = parse_assembly(source).expect_err("only eight restart vectors exist");
    assert_eq!(message, "0: Invalid number");
}

#[test]
fn output_length_depends_only_on_statement_shapes() {
    // the same program under two different origins encodes to the same
    // number of bytes, though every resolved address differs
    let a: &[u8] = b"ORG 10H
MOV A, B
JMP TEST
TEST: MOV B, A
END
";
    let b: &[u8] = b"ORG 0F0H
MOV A, B
JMP TEST
TEST: MOV B, A
END
";
    let (units_a, origin_a) = parse_assembly(a).expect("first program assembles");
    let (units_b, origin_b) = parse_assembly(b).expect("second program assembles");
    assert_ne!(origin_a, origin_b);
    let mut bytes_a = Vec::new();
    encode_program(&mut bytes_a, &units_a);
    let mut bytes_b = Vec::new();
    encode_program(&mut bytes_b, &units_b);
    assert_ne!(bytes_a, bytes_b);
    assert_eq!(bytes_a.len(), bytes_b.len());
}

#[test]
fn carriage_return_line_endings_are_accepted() {
    let source: &[u8] = b"ORG 10H\r\nMOV A, B\r\nEND\r\n";
    let (units, origin) = parse_assembly(source).expect("program should assemble");
    assert_eq!(origin, 0x10);
    assert_eq!(
        units,
        vec![InstructionOrData::Instruction(Instruction::Mov(Register8::A, Register8::B))]
    );
}

#[test]
fn labels_may_start_with_at_sign_or_question_mark() {
    let source: &[u8] = b"@L1: NOP\n?X2: JMP @L1\nJMP ?X2\nEND\n";
    let (units, _) = parse_assembly(source).expect("program should assemble");
    assert_eq!(
        units,
        vec![
            InstructionOrData::Instruction(Instruction::Nop),
            InstructionOrData::Instruction(Instruction::Jmp(Data16::from(0))),
            InstructionOrData::Instruction(Instruction::Jmp(Data16::from(1))),
        ]
    );
}

#[test]
fn label_comparison_is_case_and_byte_exact() {
    // label grammar is upper-case only, so a lower-case reference cannot
    // even be spelled; two distinct names never collide
    let source: &[u8] = b"AB: NOP\nABC: NOP\nJMP AB\nJMP ABC\nEND\n";
    let (units, _) = parse_assembly(source).expect("program should assemble");
    assert_eq!(
        units,
        vec![
            InstructionOrData::Instruction(Instruction::Nop),
            InstructionOrData::Instruction(Instruction::Nop),
            InstructionOrData::Instruction(Instruction::Jmp(Data16::from(0))),
            InstructionOrData::Instruction(Instruction::Jmp(Data16::from(1))),
        ]
    );
}

#[test]
fn labeled_origin_line_defines_the_label_at_the_origin() {
    let source: &[u8] = b"START: ORG 200H\nJMP START\nEND\n";
    let (units, origin) = parse_assembly(source).expect("program should assemble");
    assert_eq!(origin, 0x200);
    assert_eq!(
        units,
        vec![InstructionOrData::Instruction(Instruction::Jmp(Data16::from(0x200)))]
    );
}
