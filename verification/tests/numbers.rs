use leben_asm::assembler::parse_assembly;
use leben_asm::assembler::parse::number::parse_literal_number;
use leben_asm::instruction::{Instruction, InstructionOrData};

fn parse_word(word: &[u8]) -> Option<u16> {
    parse_literal_number(word, 0, word.len()).map(|n| n.value)
}

#[test]
fn hex_octal_and_decimal_spellings_of_255_agree() {
    assert_eq!(parse_word(b"FFH"), Some(255));
    assert_eq!(parse_word(b"377Q"), Some(255));
    assert_eq!(parse_word(b"255"), Some(255));
}

#[test]
fn leading_zero_is_tolerated() {
    assert_eq!(parse_word(b"0FFH"), Some(255));
    assert_eq!(parse_word(b"007"), Some(7));
}

#[test]
fn digits_at_or_above_the_base_are_rejected() {
    assert_eq!(parse_word(b"8Q"), None);
    assert_eq!(parse_word(b"A9"), None);
    assert_eq!(parse_word(b"G"), None);
}

#[test]
fn values_must_fit_in_sixteen_bits() {
    assert_eq!(parse_word(b"FFFFH"), Some(0xffff));
    assert_eq!(parse_word(b"65535"), Some(65535));
    assert_eq!(parse_word(b"65536"), None);
    assert_eq!(parse_word(b"10000H"), None);
    assert_eq!(parse_word(b"123456789012345678901234567890"), None);
}

#[test]
fn digit_characters_are_upper_case_only() {
    // a lower-case spelling is outside the digit grammar
    assert_eq!(parse_word(b"0ffH"), None);
    assert_eq!(parse_word(b"0FFH"), Some(255));
}

#[test]
fn empty_digit_runs_are_rejected() {
    assert_eq!(parse_word(b""), None);
    assert_eq!(parse_word(b"H"), None);
    assert_eq!(parse_word(b"Q"), None);
}

#[test]
fn a_hex_spelling_without_a_leading_digit_is_a_label_reference() {
    // in a label-or-number operand position, FFH names a label, while 0FFH
    // is the number 255
    let source: &[u8] = b"JMP 0FFH\nEND\n";
    let (units, _) = parse_assembly(source).expect("numeric target is fine");
    assert_eq!(
        units,
        vec![InstructionOrData::Instruction(Instruction::Jmp(
            leben_asm::instruction::Data16::from(0xff)
        ))]
    );

    let source: &[u8] = b"JMP FFH\nEND\n";
    let message = parse_assembly(source).expect_err("FFH is an undefined label here");
    assert_eq!(message, "0: Unknown label");
}

#[test]
fn mvi_takes_plain_number_words_even_without_a_leading_digit() {
    // the immediate of a register load is a numeric literal, never a label
    let source: &[u8] = b"MVI A, FFH\nEND\n";
    let (units, _) = parse_assembly(source).expect("immediate parses as a number");
    assert_eq!(
        units,
        vec![InstructionOrData::Instruction(Instruction::Mvi(
            leben_asm::instruction::Register8::A,
            0xff
        ))]
    );
}
