use leben_asm::instruction::{Data16, Register8, Register16};
use leben_asm::machine::{Machine, Memory, RegisterMap};

#[test]
fn new_memory_is_zeroed() {
    let memory = Memory::new();
    assert_eq!(memory.as_raw().len(), 65536);
    assert_eq!(memory.read_u8(Data16::from(0)), 0);
    assert_eq!(memory.read_u8(Data16::from(0xffff)), 0);
}

#[test]
fn write_slice_places_bytes_at_the_base_address() {
    let mut memory = Memory::new();
    assert_eq!(memory.write_slice(0x10, &[1, 2, 3]), Some(()));
    assert_eq!(memory.read_u8(Data16::from(0x0f)), 0);
    assert_eq!(memory.read_u8(Data16::from(0x10)), 1);
    assert_eq!(memory.read_u8(Data16::from(0x11)), 2);
    assert_eq!(memory.read_u8(Data16::from(0x12)), 3);
    assert_eq!(memory.read_u8(Data16::from(0x13)), 0);
}

#[test]
fn write_slice_rejects_programs_that_run_past_the_end() {
    let mut memory = Memory::new();
    assert_eq!(memory.write_slice(0xffff, &[1, 2]), None);
    // nothing was written
    assert_eq!(memory.read_u8(Data16::from(0xffff)), 0);
    // the same bytes fit one address earlier
    assert_eq!(memory.write_slice(0xfffe, &[1, 2]), Some(()));
    assert_eq!(memory.read_u8(Data16::from(0xfffe)), 1);
    assert_eq!(memory.read_u8(Data16::from(0xffff)), 2);
}

#[test]
fn read_u16_is_little_endian_and_bounded() {
    let mut memory = Memory::new();
    memory.write_slice(0x20, &[0x34, 0x12]).unwrap();
    let value = memory.read_u16(Data16::from(0x20)).unwrap();
    assert_eq!(value.value(), 0x1234);
    assert!(memory.read_u16(Data16::from(0xffff)).is_none());
}

#[test]
fn fresh_registers_are_zero() {
    let registers = RegisterMap::new();
    let memory = Memory::new();
    assert_eq!(registers.get_8(Register8::A, &memory), 0);
    assert_eq!(registers.get_8(Register8::M, &memory), 0);
    assert_eq!(registers.get_16(Register16::Sp).value(), 0);
    assert_eq!(registers.get_16(Register16::Hl).value(), 0);
}

#[test]
fn memory_register_reads_through_the_hl_pair() {
    let mut machine = Machine::new();
    // with HL zero, register M reads memory cell zero
    machine.memory_mut().write_slice(0, &[0x5a]).unwrap();
    assert_eq!(machine.register_8(Register8::M), 0x5a);
    assert_eq!(machine.register_8(Register8::A), 0);
    assert_eq!(machine.register_16(Register16::Bc).value(), 0);
    assert_eq!(machine.pc().value(), 0);
    assert_eq!(machine.memory().read_u8(Data16::from(0)), 0x5a);
    assert_eq!(machine.registers().get_16(Register16::Sp).value(), 0);
}

#[test]
fn data16_value_combines_its_halves_little_endian() {
    assert_eq!(Data16::new(0x34, 0x12).value(), 0x1234);
    assert_eq!(Data16::from(0xabcd), Data16::new(0xcd, 0xab));
    assert_eq!(Data16::from(0xabcd).value(), 0xabcd);
}
