//! The machine model the loader fills: a fixed 65536-byte memory, the
//! program-addressable register file, and the machine that owns both.

use vstd::prelude::*;
use crate::instruction::{Address, Data8, Data16, Register8, Register16};

verus! {

/// The number of addressable bytes.
pub const MEMORY_SIZE_BYTES: usize = 65536;

/// A fixed 65536-byte addressable memory, zero-filled at creation.
pub struct Memory {
    bytes: Vec<u8>,
}

impl View for Memory {
    type V = Seq<u8>;

    closed spec fn view(&self) -> Seq<u8> {
        self.bytes@
    }
}

impl Memory {
    #[verifier::type_invariant]
    spec fn wf(self) -> bool {
        self.bytes@.len() == MEMORY_SIZE_BYTES
    }

    pub fn new() -> (r: Self)
        ensures
            r@.len() == MEMORY_SIZE_BYTES,
            forall|i: int| 0 <= i < r@.len() ==> r@[i] == 0u8,
    {
        let mut bytes: Vec<u8> = Vec::new();
        let mut i: usize = 0;
        while i < MEMORY_SIZE_BYTES
            invariant
                i <= MEMORY_SIZE_BYTES,
                bytes@.len() == i,
                forall|j: int| 0 <= j < i ==> bytes@[j] == 0u8,
            decreases MEMORY_SIZE_BYTES - i,
        {
            bytes.push(0);
            i = i + 1;
        }
        Memory { bytes }
    }

    /// The byte at `address`. Every 16-bit address is in range.
    pub fn read_u8(&self, address: Address) -> (r: Data8)
        ensures
            r == self@[address.spec_value() as int],
    {
        proof {
            use_type_invariant(self);
        }
        self.bytes[address.value() as usize]
    }

    /// The little-endian 16-bit value at `address`, absent when its second
    /// byte would lie past the end of memory.
    pub fn read_u16(&self, address: Address) -> (r: Option<Data16>)
        ensures
            match r {
                Some(d) => {
                    &&& address.spec_value() + 1 < self@.len()
                    &&& d.low == self@[address.spec_value() as int]
                    &&& d.high == self@[address.spec_value() + 1]
                },
                None => address.spec_value() + 1 >= self@.len(),
            },
    {
        proof {
            use_type_invariant(self);
        }
        let index = address.value() as usize;
        let low = self.bytes[index];
        if index + 1 < MEMORY_SIZE_BYTES {
            let high = self.bytes[index + 1];
            Some(Data16::new(low, high))
        } else {
            None
        }
    }

    /// The raw bytes, for rendering and inspection.
    pub fn as_raw(&self) -> (r: &Vec<u8>)
        ensures
            r@ == self@,
    {
        &self.bytes
    }

    /// Copies `data` into memory starting at `base`. Fails, changing
    /// nothing, when the data would run past the end of memory: the
    /// capacity check at the load boundary.
    pub fn write_slice(&mut self, base: u16, data: &[u8]) -> (r: Option<()>)
        ensures
            old(self)@.len() == final(self)@.len(),
            match r {
                Some(_) => {
                    &&& base + data@.len() <= old(self)@.len()
                    &&& final(self)@ == old(self)@.take(base as int) + data@ + old(
                        self,
                    )@.skip(base + data@.len())
                },
                None => base + data@.len() > old(self)@.len() && final(self)@ == old(self)@,
            },
    {
        proof {
            use_type_invariant(&*self);
        }
        let n = data.len();
        if n > MEMORY_SIZE_BYTES - (base as usize) {
            return None;
        }
        let mut i: usize = 0;
        while i < n
            invariant
                i <= n,
                n == data@.len(),
                base + n <= MEMORY_SIZE_BYTES,
                self@.len() == old(self)@.len(),
                self@.len() == MEMORY_SIZE_BYTES,
                forall|j: int| 0 <= j < base ==> self@[j] == old(self)@[j],
                forall|j: int| 0 <= j < i ==> self@[base + j] == data@[j],
                forall|j: int| base + n <= j < self@.len() ==> self@[j] == old(self)@[j],
            decreases n - i,
        {
            let index = (base as usize) + i;
            self.bytes[index] = data[i];
            i = i + 1;
        }
        proof {
            assert(self@ =~= old(self)@.take(base as int) + data@ + old(self)@.skip(
                base + data@.len(),
            ));
        }
        Some(())
    }
}

/// The program-addressable registers.
pub struct RegisterMap {
    a: Data8,
    b: Data8,
    c: Data8,
    d: Data8,
    e: Data8,
    h: Data8,
    l: Data8,
    sp: Data16,
}

impl RegisterMap {
    pub closed spec fn spec_a(self) -> Data8 {
        self.a
    }

    pub closed spec fn spec_b(self) -> Data8 {
        self.b
    }

    pub closed spec fn spec_c(self) -> Data8 {
        self.c
    }

    pub closed spec fn spec_d(self) -> Data8 {
        self.d
    }

    pub closed spec fn spec_e(self) -> Data8 {
        self.e
    }

    pub closed spec fn spec_h(self) -> Data8 {
        self.h
    }

    pub closed spec fn spec_l(self) -> Data8 {
        self.l
    }

    pub closed spec fn spec_sp(self) -> Data16 {
        self.sp
    }

    /// What an 8-bit register read returns: the register's byte, except
    /// that `M` reads memory at the address held by `HL`.
    pub open spec fn spec_get_8(self, register: Register8, memory: Seq<u8>) -> Data8 {
        match register {
            Register8::B => self.spec_b(),
            Register8::C => self.spec_c(),
            Register8::D => self.spec_d(),
            Register8::E => self.spec_e(),
            Register8::H => self.spec_h(),
            Register8::L => self.spec_l(),
            Register8::M => memory[self.spec_get_16(Register16::Hl).spec_value() as int],
            Register8::A => self.spec_a(),
        }
    }

    /// What a 16-bit register read returns: the pair's bytes, low half
    /// from the second-named register.
    pub open spec fn spec_get_16(self, register: Register16) -> Data16 {
        match register {
            Register16::Bc => Data16 { low: self.spec_c(), high: self.spec_b() },
            Register16::De => Data16 { low: self.spec_e(), high: self.spec_d() },
            Register16::Hl => Data16 { low: self.spec_l(), high: self.spec_h() },
            Register16::Sp => self.spec_sp(),
        }
    }

    /// A register file with every register zero.
    pub fn new() -> (r: Self)
        ensures
            r.spec_a() == 0u8,
            r.spec_b() == 0u8,
            r.spec_c() == 0u8,
            r.spec_d() == 0u8,
            r.spec_e() == 0u8,
            r.spec_h() == 0u8,
            r.spec_l() == 0u8,
            r.spec_sp() == (Data16 { low: 0, high: 0 }),
    {
        Self { a: 0, b: 0, c: 0, d: 0, e: 0, h: 0, l: 0, sp: Data16::new(0, 0) }
    }

    /// Reads an 8-bit register; `M` reads the memory cell addressed by
    /// `HL`.
    pub fn get_8(&self, register: Register8, memory: &Memory) -> (r: Data8)
        ensures
            r == self.spec_get_8(register, memory@),
    {
        match register {
            Register8::B => self.b,
            Register8::C => self.c,
            Register8::D => self.d,
            Register8::E => self.e,
            Register8::H => self.h,
            Register8::L => self.l,
            Register8::M => {
                let address = self.get_16(Register16::Hl);
                memory.read_u8(address)
            },
            Register8::A => self.a,
        }
    }

    /// Reads a register pair as one 16-bit value.
    pub fn get_16(&self, register: Register16) -> (r: Data16)
        ensures
            r == self.spec_get_16(register),
    {
        match register {
            Register16::Bc => Data16::new(self.c, self.b),
            Register16::De => Data16::new(self.e, self.d),
            Register16::Hl => Data16::new(self.l, self.h),
            Register16::Sp => self.sp,
        }
    }
}

/// A machine: its memory, its registers, and the program counter.
pub struct Machine {
    memory: Memory,
    registers: RegisterMap,
    pc: Data16,
}

impl Machine {
    pub closed spec fn spec_memory(self) -> Memory {
        self.memory
    }

    pub closed spec fn spec_registers(self) -> RegisterMap {
        self.registers
    }

    pub closed spec fn spec_pc(self) -> Data16 {
        self.pc
    }

    /// A machine with zeroed memory, registers and program counter.
    pub fn new() -> (r: Self)
        ensures
            r.spec_memory()@.len() == MEMORY_SIZE_BYTES,
            forall|i: int| 0 <= i < r.spec_memory()@.len() ==> r.spec_memory()@[i] == 0u8,
            r.spec_registers().spec_a() == 0u8,
            r.spec_registers().spec_b() == 0u8,
            r.spec_registers().spec_c() == 0u8,
            r.spec_registers().spec_d() == 0u8,
            r.spec_registers().spec_e() == 0u8,
            r.spec_registers().spec_h() == 0u8,
            r.spec_registers().spec_l() == 0u8,
            r.spec_registers().spec_sp() == (Data16 { low: 0, high: 0 }),
            r.spec_pc() == (Data16 { low: 0, high: 0 }),
    {
        Self { memory: Memory::new(), registers: RegisterMap::new(), pc: Data16::new(0, 0) }
    }

    pub fn registers(&self) -> (r: &RegisterMap)
        ensures
            r == self.spec_registers(),
    {
        &self.registers
    }

    pub fn memory(&self) -> (r: &Memory)
        ensures
            r == self.spec_memory(),
    {
        &self.memory
    }

    /// The memory, for the loader to fill.
    pub fn memory_mut(&mut self) -> (r: &mut Memory)
        ensures
            *r == old(self).spec_memory(),
            final(self).spec_memory() == *final(r),
            final(self).spec_registers() == old(self).spec_registers(),
            final(self).spec_pc() == old(self).spec_pc(),
    {
        &mut self.memory
    }

    /// Reads an 8-bit register, with `M` going through this machine's
    /// memory.
    pub fn register_8(&self, register: Register8) -> (r: Data8)
        ensures
            r == self.spec_registers().spec_get_8(register, self.spec_memory()@),
    {
        self.registers.get_8(register, &self.memory)
    }

    /// Reads a register pair.
    pub fn register_16(&self, register: Register16) -> (r: Data16)
        ensures
            r == self.spec_registers().spec_get_16(register),
    {
        self.registers.get_16(register)
    }

    /// The program counter.
    pub fn pc(&self) -> (r: Data16)
        ensures
            r == self.spec_pc(),
    {
        self.pc
    }
}

} // verus!
