//! The machine's memory: a fixed number of byte cells, read and written as
//! little-endian scalars of at most four bytes, every access checked
//! against the memory's bound.

use vstd::prelude::*;
use crate::encoding::{le_bytes, le_value, store};
use crate::errors::MicroprocessorErrors;

verus! {

/// The number of byte cells of a memory.
pub const MAX_RAM_SIZE: usize = 10000;

/// The widest scalar that one access reads or writes, in bytes.
pub const MAX_SCALAR_SIZE: usize = 4;

pub struct Ram {
    memory: Vec<u8>,
}

impl View for Ram {
    type V = Seq<u8>;

    closed spec fn view(&self) -> Seq<u8> {
        self.memory@
    }
}

/// Whether `len` bytes from `from` on make a scalar inside the memory.
pub open spec fn accessible(from: int, len: int) -> bool {
    0 <= from && 0 <= len <= MAX_SCALAR_SIZE && from + len <= MAX_RAM_SIZE
}

impl Ram {
    /// Whether the memory has all its cells. One that `new` made has them,
    /// and no method takes one away.
    pub open spec fn wf(&self) -> bool {
        self@.len() == MAX_RAM_SIZE
    }

    /// A memory of `MAX_RAM_SIZE` cells, each holding zero.
    pub fn new() -> (ram: Ram)
        ensures
            ram.wf(),
            forall|i: int| 0 <= i < MAX_RAM_SIZE ==> ram@[i] == 0,
    {
        let mut memory: Vec<u8> = Vec::new();
        let mut i: usize = 0;
        while i < MAX_RAM_SIZE
            invariant
                i <= MAX_RAM_SIZE,
                memory@.len() == i,
                forall|j: int| 0 <= j < i ==> memory@[j] == 0,
            decreases MAX_RAM_SIZE - i,
        {
            memory.push(0u8);
            i += 1;
        }
        Ram { memory }
    }

    /// The little-endian value of the `len` bytes from `from` on, zero-extended.
    /// Fails, with the memory as it was, exactly when `len` exceeds four or
    /// the bytes do not all lie inside the memory.
    pub fn read_ram(&self, from: usize, len: usize) -> (r: Result<u32, MicroprocessorErrors>)
        requires
            self.wf(),
        ensures
            match r {
                Ok(value) => accessible(from as int, len as int) && value == le_value(
                    self@.subrange(from as int, from + len),
                ),
                Err(e) => e == MicroprocessorErrors::MemoryOverflow && !accessible(
                    from as int,
                    len as int,
                ),
            },
    {
        if len > MAX_SCALAR_SIZE || from > MAX_RAM_SIZE - len {
            return Err(MicroprocessorErrors::MemoryOverflow);
        }
        let mut value: u32 = 0;
        let mut i: usize = len;
        while i > 0
            invariant
                self.wf(),
                i <= len <= MAX_SCALAR_SIZE,
                from + len <= MAX_RAM_SIZE,
                value == le_value(self@.subrange(from + i, from + len)),
                len - i == 0 ==> value == 0,
                len - i == 1 ==> value < 0x100,
                len - i == 2 ==> value < 0x1_0000,
                len - i == 3 ==> value < 0x100_0000,
            decreases i,
        {
            i -= 1;
            proof {
                let wider = self@.subrange(from + i, from + len);
                assert(wider.skip(1) =~= self@.subrange(from + i + 1, from + len));
                assert(wider[0] == self@[from + i]);
            }
            value = value * 256 + self.memory[from + i] as u32;
        }
        Ok(value)
    }

    /// The little-endian value of the `len` bytes that end just below `top`:
    /// a read of the stack, which grows upwards. Fails as `read_ram` does,
    /// and also when fewer than `len` bytes lie below `top`.
    pub fn read_stack(&self, top: usize, len: usize) -> (r: Result<u32, MicroprocessorErrors>)
        requires
            self.wf(),
        ensures
            match r {
                Ok(value) => accessible(top - len, len as int) && value == le_value(
                    self@.subrange(top - len, top as int),
                ),
                Err(e) => e == MicroprocessorErrors::MemoryOverflow && !accessible(
                    top - len,
                    len as int,
                ),
            },
    {
        if len > top {
            return Err(MicroprocessorErrors::MemoryOverflow);
        }
        self.read_ram(top - len, len)
    }

    /// Writes the `width` low bytes of `value` from `address` on, least
    /// significant first. Fails, with the memory as it was, exactly when
    /// `width` exceeds four or the bytes would not all lie inside the memory.
    pub fn write_scalar(&mut self, address: usize, value: u32, width: usize) -> (r: Result<
        (),
        MicroprocessorErrors,
    >)
        requires
            old(self).wf(),
        ensures
            final(self).wf(),
            match r {
                Ok(_) => accessible(address as int, width as int) && final(self)@ == store(
                    old(self)@,
                    address as int,
                    le_bytes(value as nat, width as nat),
                ),
                Err(e) => e == MicroprocessorErrors::MemoryOverflow && !accessible(
                    address as int,
                    width as int,
                ) && final(self)@ == old(self)@,
            },
    {
        if width > MAX_SCALAR_SIZE || address > MAX_RAM_SIZE - width {
            return Err(MicroprocessorErrors::MemoryOverflow);
        }
        let ghost before = self@;
        let ghost bytes = le_bytes(value as nat, width as nat);
        let mut rest: u32 = value;
        let mut i: usize = 0;
        while i < width
            invariant
                i <= width <= MAX_SCALAR_SIZE,
                address + width <= MAX_RAM_SIZE,
                self@.len() == MAX_RAM_SIZE,
                before.len() == MAX_RAM_SIZE,
                bytes == le_bytes(value as nat, width as nat),
                bytes =~= self@.subrange(address as int, address + i) + le_bytes(
                    rest as nat,
                    (width - i) as nat,
                ),
                forall|j: int|
                    0 <= j < MAX_RAM_SIZE && !(address <= j < address + i) ==> self@[j]
                        == before[j],
            decreases width - i,
        {
            let ghost written = self@.subrange(address as int, address + i);
            self.memory.set(address + i, (rest % 256) as u8);
            proof {
                assert(self@.subrange(address as int, address + i + 1) =~= written + seq![
                    (rest % 256) as u8,
                ]);
            }
            rest = rest / 256;
            i += 1;
        }
        proof {
            assert(bytes =~= self@.subrange(address as int, address + width));
            assert(self@ =~= store(before, address as int, bytes));
        }
        Ok(())
    }

    /// Writes the four bytes of `value` from `stack_pointer` on, least
    /// significant first. Fails, with the memory as it was, exactly when the
    /// four bytes would not all lie inside the memory.
    pub fn push_unsigned(&mut self, stack_pointer: usize, value: u32) -> (r: Result<
        (),
        MicroprocessorErrors,
    >)
        requires
            old(self).wf(),
        ensures
            final(self).wf(),
            match r {
                Ok(_) => stack_pointer + 4 <= MAX_RAM_SIZE && final(self)@ == store(
                    old(self)@,
                    stack_pointer as int,
                    le_bytes(value as nat, 4),
                ),
                Err(e) => e == MicroprocessorErrors::MemoryOverflow && stack_pointer + 4
                    > MAX_RAM_SIZE && final(self)@ == old(self)@,
            },
    {
        self.write_scalar(stack_pointer, value, MAX_SCALAR_SIZE)
    }

    /// Loads a small demonstration program at address 0: push the byte 8,
    /// push the byte 10, add the two bytes, halt. The rest of the memory
    /// stays as it was.
    pub fn test(&mut self)
        requires
            old(self).wf(),
        ensures
            final(self).wf(),
            final(self)@ == store(old(self)@, 0, demo_program()),
    {
        let program: [u8; 12] = [1, 0, 1, 8, 1, 0, 1, 10, 3, 0, 1, 0];
        let ghost before = self@;
        let mut i: usize = 0;
        while i < 12
            invariant
                i <= 12,
                self@.len() == MAX_RAM_SIZE,
                before.len() == MAX_RAM_SIZE,
                program@ == demo_program(),
                forall|j: int| 0 <= j < i ==> self@[j] == program@[j],
                forall|j: int| i <= j < MAX_RAM_SIZE ==> self@[j] == before[j],
            decreases 12 - i,
        {
            self.memory.set(i, program[i]);
            i += 1;
        }
        proof {
            assert(self@ =~= store(before, 0, demo_program()));
        }
    }
}

/// The demonstration program: `PUSH 8` and `PUSH 10`, both one byte wide,
/// `ADD` of one byte, `HALT`.
pub open spec fn demo_program() -> Seq<u8> {
    seq![1u8, 0u8, 1u8, 8u8, 1u8, 0u8, 1u8, 10u8, 3u8, 0u8, 1u8, 0u8]
}

} // verus!
