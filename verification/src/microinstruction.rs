//! The micro-operations: the indivisible steps that instructions are made
//! of. Each is a plain value; `Microinstruction::apply` carries one out on
//! the registers and the memory, and `Microinstruction::effect` says what
//! that does.

use vstd::prelude::*;
use crate::cpu::CPU;
use crate::encoding::{le_bytes, le_value, low32, store, lemma_le_bytes_len, lemma_store_append};
use crate::errors::MicroprocessorErrors;
use crate::ram::{accessible, Ram, MAX_RAM_SIZE};
use crate::registers::{Flags, InstructionRegisters, Registers};

verus! {

/// One of the two data registers.
#[derive(Debug, Clone, Copy, PartialEq, Eq)]
pub enum MemoryDataRegister {
    MDR0,
    MDR1,
}

#[derive(Debug, Clone, Copy, PartialEq, Eq)]
pub enum Microinstruction {
    /// Move the stack pointer up by a fixed amount.
    SpInc(usize),
    /// Move the program counter up by a fixed amount.
    PcInc(usize),
    /// Move the program counter up by the decoded width plus a fixed amount.
    PcIncOptionOffset(usize),
    /// Read `param_len` bytes at `pc_offset` from the program counter into MDR0.
    ReadIstrParam { param_len: usize, pc_offset: usize },
    /// Keep MDR0 as the decoded width.
    StoreMdrOption,
    /// Set the program counter to MDR0.
    StoreMdrPc,
    /// Read as many bytes as MDR0 says, at a fixed offset from the program
    /// counter, into MDR0.
    ReadIstrParamMdrLen(usize),
    /// Write the decoded width's worth of MDR0 at the stack pointer.
    WriteMdrOnSp,
    /// Move the stack pointer up by the decoded width.
    SpIncOption,
    /// Move the stack pointer down by the decoded width.
    SpDecOption,
    /// Switch the machine off.
    Poweroff,
    /// Add MDR1 to MDR0, wrapping at 32 bits.
    AddMdr0Mdr1,
    /// Read the value on top of the stack, of the decoded width, into a data
    /// register. The stack pointer stays.
    ReadFromSp(MemoryDataRegister),
    /// Set the base pointer to the stack pointer.
    StoreSpBp,
    /// Write the register snapshot at the stack pointer and move the stack
    /// pointer past it.
    PushAll,
    /// Read the register snapshot that ends at the stack pointer back into
    /// the registers.
    PopAll,
}

/// What a micro-operation, or a run of them, leaves behind.
pub struct Outcome {
    /// The error that stopped it, if one did.
    pub error: Option<MicroprocessorErrors>,
    pub registers: Registers,
    pub memory: Seq<u8>,
}

/// One field of the register snapshot: its value and its width in bytes.
#[derive(Debug, Clone, Copy, PartialEq, Eq)]
pub struct Register {
    pub value: u32,
    pub size: u32,
}

/// The size of the register snapshot, in bytes.
pub const SNAPSHOT_SIZE: usize = 40;

// Where each field of the snapshot ends, counted in bytes down from the
// stack pointer at which the snapshot ends.
pub const PARAM1_REGISTER_OFFSET: usize = 0x00;
pub const PARAM0_REGISTER_OFFSET: usize = 0x04;
pub const OPTION_REGISTER_OFFSET: usize = 0x08;
pub const NEGATIVE_FLAG_OFFSET: usize = 0x0c;
pub const ZERO_FLAG_OFFSET: usize = 0x0d;
pub const CARRY_FLAG_OFFSET: usize = 0x0e;
pub const OVERFLOW_FLAG_OFFSET: usize = 0x0f;
pub const GLOBAL_REGISTER_OFFSET: usize = 0x10;
pub const MDR1_REGISTER_OFFSET: usize = 0x14;
pub const MDR0_REGISTER_OFFSET: usize = 0x18;
pub const BP_REGISTER_OFFSET: usize = 0x1c;
pub const PC_REGISTER_OFFSET: usize = 0x20;
pub const SP_REGISTER_OFFSET: usize = 0x24;

/// A flag as the snapshot holds it.
pub open spec fn flag_value(flag: bool) -> u32 {
    if flag {
        1
    } else {
        0
    }
}

/// The fields of the snapshot of `regs`, in the order in which they are
/// written, lowest address first.
pub open spec fn snapshot_fields(regs: Registers) -> Seq<Register> {
    seq![
        Register { value: low32(regs.sp), size: 4 },
        Register { value: low32(regs.pc), size: 4 },
        Register { value: low32(regs.bp), size: 4 },
        Register { value: regs.mdr0, size: 4 },
        Register { value: regs.mdr1, size: 4 },
        Register { value: low32(regs.global_register), size: 4 },
        Register { value: flag_value(regs.flags.overflow), size: 1 },
        Register { value: flag_value(regs.flags.carry), size: 1 },
        Register { value: flag_value(regs.flags.zero), size: 1 },
        Register { value: flag_value(regs.flags.negative), size: 1 },
        Register { value: regs.instruction_registers.option, size: 4 },
        Register { value: regs.instruction_registers.param0, size: 4 },
        Register { value: regs.instruction_registers.param1, size: 4 },
    ]
}

/// The bytes of `fields`, one field after the other, each little-endian.
pub open spec fn image_of(fields: Seq<Register>) -> Seq<u8>
    decreases fields.len(),
{
    if fields.len() == 0 {
        Seq::empty()
    } else {
        image_of(fields.drop_last()) + le_bytes(
            fields.last().value as nat,
            fields.last().size as nat,
        )
    }
}

/// The register snapshot of `regs`, as bytes.
#[verifier::opaque]
pub open spec fn snapshot_bytes(regs: Registers) -> Seq<u8> {
    image_of(snapshot_fields(regs))
}

/// The value of the field of `image` that is `width` bytes wide and ends
/// `end_offset` bytes before the end of the snapshot.
pub open spec fn snapshot_field(image: Seq<u8>, end_offset: usize, width: usize) -> u32 {
    le_value(
        image.subrange(SNAPSHOT_SIZE - end_offset - width, SNAPSHOT_SIZE - end_offset),
    ) as u32
}

/// The registers as the snapshot `image` gives them. What the snapshot does
/// not hold, the power state and the interrupt flag, comes from `regs`.
#[verifier::opaque]
pub open spec fn restored(regs: Registers, image: Seq<u8>) -> Registers {
    Registers {
        pc: snapshot_field(image, PC_REGISTER_OFFSET, 4) as usize,
        sp: snapshot_field(image, SP_REGISTER_OFFSET, 4) as usize,
        bp: snapshot_field(image, BP_REGISTER_OFFSET, 4) as usize,
        mdr0: snapshot_field(image, MDR0_REGISTER_OFFSET, 4),
        mdr1: snapshot_field(image, MDR1_REGISTER_OFFSET, 4),
        poweron: regs.poweron,
        global_register: snapshot_field(image, GLOBAL_REGISTER_OFFSET, 4) as usize,
        flags: Flags {
            overflow: snapshot_field(image, OVERFLOW_FLAG_OFFSET, 1) != 0,
            carry: snapshot_field(image, CARRY_FLAG_OFFSET, 1) != 0,
            zero: snapshot_field(image, ZERO_FLAG_OFFSET, 1) != 0,
            negative: snapshot_field(image, NEGATIVE_FLAG_OFFSET, 1) != 0,
            int_occur: regs.flags.int_occur,
        },
        instruction_registers: InstructionRegisters {
            option: snapshot_field(image, OPTION_REGISTER_OFFSET, 4),
            param0: snapshot_field(image, PARAM0_REGISTER_OFFSET, 4),
            param1: snapshot_field(image, PARAM1_REGISTER_OFFSET, 4),
        },
    }
}

/// The error that a result carries, if it is one.
pub open spec fn error_of(r: Result<(), MicroprocessorErrors>) -> Option<MicroprocessorErrors> {
    match r {
        Ok(_) => None,
        Err(e) => Some(e),
    }
}

/// The outcome of a step that went well.
pub open spec fn done(registers: Registers, memory: Seq<u8>) -> Outcome {
    Outcome { error: None, registers, memory }
}

/// The outcome of a step that failed and changed nothing.
pub open spec fn failed(e: MicroprocessorErrors, registers: Registers, memory: Seq<u8>) -> Outcome {
    Outcome { error: Some(e), registers, memory }
}

/// The value of the little-endian scalar of `len` bytes at `from`.
pub open spec fn scalar_at(mem: Seq<u8>, from: int, len: int) -> u32 {
    le_value(mem.subrange(from, from + len)) as u32
}

/// `regs` with the stack pointer moved by `by`; a failure where that leaves
/// the range of a machine word.
#[verifier::opaque]
pub open spec fn sp_moved(regs: Registers, mem: Seq<u8>, by: int) -> Outcome {
    if 0 <= regs.sp + by <= usize::MAX {
        done(Registers { sp: (regs.sp + by) as usize, ..regs }, mem)
    } else {
        failed(MicroprocessorErrors::MemoryOverflow, regs, mem)
    }
}

/// `regs` with the program counter moved up by `by`; a failure where that
/// leaves the range of a machine word.
#[verifier::opaque]
pub open spec fn pc_moved(regs: Registers, mem: Seq<u8>, by: int) -> Outcome {
    if 0 <= regs.pc + by <= usize::MAX {
        done(Registers { pc: (regs.pc + by) as usize, ..regs }, mem)
    } else {
        failed(MicroprocessorErrors::MemoryOverflow, regs, mem)
    }
}

/// `regs` with the scalar of `len` bytes at `from` in the data register
/// `into`; a failure where the memory refuses the read.
#[verifier::opaque]
pub open spec fn loaded(
    regs: Registers,
    mem: Seq<u8>,
    from: int,
    len: int,
    into: MemoryDataRegister,
) -> Outcome {
    if accessible(from, len) {
        match into {
            MemoryDataRegister::MDR0 => done(
                Registers { mdr0: scalar_at(mem, from, len), ..regs },
                mem,
            ),
            MemoryDataRegister::MDR1 => done(
                Registers { mdr1: scalar_at(mem, from, len), ..regs },
                mem,
            ),
        }
    } else {
        failed(MicroprocessorErrors::MemoryOverflow, regs, mem)
    }
}

/// The memory with the decoded width's worth of MDR0 written at the stack
/// pointer; a failure where the memory refuses the write.
#[verifier::opaque]
pub open spec fn written_on_sp(regs: Registers, mem: Seq<u8>) -> Outcome {
    let option = regs.instruction_registers.option;
    if accessible(regs.sp as int, option as int) {
        done(regs, store(mem, regs.sp as int, le_bytes(regs.mdr0 as nat, option as nat)))
    } else {
        failed(MicroprocessorErrors::MemoryOverflow, regs, mem)
    }
}

/// The memory with the snapshot of `regs` written at the stack pointer, and
/// the stack pointer moved past it; a failure where the snapshot does not
/// fit in the memory.
#[verifier::opaque]
pub open spec fn context_saved(regs: Registers, mem: Seq<u8>) -> Outcome {
    if regs.sp + SNAPSHOT_SIZE <= MAX_RAM_SIZE {
        done(
            Registers { sp: (regs.sp + SNAPSHOT_SIZE) as usize, ..regs },
            store(mem, regs.sp as int, snapshot_bytes(regs)),
        )
    } else {
        failed(MicroprocessorErrors::MemoryOverflow, regs, mem)
    }
}

/// The registers as the snapshot that ends at the stack pointer gives them;
/// a failure where no whole snapshot lies there.
#[verifier::opaque]
pub open spec fn context_restored(regs: Registers, mem: Seq<u8>) -> Outcome {
    if SNAPSHOT_SIZE <= regs.sp <= MAX_RAM_SIZE {
        done(restored(regs, mem.subrange(regs.sp - SNAPSHOT_SIZE, regs.sp as int)), mem)
    } else {
        failed(MicroprocessorErrors::MemoryOverflow, regs, mem)
    }
}

impl Microinstruction {
    /// What this micro-operation does to the registers `regs` and the memory
    /// `mem`. One that fails changes neither. The definition is kept from
    /// the solver until `lemma_effect` hands it out for one application.
    #[verifier::opaque]
    pub open spec fn effect(self, regs: Registers, mem: Seq<u8>) -> Outcome {
        self.effect_by_cases(regs, mem)
    }

    /// The effect of this micro-operation is the one that its kind gives.
    pub proof fn lemma_effect(self, regs: Registers, mem: Seq<u8>)
        ensures
            self.effect(regs, mem) == self.effect_by_cases(regs, mem),
    {
        reveal(Microinstruction::effect);
    }

    /// The definition of `effect`, kind by kind.
    pub open spec fn effect_by_cases(self, regs: Registers, mem: Seq<u8>) -> Outcome {
        let option = regs.instruction_registers.option;
        match self {
            Microinstruction::SpInc(by) => sp_moved(regs, mem, by as int),
            Microinstruction::PcInc(by) => pc_moved(regs, mem, by as int),
            Microinstruction::PcIncOptionOffset(offset) => pc_moved(regs, mem, option + offset),
            Microinstruction::ReadIstrParam { param_len, pc_offset } => loaded(
                regs,
                mem,
                regs.pc + pc_offset,
                param_len as int,
                MemoryDataRegister::MDR0,
            ),
            Microinstruction::StoreMdrOption => done(
                Registers {
                    instruction_registers: InstructionRegisters {
                        option: regs.mdr0,
                        ..regs.instruction_registers
                    },
                    ..regs
                },
                mem,
            ),
            Microinstruction::StoreMdrPc => done(Registers { pc: regs.mdr0 as usize, ..regs }, mem),
            Microinstruction::ReadIstrParamMdrLen(pc_offset) => loaded(
                regs,
                mem,
                regs.pc + pc_offset,
                regs.mdr0 as int,
                MemoryDataRegister::MDR0,
            ),
            Microinstruction::WriteMdrOnSp => written_on_sp(regs, mem),
            Microinstruction::SpIncOption => sp_moved(regs, mem, option as int),
            Microinstruction::SpDecOption => sp_moved(regs, mem, -(option as int)),
            Microinstruction::Poweroff => done(Registers { poweron: false, ..regs }, mem),
            Microinstruction::AddMdr0Mdr1 => done(
                Registers {
                    mdr0: ((regs.mdr0 + regs.mdr1) % 0x1_0000_0000) as u32,
                    ..regs
                },
                mem,
            ),
            Microinstruction::ReadFromSp(mdr) => loaded(
                regs,
                mem,
                regs.sp - option,
                option as int,
                mdr,
            ),
            Microinstruction::StoreSpBp => done(Registers { bp: regs.sp, ..regs }, mem),
            Microinstruction::PushAll => context_saved(regs, mem),
            Microinstruction::PopAll => context_restored(regs, mem),
        }
    }

    /// A failing micro-operation leaves registers and memory as they were.
    pub proof fn lemma_failure_changes_nothing(self, regs: Registers, mem: Seq<u8>)
        requires
            self.effect(regs, mem).error is Some,
        ensures
            self.effect(regs, mem) == failed(MicroprocessorErrors::MemoryOverflow, regs, mem),
    {
        reveal(Microinstruction::effect);
        reveal(sp_moved);
        reveal(pc_moved);
        reveal(loaded);
        reveal(written_on_sp);
        reveal(context_saved);
        reveal(context_restored);
    }

    pub fn sp_inc(inc_val: usize) -> (m: Microinstruction)
        ensures
            m == Microinstruction::SpInc(inc_val),
    {
        Microinstruction::SpInc(inc_val)
    }

    pub fn pc_inc(inc_val: usize) -> (m: Microinstruction)
        ensures
            m == Microinstruction::PcInc(inc_val),
    {
        Microinstruction::PcInc(inc_val)
    }

    pub fn pc_inc_option_offset(offset: usize) -> (m: Microinstruction)
        ensures
            m == Microinstruction::PcIncOptionOffset(offset),
    {
        Microinstruction::PcIncOptionOffset(offset)
    }

    pub fn read_istr_param(param_len: usize, pc_offset: usize) -> (m: Microinstruction)
        ensures
            m == (Microinstruction::ReadIstrParam { param_len, pc_offset }),
    {
        Microinstruction::ReadIstrParam { param_len, pc_offset }
    }

    pub fn store_mdr_option() -> (m: Microinstruction)
        ensures
            m == Microinstruction::StoreMdrOption,
    {
        Microinstruction::StoreMdrOption
    }

    pub fn store_mdr_pc() -> (m: Microinstruction)
        ensures
            m == Microinstruction::StoreMdrPc,
    {
        Microinstruction::StoreMdrPc
    }

    pub fn read_istr_param_mdr_len(pc_offset: usize) -> (m: Microinstruction)
        ensures
            m == Microinstruction::ReadIstrParamMdrLen(pc_offset),
    {
        Microinstruction::ReadIstrParamMdrLen(pc_offset)
    }

    pub fn write_mdr_on_sp() -> (m: Microinstruction)
        ensures
            m == Microinstruction::WriteMdrOnSp,
    {
        Microinstruction::WriteMdrOnSp
    }

    pub fn sp_inc_option() -> (m: Microinstruction)
        ensures
            m == Microinstruction::SpIncOption,
    {
        Microinstruction::SpIncOption
    }

    pub fn sp_dec_option() -> (m: Microinstruction)
        ensures
            m == Microinstruction::SpDecOption,
    {
        Microinstruction::SpDecOption
    }

    pub fn poweroff() -> (m: Microinstruction)
        ensures
            m == Microinstruction::Poweroff,
    {
        Microinstruction::Poweroff
    }

    pub fn add_mdr0_mdr1() -> (m: Microinstruction)
        ensures
            m == Microinstruction::AddMdr0Mdr1,
    {
        Microinstruction::AddMdr0Mdr1
    }

    pub fn read_from_sp(mdr: MemoryDataRegister) -> (m: Microinstruction)
        ensures
            m == Microinstruction::ReadFromSp(mdr),
    {
        Microinstruction::ReadFromSp(mdr)
    }

    pub fn store_sp_bp() -> (m: Microinstruction)
        ensures
            m == Microinstruction::StoreSpBp,
    {
        Microinstruction::StoreSpBp
    }

    pub fn push_all() -> (m: Microinstruction)
        ensures
            m == Microinstruction::PushAll,
    {
        Microinstruction::PushAll
    }

    pub fn pop_all() -> (m: Microinstruction)
        ensures
            m == Microinstruction::PopAll,
    {
        Microinstruction::PopAll
    }

    /// Carries this micro-operation out on the registers of `cpu` and on
    /// `ram`: the result and what both hold afterwards are those of `effect`.
    pub fn apply(&self, cpu: &mut CPU, ram: &mut Ram) -> (r: Result<(), MicroprocessorErrors>)
        requires
            old(ram).wf(),
        ensures
            final(ram).wf(),
            (Outcome { error: error_of(r), registers: final(cpu).registers, memory: final(ram)@ })
                == self.effect(old(cpu).registers, old(ram)@),
    {
        proof {
            reveal(Microinstruction::effect);
            reveal(sp_moved);
            reveal(pc_moved);
            reveal(written_on_sp);
        }
        match *self {
            Microinstruction::SpInc(by) => move_sp_up(cpu, by),
            Microinstruction::PcInc(by) => move_pc_up(cpu, by),
            Microinstruction::PcIncOptionOffset(offset) => {
                let option = cpu.registers().instruction_register().option() as usize;
                if offset > usize::MAX - option {
                    return Err(MicroprocessorErrors::MemoryOverflow);
                }
                move_pc_up(cpu, option + offset)
            },
            Microinstruction::ReadIstrParam { param_len, pc_offset } => load_operand(
                cpu,
                ram,
                pc_offset,
                param_len,
            ),
            Microinstruction::StoreMdrOption => {
                let mdr = cpu.registers().mdr0();
                cpu.registers_mut().instruction_registers_mut().set_option(mdr);
                Ok(())
            },
            Microinstruction::StoreMdrPc => {
                let mdr = cpu.registers().mdr0();
                cpu.registers_mut().set_pc(mdr as usize)
            },
            Microinstruction::ReadIstrParamMdrLen(pc_offset) => {
                let len = cpu.registers().mdr0() as usize;
                load_operand(cpu, ram, pc_offset, len)
            },
            Microinstruction::WriteMdrOnSp => {
                let registers = cpu.registers();
                let width = registers.instruction_register().option() as usize;
                ram.write_scalar(registers.sp(), registers.mdr0(), width)
            },
            Microinstruction::SpIncOption => {
                let option = cpu.registers().instruction_register().option() as usize;
                move_sp_up(cpu, option)
            },
            Microinstruction::SpDecOption => {
                let option = cpu.registers().instruction_register().option() as usize;
                if option > cpu.registers().sp() {
                    return Err(MicroprocessorErrors::MemoryOverflow);
                }
                cpu.registers_mut().sp_dec(option)
            },
            Microinstruction::Poweroff => {
                cpu.registers_mut().poweroff();
                Ok(())
            },
            Microinstruction::AddMdr0Mdr1 => {
                let mdr0 = cpu.registers().mdr0();
                let mdr1 = cpu.registers().mdr1();
                cpu.registers_mut().set_mdr0(mdr0.wrapping_add(mdr1));
                Ok(())
            },
            Microinstruction::ReadFromSp(mdr) => load_stack_top(cpu, ram, mdr),
            Microinstruction::StoreSpBp => {
                let sp = cpu.registers().sp();
                cpu.registers_mut().set_bp(sp)
            },
            Microinstruction::PushAll => save_context(cpu, ram),
            Microinstruction::PopAll => restore_context(cpu, ram),
        }
    }
}

/// Reads the scalar of `len` bytes at `pc_offset` from the program counter
/// into MDR0.
fn load_operand(cpu: &mut CPU, ram: &Ram, pc_offset: usize, len: usize) -> (r: Result<
    (),
    MicroprocessorErrors,
>)
    requires
        ram.wf(),
    ensures
        (Outcome { error: error_of(r), registers: final(cpu).registers, memory: ram@ }) == loaded(
            old(cpu).registers,
            ram@,
            old(cpu).registers.pc + pc_offset,
            len as int,
            MemoryDataRegister::MDR0,
        ),
{
    proof {
        reveal(loaded);
    }
    let pc = cpu.registers().pc();
    if pc_offset > usize::MAX - pc {
        return Err(MicroprocessorErrors::MemoryOverflow);
    }
    let istr_param = ram.read_ram(pc + pc_offset, len)?;
    cpu.registers_mut().set_mdr0(istr_param);
    Ok(())
}

/// Reads the value on top of the stack, as wide as the decoded width says,
/// into the data register `mdr`.
fn load_stack_top(cpu: &mut CPU, ram: &Ram, mdr: MemoryDataRegister) -> (r: Result<
    (),
    MicroprocessorErrors,
>)
    requires
        ram.wf(),
    ensures
        (Outcome { error: error_of(r), registers: final(cpu).registers, memory: ram@ }) == loaded(
            old(cpu).registers,
            ram@,
            old(cpu).registers.sp - old(cpu).registers.instruction_registers.option,
            old(cpu).registers.instruction_registers.option as int,
            mdr,
        ),
{
    proof {
        reveal(loaded);
    }
    let option = cpu.registers().instruction_register().option() as usize;
    let data = ram.read_stack(cpu.registers().sp(), option)?;
    match mdr {
        MemoryDataRegister::MDR0 => cpu.registers_mut().set_mdr0(data),
        MemoryDataRegister::MDR1 => cpu.registers_mut().set_mdr1(data),
    }
    Ok(())
}

/// The low 32 bits of `x`.
fn low_word(x: usize) -> (r: u32)
    ensures
        r == low32(x),
{
    let r = #[verifier::truncate] (x as u32);
    proof {
        let wide = x as u64;
        assert(wide as u32 == (wide % 0x1_0000_0000u64) as u32) by (bit_vector);
    }
    r
}

/// A flag as a number: one if set, zero if clear.
fn flag_word(flag: bool) -> (r: u32)
    ensures
        r == flag_value(flag),
{
    if flag {
        1
    } else {
        0
    }
}

/// A field's bytes follow those of the fields before it, and end inside the
/// image of the whole list.
pub proof fn lemma_image_prefix(fields: Seq<Register>, i: int)
    requires
        0 <= i < fields.len(),
    ensures
        image_of(fields.take(i + 1)) == image_of(fields.take(i)) + le_bytes(
            fields[i].value as nat,
            fields[i].size as nat,
        ),
        image_of(fields.take(i)).len() + fields[i].size <= image_of(fields).len(),
    decreases fields.len(),
{
    assert(fields.take(i + 1).drop_last() =~= fields.take(i));
    lemma_le_bytes_len(fields[i].value as nat, fields[i].size as nat);
    if i == fields.len() - 1 {
        assert(fields.take(i + 1) =~= fields);
    } else {
        let shorter = fields.drop_last();
        lemma_image_prefix(shorter, i);
        assert(shorter.take(i) =~= fields.take(i));
    }
}

/// A field's bytes stand in the image of the whole list right behind those
/// of the fields before it.
pub proof fn lemma_image_field(fields: Seq<Register>, i: int)
    requires
        0 <= i < fields.len(),
    ensures
        image_of(fields).subrange(
            image_of(fields.take(i)).len() as int,
            image_of(fields.take(i)).len() + fields[i].size,
        ) == le_bytes(fields[i].value as nat, fields[i].size as nat),
    decreases fields.len(),
{
    let start = image_of(fields.take(i)).len() as int;
    let bytes = le_bytes(fields[i].value as nat, fields[i].size as nat);
    lemma_image_prefix(fields, i);
    lemma_le_bytes_len(fields[i].value as nat, fields[i].size as nat);
    if i == fields.len() - 1 {
        assert(fields.take(i) =~= fields.drop_last());
        assert(image_of(fields).subrange(start, start + fields[i].size) =~= bytes);
    } else {
        let shorter = fields.drop_last();
        lemma_image_field(shorter, i);
        lemma_image_prefix(shorter, i);
        assert(shorter.take(i) =~= fields.take(i));
        assert(image_of(fields).subrange(start, start + fields[i].size) =~= image_of(
            shorter,
        ).subrange(start, start + fields[i].size));
    }
}

/// Where each field of the snapshot starts.
pub proof fn lemma_snapshot_starts(regs: Registers)
    ensures
        ({
            let fields = snapshot_fields(regs);
            &&& image_of(fields.take(0)).len() == 0
            &&& image_of(fields.take(1)).len() == 4
            &&& image_of(fields.take(2)).len() == 8
            &&& image_of(fields.take(3)).len() == 12
            &&& image_of(fields.take(4)).len() == 16
            &&& image_of(fields.take(5)).len() == 20
            &&& image_of(fields.take(6)).len() == 24
            &&& image_of(fields.take(7)).len() == 25
            &&& image_of(fields.take(8)).len() == 26
            &&& image_of(fields.take(9)).len() == 27
            &&& image_of(fields.take(10)).len() == 28
            &&& image_of(fields.take(11)).len() == 32
            &&& image_of(fields.take(12)).len() == 36
            &&& image_of(fields).len() == 40
        }),
{
    let fields = snapshot_fields(regs);
    assert(fields.take(0) =~= Seq::<Register>::empty());
    assert(fields.take(13) =~= fields);
    lemma_image_prefix(fields, 0);
    lemma_image_prefix(fields, 1);
    lemma_image_prefix(fields, 2);
    lemma_image_prefix(fields, 3);
    lemma_image_prefix(fields, 4);
    lemma_image_prefix(fields, 5);
    lemma_image_prefix(fields, 6);
    lemma_image_prefix(fields, 7);
    lemma_image_prefix(fields, 8);
    lemma_image_prefix(fields, 9);
    lemma_image_prefix(fields, 10);
    lemma_image_prefix(fields, 11);
    lemma_image_prefix(fields, 12);
    lemma_le_bytes_len(fields[0].value as nat, 4);
    lemma_le_bytes_len(fields[1].value as nat, 4);
    lemma_le_bytes_len(fields[2].value as nat, 4);
    lemma_le_bytes_len(fields[3].value as nat, 4);
    lemma_le_bytes_len(fields[4].value as nat, 4);
    lemma_le_bytes_len(fields[5].value as nat, 4);
    lemma_le_bytes_len(fields[6].value as nat, 1);
    lemma_le_bytes_len(fields[7].value as nat, 1);
    lemma_le_bytes_len(fields[8].value as nat, 1);
    lemma_le_bytes_len(fields[9].value as nat, 1);
    lemma_le_bytes_len(fields[10].value as nat, 4);
    lemma_le_bytes_len(fields[11].value as nat, 4);
    lemma_le_bytes_len(fields[12].value as nat, 4);
}

impl Microinstruction {
    /// The fields of the register snapshot, in the order in which they are
    /// written.
    pub fn get_registers_to_push(registers: &Registers) -> (list: Vec<Register>)
        ensures
            list@ == snapshot_fields(*registers),
    {
        let list = vec![
            Register { value: low_word(registers.sp()), size: 4 },
            Register { value: low_word(registers.pc()), size: 4 },
            Register { value: low_word(registers.bp()), size: 4 },
            Register { value: registers.mdr0(), size: 4 },
            Register { value: registers.mdr1(), size: 4 },
            Register { value: low_word(registers.global_register()), size: 4 },
            Register { value: flag_word(registers.flags().overflow()), size: 1 },
            Register { value: flag_word(registers.flags().carry()), size: 1 },
            Register { value: flag_word(registers.flags().zero()), size: 1 },
            Register { value: flag_word(registers.flags().negative()), size: 1 },
            Register { value: registers.instruction_register().option(), size: 4 },
            Register { value: registers.instruction_register().param0(), size: 4 },
            Register { value: registers.instruction_register().param1(), size: 4 },
        ];
        proof {
            assert(list@ =~= snapshot_fields(*registers));
        }
        list
    }
}

/// Writes the register snapshot at the stack pointer and moves the stack
/// pointer past it; changes nothing where the snapshot does not fit.
fn save_context(cpu: &mut CPU, ram: &mut Ram) -> (r: Result<(), MicroprocessorErrors>)
    requires
        old(ram).wf(),
    ensures
        final(ram).wf(),
        (Outcome { error: error_of(r), registers: final(cpu).registers, memory: final(ram)@ })
            == Microinstruction::PushAll.effect(old(cpu).registers, old(ram)@),
{
    proof {
        reveal(Microinstruction::effect);
        reveal(context_saved);
        reveal(snapshot_bytes);
    }
    let sp = cpu.registers().sp();
    if sp > MAX_RAM_SIZE - SNAPSHOT_SIZE {
        return Err(MicroprocessorErrors::MemoryOverflow);
    }
    let fields = Microinstruction::get_registers_to_push(cpu.registers());
    let ghost before = ram@;
    let ghost all = fields@;
    proof {
        lemma_snapshot_starts(cpu.registers);
    }
    let mut offset: usize = 0;
    let mut i: usize = 0;
    while i < fields.len()
        invariant
            ram.wf(),
            i <= fields.len(),
            fields@ == all,
            all == snapshot_fields(cpu.registers),
            image_of(all).len() == SNAPSHOT_SIZE,
            sp + SNAPSHOT_SIZE <= MAX_RAM_SIZE,
            offset == image_of(all.take(i as int)).len(),
            ram@ == store(before, sp as int, image_of(all.take(i as int))),
        decreases fields.len() - i,
    {
        let reg = fields[i];
        proof {
            lemma_image_prefix(all, i as int);
            lemma_le_bytes_len(reg.value as nat, reg.size as nat);
            lemma_store_append(
                before,
                sp as int,
                image_of(all.take(i as int)),
                le_bytes(reg.value as nat, reg.size as nat),
            );
        }
        ram.write_scalar(sp + offset, reg.value, reg.size as usize)?;
        offset += reg.size as usize;
        i += 1;
    }
    proof {
        assert(all.take(fields.len() as int) =~= all);
    }
    cpu.registers_mut().sp_inc(offset)
}

/// Reads from the snapshot that ends at `sp` the field of `width` bytes
/// that ends `end_offset` bytes below `sp`.
fn read_field(ram: &Ram, sp: usize, end_offset: usize, width: usize) -> (r: Result<
    u32,
    MicroprocessorErrors,
>)
    requires
        ram.wf(),
        SNAPSHOT_SIZE <= sp <= MAX_RAM_SIZE,
        width <= 4,
        end_offset + width <= SNAPSHOT_SIZE,
    ensures
        r == Ok::<u32, MicroprocessorErrors>(
            snapshot_field(ram@.subrange(sp - SNAPSHOT_SIZE, sp as int), end_offset, width),
        ),
{
    proof {
        let image = ram@.subrange(sp - SNAPSHOT_SIZE, sp as int);
        assert(image.subrange(SNAPSHOT_SIZE - end_offset - width, SNAPSHOT_SIZE - end_offset)
            =~= ram@.subrange(sp - end_offset - width, sp - end_offset));
    }
    ram.read_stack(sp - end_offset, width)
}

/// Reads the register snapshot that ends at the stack pointer back into
/// the registers; changes nothing where no whole snapshot lies there.
fn restore_context(cpu: &mut CPU, ram: &Ram) -> (r: Result<(), MicroprocessorErrors>)
    requires
        ram.wf(),
    ensures
        (Outcome { error: error_of(r), registers: final(cpu).registers, memory: ram@ })
            == Microinstruction::PopAll.effect(old(cpu).registers, ram@),
{
    proof {
        reveal(Microinstruction::effect);
        reveal(context_restored);
        reveal(restored);
    }
    let curr_sp = cpu.registers().sp();
    if curr_sp < SNAPSHOT_SIZE || curr_sp > MAX_RAM_SIZE {
        return Err(MicroprocessorErrors::MemoryOverflow);
    }
    let param1 = read_field(ram, curr_sp, PARAM1_REGISTER_OFFSET, 4)?;
    let param0 = read_field(ram, curr_sp, PARAM0_REGISTER_OFFSET, 4)?;
    let option = read_field(ram, curr_sp, OPTION_REGISTER_OFFSET, 4)?;
    let negative = read_field(ram, curr_sp, NEGATIVE_FLAG_OFFSET, 1)?;
    let zero = read_field(ram, curr_sp, ZERO_FLAG_OFFSET, 1)?;
    let carry = read_field(ram, curr_sp, CARRY_FLAG_OFFSET, 1)?;
    let overflow = read_field(ram, curr_sp, OVERFLOW_FLAG_OFFSET, 1)?;
    let global = read_field(ram, curr_sp, GLOBAL_REGISTER_OFFSET, 4)?;
    let mdr1 = read_field(ram, curr_sp, MDR1_REGISTER_OFFSET, 4)?;
    let mdr0 = read_field(ram, curr_sp, MDR0_REGISTER_OFFSET, 4)?;
    let bp = read_field(ram, curr_sp, BP_REGISTER_OFFSET, 4)?;
    let pc = read_field(ram, curr_sp, PC_REGISTER_OFFSET, 4)?;
    let sp = read_field(ram, curr_sp, SP_REGISTER_OFFSET, 4)?;

    let registers = cpu.registers_mut();
    registers.instruction_registers_mut().set_param1(param1);
    registers.instruction_registers_mut().set_param0(param0);
    registers.instruction_registers_mut().set_option(option);
    registers.flags_mut().set_negative(negative != 0);
    registers.flags_mut().set_zero(zero != 0);
    registers.flags_mut().set_carry(carry != 0);
    registers.flags_mut().set_overflow(overflow != 0);
    registers.set_global_register(global as usize);
    registers.set_mdr1(mdr1);
    registers.set_mdr0(mdr0);
    registers.set_bp(bp as usize)?;
    registers.set_pc(pc as usize)?;
    registers.set_sp(sp as usize)
}

/// Moves the stack pointer of `cpu` up by `by`, if a machine word can hold
/// the result.
fn move_sp_up(cpu: &mut CPU, by: usize) -> (r: Result<(), MicroprocessorErrors>)
    ensures
        error_of(r) == sp_moved(old(cpu).registers, Seq::empty(), by as int).error,
        final(cpu).registers == sp_moved(old(cpu).registers, Seq::empty(), by as int).registers,
{
    proof {
        reveal(sp_moved);
    }
    if by > usize::MAX - cpu.registers().sp() {
        return Err(MicroprocessorErrors::MemoryOverflow);
    }
    cpu.registers_mut().sp_inc(by)
}

/// Moves the program counter of `cpu` up by `by`, if a machine word can
/// hold the result.
fn move_pc_up(cpu: &mut CPU, by: usize) -> (r: Result<(), MicroprocessorErrors>)
    ensures
        error_of(r) == pc_moved(old(cpu).registers, Seq::empty(), by as int).error,
        final(cpu).registers == pc_moved(old(cpu).registers, Seq::empty(), by as int).registers,
{
    proof {
        reveal(pc_moved);
    }
    if by > usize::MAX - cpu.registers().pc() {
        return Err(MicroprocessorErrors::MemoryOverflow);
    }
    cpu.registers_mut().pc_inc(by)
}

} // verus!
