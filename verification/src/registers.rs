//! The register file: program counter, stack and base pointer, two data
//! registers, the condition flags, the decoded-operand cache, the base of
//! the data segment and the power state.

use vstd::prelude::*;
use crate::errors::MicroprocessorErrors;

verus! {

/// The highest value that `bp_inc` lets the base pointer reach: what lies
/// above is kept for interrupt vectors.
pub const BP_LIMIT: usize = 10000;

/// The condition flags, each independent of the others.
#[derive(Debug, Clone, Copy, PartialEq, Eq)]
pub struct Flags {
    pub overflow: bool,
    pub carry: bool,
    pub zero: bool,
    pub negative: bool,
    /// Whether the processor is executing an interrupt.
    pub int_occur: bool,
}

/// The operands that the instruction being executed has decoded so far.
#[derive(Debug, Clone, Copy, PartialEq, Eq)]
pub struct InstructionRegisters {
    /// The width of the instruction's data operand, in bytes.
    pub option: u32,
    pub param0: u32,
    pub param1: u32,
}

#[derive(Debug, Clone, Copy, PartialEq, Eq)]
pub struct Registers {
    pub pc: usize,
    pub sp: usize,
    pub bp: usize,
    pub mdr0: u32,
    pub mdr1: u32,
    pub poweron: bool,
    /// Where the data segment will start. No instruction reads it yet.
    pub global_register: usize,
    pub flags: Flags,
    pub instruction_registers: InstructionRegisters,
}

impl InstructionRegisters {
    /// All three operands zero.
    pub fn new() -> (r: Self)
        ensures
            r == (InstructionRegisters { option: 0, param0: 0, param1: 0 }),
    {
        InstructionRegisters { option: 0, param0: 0, param1: 0 }
    }

    pub fn option(&self) -> (r: u32)
        ensures
            r == self.option,
    {
        self.option
    }

    pub fn param0(&self) -> (r: u32)
        ensures
            r == self.param0,
    {
        self.param0
    }

    pub fn param1(&self) -> (r: u32)
        ensures
            r == self.param1,
    {
        self.param1
    }

    pub fn set_option(&mut self, option: u32)
        ensures
            *final(self) == (InstructionRegisters { option, ..*old(self) }),
    {
        self.option = option;
    }

    pub fn set_param0(&mut self, param0: u32)
        ensures
            *final(self) == (InstructionRegisters { param0, ..*old(self) }),
    {
        self.param0 = param0;
    }

    pub fn set_param1(&mut self, param1: u32)
        ensures
            *final(self) == (InstructionRegisters { param1, ..*old(self) }),
    {
        self.param1 = param1;
    }
}

impl Flags {
    /// All flags clear.
    pub fn new() -> (r: Self)
        ensures
            r == (Flags {
                overflow: false,
                carry: false,
                zero: false,
                negative: false,
                int_occur: false,
            }),
    {
        Flags { overflow: false, carry: false, zero: false, negative: false, int_occur: false }
    }

    pub fn overflow(&self) -> (r: bool)
        ensures
            r == self.overflow,
    {
        self.overflow
    }

    pub fn carry(&self) -> (r: bool)
        ensures
            r == self.carry,
    {
        self.carry
    }

    pub fn zero(&self) -> (r: bool)
        ensures
            r == self.zero,
    {
        self.zero
    }

    pub fn negative(&self) -> (r: bool)
        ensures
            r == self.negative,
    {
        self.negative
    }

    pub fn int_occur(&self) -> (r: bool)
        ensures
            r == self.int_occur,
    {
        self.int_occur
    }

    pub fn set_overflow(&mut self, overflow: bool)
        ensures
            *final(self) == (Flags { overflow, ..*old(self) }),
    {
        self.overflow = overflow;
    }

    pub fn set_carry(&mut self, carry: bool)
        ensures
            *final(self) == (Flags { carry, ..*old(self) }),
    {
        self.carry = carry;
    }

    pub fn set_zero(&mut self, zero: bool)
        ensures
            *final(self) == (Flags { zero, ..*old(self) }),
    {
        self.zero = zero;
    }

    pub fn set_negative(&mut self, negative: bool)
        ensures
            *final(self) == (Flags { negative, ..*old(self) }),
    {
        self.negative = negative;
    }

    pub fn set_int_occur(&mut self, int_occur: bool)
        ensures
            *final(self) == (Flags { int_occur, ..*old(self) }),
    {
        self.int_occur = int_occur;
    }
}

impl Registers {
    /// The register file of a machine that was just switched on.
    pub open spec fn reset() -> Registers {
        Registers {
            pc: 6,
            sp: 20,
            bp: 20,
            mdr0: 0,
            mdr1: 0,
            poweron: true,
            global_register: 0,
            flags: Flags {
                overflow: false,
                carry: false,
                zero: false,
                negative: false,
                int_occur: false,
            },
            instruction_registers: InstructionRegisters { option: 0, param0: 0, param1: 0 },
        }
    }

    /// The register file at its reset values: power on, the program counter
    /// at 6, stack and base pointer at 20, everything else zero or clear.
    pub fn new() -> (r: Self)
        ensures
            r == Registers::reset(),
    {
        Registers {
            pc: 6,
            sp: 20,
            bp: 20,
            mdr0: 0,
            mdr1: 0,
            poweron: true,
            global_register: 0,
            flags: Flags::new(),
            instruction_registers: InstructionRegisters::new(),
        }
    }

    pub fn mdr0(&self) -> (r: u32)
        ensures
            r == self.mdr0,
    {
        self.mdr0
    }

    pub fn set_mdr0(&mut self, mdr0: u32)
        ensures
            *final(self) == (Registers { mdr0, ..*old(self) }),
    {
        self.mdr0 = mdr0;
    }

    pub fn mdr1(&self) -> (r: u32)
        ensures
            r == self.mdr1,
    {
        self.mdr1
    }

    pub fn set_mdr1(&mut self, mdr1: u32)
        ensures
            *final(self) == (Registers { mdr1, ..*old(self) }),
    {
        self.mdr1 = mdr1;
    }

    pub fn pc(&self) -> (r: usize)
        ensures
            r == self.pc,
    {
        self.pc
    }

    pub fn sp(&self) -> (r: usize)
        ensures
            r == self.sp,
    {
        self.sp
    }

    pub fn bp(&self) -> (r: usize)
        ensures
            r == self.bp,
    {
        self.bp
    }

    pub fn poweron(&self) -> (r: bool)
        ensures
            r == self.poweron,
    {
        self.poweron
    }

    /// The decoded-operand cache, to be changed in place.
    pub fn instruction_registers_mut(&mut self) -> (r: &mut InstructionRegisters)
        ensures
            *r == old(self).instruction_registers,
            *final(self) == (Registers { instruction_registers: *final(r), ..*old(self) }),
    {
        &mut self.instruction_registers
    }

    pub fn instruction_register(&self) -> (r: &InstructionRegisters)
        ensures
            *r == self.instruction_registers,
    {
        &self.instruction_registers
    }

    pub fn flags(&self) -> (r: &Flags)
        ensures
            *r == self.flags,
    {
        &self.flags
    }

    /// The flags, to be changed in place.
    pub fn flags_mut(&mut self) -> (r: &mut Flags)
        ensures
            *r == old(self).flags,
            *final(self) == (Registers { flags: *final(r), ..*old(self) }),
    {
        &mut self.flags
    }

    /// Sets the program counter. Never fails.
    pub fn set_pc(&mut self, pc: usize) -> (r: Result<(), MicroprocessorErrors>)
        ensures
            r.is_ok(),
            *final(self) == (Registers { pc, ..*old(self) }),
    {
        self.pc = pc;
        Ok(())
    }

    /// Sets the base pointer. Never fails.
    pub fn set_bp(&mut self, bp: usize) -> (r: Result<(), MicroprocessorErrors>)
        ensures
            r.is_ok(),
            *final(self) == (Registers { bp, ..*old(self) }),
    {
        self.bp = bp;
        Ok(())
    }

    /// Sets the stack pointer. Never fails.
    pub fn set_sp(&mut self, sp: usize) -> (r: Result<(), MicroprocessorErrors>)
        ensures
            r.is_ok(),
            *final(self) == (Registers { sp, ..*old(self) }),
    {
        self.sp = sp;
        Ok(())
    }

    /// Moves the program counter up by `inc_val`. Never fails.
    pub fn pc_inc(&mut self, inc_val: usize) -> (r: Result<(), MicroprocessorErrors>)
        requires
            old(self).pc + inc_val <= usize::MAX,
        ensures
            r.is_ok(),
            *final(self) == (Registers { pc: (old(self).pc + inc_val) as usize, ..*old(self) }),
    {
        self.pc += inc_val;
        Ok(())
    }

    /// Moves the program counter down by `dec_val`.
    pub fn pc_dec(&mut self, dec_val: usize)
        requires
            dec_val <= old(self).pc,
        ensures
            *final(self) == (Registers { pc: (old(self).pc - dec_val) as usize, ..*old(self) }),
    {
        self.pc -= dec_val;
    }

    /// Moves the base pointer up by `bp_inc_val`, unless that would take it
    /// past `BP_LIMIT`: then nothing changes and the error is `BpError`.
    pub fn bp_inc(&mut self, bp_inc_val: usize) -> (r: Result<(), MicroprocessorErrors>)
        ensures
            old(self).bp + bp_inc_val <= BP_LIMIT ==> r.is_ok() && *final(self) == (Registers {
                bp: (old(self).bp + bp_inc_val) as usize,
                ..*old(self)
            }),
            old(self).bp + bp_inc_val > BP_LIMIT ==> r == Err::<(), _>(
                MicroprocessorErrors::BpError,
            ) && *final(self) == *old(self),
    {
        if bp_inc_val > BP_LIMIT || self.bp > BP_LIMIT - bp_inc_val {
            return Err(MicroprocessorErrors::BpError);
        }
        self.bp += bp_inc_val;
        Ok(())
    }

    /// Moves the stack pointer down by `sp_dec_val`. Never fails.
    pub fn sp_dec(&mut self, sp_dec_val: usize) -> (r: Result<(), MicroprocessorErrors>)
        requires
            sp_dec_val <= old(self).sp,
        ensures
            r.is_ok(),
            *final(self) == (Registers { sp: (old(self).sp - sp_dec_val) as usize, ..*old(self) }),
    {
        self.sp -= sp_dec_val;
        Ok(())
    }

    /// Moves the stack pointer up by `sp_inc_val`. Never fails.
    pub fn sp_inc(&mut self, sp_inc_val: usize) -> (r: Result<(), MicroprocessorErrors>)
        requires
            old(self).sp + sp_inc_val <= usize::MAX,
        ensures
            r.is_ok(),
            *final(self) == (Registers { sp: (old(self).sp + sp_inc_val) as usize, ..*old(self) }),
    {
        self.sp += sp_inc_val;
        Ok(())
    }

    pub fn global_register(&self) -> (r: usize)
        ensures
            r == self.global_register,
    {
        self.global_register
    }

    pub fn set_global_register(&mut self, global_register: usize)
        ensures
            *final(self) == (Registers { global_register, ..*old(self) }),
    {
        self.global_register = global_register;
    }

    /// Switches the machine off: the one way in which a run ends well.
    pub fn poweroff(&mut self)
        ensures
            *final(self) == (Registers { poweron: false, ..*old(self) }),
    {
        self.poweron = false;
    }
}

} // verus!
