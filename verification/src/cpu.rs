//! The processor: the register file and the engine that fetches, decodes
//! and executes the instructions found in memory.

use vstd::prelude::*;
use crate::errors::MicroprocessorErrors;
use crate::instruction::{catalog, decode, run_microinstructions, run_sequence, OPCODE_SIZE};
use crate::microinstruction::{done, error_of, failed, scalar_at, Microinstruction, Outcome};
use crate::ram::{accessible, Ram};
use crate::registers::Registers;

verus! {

pub struct CPU {
    pub registers: Registers,
}

/// The micro-operations of the instruction at the program counter:
/// `MemoryOverflow` where the opcode does not lie inside the memory,
/// `UnknownOpcode` where it names no instruction.
pub open spec fn fetched(regs: Registers, mem: Seq<u8>) -> Result<
    Seq<Microinstruction>,
    MicroprocessorErrors,
> {
    if !accessible(regs.pc as int, OPCODE_SIZE as int) {
        Err(MicroprocessorErrors::MemoryOverflow)
    } else {
        match catalog(scalar_at(mem, regs.pc as int, OPCODE_SIZE as int)) {
            Some(ops) => Ok(ops),
            None => Err(MicroprocessorErrors::UnknownOpcode),
        }
    }
}

/// What one fetch-execute cycle from `regs` and `mem` on leaves behind.
pub open spec fn cycle(regs: Registers, mem: Seq<u8>) -> Outcome {
    match fetched(regs, mem) {
        Ok(ops) => run_sequence(ops, regs, mem),
        Err(e) => failed(e, regs, mem),
    }
}

/// What a run of at most `cycles` fetch-execute cycles from `regs` and
/// `mem` on leaves behind. The run ends with the first cycle that fails or
/// leaves the power off; the power state is looked at after a cycle only,
/// never before the first.
pub open spec fn run(regs: Registers, mem: Seq<u8>, cycles: nat) -> Outcome
    decreases cycles,
{
    if cycles == 0 {
        done(regs, mem)
    } else {
        let first = cycle(regs, mem);
        if first.error is Some || !first.registers.poweron {
            first
        } else {
            run(first.registers, first.memory, (cycles - 1) as nat)
        }
    }
}

impl CPU {
    /// A processor whose registers hold their reset values.
    pub fn new() -> (cpu: Self)
        ensures
            cpu.registers == Registers::reset(),
    {
        CPU { registers: Registers::new() }
    }

    /// Reads the opcode at the program counter and looks it up: the
    /// micro-operations of the instruction to execute.
    pub fn fetch_istr(&self, ram: &Ram) -> (r: Result<Vec<Microinstruction>, MicroprocessorErrors>)
        requires
            ram.wf(),
        ensures
            match r {
                Ok(list) => fetched(self.registers, ram@) == Ok::<
                    Seq<Microinstruction>,
                    MicroprocessorErrors,
                >(list@),
                Err(e) => fetched(self.registers, ram@) == Err::<
                    Seq<Microinstruction>,
                    MicroprocessorErrors,
                >(e),
            },
    {
        let opcode = ram.read_ram(self.registers.pc(), OPCODE_SIZE)?;
        match decode(opcode) {
            Some(list) => Ok(list),
            None => Err(MicroprocessorErrors::UnknownOpcode),
        }
    }

    /// One fetch-execute cycle: fetches the instruction at the program
    /// counter and carries out its micro-operations in order, up to the
    /// first that fails.
    pub fn step(&mut self, ram: &mut Ram) -> (r: Result<(), MicroprocessorErrors>)
        requires
            old(ram).wf(),
        ensures
            final(ram).wf(),
            (Outcome { error: error_of(r), registers: final(self).registers, memory: final(ram)@ })
                == cycle(old(self).registers, old(ram)@),
    {
        let list = self.fetch_istr(ram)?;
        run_microinstructions(&list, self, ram)
    }

    /// Runs fetch-execute cycles until one of them fails or leaves the power
    /// off, or until `max_cycles` of them are done. The first failure is
    /// returned; `Ok` with the power still on says that the cycles ran out.
    pub fn run_for(&mut self, ram: &mut Ram, max_cycles: u64) -> (r: Result<
        (),
        MicroprocessorErrors,
    >)
        requires
            old(ram).wf(),
        ensures
            final(ram).wf(),
            (Outcome { error: error_of(r), registers: final(self).registers, memory: final(ram)@ })
                == run(old(self).registers, old(ram)@, max_cycles as nat),
    {
        let mut left: u64 = max_cycles;
        while left > 0
            invariant
                ram.wf(),
                run(old(self).registers, old(ram)@, max_cycles as nat) == run(
                    self.registers,
                    ram@,
                    left as nat,
                ),
            decreases left,
        {
            self.step(ram)?;
            if !self.registers.poweron() {
                return Ok(());
            }
            left -= 1;
        }
        Ok(())
    }

    /// Runs the program in `ram` from the program counter on: cycle after
    /// cycle until one fails, which is returned, or leaves the power off.
    /// The run is that of `run_for` with as many cycles as a `u64` can count.
    pub fn execute(&mut self, ram: &mut Ram) -> (r: Result<(), MicroprocessorErrors>)
        requires
            old(ram).wf(),
        ensures
            final(ram).wf(),
            (Outcome { error: error_of(r), registers: final(self).registers, memory: final(ram)@ })
                == run(old(self).registers, old(ram)@, u64::MAX as nat),
    {
        self.run_for(ram, u64::MAX)
    }

    /// The register file, to be changed in place.
    pub fn registers_mut(&mut self) -> (r: &mut Registers)
        ensures
            *r == old(self).registers,
            final(self).registers == *final(r),
    {
        &mut self.registers
    }

    pub fn registers(&self) -> (r: &Registers)
        ensures
            *r == self.registers,
    {
        &self.registers
    }
}

} // verus!
