//! The machine: one processor and one memory, owned together.

use vstd::prelude::*;
use crate::cpu::{run, CPU};
use crate::errors::MicroprocessorErrors;
use crate::microinstruction::{error_of, Outcome};
use crate::ram::{Ram, MAX_RAM_SIZE};
use crate::registers::Registers;

verus! {

pub struct VM {
    pub cpu: CPU,
    pub ram: Ram,
}

impl VM {
    /// A machine just switched on: the registers at their reset values, the
    /// memory all zero.
    pub fn new() -> (vm: Self)
        ensures
            vm.ram.wf(),
            vm.cpu.registers == Registers::reset(),
            forall|i: int| 0 <= i < MAX_RAM_SIZE ==> vm.ram@[i] == 0,
    {
        VM { cpu: CPU::new(), ram: Ram::new() }
    }

    /// Runs the program in memory from the program counter on, for at most
    /// `max_cycles` fetch-execute cycles: until a cycle fails, which is
    /// returned, or leaves the power off, or the cycles run out.
    pub fn run_for(&mut self, max_cycles: u64) -> (r: Result<(), MicroprocessorErrors>)
        requires
            old(self).ram.wf(),
        ensures
            final(self).ram.wf(),
            (Outcome {
                error: error_of(r),
                registers: final(self).cpu.registers,
                memory: final(self).ram@,
            }) == run(old(self).cpu.registers, old(self).ram@, max_cycles as nat),
    {
        self.cpu.run_for(&mut self.ram, max_cycles)
    }

    /// Runs the program in memory from the program counter on, until a cycle
    /// fails, which is returned, or leaves the power off. The run is that of
    /// `run_for` with as many cycles as a `u64` can count.
    pub fn execute(&mut self) -> (r: Result<(), MicroprocessorErrors>)
        requires
            old(self).ram.wf(),
        ensures
            final(self).ram.wf(),
            (Outcome {
                error: error_of(r),
                registers: final(self).cpu.registers,
                memory: final(self).ram@,
            }) == run(old(self).cpu.registers, old(self).ram@, u64::MAX as nat),
    {
        self.cpu.execute(&mut self.ram)
    }
}

} // verus!
