//! The instruction catalog: each instruction as the fixed run of
//! micro-operations that carries it out, and the opcode that names it.

use vstd::prelude::*;
use crate::cpu::CPU;
use crate::errors::MicroprocessorErrors;
use crate::microinstruction::{
    done, error_of, MemoryDataRegister, Microinstruction, Outcome,
};
use crate::ram::Ram;
use crate::registers::Registers;

verus! {

pub const HLT_OPCODE: u32 = 0x0000;
pub const PUSH_OPCODE: u32 = 0x0001;
pub const POP_OPCODE: u32 = 0x0002;
pub const ADD_OPCODE: u32 = 0x0003;
pub const NOP_OPCODE: u32 = 0x0004;
pub const PUSHALL_OPCODE: u32 = 0x0005;
pub const JMP_OPCODE: u32 = 0x0006;
pub const CALL_OPCODE: u32 = 0x0007;
pub const RET_OPCODE: u32 = 0x0008;

/// The width of an opcode in memory, in bytes.
pub const OPCODE_SIZE: usize = 2;

/// The width of an address operand, in bytes.
pub const MEMORY_ADDRESS_SIZE: usize = 4;

/// The width of the operand that selects a data width, in bytes.
pub const OPTION_PARAM_SIZE: usize = 1;

pub const POP_INSTRUCTION_SIZE: usize = 3;
pub const ADD_INSTRUCTION_SIZE: usize = 3;

/// The size of a PUSH without its immediate operand.
pub const PUSH_INSTRUCTION_WITHOUT_PARAM_SIZE: usize = 3;

/// An instruction of the machine.
pub trait Instruction {
    /// The micro-operations that carry the instruction out, in order.
    spec fn microinstructions(&self) -> Seq<Microinstruction>;

    /// The micro-operations that carry the instruction out, in order.
    fn exec(&self) -> (list: Vec<Microinstruction>)
        ensures
            list@ == self.microinstructions(),
    ;
}

pub struct Push;

pub struct Pop;

pub struct Halt;

pub struct Add;

pub struct Nop;

pub struct PushAll;

pub struct Jmp;

pub struct Call;

pub struct Ret;

impl Instruction for Push {
    open spec fn microinstructions(&self) -> Seq<Microinstruction> {
        seq![
            Microinstruction::ReadIstrParam {
                param_len: OPTION_PARAM_SIZE,
                pc_offset: OPCODE_SIZE,
            },
            Microinstruction::StoreMdrOption,
            Microinstruction::ReadIstrParamMdrLen(3),
            Microinstruction::WriteMdrOnSp,
            Microinstruction::SpIncOption,
            Microinstruction::PcIncOptionOffset(PUSH_INSTRUCTION_WITHOUT_PARAM_SIZE),
        ]
    }

    fn exec(&self) -> (list: Vec<Microinstruction>) {
        let list = vec![
            Microinstruction::read_istr_param(OPTION_PARAM_SIZE, OPCODE_SIZE),
            Microinstruction::store_mdr_option(),
            Microinstruction::read_istr_param_mdr_len(OPCODE_SIZE + OPTION_PARAM_SIZE),
            Microinstruction::write_mdr_on_sp(),
            Microinstruction::sp_inc_option(),
            Microinstruction::pc_inc_option_offset(PUSH_INSTRUCTION_WITHOUT_PARAM_SIZE),
        ];
        proof {
            assert(list@ =~= self.microinstructions());
        }
        list
    }
}

impl Instruction for Pop {
    open spec fn microinstructions(&self) -> Seq<Microinstruction> {
        seq![
            Microinstruction::ReadIstrParam {
                param_len: OPTION_PARAM_SIZE,
                pc_offset: OPCODE_SIZE,
            },
            Microinstruction::StoreMdrOption,
            Microinstruction::SpDecOption,
            Microinstruction::PcInc(POP_INSTRUCTION_SIZE),
        ]
    }

    fn exec(&self) -> (list: Vec<Microinstruction>) {
        let list = vec![
            Microinstruction::read_istr_param(OPTION_PARAM_SIZE, OPCODE_SIZE),
            Microinstruction::store_mdr_option(),
            Microinstruction::sp_dec_option(),
            Microinstruction::pc_inc(POP_INSTRUCTION_SIZE),
        ];
        proof {
            assert(list@ =~= self.microinstructions());
        }
        list
    }
}

impl Instruction for Halt {
    open spec fn microinstructions(&self) -> Seq<Microinstruction> {
        seq![Microinstruction::Poweroff]
    }

    fn exec(&self) -> (list: Vec<Microinstruction>) {
        let list = vec![Microinstruction::poweroff()];
        proof {
            assert(list@ =~= self.microinstructions());
        }
        list
    }
}

impl Instruction for Add {
    open spec fn microinstructions(&self) -> Seq<Microinstruction> {
        seq![
            Microinstruction::ReadIstrParam {
                param_len: OPTION_PARAM_SIZE,
                pc_offset: OPCODE_SIZE,
            },
            Microinstruction::StoreMdrOption,
            Microinstruction::ReadFromSp(MemoryDataRegister::MDR0),
            Microinstruction::SpDecOption,
            Microinstruction::ReadFromSp(MemoryDataRegister::MDR1),
            Microinstruction::SpDecOption,
            Microinstruction::AddMdr0Mdr1,
            Microinstruction::WriteMdrOnSp,
            Microinstruction::SpIncOption,
            Microinstruction::PcInc(ADD_INSTRUCTION_SIZE),
        ]
    }

    fn exec(&self) -> (list: Vec<Microinstruction>) {
        let list = vec![
            Microinstruction::read_istr_param(OPTION_PARAM_SIZE, OPCODE_SIZE),
            Microinstruction::store_mdr_option(),
            Microinstruction::read_from_sp(MemoryDataRegister::MDR0),
            Microinstruction::sp_dec_option(),
            Microinstruction::read_from_sp(MemoryDataRegister::MDR1),
            Microinstruction::sp_dec_option(),
            Microinstruction::add_mdr0_mdr1(),
            Microinstruction::write_mdr_on_sp(),
            Microinstruction::sp_inc_option(),
            Microinstruction::pc_inc(ADD_INSTRUCTION_SIZE),
        ];
        proof {
            assert(list@ =~= self.microinstructions());
        }
        list
    }
}

impl Instruction for Nop {
    open spec fn microinstructions(&self) -> Seq<Microinstruction> {
        seq![Microinstruction::PcInc(OPCODE_SIZE)]
    }

    fn exec(&self) -> (list: Vec<Microinstruction>) {
        let list = vec![Microinstruction::pc_inc(OPCODE_SIZE)];
        proof {
            assert(list@ =~= self.microinstructions());
        }
        list
    }
}

impl Instruction for PushAll {
    open spec fn microinstructions(&self) -> Seq<Microinstruction> {
        seq![Microinstruction::PushAll, Microinstruction::PcInc(OPCODE_SIZE)]
    }

    fn exec(&self) -> (list: Vec<Microinstruction>) {
        let list = vec![Microinstruction::push_all(), Microinstruction::pc_inc(OPCODE_SIZE)];
        proof {
            assert(list@ =~= self.microinstructions());
        }
        list
    }
}

impl Instruction for Jmp {
    open spec fn microinstructions(&self) -> Seq<Microinstruction> {
        seq![
            Microinstruction::ReadIstrParam {
                param_len: MEMORY_ADDRESS_SIZE,
                pc_offset: OPCODE_SIZE,
            },
            Microinstruction::StoreMdrPc,
        ]
    }

    fn exec(&self) -> (list: Vec<Microinstruction>) {
        let list = vec![
            Microinstruction::read_istr_param(MEMORY_ADDRESS_SIZE, OPCODE_SIZE),
            Microinstruction::store_mdr_pc(),
        ];
        proof {
            assert(list@ =~= self.microinstructions());
        }
        list
    }
}

impl Instruction for Call {
    open spec fn microinstructions(&self) -> Seq<Microinstruction> {
        seq![
            Microinstruction::ReadIstrParam {
                param_len: MEMORY_ADDRESS_SIZE,
                pc_offset: OPCODE_SIZE,
            },
            Microinstruction::StoreSpBp,
            Microinstruction::PcInc(6),
            Microinstruction::PushAll,
            Microinstruction::StoreMdrPc,
        ]
    }

    fn exec(&self) -> (list: Vec<Microinstruction>) {
        let list = vec![
            Microinstruction::read_istr_param(MEMORY_ADDRESS_SIZE, OPCODE_SIZE),
            Microinstruction::store_sp_bp(),
            Microinstruction::pc_inc(OPCODE_SIZE + MEMORY_ADDRESS_SIZE),
            Microinstruction::push_all(),
            Microinstruction::store_mdr_pc(),
        ];
        proof {
            assert(list@ =~= self.microinstructions());
        }
        list
    }
}

impl Instruction for Ret {
    open spec fn microinstructions(&self) -> Seq<Microinstruction> {
        seq![Microinstruction::PopAll]
    }

    fn exec(&self) -> (list: Vec<Microinstruction>) {
        let list = vec![Microinstruction::pop_all()];
        proof {
            assert(list@ =~= self.microinstructions());
        }
        list
    }
}

/// The micro-operations of the instruction that `opcode` names, if it names one.
pub open spec fn catalog(opcode: u32) -> Option<Seq<Microinstruction>> {
    if opcode == HLT_OPCODE {
        Some(Halt.microinstructions())
    } else if opcode == PUSH_OPCODE {
        Some(Push.microinstructions())
    } else if opcode == POP_OPCODE {
        Some(Pop.microinstructions())
    } else if opcode == ADD_OPCODE {
        Some(Add.microinstructions())
    } else if opcode == NOP_OPCODE {
        Some(Nop.microinstructions())
    } else if opcode == PUSHALL_OPCODE {
        Some(PushAll.microinstructions())
    } else if opcode == JMP_OPCODE {
        Some(Jmp.microinstructions())
    } else if opcode == CALL_OPCODE {
        Some(Call.microinstructions())
    } else if opcode == RET_OPCODE {
        Some(Ret.microinstructions())
    } else {
        None
    }
}

/// Looks `opcode` up in the catalog: the micro-operations of the
/// instruction it names, or `None` where it names none.
pub fn decode(opcode: u32) -> (r: Option<Vec<Microinstruction>>)
    ensures
        match r {
            Some(list) => catalog(opcode) == Some(list@),
            None => catalog(opcode) is None,
        },
{
    match opcode {
        HLT_OPCODE => Some(Halt.exec()),
        PUSH_OPCODE => Some(Push.exec()),
        POP_OPCODE => Some(Pop.exec()),
        ADD_OPCODE => Some(Add.exec()),
        NOP_OPCODE => Some(Nop.exec()),
        PUSHALL_OPCODE => Some(PushAll.exec()),
        JMP_OPCODE => Some(Jmp.exec()),
        CALL_OPCODE => Some(Call.exec()),
        RET_OPCODE => Some(Ret.exec()),
        _ => None,
    }
}

/// What `next` leaves behind when it comes after a run that left `so_far`:
/// nothing new if that run had failed.
pub open spec fn followed_by(so_far: Outcome, next: Microinstruction) -> Outcome {
    if so_far.error is Some {
        so_far
    } else {
        next.effect(so_far.registers, so_far.memory)
    }
}

/// What the micro-operations `ops`, carried out in order from `regs` and
/// `mem` on, leave behind. The first failure ends the run; what the
/// micro-operations before it did stays done.
#[verifier::opaque]
pub open spec fn run_sequence(ops: Seq<Microinstruction>, regs: Registers, mem: Seq<u8>) -> Outcome
    decreases ops.len(),
{
    if ops.len() == 0 {
        done(regs, mem)
    } else {
        followed_by(run_sequence(ops.drop_last(), regs, mem), ops.last())
    }
}

/// A run of no micro-operations changes nothing.
pub proof fn lemma_run_nothing(regs: Registers, mem: Seq<u8>)
    ensures
        run_sequence(Seq::empty(), regs, mem) == done(regs, mem),
{
    reveal(run_sequence);
}

/// One more micro-operation at the end of a run comes after the run.
pub proof fn lemma_run_one_more(
    ops: Seq<Microinstruction>,
    next: Microinstruction,
    regs: Registers,
    mem: Seq<u8>,
)
    ensures
        run_sequence(ops.push(next), regs, mem) == followed_by(
            run_sequence(ops, regs, mem),
            next,
        ),
{
    reveal(run_sequence);
    assert(ops.push(next).drop_last() =~= ops);
}

/// Once the first `n` micro-operations have failed, the rest change nothing.
pub proof fn lemma_failure_ends_run(
    ops: Seq<Microinstruction>,
    n: int,
    regs: Registers,
    mem: Seq<u8>,
)
    requires
        0 <= n <= ops.len(),
        run_sequence(ops.take(n), regs, mem).error is Some,
    ensures
        run_sequence(ops, regs, mem) == run_sequence(ops.take(n), regs, mem),
    decreases ops.len() - n,
{
    reveal(run_sequence);
    if n == ops.len() {
        assert(ops.take(n) =~= ops);
    } else {
        assert(ops.take(n + 1).drop_last() =~= ops.take(n));
        lemma_failure_ends_run(ops, n + 1, regs, mem);
    }
}

/// Carries out the micro-operations of `list` in order on the registers of
/// `cpu` and on `ram`, and stops at the first that fails.
pub fn run_microinstructions(list: &Vec<Microinstruction>, cpu: &mut CPU, ram: &mut Ram) -> (r:
    Result<(), MicroprocessorErrors>)
    requires
        old(ram).wf(),
    ensures
        final(ram).wf(),
        (Outcome { error: error_of(r), registers: final(cpu).registers, memory: final(ram)@ })
            == run_sequence(list@, old(cpu).registers, old(ram)@),
{
    let ghost regs = cpu.registers;
    let ghost mem = ram@;
    let mut i: usize = 0;
    proof {
        reveal(run_sequence);
        assert(list@.take(0) =~= Seq::<Microinstruction>::empty());
    }
    while i < list.len()
        invariant
            ram.wf(),
            i <= list.len(),
            regs == old(cpu).registers,
            mem == old(ram)@,
            done(cpu.registers, ram@) == run_sequence(list@.take(i as int), regs, mem),
        decreases list.len() - i,
    {
        let ghost regs_before = cpu.registers;
        let ghost mem_before = ram@;
        let step = list[i].apply(cpu, ram);
        proof {
            reveal(run_sequence);
            let longer = list@.take(i + 1);
            assert(longer.drop_last() =~= list@.take(i as int));
            assert(longer.last() == list@[i as int]);
            assert(run_sequence(longer, regs, mem) == list@[i as int].effect(
                regs_before,
                mem_before,
            ));
        }
        if let Err(e) = step {
            proof {
                lemma_failure_ends_run(list@, i + 1, regs, mem);
            }
            return Err(e);
        }
        i += 1;
    }
    proof {
        assert(list@.take(list.len() as int) =~= list@);
    }
    Ok(())
}

} // verus!
