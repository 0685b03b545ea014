//! What holds of the instruction set as a whole: properties of single
//! instructions and of runs, proved from the definitions of the
//! micro-operations.

use vstd::prelude::*;
use vstd::arithmetic::div_mod::lemma_mod_mod;
use crate::cpu::{cycle, run};
use crate::encoding::{
    le_bytes, le_value, lemma_bytes_of_value, lemma_le_bytes_len, lemma_le_value_bound,
    lemma_le_value_single, lemma_pow256_values, lemma_store_read, lemma_value_of_bytes,
    lemma_value_round_trip, pow256, store,
};
use crate::instruction::{
    lemma_run_nothing, lemma_run_one_more, run_sequence, Add, Call, Halt, Instruction, Pop, Push,
    Ret, ADD_OPCODE, CALL_OPCODE, HLT_OPCODE, POP_OPCODE, PUSH_OPCODE, RET_OPCODE,
};
use crate::microinstruction::{
    context_restored, context_saved, done, image_of, lemma_image_field, lemma_snapshot_starts,
    loaded, pc_moved, restored, scalar_at, snapshot_bytes, snapshot_fields, sp_moved,
    written_on_sp, MemoryDataRegister, Microinstruction, SNAPSHOT_SIZE,
};
use crate::ram::MAX_RAM_SIZE;
use crate::registers::{Flags, InstructionRegisters, Registers};

verus! {

/// Cutting a number to 32 bits and then to `width` bytes cuts it to `width`
/// bytes.
pub proof fn lemma_wrapped_then_cut(x: nat, width: nat)
    requires
        width <= 4,
    ensures
        ((x % 0x1_0000_0000) as nat) % pow256(width) == x % pow256(width),
{
    lemma_pow256_values();
    if width == 0 {
    } else if width == 1 {
        lemma_mod_mod(x as int, 0x100, 0x100_0000);
    } else if width == 2 {
        lemma_mod_mod(x as int, 0x1_0000, 0x1_0000);
    } else if width == 3 {
        lemma_mod_mod(x as int, 0x100_0000, 0x100);
    } else {
        lemma_mod_mod(x as int, 0x1_0000_0000, 1);
    }
}

/// A program that is HALT alone ends the run with its first cycle: the
/// power is off, and nothing else has changed, in registers or memory.
pub proof fn law_halt_ends_run(regs: Registers, mem: Seq<u8>, cycles: nat)
    requires
        mem.len() == MAX_RAM_SIZE,
        regs.pc + 2 <= MAX_RAM_SIZE,
        scalar_at(mem, regs.pc as int, 2) == HLT_OPCODE,
        cycles >= 1,
    ensures
        cycle(regs, mem) == done(Registers { poweron: false, ..regs }, mem),
        run(regs, mem, cycles) == cycle(regs, mem),
{
    Microinstruction::Poweroff.lemma_effect(regs, mem);
    lemma_run_nothing(regs, mem);
    lemma_run_one_more(Seq::empty(), Microinstruction::Poweroff, regs, mem);
    assert(Halt.microinstructions() =~= Seq::<Microinstruction>::empty().push(
        Microinstruction::Poweroff,
    ));
}

/// PUSH of an immediate value of one to four bytes leaves that value on top
/// of the stack: the stack pointer has moved up by the value's width, the
/// program counter past the instruction, and the bytes just below the new
/// stack pointer read back as the value.
pub proof fn law_push_read_back(regs: Registers, mem: Seq<u8>, width: nat)
    requires
        mem.len() == MAX_RAM_SIZE,
        1 <= width <= 4,
        regs.pc + 3 + width <= MAX_RAM_SIZE,
        regs.sp + width <= MAX_RAM_SIZE,
        scalar_at(mem, regs.pc as int, 2) == PUSH_OPCODE,
        mem[regs.pc + 2] == width,
    ensures
        ({
            let after = cycle(regs, mem);
            let value = le_value(mem.subrange(regs.pc + 3, regs.pc + 3 + width));
            &&& after.error is None
            &&& after.registers.sp == regs.sp + width
            &&& after.registers.pc == regs.pc + 3 + width
            &&& after.memory == store(
                mem,
                regs.sp as int,
                mem.subrange(regs.pc + 3, regs.pc + 3 + width),
            )
            &&& le_value(
                after.memory.subrange(after.registers.sp - width, after.registers.sp as int),
            ) == value
        }),
{
    let operand = mem.subrange(regs.pc + 3, regs.pc + 3 + width);
    let value = le_value(operand);
    let written = store(mem, regs.sp as int, le_bytes(value, width));
    assert(value < 0x1_0000_0000) by {
        lemma_pow256_values();
        lemma_le_value_bound(operand);
    }
    lemma_bytes_of_value(operand);
    lemma_store_read(mem, regs.sp as int, operand);

    let op1 = Microinstruction::ReadIstrParam { param_len: 1, pc_offset: 2 };
    let op2 = Microinstruction::StoreMdrOption;
    let op3 = Microinstruction::ReadIstrParamMdrLen(3);
    let op4 = Microinstruction::WriteMdrOnSp;
    let op5 = Microinstruction::SpIncOption;
    let op6 = Microinstruction::PcIncOptionOffset(3);
    let r1 = Registers { mdr0: width as u32, ..regs };
    let r2 = Registers {
        instruction_registers: InstructionRegisters {
            option: width as u32,
            ..regs.instruction_registers
        },
        ..r1
    };
    let r3 = Registers { mdr0: value as u32, ..r2 };
    let r5 = Registers { sp: (regs.sp + width) as usize, ..r3 };
    let r6 = Registers { pc: (regs.pc + 3 + width) as usize, ..r5 };
    let ops0 = Seq::<Microinstruction>::empty();
    let ops1 = ops0.push(op1);
    let ops2 = ops1.push(op2);
    let ops3 = ops2.push(op3);
    let ops4 = ops3.push(op4);
    let ops5 = ops4.push(op5);
    let ops6 = ops5.push(op6);
    assert(run_sequence(ops1, regs, mem) == done(r1, mem)) by {
        lemma_run_nothing(regs, mem);
        lemma_le_value_single(mem.subrange(regs.pc + 2, regs.pc + 2 + 1));
        lemma_run_one_more(ops0, op1, regs, mem);
        op1.lemma_effect(regs, mem);
        reveal(loaded);
    }
    assert(run_sequence(ops2, regs, mem) == done(r2, mem)) by {
        lemma_run_one_more(ops1, op2, regs, mem);
        op2.lemma_effect(r1, mem);
    }
    assert(run_sequence(ops3, regs, mem) == done(r3, mem)) by {
        lemma_run_one_more(ops2, op3, regs, mem);
        op3.lemma_effect(r2, mem);
        reveal(loaded);
    }
    assert(run_sequence(ops4, regs, mem) == done(r3, written)) by {
        lemma_run_one_more(ops3, op4, regs, mem);
        op4.lemma_effect(r3, mem);
        reveal(written_on_sp);
    }
    assert(run_sequence(ops5, regs, mem) == done(r5, written)) by {
        lemma_run_one_more(ops4, op5, regs, mem);
        op5.lemma_effect(r3, written);
        reveal(sp_moved);
    }
    assert(run_sequence(ops6, regs, mem) == done(r6, written)) by {
        lemma_run_one_more(ops5, op6, regs, mem);
        op6.lemma_effect(r5, written);
        reveal(pc_moved);
    }
    assert(Push.microinstructions() =~= ops6);
}

/// The registers after an ADD of width `width` that found `b` on top of the
/// stack and `a` below it.
pub open spec fn after_add(regs: Registers, width: nat, a: nat, b: nat) -> Registers {
    Registers {
        pc: (regs.pc + 3) as usize,
        sp: (regs.sp - width) as usize,
        mdr0: ((a + b) % 0x1_0000_0000) as u32,
        mdr1: a as u32,
        instruction_registers: InstructionRegisters {
            option: width as u32,
            ..regs.instruction_registers
        },
        ..regs
    }
}

/// ADD, micro-operation by micro-operation: it takes the two values on top
/// of the stack, and writes their sum, cut to 32 bits and then to the
/// width, where the lower one was.
pub proof fn lemma_add_runs(regs: Registers, mem: Seq<u8>, width: nat, a: nat, b: nat)
    requires
        mem.len() == MAX_RAM_SIZE,
        1 <= width <= 4,
        regs.pc + 3 <= MAX_RAM_SIZE,
        2 * width <= regs.sp <= MAX_RAM_SIZE,
        mem[regs.pc + 2] == width,
        a == le_value(mem.subrange(regs.sp - 2 * width, regs.sp - width)),
        b == le_value(mem.subrange(regs.sp - width, regs.sp as int)),
        a < 0x1_0000_0000,
        b < 0x1_0000_0000,
    ensures
        run_sequence(Add.microinstructions(), regs, mem) == done(
            after_add(regs, width, a, b),
            store(
                mem,
                regs.sp - 2 * width,
                le_bytes(((a + b) % 0x1_0000_0000) as nat, width),
            ),
        ),
{
    let base = regs.sp - 2 * width;
    let sum = ((a + b) % 0x1_0000_0000) as nat;
    let written = store(mem, base, le_bytes(sum, width));
    let op1 = Microinstruction::ReadIstrParam { param_len: 1, pc_offset: 2 };
    let op2 = Microinstruction::StoreMdrOption;
    let op3 = Microinstruction::ReadFromSp(MemoryDataRegister::MDR0);
    let op4 = Microinstruction::SpDecOption;
    let op5 = Microinstruction::ReadFromSp(MemoryDataRegister::MDR1);
    let op6 = Microinstruction::SpDecOption;
    let op7 = Microinstruction::AddMdr0Mdr1;
    let op8 = Microinstruction::WriteMdrOnSp;
    let op9 = Microinstruction::SpIncOption;
    let op10 = Microinstruction::PcInc(3);
    let r1 = Registers { mdr0: width as u32, ..regs };
    let r2 = Registers {
        instruction_registers: InstructionRegisters {
            option: width as u32,
            ..regs.instruction_registers
        },
        ..r1
    };
    let r3 = Registers { mdr0: b as u32, ..r2 };
    let r4 = Registers { sp: (regs.sp - width) as usize, ..r3 };
    let r5 = Registers { mdr1: a as u32, ..r4 };
    let r6 = Registers { sp: base as usize, ..r5 };
    let r7 = Registers { mdr0: sum as u32, ..r6 };
    let r9 = Registers { sp: (regs.sp - width) as usize, ..r7 };
    let r10 = Registers { pc: (regs.pc + 3) as usize, ..r9 };
    let ops0 = Seq::<Microinstruction>::empty();
    let ops1 = ops0.push(op1);
    let ops2 = ops1.push(op2);
    let ops3 = ops2.push(op3);
    let ops4 = ops3.push(op4);
    let ops5 = ops4.push(op5);
    let ops6 = ops5.push(op6);
    let ops7 = ops6.push(op7);
    let ops8 = ops7.push(op8);
    let ops9 = ops8.push(op9);
    let ops10 = ops9.push(op10);
    assert(run_sequence(ops1, regs, mem) == done(r1, mem)) by {
        lemma_run_nothing(regs, mem);
        lemma_le_value_single(mem.subrange(regs.pc + 2, regs.pc + 2 + 1));
        lemma_run_one_more(ops0, op1, regs, mem);
        op1.lemma_effect(regs, mem);
        reveal(loaded);
    }
    assert(run_sequence(ops2, regs, mem) == done(r2, mem)) by {
        lemma_run_one_more(ops1, op2, regs, mem);
        op2.lemma_effect(r1, mem);
    }
    assert(run_sequence(ops3, regs, mem) == done(r3, mem)) by {
        lemma_run_one_more(ops2, op3, regs, mem);
        op3.lemma_effect(r2, mem);
        reveal(loaded);
    }
    assert(run_sequence(ops4, regs, mem) == done(r4, mem)) by {
        lemma_run_one_more(ops3, op4, regs, mem);
        op4.lemma_effect(r3, mem);
        reveal(sp_moved);
    }
    assert(run_sequence(ops5, regs, mem) == done(r5, mem)) by {
        lemma_run_one_more(ops4, op5, regs, mem);
        op5.lemma_effect(r4, mem);
        reveal(loaded);
    }
    assert(run_sequence(ops6, regs, mem) == done(r6, mem)) by {
        lemma_run_one_more(ops5, op6, regs, mem);
        op6.lemma_effect(r5, mem);
        reveal(sp_moved);
    }
    assert(run_sequence(ops7, regs, mem) == done(r7, mem)) by {
        lemma_run_one_more(ops6, op7, regs, mem);
        op7.lemma_effect(r6, mem);
    }
    assert(run_sequence(ops8, regs, mem) == done(r7, written)) by {
        lemma_run_one_more(ops7, op8, regs, mem);
        op8.lemma_effect(r7, mem);
        reveal(written_on_sp);
    }
    assert(run_sequence(ops9, regs, mem) == done(r9, written)) by {
        lemma_run_one_more(ops8, op9, regs, mem);
        op9.lemma_effect(r7, written);
        reveal(sp_moved);
    }
    assert(run_sequence(ops10, regs, mem) == done(r10, written)) by {
        lemma_run_one_more(ops9, op10, regs, mem);
        op10.lemma_effect(r9, written);
        reveal(pc_moved);
    }
    assert(Add.microinstructions() =~= ops10);
    assert(r10 == after_add(regs, width, a, b));
}

/// ADD of two values of one to four bytes, the top two of the stack, leaves
/// their sum in their place, cut to their width: the stack pointer has moved
/// down by one width, the program counter past the instruction, and the
/// bytes just below the new stack pointer read back as the sum modulo 256 to
/// the width.
pub proof fn law_add_leaves_sum(regs: Registers, mem: Seq<u8>, width: nat)
    requires
        mem.len() == MAX_RAM_SIZE,
        1 <= width <= 4,
        regs.pc + 3 <= MAX_RAM_SIZE,
        2 * width <= regs.sp <= MAX_RAM_SIZE,
        scalar_at(mem, regs.pc as int, 2) == ADD_OPCODE,
        mem[regs.pc + 2] == width,
    ensures
        ({
            let after = cycle(regs, mem);
            let a = le_value(mem.subrange(regs.sp - 2 * width, regs.sp - width));
            let b = le_value(mem.subrange(regs.sp - width, regs.sp as int));
            &&& after.error is None
            &&& after.registers.sp == regs.sp - width
            &&& after.registers.pc == regs.pc + 3
            &&& le_value(
                after.memory.subrange(after.registers.sp - width, after.registers.sp as int),
            ) == (a + b) % pow256(width)
        }),
{
    let base = regs.sp - 2 * width;
    let below = mem.subrange(base, regs.sp - width);
    let top = mem.subrange(regs.sp - width, regs.sp as int);
    let a = le_value(below);
    let b = le_value(top);
    let sum = ((a + b) % 0x1_0000_0000) as nat;
    assert(a < 0x1_0000_0000 && b < 0x1_0000_0000) by {
        lemma_pow256_values();
        lemma_le_value_bound(below);
        lemma_le_value_bound(top);
    }
    lemma_add_runs(regs, mem, width, a, b);
    lemma_le_bytes_len(sum, width);
    lemma_store_read(mem, base, le_bytes(sum, width));
    lemma_value_of_bytes(sum, width);
    lemma_wrapped_then_cut(a + b, width);
}

/// What the snapshot of `regs` gives back: every register that it holds.
/// The power state and the interrupt flag, which it does not hold, stay those
/// of `current`. The four registers that are machine words come back whole
/// where they fit in 32 bits.
pub proof fn lemma_restored_from_snapshot(regs: Registers, current: Registers)
    requires
        regs.pc <= u32::MAX,
        regs.sp <= u32::MAX,
        regs.bp <= u32::MAX,
        regs.global_register <= u32::MAX,
    ensures
        restored(current, snapshot_bytes(regs)) == (Registers {
            poweron: current.poweron,
            flags: Flags { int_occur: current.flags.int_occur, ..regs.flags },
            ..regs
        }),
{
    reveal(snapshot_bytes);
    let fields = snapshot_fields(regs);
    let image = image_of(fields);
    lemma_snapshot_starts(regs);
    lemma_pow256_values();
    assert(le_value(image.subrange(0, 4)) == fields[0].value) by {
        lemma_image_field(fields, 0);
        lemma_value_round_trip(fields[0].value as nat, 4);
    }
    assert(le_value(image.subrange(4, 8)) == fields[1].value) by {
        lemma_image_field(fields, 1);
        lemma_value_round_trip(fields[1].value as nat, 4);
    }
    assert(le_value(image.subrange(8, 12)) == fields[2].value) by {
        lemma_image_field(fields, 2);
        lemma_value_round_trip(fields[2].value as nat, 4);
    }
    assert(le_value(image.subrange(12, 16)) == fields[3].value) by {
        lemma_image_field(fields, 3);
        lemma_value_round_trip(fields[3].value as nat, 4);
    }
    assert(le_value(image.subrange(16, 20)) == fields[4].value) by {
        lemma_image_field(fields, 4);
        lemma_value_round_trip(fields[4].value as nat, 4);
    }
    assert(le_value(image.subrange(20, 24)) == fields[5].value) by {
        lemma_image_field(fields, 5);
        lemma_value_round_trip(fields[5].value as nat, 4);
    }
    assert(le_value(image.subrange(24, 25)) == fields[6].value) by {
        lemma_image_field(fields, 6);
        lemma_value_round_trip(fields[6].value as nat, 1);
    }
    assert(le_value(image.subrange(25, 26)) == fields[7].value) by {
        lemma_image_field(fields, 7);
        lemma_value_round_trip(fields[7].value as nat, 1);
    }
    assert(le_value(image.subrange(26, 27)) == fields[8].value) by {
        lemma_image_field(fields, 8);
        lemma_value_round_trip(fields[8].value as nat, 1);
    }
    assert(le_value(image.subrange(27, 28)) == fields[9].value) by {
        lemma_image_field(fields, 9);
        lemma_value_round_trip(fields[9].value as nat, 1);
    }
    assert(le_value(image.subrange(28, 32)) == fields[10].value) by {
        lemma_image_field(fields, 10);
        lemma_value_round_trip(fields[10].value as nat, 4);
    }
    assert(le_value(image.subrange(32, 36)) == fields[11].value) by {
        lemma_image_field(fields, 11);
        lemma_value_round_trip(fields[11].value as nat, 4);
    }
    assert(le_value(image.subrange(36, 40)) == fields[12].value) by {
        lemma_image_field(fields, 12);
        lemma_value_round_trip(fields[12].value as nat, 4);
    }
    reveal(restored);
}

/// Saving the registers and restoring them at once gives the registers back:
/// after PUSHALL's snapshot and RET's restore every register, the program
/// counter and the stack pointer too, holds what it held before the snapshot
/// was taken, and the memory keeps the snapshot. The program counter, the
/// base pointer and the data-segment base come back whole where they fit in
/// 32 bits.
pub proof fn law_snapshot_round_trip(regs: Registers, mem: Seq<u8>)
    requires
        mem.len() == MAX_RAM_SIZE,
        regs.sp + SNAPSHOT_SIZE <= MAX_RAM_SIZE,
        regs.pc <= u32::MAX,
        regs.bp <= u32::MAX,
        regs.global_register <= u32::MAX,
    ensures
        ({
            let saved = Microinstruction::PushAll.effect(regs, mem);
            let back = Microinstruction::PopAll.effect(saved.registers, saved.memory);
            &&& saved == done(
                Registers { sp: (regs.sp + SNAPSHOT_SIZE) as usize, ..regs },
                store(mem, regs.sp as int, snapshot_bytes(regs)),
            )
            &&& back == done(regs, saved.memory)
        }),
{
    let moved = Registers { sp: (regs.sp + SNAPSHOT_SIZE) as usize, ..regs };
    let written = store(mem, regs.sp as int, snapshot_bytes(regs));
    Microinstruction::PushAll.lemma_effect(regs, mem);
    reveal(context_saved);
    Microinstruction::PopAll.lemma_effect(moved, written);
    reveal(context_restored);
    assert(snapshot_bytes(regs).len() == SNAPSHOT_SIZE) by {
        reveal(snapshot_bytes);
        lemma_snapshot_starts(regs);
    }
    lemma_store_read(mem, regs.sp as int, snapshot_bytes(regs));
    lemma_restored_from_snapshot(regs, moved);
}

/// POP drops the value on top of the stack: the stack pointer moves down
/// by the width that the instruction gives, the program counter past the
/// instruction, and the memory stays as it was. After a PUSH of the same
/// width the stack pointer is back where it was before the PUSH.
pub proof fn law_pop_drops_top(regs: Registers, mem: Seq<u8>)
    requires
        mem.len() == MAX_RAM_SIZE,
        regs.pc + 3 <= MAX_RAM_SIZE,
        scalar_at(mem, regs.pc as int, 2) == POP_OPCODE,
        mem[regs.pc + 2] <= regs.sp,
    ensures
        ({
            let width = mem[regs.pc + 2];
            cycle(regs, mem) == done(
                Registers {
                    pc: (regs.pc + 3) as usize,
                    sp: (regs.sp - width) as usize,
                    mdr0: width as u32,
                    instruction_registers: InstructionRegisters {
                        option: width as u32,
                        ..regs.instruction_registers
                    },
                    ..regs
                },
                mem,
            )
        }),
{
    let width = mem[regs.pc + 2];
    let op1 = Microinstruction::ReadIstrParam { param_len: 1, pc_offset: 2 };
    let op2 = Microinstruction::StoreMdrOption;
    let op3 = Microinstruction::SpDecOption;
    let op4 = Microinstruction::PcInc(3);
    let r1 = Registers { mdr0: width as u32, ..regs };
    let r2 = Registers {
        instruction_registers: InstructionRegisters {
            option: width as u32,
            ..regs.instruction_registers
        },
        ..r1
    };
    let r3 = Registers { sp: (regs.sp - width) as usize, ..r2 };
    let r4 = Registers { pc: (regs.pc + 3) as usize, ..r3 };
    let ops0 = Seq::<Microinstruction>::empty();
    let ops1 = ops0.push(op1);
    let ops2 = ops1.push(op2);
    let ops3 = ops2.push(op3);
    let ops4 = ops3.push(op4);
    assert(run_sequence(ops1, regs, mem) == done(r1, mem)) by {
        lemma_run_nothing(regs, mem);
        lemma_le_value_single(mem.subrange(regs.pc + 2, regs.pc + 2 + 1));
        lemma_run_one_more(ops0, op1, regs, mem);
        op1.lemma_effect(regs, mem);
        reveal(loaded);
    }
    assert(run_sequence(ops2, regs, mem) == done(r2, mem)) by {
        lemma_run_one_more(ops1, op2, regs, mem);
        op2.lemma_effect(r1, mem);
    }
    assert(run_sequence(ops3, regs, mem) == done(r3, mem)) by {
        lemma_run_one_more(ops2, op3, regs, mem);
        op3.lemma_effect(r2, mem);
        reveal(sp_moved);
    }
    assert(run_sequence(ops4, regs, mem) == done(r4, mem)) by {
        lemma_run_one_more(ops3, op4, regs, mem);
        op4.lemma_effect(r3, mem);
        reveal(pc_moved);
    }
    assert(Pop.microinstructions() =~= ops4);
}

/// The registers that CALL saves: those it found, with the base pointer at
/// the stack pointer, the program counter past the CALL, and the call's
/// target in MDR0.
pub open spec fn saved_by_call(regs: Registers, target: u32) -> Registers {
    Registers { pc: (regs.pc + 6) as usize, bp: regs.sp, mdr0: target, ..regs }
}

/// CALL saves the context and jumps: the snapshot of `saved_by_call` lies
/// where the stack pointer was, the stack pointer has moved past it, and the
/// program counter is the target read from the instruction.
pub proof fn law_call_saves_context(regs: Registers, mem: Seq<u8>)
    requires
        mem.len() == MAX_RAM_SIZE,
        regs.pc + 6 <= MAX_RAM_SIZE,
        regs.sp + SNAPSHOT_SIZE <= MAX_RAM_SIZE,
        scalar_at(mem, regs.pc as int, 2) == CALL_OPCODE,
    ensures
        ({
            let target = scalar_at(mem, regs.pc + 2, 4);
            let saved = saved_by_call(regs, target);
            cycle(regs, mem) == done(
                Registers {
                    pc: target as usize,
                    sp: (regs.sp + SNAPSHOT_SIZE) as usize,
                    ..saved
                },
                store(mem, regs.sp as int, snapshot_bytes(saved)),
            )
        }),
{
    let target = scalar_at(mem, regs.pc + 2, 4);
    let saved = saved_by_call(regs, target);
    let written = store(mem, regs.sp as int, snapshot_bytes(saved));
    let op1 = Microinstruction::ReadIstrParam { param_len: 4, pc_offset: 2 };
    let op2 = Microinstruction::StoreSpBp;
    let op3 = Microinstruction::PcInc(6);
    let op4 = Microinstruction::PushAll;
    let op5 = Microinstruction::StoreMdrPc;
    let r1 = Registers { mdr0: target, ..regs };
    let r2 = Registers { bp: regs.sp, ..r1 };
    let r4 = Registers { sp: (regs.sp + SNAPSHOT_SIZE) as usize, ..saved };
    let r5 = Registers { pc: target as usize, ..r4 };
    let ops0 = Seq::<Microinstruction>::empty();
    let ops1 = ops0.push(op1);
    let ops2 = ops1.push(op2);
    let ops3 = ops2.push(op3);
    let ops4 = ops3.push(op4);
    let ops5 = ops4.push(op5);
    assert(run_sequence(ops1, regs, mem) == done(r1, mem)) by {
        lemma_run_nothing(regs, mem);
        lemma_run_one_more(ops0, op1, regs, mem);
        op1.lemma_effect(regs, mem);
        reveal(loaded);
    }
    assert(run_sequence(ops2, regs, mem) == done(r2, mem)) by {
        lemma_run_one_more(ops1, op2, regs, mem);
        op2.lemma_effect(r1, mem);
    }
    assert(run_sequence(ops3, regs, mem) == done(saved, mem)) by {
        lemma_run_one_more(ops2, op3, regs, mem);
        op3.lemma_effect(r2, mem);
        reveal(pc_moved);
    }
    assert(run_sequence(ops4, regs, mem) == done(r4, written)) by {
        lemma_run_one_more(ops3, op4, regs, mem);
        op4.lemma_effect(saved, mem);
        reveal(context_saved);
    }
    assert(run_sequence(ops5, regs, mem) == done(r5, written)) by {
        lemma_run_one_more(ops4, op5, regs, mem);
        op5.lemma_effect(r4, written);
    }
    assert(Call.microinstructions() =~= ops5);
}

/// RET returns to the saved context: where the snapshot of `saved` ends at
/// the stack pointer, RET leaves every register that the snapshot holds as
/// `saved` has it, the program counter and the stack pointer among them, and
/// the memory as it was. The power state and the interrupt flag stay. The
/// registers that are machine words come back whole where they fit in 32
/// bits.
pub proof fn law_ret_restores_context(saved: Registers, regs: Registers, mem: Seq<u8>)
    requires
        mem.len() == MAX_RAM_SIZE,
        regs.pc + 2 <= MAX_RAM_SIZE,
        scalar_at(mem, regs.pc as int, 2) == RET_OPCODE,
        SNAPSHOT_SIZE <= regs.sp <= MAX_RAM_SIZE,
        mem.subrange(regs.sp - SNAPSHOT_SIZE, regs.sp as int) == snapshot_bytes(saved),
        saved.pc <= u32::MAX,
        saved.sp <= u32::MAX,
        saved.bp <= u32::MAX,
        saved.global_register <= u32::MAX,
    ensures
        cycle(regs, mem) == done(
            Registers {
                poweron: regs.poweron,
                flags: Flags { int_occur: regs.flags.int_occur, ..saved.flags },
                ..saved
            },
            mem,
        ),
{
    lemma_run_nothing(regs, mem);
    lemma_run_one_more(Seq::empty(), Microinstruction::PopAll, regs, mem);
    Microinstruction::PopAll.lemma_effect(regs, mem);
    reveal(context_restored);
    lemma_restored_from_snapshot(saved, regs);
    assert(Ret.microinstructions() =~= Seq::<Microinstruction>::empty().push(
        Microinstruction::PopAll,
    ));
}

} // verus!
