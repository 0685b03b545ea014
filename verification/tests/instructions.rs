use stack_vm::cpu::CPU;
use stack_vm::errors::MicroprocessorErrors;
use stack_vm::instruction::{
    decode, run_microinstructions, Add, Call, Halt, Instruction, Jmp, Nop, Pop, Push, PushAll, Ret,
    ADD_OPCODE, CALL_OPCODE, HLT_OPCODE, JMP_OPCODE, NOP_OPCODE, OPCODE_SIZE, POP_OPCODE,
    PUSHALL_OPCODE, PUSH_OPCODE, RET_OPCODE,
};
use stack_vm::microinstruction::{MemoryDataRegister, Microinstruction};
use stack_vm::ram::{Ram, MAX_RAM_SIZE};
use stack_vm::registers::{Flags, InstructionRegisters, Registers};
use stack_vm::vm::VM;

fn load(ram: &mut Ram, at: usize, bytes: &[u8]) {
    for (i, b) in bytes.iter().enumerate() {
        ram.write_scalar(at + i, *b as u32, 1).unwrap();
    }
}

fn push_of(width: u8, value: u32) -> Vec<u8> {
    let mut bytes = vec![1, 0, width];
    for i in 0..width {
        bytes.push((value >> (8 * i as u32)) as u8);
    }
    bytes
}

fn add_after_pushes(width: u8, a: u32, b: u32) -> (VM, Result<(), MicroprocessorErrors>) {
    let mut vm = VM::new();
    let mut program = push_of(width, a);
    program.extend(push_of(width, b));
    program.extend([3, 0, width]);
    program.extend([0, 0]);
    load(&mut vm.ram, 1000, &program);
    vm.cpu.registers_mut().set_pc(1000).unwrap();
    let r = vm.execute();
    (vm, r)
}

#[test]
fn opcodes_have_their_values() {
    assert_eq!(HLT_OPCODE, 0);
    assert_eq!(PUSH_OPCODE, 1);
    assert_eq!(POP_OPCODE, 2);
    assert_eq!(ADD_OPCODE, 3);
    assert_eq!(NOP_OPCODE, 4);
    assert_eq!(PUSHALL_OPCODE, 5);
    assert_eq!(JMP_OPCODE, 6);
    assert_eq!(CALL_OPCODE, 7);
    assert_eq!(RET_OPCODE, 8);
    assert_eq!(OPCODE_SIZE, 2);
}

#[test]
fn instructions_are_their_micro_operations_in_order() {
    assert_eq!(Halt.exec(), vec![Microinstruction::Poweroff]);
    assert_eq!(Nop.exec(), vec![Microinstruction::PcInc(2)]);
    assert_eq!(Ret.exec(), vec![Microinstruction::PopAll]);
    assert_eq!(PushAll.exec(), vec![Microinstruction::PushAll, Microinstruction::PcInc(2)]);
    assert_eq!(
        Jmp.exec(),
        vec![
            Microinstruction::ReadIstrParam { param_len: 4, pc_offset: 2 },
            Microinstruction::StoreMdrPc,
        ]
    );
    assert_eq!(
        Push.exec(),
        vec![
            Microinstruction::ReadIstrParam { param_len: 1, pc_offset: 2 },
            Microinstruction::StoreMdrOption,
            Microinstruction::ReadIstrParamMdrLen(3),
            Microinstruction::WriteMdrOnSp,
            Microinstruction::SpIncOption,
            Microinstruction::PcIncOptionOffset(3),
        ]
    );
    assert_eq!(
        Pop.exec(),
        vec![
            Microinstruction::ReadIstrParam { param_len: 1, pc_offset: 2 },
            Microinstruction::StoreMdrOption,
            Microinstruction::SpDecOption,
            Microinstruction::PcInc(3),
        ]
    );
    assert_eq!(
        Add.exec(),
        vec![
            Microinstruction::ReadIstrParam { param_len: 1, pc_offset: 2 },
            Microinstruction::StoreMdrOption,
            Microinstruction::ReadFromSp(MemoryDataRegister::MDR0),
            Microinstruction::SpDecOption,
            Microinstruction::ReadFromSp(MemoryDataRegister::MDR1),
            Microinstruction::SpDecOption,
            Microinstruction::AddMdr0Mdr1,
            Microinstruction::WriteMdrOnSp,
            Microinstruction::SpIncOption,
            Microinstruction::PcInc(3),
        ]
    );
    assert_eq!(
        Call.exec(),
        vec![
            Microinstruction::ReadIstrParam { param_len: 4, pc_offset: 2 },
            Microinstruction::StoreSpBp,
            Microinstruction::PcInc(6),
            Microinstruction::PushAll,
            Microinstruction::StoreMdrPc,
        ]
    );
}

#[test]
fn decode_knows_the_nine_opcodes_only() {
    assert_eq!(decode(HLT_OPCODE), Some(Halt.exec()));
    assert_eq!(decode(PUSH_OPCODE), Some(Push.exec()));
    assert_eq!(decode(POP_OPCODE), Some(Pop.exec()));
    assert_eq!(decode(ADD_OPCODE), Some(Add.exec()));
    assert_eq!(decode(NOP_OPCODE), Some(Nop.exec()));
    assert_eq!(decode(PUSHALL_OPCODE), Some(PushAll.exec()));
    assert_eq!(decode(JMP_OPCODE), Some(Jmp.exec()));
    assert_eq!(decode(CALL_OPCODE), Some(Call.exec()));
    assert_eq!(decode(RET_OPCODE), Some(Ret.exec()));
    assert_eq!(decode(9), None);
    assert_eq!(decode(0x0100), None);
    assert_eq!(decode(0xffff), None);
}

#[test]
fn a_run_of_micro_operations_stops_at_the_first_failure() {
    let mut cpu = CPU::new();
    let mut ram = Ram::new();
    let list = vec![
        Microinstruction::PcInc(4),
        Microinstruction::ReadIstrParam { param_len: 5, pc_offset: 0 },
        Microinstruction::Poweroff,
    ];
    assert_eq!(
        run_microinstructions(&list, &mut cpu, &mut ram),
        Err(MicroprocessorErrors::MemoryOverflow)
    );
    assert_eq!(*cpu.registers(), Registers { pc: 10, ..Registers::new() });
    assert_eq!(run_microinstructions(&Vec::new(), &mut cpu, &mut ram), Ok(()));
    assert_eq!(*cpu.registers(), Registers { pc: 10, ..Registers::new() });
}

#[test]
fn fetch_reads_the_opcode_at_the_program_counter() {
    let mut cpu = CPU::new();
    let mut ram = Ram::new();
    load(&mut ram, 6, &[4, 0]);
    assert_eq!(cpu.fetch_istr(&ram), Ok(Nop.exec()));
    load(&mut ram, 6, &[4, 1]);
    assert_eq!(cpu.fetch_istr(&ram), Err(MicroprocessorErrors::UnknownOpcode));
    cpu.registers_mut().set_pc(MAX_RAM_SIZE - 1).unwrap();
    assert_eq!(cpu.fetch_istr(&ram), Err(MicroprocessorErrors::MemoryOverflow));
    cpu.registers_mut().set_pc(MAX_RAM_SIZE - 2).unwrap();
    assert_eq!(cpu.fetch_istr(&ram), Ok(Halt.exec()));
}

#[test]
fn push_leaves_the_immediate_on_top_of_the_stack() {
    let cases: [(u8, u32); 9] = [
        (1, 0),
        (1, 8),
        (1, 0xff),
        (2, 0x1234),
        (2, 0xffff),
        (3, 0x00ab_cdef),
        (3, 0x00ff_ffff),
        (4, 0xdead_beef),
        (4, 0xffff_ffff),
    ];
    for (width, value) in cases {
        let mut vm = VM::new();
        load(&mut vm.ram, 6, &push_of(width, value));
        assert_eq!(vm.cpu.step(&mut vm.ram), Ok(()));
        let sp = vm.cpu.registers().sp();
        assert_eq!(sp, 20 + width as usize);
        assert_eq!(vm.cpu.registers().pc(), 6 + 3 + width as usize);
        assert_eq!(vm.ram.read_stack(sp, width as usize), Ok(value));
        assert_eq!(vm.ram.read_ram(20, width as usize), Ok(value));
        assert_eq!(vm.cpu.registers().instruction_register().option(), width as u32);
        assert!(vm.cpu.registers().poweron());
    }
}

#[test]
fn push_writes_no_more_than_its_width() {
    let mut vm = VM::new();
    vm.ram.push_unsigned(20, 0x7777_7777).unwrap();
    load(&mut vm.ram, 6, &push_of(1, 0x42));
    assert_eq!(vm.cpu.step(&mut vm.ram), Ok(()));
    assert_eq!(vm.ram.read_ram(20, 4), Ok(0x7777_7742));
}

#[test]
fn push_wider_than_four_bytes_fails() {
    let mut vm = VM::new();
    load(&mut vm.ram, 6, &[1, 0, 5, 1, 2, 3, 4, 5]);
    assert_eq!(vm.cpu.step(&mut vm.ram), Err(MicroprocessorErrors::MemoryOverflow));
    let expected = Registers {
        mdr0: 5,
        instruction_registers: InstructionRegisters { option: 5, param0: 0, param1: 0 },
        ..Registers::new()
    };
    assert_eq!(*vm.cpu.registers(), expected);
    assert_eq!(vm.ram.read_ram(20, 4), Ok(0));
}

#[test]
fn push_at_the_end_of_the_memory_fails() {
    let mut vm = VM::new();
    load(&mut vm.ram, 6, &push_of(2, 0x0102));
    vm.cpu.registers_mut().set_sp(MAX_RAM_SIZE - 1).unwrap();
    assert_eq!(vm.cpu.step(&mut vm.ram), Err(MicroprocessorErrors::MemoryOverflow));
    assert_eq!(vm.ram.read_ram(MAX_RAM_SIZE - 1, 1), Ok(0));
    assert_eq!(vm.cpu.registers().sp(), MAX_RAM_SIZE - 1);
    assert_eq!(vm.cpu.registers().pc(), 6);
}

#[test]
fn pop_undoes_a_push_of_the_same_width() {
    for width in 1u8..=4 {
        let mut vm = VM::new();
        let mut program = push_of(width, 0x0403_0201);
        program.extend([2, 0, width]);
        load(&mut vm.ram, 6, &program);
        assert_eq!(vm.cpu.step(&mut vm.ram), Ok(()));
        assert_eq!(vm.cpu.registers().sp(), 20 + width as usize);
        assert_eq!(vm.cpu.step(&mut vm.ram), Ok(()));
        assert_eq!(vm.cpu.registers().sp(), 20);
        assert_eq!(vm.cpu.registers().pc(), 6 + 3 + width as usize + 3);
    }
}

#[test]
fn pop_below_the_bottom_fails() {
    let mut vm = VM::new();
    load(&mut vm.ram, 6, &[2, 0, 21]);
    assert_eq!(vm.cpu.step(&mut vm.ram), Err(MicroprocessorErrors::MemoryOverflow));
    assert_eq!(vm.cpu.registers().sp(), 20);
    assert_eq!(vm.cpu.registers().pc(), 6);
}

#[test]
fn add_leaves_the_sum_on_top_of_the_stack() {
    let cases: [(u8, u32, u32, u32); 8] = [
        (1, 8, 10, 18),
        (1, 200, 100, 44),
        (1, 0xff, 0xff, 0xfe),
        (2, 0x1234, 0x1111, 0x2345),
        (2, 0xffff, 1, 0),
        (3, 0x00ff_ffff, 2, 1),
        (4, 0x1000_0000, 0x0234_5678, 0x1234_5678),
        (4, 0xffff_ffff, 2, 1),
    ];
    for (width, a, b, sum) in cases {
        let (vm, r) = add_after_pushes(width, a, b);
        assert_eq!(r, Ok(()));
        let sp = vm.cpu.registers().sp();
        assert_eq!(sp, 20 + width as usize);
        assert_eq!(vm.ram.read_stack(sp, width as usize), Ok(sum));
        assert!(!vm.cpu.registers().poweron());
        assert_eq!(vm.cpu.registers().pc(), 1000 + 2 * (3 + width as usize) + 3);
    }
}

#[test]
fn add_takes_the_top_value_first() {
    let (vm, r) = add_after_pushes(1, 8, 10);
    assert_eq!(r, Ok(()));
    assert_eq!(vm.cpu.registers().mdr1(), 8);
    assert_eq!(vm.cpu.registers().mdr0(), 18);
}

#[test]
fn add_on_an_empty_stack_fails() {
    let mut vm = VM::new();
    load(&mut vm.ram, 6, &[3, 0, 4]);
    vm.cpu.registers_mut().set_sp(6).unwrap();
    assert_eq!(vm.cpu.step(&mut vm.ram), Err(MicroprocessorErrors::MemoryOverflow));
    assert_eq!(vm.cpu.registers().sp(), 2);
    assert_eq!(vm.cpu.registers().pc(), 6);
}

#[test]
fn nop_moves_past_itself() {
    let mut vm = VM::new();
    load(&mut vm.ram, 6, &[4, 0]);
    assert_eq!(vm.cpu.step(&mut vm.ram), Ok(()));
    assert_eq!(*vm.cpu.registers(), Registers { pc: 8, ..Registers::new() });
}

#[test]
fn jmp_sets_the_program_counter() {
    let mut vm = VM::new();
    load(&mut vm.ram, 6, &[6, 0, 0x34, 0x12, 0, 0]);
    assert_eq!(vm.cpu.step(&mut vm.ram), Ok(()));
    assert_eq!(*vm.cpu.registers(), Registers { pc: 0x1234, mdr0: 0x1234, ..Registers::new() });
}

#[test]
fn call_saves_the_context_and_ret_restores_it() {
    let mut vm = VM::new();
    load(&mut vm.ram, 6, &[7, 0, 100, 0, 0, 0]);
    load(&mut vm.ram, 100, &[8, 0]);
    vm.cpu.registers_mut().set_bp(3).unwrap();
    assert_eq!(vm.cpu.step(&mut vm.ram), Ok(()));
    let in_call = Registers { pc: 100, sp: 60, bp: 20, mdr0: 100, ..Registers::new() };
    assert_eq!(*vm.cpu.registers(), in_call);
    assert_eq!(vm.ram.read_ram(20, 4), Ok(20));
    assert_eq!(vm.ram.read_ram(24, 4), Ok(12));
    assert_eq!(vm.ram.read_ram(28, 4), Ok(20));
    assert_eq!(vm.ram.read_ram(32, 4), Ok(100));
    assert_eq!(vm.cpu.step(&mut vm.ram), Ok(()));
    let returned = Registers { pc: 12, sp: 20, bp: 20, mdr0: 100, ..Registers::new() };
    assert_eq!(*vm.cpu.registers(), returned);
    assert_eq!(vm.execute(), Ok(()));
    assert_eq!(*vm.cpu.registers(), Registers { poweron: false, ..returned });
}

#[test]
fn pushall_then_ret_gives_every_register_back() {
    let mut vm = VM::new();
    load(&mut vm.ram, 300, &[5, 0, 8, 0]);
    let before = Registers {
        pc: 300,
        sp: 500,
        bp: 0xffff_ffff,
        mdr0: 0x1122_3344,
        mdr1: 0x5566_7788,
        poweron: true,
        global_register: 0x0102_0304,
        flags: Flags { overflow: true, carry: true, zero: false, negative: true, int_occur: true },
        instruction_registers: InstructionRegisters { option: 1, param0: 2, param1: 0xffff_ffff },
    };
    *vm.cpu.registers_mut() = before;
    assert_eq!(vm.cpu.step(&mut vm.ram), Ok(()));
    assert_eq!(*vm.cpu.registers(), Registers { pc: 302, sp: 540, ..before });
    assert_eq!(vm.cpu.step(&mut vm.ram), Ok(()));
    assert_eq!(*vm.cpu.registers(), before);
}

#[test]
fn halt_alone_ends_the_run_after_one_cycle() {
    let mut vm = VM::new();
    load(&mut vm.ram, 6, &[0, 0, 0xff, 0xff]);
    assert_eq!(vm.run_for(1), Ok(()));
    assert_eq!(*vm.cpu.registers(), Registers { poweron: false, ..Registers::new() });
    let mut again = VM::new();
    load(&mut again.ram, 6, &[0, 0, 0xff, 0xff]);
    assert_eq!(again.execute(), Ok(()));
    assert_eq!(*again.cpu.registers(), Registers { poweron: false, ..Registers::new() });
    assert_eq!(again.ram.read_ram(6, 4), Ok(0xffff_0000));
    assert_eq!(again.ram.read_ram(20, 4), Ok(0));
}

#[test]
fn demo_program_adds_and_halts() {
    let mut vm = VM::new();
    vm.ram.test();
    vm.cpu.registers_mut().set_pc(0).unwrap();
    assert_eq!(vm.execute(), Ok(()));
    assert!(!vm.cpu.registers().poweron());
    assert_eq!(vm.cpu.registers().sp(), 21);
    assert_eq!(vm.ram.read_stack(vm.cpu.registers().sp(), 1), Ok(18));
    assert_eq!(vm.ram.read_ram(20, 1), Ok(18));
    assert_eq!(vm.cpu.registers().pc(), 11);
}

#[test]
fn unknown_opcode_is_reported() {
    let mut vm = VM::new();
    vm.ram.push_unsigned(6, 0x0a01).unwrap();
    assert_eq!(vm.execute(), Err(MicroprocessorErrors::UnknownOpcode));
    assert_eq!(*vm.cpu.registers(), Registers::new());
}

#[test]
fn a_fresh_machine_with_the_demo_at_zero_meets_an_unknown_opcode() {
    let mut vm = VM::new();
    vm.ram.test();
    assert_eq!(vm.execute(), Err(MicroprocessorErrors::UnknownOpcode));
}

#[test]
fn fetch_outside_the_memory_is_a_memory_overflow() {
    let mut vm = VM::new();
    vm.cpu.registers_mut().set_pc(MAX_RAM_SIZE - 1).unwrap();
    assert_eq!(vm.execute(), Err(MicroprocessorErrors::MemoryOverflow));
    load(&mut vm.ram, MAX_RAM_SIZE - 4, &[4, 0, 4, 0]);
    vm.cpu.registers_mut().set_pc(MAX_RAM_SIZE - 4).unwrap();
    assert_eq!(vm.execute(), Err(MicroprocessorErrors::MemoryOverflow));
    assert_eq!(vm.cpu.registers().pc(), MAX_RAM_SIZE);
}

#[test]
fn a_run_stops_when_its_cycles_are_used_up() {
    let mut vm = VM::new();
    load(&mut vm.ram, 6, &[6, 0, 6, 0, 0, 0]);
    assert_eq!(vm.run_for(5), Ok(()));
    assert!(vm.cpu.registers().poweron());
    assert_eq!(vm.cpu.registers().pc(), 6);
    let mut counted = VM::new();
    load(&mut counted.ram, 6, &[4, 0, 4, 0, 4, 0, 0, 0]);
    assert_eq!(counted.run_for(2), Ok(()));
    assert_eq!(*counted.cpu.registers(), Registers { pc: 10, ..Registers::new() });
    assert_eq!(counted.run_for(0), Ok(()));
    assert_eq!(*counted.cpu.registers(), Registers { pc: 10, ..Registers::new() });
    assert_eq!(counted.run_for(2), Ok(()));
    assert_eq!(*counted.cpu.registers(), Registers { pc: 12, poweron: false, ..Registers::new() });
}

#[test]
fn a_machine_that_is_off_still_runs_the_first_cycle() {
    let mut vm = VM::new();
    load(&mut vm.ram, 6, &[4, 0, 0, 0]);
    vm.cpu.registers_mut().poweroff();
    assert_eq!(vm.execute(), Ok(()));
    assert_eq!(*vm.cpu.registers(), Registers { pc: 8, poweron: false, ..Registers::new() });
}

#[test]
fn a_new_machine_is_reset_and_empty() {
    let vm = VM::new();
    assert_eq!(*vm.cpu.registers(), Registers::new());
    assert_eq!(vm.ram.read_ram(0, 4), Ok(0));
    assert_eq!(vm.ram.read_ram(MAX_RAM_SIZE - 4, 4), Ok(0));
    assert_eq!(*CPU::new().registers(), Registers::new());
}
