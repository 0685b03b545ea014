use stack_vm::errors::MicroprocessorErrors;
use stack_vm::registers::{Flags, InstructionRegisters, Registers, BP_LIMIT};

#[test]
fn registers_start_at_their_reset_values() {
    let r = Registers::new();
    assert_eq!(r.pc(), 6);
    assert_eq!(r.sp(), 20);
    assert_eq!(r.bp(), 20);
    assert_eq!(r.mdr0(), 0);
    assert_eq!(r.mdr1(), 0);
    assert_eq!(r.global_register(), 0);
    assert!(r.poweron());
    assert_eq!(*r.flags(), Flags::new());
    assert_eq!(*r.instruction_register(), InstructionRegisters::new());
    assert!(!r.flags().overflow());
    assert!(!r.flags().carry());
    assert!(!r.flags().zero());
    assert!(!r.flags().negative());
    assert!(!r.flags().int_occur());
    assert_eq!(r.instruction_register().option(), 0);
    assert_eq!(r.instruction_register().param0(), 0);
    assert_eq!(r.instruction_register().param1(), 0);
}

#[test]
fn setters_change_their_own_register_only() {
    let mut r = Registers::new();
    r.set_mdr0(11);
    r.set_mdr1(12);
    assert_eq!(r.set_pc(13), Ok(()));
    assert_eq!(r.set_sp(14), Ok(()));
    assert_eq!(r.set_bp(15), Ok(()));
    r.set_global_register(16);
    let expected = Registers {
        pc: 13,
        sp: 14,
        bp: 15,
        mdr0: 11,
        mdr1: 12,
        poweron: true,
        global_register: 16,
        flags: Flags::new(),
        instruction_registers: InstructionRegisters::new(),
    };
    assert_eq!(r, expected);
}

#[test]
fn zero_and_carry_are_independent_flags() {
    let mut f = Flags::new();
    f.set_carry(true);
    assert!(f.carry());
    assert!(!f.zero());
    f.set_carry(false);
    f.set_zero(true);
    assert!(f.zero());
    assert!(!f.carry());
}

#[test]
fn each_flag_has_its_own_setter() {
    let mut r = Registers::new();
    r.flags_mut().set_overflow(true);
    assert_eq!(*r.flags(), Flags { overflow: true, ..Flags::new() });
    r.flags_mut().set_negative(true);
    r.flags_mut().set_overflow(false);
    assert_eq!(*r.flags(), Flags { negative: true, ..Flags::new() });
    r.flags_mut().set_int_occur(true);
    assert!(r.flags().int_occur());
    assert!(r.flags().negative());
    assert!(!r.flags().overflow());
}

#[test]
fn instruction_registers_are_set_one_by_one() {
    let mut r = Registers::new();
    r.instruction_registers_mut().set_option(3);
    r.instruction_registers_mut().set_param0(4);
    r.instruction_registers_mut().set_param1(5);
    assert_eq!(
        *r.instruction_register(),
        InstructionRegisters { option: 3, param0: 4, param1: 5 }
    );
    assert_eq!(r.pc(), 6);
}

#[test]
fn counters_move_by_the_given_amount() {
    let mut r = Registers::new();
    assert_eq!(r.pc_inc(10), Ok(()));
    assert_eq!(r.pc(), 16);
    r.pc_dec(16);
    assert_eq!(r.pc(), 0);
    assert_eq!(r.sp_inc(5), Ok(()));
    assert_eq!(r.sp(), 25);
    assert_eq!(r.sp_dec(25), Ok(()));
    assert_eq!(r.sp(), 0);
    assert_eq!(r.bp(), 20);
}

#[test]
fn bp_inc_stops_at_the_boundary() {
    let mut r = Registers::new();
    assert_eq!(r.bp_inc(BP_LIMIT - 20), Ok(()));
    assert_eq!(r.bp(), BP_LIMIT);
    assert_eq!(r.bp_inc(0), Ok(()));
    assert_eq!(r.bp_inc(1), Err(MicroprocessorErrors::BpError));
    assert_eq!(r.bp(), BP_LIMIT);
    assert_eq!(r.bp_inc(usize::MAX), Err(MicroprocessorErrors::BpError));
    assert_eq!(r.bp(), BP_LIMIT);
    let mut fresh = Registers::new();
    assert_eq!(fresh.bp_inc(BP_LIMIT), Err(MicroprocessorErrors::BpError));
    assert_eq!(fresh, Registers::new());
    assert_eq!(fresh.bp_inc(4), Ok(()));
    assert_eq!(fresh.bp(), 24);
}

#[test]
fn poweroff_clears_the_power_flag_only() {
    let mut r = Registers::new();
    r.poweroff();
    assert!(!r.poweron());
    assert_eq!(r, Registers { poweron: false, ..Registers::new() });
    r.poweroff();
    assert!(!r.poweron());
}
