use boa_vm::bytecode::{In, Opcode, Reg};
use boa_vm::environment::Realm;
use boa_vm::value::Value;
use boa_vm::vm::{FaultKind, RuntimeFault, VmStatus, VM};

fn ld(r: u8, micros: i64) -> In {
    In::Ld(Reg::new(r), Value::Number(micros))
}

fn bind(r: u8, name: &str) -> In {
    In::Bind(Reg::new(r), name.to_string())
}

fn add(dest: u8, src: u8) -> In {
    In::Add {
        dest: Reg::new(dest),
        src: Reg::new(src),
    }
}

#[test]
fn binding_twice_updates_instead_of_declaring() {
    let instrs = vec![ld(0, 1), bind(0, "y"), ld(0, 2), bind(0, "y")];
    let mut vm = VM::new(Realm::create());
    let res = vm.run(&instrs);
    assert!(res.is_ok());
    assert_eq!(VmStatus::Completed, vm.status());
    assert_eq!(
        Some(Value::Number(2)),
        vm.realm().environment.get_binding_value(&"y".to_string())
    );
}

#[test]
fn add_clears_its_source_register() {
    let instrs = vec![ld(0, 30), ld(1, 12), add(0, 1)];
    let mut vm = VM::new(Realm::create());
    assert_eq!(Ok(Value::Number(42)), vm.run(&instrs));
    assert_eq!(Value::Number(42), vm.register(0));
    assert_eq!(Value::Undefined, vm.register(1));
}

#[test]
fn bind_clears_its_register() {
    let instrs = vec![ld(0, 5), bind(0, "n")];
    let mut vm = VM::new(Realm::create());
    assert_eq!(Ok(Value::Undefined), vm.run(&instrs));
    assert_eq!(Value::Undefined, vm.register(0));
    assert_eq!(
        Some(Value::Number(5)),
        vm.realm().environment.get_binding_value(&"n".to_string())
    );
}

#[test]
fn out_of_range_register_faults() {
    let instrs = vec![ld(9, 1)];
    let mut vm = VM::new(Realm::create());
    assert_eq!(
        Err(RuntimeFault {
            at: 0,
            opcode: Opcode::Ld,
            kind: FaultKind::InvalidRegister(9),
        }),
        vm.run(&instrs)
    );
    assert_eq!(VmStatus::Faulted, vm.status());
}

#[test]
fn out_of_range_add_source_faults() {
    let instrs = vec![In::Add {
        dest: Reg::new(0),
        src: Reg::new(8),
    }];
    let mut vm = VM::new(Realm::create());
    assert_eq!(
        Err(RuntimeFault {
            at: 0,
            opcode: Opcode::Add,
            kind: FaultKind::InvalidRegister(8),
        }),
        vm.run(&instrs)
    );
}

#[test]
fn assignment_to_immutable_binding_faults() {
    let mut realm = Realm::create();
    realm.environment.create_immutable_binding("k".to_string());
    let instrs = vec![ld(0, 1), bind(0, "k")];
    let mut vm = VM::new(realm);
    assert_eq!(
        Err(RuntimeFault {
            at: 1,
            opcode: Opcode::Bind,
            kind: FaultKind::EnvironmentBindingError,
        }),
        vm.run(&instrs)
    );
    assert_eq!(VmStatus::Faulted, vm.status());
    // The register was consumed before the environment refused the
    // update, and the binding itself is untouched.
    assert_eq!(Value::Undefined, vm.register(0));
    assert_eq!(
        Some(Value::Undefined),
        vm.realm().environment.get_binding_value(&"k".to_string())
    );
}

#[test]
fn bindings_before_a_fault_are_kept() {
    let mut realm = Realm::create();
    realm.environment.create_immutable_binding("k".to_string());
    let instrs = vec![ld(0, 3), bind(0, "ok"), ld(0, 1), bind(0, "k")];
    let mut vm = VM::new(realm);
    assert!(vm.run(&instrs).is_err());
    assert_eq!(
        Some(Value::Number(3)),
        vm.realm().environment.get_binding_value(&"ok".to_string())
    );
}

#[test]
fn add_of_undefined_operands_is_undefined() {
    let instrs = vec![add(0, 1)];
    let mut vm = VM::new(Realm::create());
    assert_eq!(Ok(Value::Undefined), vm.run(&instrs));
}

#[test]
fn addition_saturates_at_the_numeric_range() {
    let instrs = vec![ld(0, i64::MAX), ld(1, 1), add(0, 1)];
    let mut vm = VM::new(Realm::create());
    assert_eq!(Ok(Value::Number(i64::MAX)), vm.run(&instrs));

    let instrs = vec![ld(0, i64::MIN), ld(1, -1), add(0, 1)];
    let mut vm = VM::new(Realm::create());
    assert_eq!(Ok(Value::Number(i64::MIN)), vm.run(&instrs));
}

#[test]
fn empty_program_completes_with_undefined() {
    let mut vm = VM::new(Realm::create());
    assert_eq!(Ok(Value::Undefined), vm.run(&[]));
    assert_eq!(VmStatus::Completed, vm.status());
}

#[test]
fn a_program_is_rerunnable() {
    let instrs = vec![ld(0, 3)];
    let mut vm = VM::new(Realm::create());
    assert_eq!(Ok(Value::Number(3)), vm.run(&instrs));
    assert_eq!(Ok(Value::Number(3)), vm.run(&instrs));
    assert_eq!(VmStatus::Completed, vm.status());
}

#[test]
fn a_fresh_machine_reads_undefined_everywhere() {
    let vm = VM::new(Realm::create());
    assert_eq!(VmStatus::Ready, vm.status());
    for i in 0..8 {
        assert_eq!(Value::Undefined, vm.register(i));
    }
}
