use boa_vm::environment::{Environment, VariableScope};
use boa_vm::value::Value;

#[test]
fn created_binding_is_found_and_initialized() {
    let mut env = Environment::new();
    let name = "a".to_string();
    assert!(!env.has_binding(&name));

    env.create_mutable_binding(name.clone(), true, VariableScope::Function);
    assert!(env.has_binding(&name));
    assert_eq!(Some(Value::Undefined), env.get_binding_value(&name));

    env.initialize_binding(&name, Value::Number(7));
    assert_eq!(Some(Value::Number(7)), env.get_binding_value(&name));
}

#[test]
fn mutable_binding_can_be_overwritten() {
    let mut env = Environment::new();
    let name = "b".to_string();
    env.create_mutable_binding(name.clone(), true, VariableScope::Function);
    env.initialize_binding(&name, Value::Number(1));
    assert_eq!(Ok(()), env.set_mutable_binding(&name, Value::Number(2), true));
    assert_eq!(Some(Value::Number(2)), env.get_binding_value(&name));
}

#[test]
fn immutable_binding_refuses_assignment() {
    let mut env = Environment::new();
    let name = "c".to_string();
    env.create_immutable_binding(name.clone());
    env.initialize_binding(&name, Value::Number(1));
    assert!(env
        .set_mutable_binding(&name, Value::Number(2), true)
        .is_err());
    assert_eq!(Some(Value::Number(1)), env.get_binding_value(&name));
}

#[test]
fn missing_binding_reads_as_none() {
    let env = Environment::new();
    assert_eq!(None, env.get_binding_value(&"missing".to_string()));
}

#[test]
fn value_addition_follows_the_value_system() {
    assert_eq!(
        Value::Number(5),
        Value::Number(2).add(Value::Number(3))
    );
    assert_eq!(Value::Undefined, Value::Undefined.add(Value::Number(3)));
    assert_eq!(Value::Undefined, Value::Number(2).add(Value::Undefined));
    assert!(Value::Undefined.is_undefined());
    assert!(!Value::Number(0).is_undefined());
}
