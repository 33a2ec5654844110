use boa_vm::ast::{BinaryOp, Decl, Literal, Node, NodeKind};
use boa_vm::bytecode::{In, Reg};
use boa_vm::compiler::{CompileError, Compiler};
use boa_vm::environment::Realm;
use boa_vm::value::Value;
use boa_vm::vm::VM;

fn num(micros: i64) -> Node {
    Node::Const(Literal::Num(micros))
}

fn whole(i: i32) -> Node {
    Node::Const(Literal::Int(i))
}

fn add(l: Node, r: Node) -> Node {
    Node::BinOp(BinaryOp::Add, Box::new(l), Box::new(r))
}

/// A chain of additions nested toward the right operand: depth levels of
/// operators need depth + 1 literals and depth + 1 registers.
fn right_chain(leaves: &[i32]) -> Node {
    let mut it = leaves.iter().rev();
    let mut node = whole(*it.next().unwrap());
    for v in it {
        node = add(whole(*v), node);
    }
    node
}

#[test]
fn poc() {
    // const x = 7 + 4 + 1.1;
    let expr = Node::ConstDeclList(vec![Decl {
        name: "x".to_string(),
        init: add(add(whole(7), whole(4)), num(1_100_000)),
    }]);

    let instrs = Compiler::new().compile(&expr).expect("compilation failed");

    let mut vm = VM::new(Realm::create());
    let res = vm.run(&instrs);
    assert!(res.is_ok());

    // 12.1 in micro-units, read back from the binding the unit created.
    assert_eq!(
        Some(Value::Number(12_100_000)),
        vm.realm().environment.get_binding_value(&"x".to_string())
    );
}

#[test]
fn bare_expression_compiles_to_loads_and_adds() {
    // 7 + 4 + 1.1 as a bare expression: only Ld and Add instructions,
    // and the value stays in register 0.
    let expr = add(add(whole(7), whole(4)), num(1_100_000));
    let instrs = Compiler::new().compile(&expr).expect("compilation failed");
    assert!(instrs
        .iter()
        .all(|i| matches!(i, In::Ld(_, _) | In::Add { .. })));

    let mut vm = VM::new(Realm::create());
    assert_eq!(Ok(Value::Number(12_100_000)), vm.run(&instrs));
}

#[test]
fn compiling_twice_gives_identical_sequences() {
    let expr = Node::Block(vec![
        Node::ConstDeclList(vec![Decl {
            name: "a".to_string(),
            init: add(whole(1), whole(2)),
        }]),
        add(num(500_000), whole(3)),
    ]);
    let first = Compiler::new().compile(&expr);
    let second = Compiler::new().compile(&expr);
    assert_eq!(first, second);

    let mut c = Compiler::new();
    let third = c.compile(&expr);
    let fourth = c.compile(&expr);
    assert_eq!(third, fourth);
}

#[test]
fn nested_tree_of_depth_eight_uses_registers_zero_to_seven() {
    // Seven operators nested toward the right: register depth 8, the
    // whole file, starting at cursor 0.
    let expr = right_chain(&[1, 2, 3, 4, 5, 6, 7, 8]);
    let instrs = Compiler::new().compile(&expr).expect("compilation failed");

    let max_index = instrs
        .iter()
        .map(|i| match i {
            In::Ld(r, _) => r.index(),
            In::Bind(r, _) => r.index(),
            In::Add { dest, src } => dest.index().max(src.index()),
        })
        .max()
        .unwrap();
    assert_eq!(7, max_index);

    let mut vm = VM::new(Realm::create());
    assert_eq!(Ok(Value::Number(36_000_000)), vm.run(&instrs));
}

#[test]
fn left_nested_tree_reuses_two_registers() {
    // Operators nested toward the left operand have register depth 2,
    // however deep the tree grows.
    let mut expr = whole(0);
    for v in 1..=20 {
        expr = add(expr, whole(v));
    }
    let instrs = Compiler::new().compile(&expr).expect("compilation failed");

    let max_index = instrs
        .iter()
        .map(|i| match i {
            In::Ld(r, _) => r.index(),
            In::Bind(r, _) => r.index(),
            In::Add { dest, src } => dest.index().max(src.index()),
        })
        .max()
        .unwrap();
    assert_eq!(1, max_index);

    let mut vm = VM::new(Realm::create());
    assert_eq!(Ok(Value::Number(210_000_000)), vm.run(&instrs));
}

#[test]
fn nested_tree_of_depth_nine_overflows() {
    // Eight operators nested toward the right: register depth 9, one
    // more than the file holds.
    let expr = right_chain(&[1, 2, 3, 4, 5, 6, 7, 8, 9]);
    assert_eq!(
        Err(CompileError::RegisterOverflow),
        Compiler::new().compile(&expr)
    );
}

#[test]
fn declaration_with_empty_initializer_binds_undefined() {
    // An empty block emits nothing, so the Bind consumes whatever the
    // cursor register holds: the undefined sentinel.
    let expr = Node::ConstDeclList(vec![Decl {
        name: "e".to_string(),
        init: Node::Block(vec![]),
    }]);
    let instrs = Compiler::new().compile(&expr).expect("compilation failed");
    assert_eq!(vec![In::Bind(Reg::new(0), "e".to_string())], instrs);

    let mut vm = VM::new(Realm::create());
    vm.run(&instrs).expect("run failed");
    assert_eq!(
        Some(Value::Undefined),
        vm.realm().environment.get_binding_value(&"e".to_string())
    );
}

#[test]
fn unsupported_identifier_is_reported() {
    let expr = Node::Ident("y".to_string());
    assert_eq!(
        Err(CompileError::UnsupportedConstruct(NodeKind::Ident)),
        Compiler::new().compile(&expr)
    );
}

#[test]
fn unsupported_operator_is_reported() {
    let expr = Node::BinOp(BinaryOp::Sub, Box::new(whole(3)), Box::new(whole(1)));
    assert_eq!(
        Err(CompileError::UnsupportedConstruct(NodeKind::BinOp(
            BinaryOp::Sub
        ))),
        Compiler::new().compile(&expr)
    );
}

#[test]
fn unsupported_unary_minus_is_reported() {
    let expr = Node::UnaryMinus(Box::new(whole(3)));
    assert_eq!(
        Err(CompileError::UnsupportedConstruct(NodeKind::UnaryMinus)),
        Compiler::new().compile(&expr)
    );
}

#[test]
fn empty_block_compiles_to_nothing() {
    let instrs = Compiler::new()
        .compile(&Node::Block(vec![]))
        .expect("compilation failed");
    assert!(instrs.is_empty());
}

#[test]
fn int_literal_is_scaled_to_micro_units() {
    let instrs = Compiler::new().compile(&whole(7)).expect("compilation failed");
    assert_eq!(vec![In::Ld(Reg::new(0), Value::Number(7_000_000))], instrs);
}

#[test]
fn block_of_declarations_binds_each_name() {
    let expr = Node::Block(vec![
        Node::ConstDeclList(vec![
            Decl {
                name: "a".to_string(),
                init: whole(1),
            },
            Decl {
                name: "b".to_string(),
                init: add(whole(2), whole(3)),
            },
        ]),
    ]);
    let instrs = Compiler::new().compile(&expr).expect("compilation failed");

    let mut vm = VM::new(Realm::create());
    vm.run(&instrs).expect("run failed");
    let env = &vm.realm().environment;
    assert_eq!(
        Some(Value::Number(1_000_000)),
        env.get_binding_value(&"a".to_string())
    );
    assert_eq!(
        Some(Value::Number(5_000_000)),
        env.get_binding_value(&"b".to_string())
    );
}
