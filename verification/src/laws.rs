//! The laws the compiler and the machine obey, stated and proved against
//! the same specifications the executable contracts use.

use vstd::prelude::*;

use crate::ast::{BinaryOp, Decl, Node};
use crate::bytecode::{InV, REGISTER_COUNT};
use crate::compiler::{compile_block, compile_decls, compile_node, literal_value_spec, CompileError};
use crate::environment::BindingV;
use crate::value::{add_spec, Value};
use crate::vm::{run_spec, step_spec, FaultKind, RunOutcome, StateV, StepResult};

verus! {

/// Law (determinism): compilation is a function of the syntax tree and
/// the cursor alone — two compilations of the same tree from the same
/// cursor yield the same outcome, instruction for instruction.
pub proof fn lemma_compile_deterministic(
    e: Node,
    r1: Result<Seq<InV>, CompileError>,
    r2: Result<Seq<InV>, CompileError>,
)
    requires
        r1 == compile_node(e, 0),
        r2 == compile_node(e, 0),
    ensures
        r1 == r2,
{
}

/// An expression built of literals and supported binary operators only.
pub open spec fn is_op_tree(e: Node) -> bool
    decreases e,
{
    match e {
        Node::Const(_) => true,
        Node::BinOp(op, l, r) => op == BinaryOp::Add && is_op_tree(*l) && is_op_tree(*r),
        _ => false,
    }
}

/// The register depth of an operator tree: how many registers it needs
/// from its base cursor up.  A literal needs its base register alone; an
/// operation holds its left result at the base while the right operand
/// is computed one register higher.  A chain of operators nested toward
/// the right operand has register depth equal to its nesting depth.
pub open spec fn register_need(e: Node) -> int
    decreases e,
{
    match e {
        Node::BinOp(_, l, r) => if register_need(*l) > register_need(*r) + 1 {
            register_need(*l)
        } else {
            register_need(*r) + 1
        },
        _ => 1,
    }
}

/// The highest register index an instruction references.
pub open spec fn instr_max_reg(i: InV) -> int {
    match i {
        InV::Ld { r, .. } => r,
        InV::Bind { r, .. } => r,
        InV::Add { dest, src } => if dest > src {
            dest
        } else {
            src
        },
    }
}

/// The highest register index a sequence references, `-1` for none.
pub open spec fn max_reg(code: Seq<InV>) -> int
    decreases code.len(),
{
    if code.len() == 0 {
        -1
    } else {
        let rest = max_reg(code.drop_last());
        if instr_max_reg(code.last()) > rest {
            instr_max_reg(code.last())
        } else {
            rest
        }
    }
}

proof fn lemma_max_reg_singleton(x: InV)
    requires
        instr_max_reg(x) >= 0,
    ensures
        max_reg(seq![x]) == instr_max_reg(x),
{
    let code = seq![x];
    assert(code.last() == x);
    assert(code.drop_last() =~= Seq::<InV>::empty());
    assert(max_reg(Seq::<InV>::empty()) == -1);
}

proof fn lemma_max_reg_lower_bound(s: Seq<InV>)
    ensures
        max_reg(s) >= -1,
    decreases s.len(),
{
    if s.len() > 0 {
        lemma_max_reg_lower_bound(s.drop_last());
    }
}

proof fn lemma_max_reg_concat(a: Seq<InV>, b: Seq<InV>)
    ensures
        max_reg(a + b) == vstd::math::max(max_reg(a), max_reg(b)),
    decreases b.len(),
{
    if b.len() == 0 {
        assert(a + b =~= a);
        lemma_max_reg_lower_bound(a);
        assert(max_reg(b) == -1);
    } else {
        let b1 = b.drop_last();
        lemma_max_reg_concat(a, b1);
        assert((a + b).drop_last() =~= a + b1);
        assert((a + b).last() == b.last());
        assert(max_reg(a + b) == if instr_max_reg(b.last()) > max_reg(a + b1) {
            instr_max_reg(b.last())
        } else {
            max_reg(a + b1)
        });
        assert(max_reg(b) == if instr_max_reg(b.last()) > max_reg(b1) {
            instr_max_reg(b.last())
        } else {
            max_reg(b1)
        });
    }
}

/// Law (register-stack discipline): an operator tree of register depth D
/// compiled at cursor c, with c + D within the register file, compiles
/// successfully, and the highest register index its code references is
/// exactly c + D - 1: siblings reuse the registers above the cursor, and
/// no live register is ever aliased.
pub proof fn lemma_register_stack_discipline(e: Node, c: int)
    requires
        is_op_tree(e),
        0 <= c,
        c + register_need(e) <= REGISTER_COUNT as int,
    ensures
        compile_node(e, c) is Ok,
        max_reg(compile_node(e, c)->Ok_0) == c + register_need(e) - 1,
    decreases e,
{
    match e {
        Node::Const(l) => {
            lemma_max_reg_singleton(InV::Ld { r: c, v: literal_value_spec(l) });
        },
        Node::BinOp(_, l, r) => {
            lemma_register_stack_discipline(*l, c);
            lemma_register_stack_discipline(*r, c + 1);
            let li = compile_node(*l, c)->Ok_0;
            let ri = compile_node(*r, c + 1)->Ok_0;
            let tail = seq![InV::Add { dest: c, src: c + 1 }];
            lemma_max_reg_concat(li, ri);
            lemma_max_reg_concat(li + ri, tail);
            lemma_max_reg_singleton(InV::Add { dest: c, src: c + 1 });
        },
        _ => {},
    }
}

/// Law (overflow boundary): an operator tree whose register depth
/// exceeds what is left of the register file is rejected with
/// `RegisterOverflow` at compile time — never by wrapping around or
/// referencing a register out of range.
pub proof fn lemma_register_overflow(e: Node, c: int)
    requires
        is_op_tree(e),
        0 <= c <= REGISTER_COUNT as int,
        c + register_need(e) > REGISTER_COUNT as int,
    ensures
        compile_node(e, c) == Err::<Seq<InV>, CompileError>(CompileError::RegisterOverflow),
    decreases e,
{
    match e {
        Node::Const(_) => {},
        Node::BinOp(_, l, r) => {
            if c + 1 < REGISTER_COUNT as int {
                if c + register_need(*l) > REGISTER_COUNT as int {
                    lemma_register_overflow(*l, c);
                } else {
                    lemma_register_stack_discipline(*l, c);
                    lemma_register_overflow(*r, c + 1);
                }
            }
        },
        _ => {},
    }
}

/// The value an operator tree evaluates to under the value system.
pub open spec fn eval_op_tree(e: Node) -> Value
    decreases e,
{
    match e {
        Node::Const(l) => literal_value_spec(l),
        Node::BinOp(_, l, r) => add_spec(eval_op_tree(*l), eval_op_tree(*r)),
        _ => Value::Undefined,
    }
}

/// The register file after an operator tree's code has run: the tree's
/// value in the base register, the scratch registers above it consumed
/// back to "undefined", everything else untouched.
pub open spec fn tree_result_regs(regs: Seq<Value>, e: Node, c: int) -> Seq<Value> {
    Seq::new(
        regs.len(),
        |i: int|
            if i == c {
                eval_op_tree(e)
            } else if c < i < c + register_need(e) {
                Value::Undefined
            } else {
                regs[i]
            },
    )
}

proof fn lemma_register_need_at_least_one(e: Node)
    ensures
        register_need(e) >= 1,
    decreases e,
{
    match e {
        Node::BinOp(_, l, r) => {
            lemma_register_need_at_least_one(*l);
            lemma_register_need_at_least_one(*r);
        },
        _ => {},
    }
}

proof fn lemma_compiled_code_correct(e: Node, c: int, code: Seq<InV>, pc: int, s: StateV)
    requires
        is_op_tree(e),
        0 <= c,
        c + register_need(e) <= REGISTER_COUNT as int,
        s.regs.len() == REGISTER_COUNT as int,
        compile_node(e, c) is Ok,
        0 <= pc,
        pc + compile_node(e, c)->Ok_0.len() <= code.len(),
        code.subrange(pc, pc + compile_node(e, c)->Ok_0.len()) == compile_node(e, c)->Ok_0,
    ensures
        run_spec(s, code, pc) == run_spec(
            StateV { regs: tree_result_regs(s.regs, e, c), env: s.env },
            code,
            pc + compile_node(e, c)->Ok_0.len(),
        ),
    decreases e,
{
    match e {
        Node::Const(l) => {
            assert(code[pc] == compile_node(e, c)->Ok_0[0]);
            assert(code[pc] == InV::Ld { r: c, v: literal_value_spec(l) });
            assert(tree_result_regs(s.regs, e, c) =~= s.regs.update(c, literal_value_spec(l)));
            assert(step_spec(s, code[pc]) == StepResult::Next(
                StateV { regs: tree_result_regs(s.regs, e, c), env: s.env },
            ));
        },
        Node::BinOp(_, l, r) => {
            let li = compile_node(*l, c)->Ok_0;
            let ri = compile_node(*r, c + 1)->Ok_0;
            let tail = seq![InV::Add { dest: c, src: c + 1 }];
            let nl = li.len() as int;
            let nr = ri.len() as int;
            let n = compile_node(e, c)->Ok_0.len() as int;
            assert(compile_node(e, c)->Ok_0 == li + ri + tail);
            assert(n == nl + nr + 1);
            let whole = code.subrange(pc, pc + n);
            assert forall|j: int| 0 <= j < nl implies code.subrange(pc, pc + nl)[j] == li[j] by {
                assert(whole[j] == code[pc + j]);
                assert(code.subrange(pc, pc + nl)[j] == code[pc + j]);
                assert((li + ri + tail)[j] == li[j]);
            }
            assert(code.subrange(pc, pc + nl) =~= li);
            assert forall|j: int| 0 <= j < nr implies code.subrange(pc + nl, pc + nl + nr)[j]
                == ri[j] by {
                assert(whole[nl + j] == code[pc + nl + j]);
                assert(code.subrange(pc + nl, pc + nl + nr)[j] == code[pc + nl + j]);
                assert((li + ri + tail)[nl + j] == ri[j]);
            }
            assert(code.subrange(pc + nl, pc + nl + nr) =~= ri);
            lemma_compiled_code_correct(*l, c, code, pc, s);
            let s1 = StateV { regs: tree_result_regs(s.regs, *l, c), env: s.env };
            lemma_compiled_code_correct(*r, c + 1, code, pc + nl, s1);
            let s2 = StateV { regs: tree_result_regs(s1.regs, *r, c + 1), env: s.env };
            assert(whole[nl + nr] == code[pc + nl + nr]);
            assert(code[pc + nl + nr] == (li + ri + tail)[nl + nr]);
            assert(code[pc + nl + nr] == InV::Add { dest: c, src: c + 1 });
            let a = s2.regs[c];
            let b = s2.regs.update(c, Value::Undefined)[c + 1];
            assert(a == eval_op_tree(*l));
            assert(b == eval_op_tree(*r));
            let regs3 = s2.regs.update(c, Value::Undefined).update(c + 1, Value::Undefined).update(
                c,
                add_spec(a, b),
            );
            let rl = register_need(*l);
            let rr = register_need(*r);
            let rn = register_need(e);
            lemma_register_need_at_least_one(*l);
            lemma_register_need_at_least_one(*r);
            assert(rn >= rl && rn >= rr + 1);
            assert forall|i: int| 0 <= i < s.regs.len() implies regs3[i] == tree_result_regs(
                s.regs,
                e,
                c,
            )[i] by {
                if i == c {
                } else if i == c + 1 {
                } else if c + 1 < i && i < c + rn {
                    assert(regs3[i] == s2.regs[i]);
                    if i >= c + 1 + rr {
                        assert(i < c + rl);
                        assert(s2.regs[i] == s1.regs[i]);
                    }
                } else {
                    assert(regs3[i] == s2.regs[i]);
                    assert(s2.regs[i] == s1.regs[i]);
                    assert(s1.regs[i] == s.regs[i]);
                }
            }
            assert(regs3 =~= tree_result_regs(s.regs, e, c));
            assert(step_spec(s2, code[pc + nl + nr]) == StepResult::Next(
                StateV { regs: tree_result_regs(s.regs, e, c), env: s.env },
            ));
            assert(run_spec(s2, code, pc + nl + nr) == run_spec(
                StateV { regs: tree_result_regs(s.regs, e, c), env: s.env },
                code,
                pc + n,
            ));
        },
        _ => {},
    }
}

/// Law (compiled arithmetic is correct): an operator tree whose register
/// depth fits the register file compiles successfully, its code runs to
/// completion from any machine state without touching the environment,
/// and it leaves exactly the tree's value in register `c` — so a whole
/// unit's value is what a completed run returns from register 0.
pub proof fn lemma_compile_run_correct(e: Node, s: StateV)
    requires
        is_op_tree(e),
        register_need(e) <= REGISTER_COUNT as int,
        s.regs.len() == REGISTER_COUNT as int,
    ensures
        compile_node(e, 0) is Ok,
        match run_spec(s, compile_node(e, 0)->Ok_0, 0) {
            RunOutcome::Done { state } => state.regs == tree_result_regs(s.regs, e, 0)
                && state.regs[0] == eval_op_tree(e) && state.env == s.env,
            RunOutcome::Fault { .. } => false,
        },
{
    lemma_register_stack_discipline(e, 0);
    let code = compile_node(e, 0)->Ok_0;
    assert(code.subrange(0, code.len() as int) =~= code);
    lemma_compiled_code_correct(e, 0, code, 0, s);
}

/// Law (binding update-vs-declare): binding a name and then binding it
/// again never faults, whether or not the name was bound before — the
/// second bind overwrites the first — and afterwards the binding holds
/// exactly the value the second bind consumed, still mutable.
pub proof fn lemma_bind_update_vs_declare(s: StateV, r1: int, r2: int, name: Seq<char>)
    requires
        0 <= r1 < s.regs.len(),
        0 <= r2 < s.regs.len(),
        s.env.contains_key(name) ==> s.env[name].mutable,
    ensures
        step_spec(s, InV::Bind { r: r1, name }) is Next,
        ({
            let s1 = step_spec(s, InV::Bind { r: r1, name })->Next_0;
            &&& s1.env[name] == BindingV { value: s.regs[r1], mutable: true }
            &&& step_spec(s1, InV::Bind { r: r2, name }) is Next
            &&& step_spec(s1, InV::Bind { r: r2, name })->Next_0.env[name] == BindingV {
                value: s1.regs[r2],
                mutable: true,
            }
        }),
{
}

/// Law (register clearing, `Add`): an `Add` over two distinct in-range
/// registers succeeds, leaves its source register reading as
/// "undefined", and leaves the value system's sum of the two consumed
/// values in its destination register.
pub proof fn lemma_add_clears_source(s: StateV, dest: int, src: int)
    requires
        0 <= dest < s.regs.len(),
        0 <= src < s.regs.len(),
        dest != src,
    ensures
        step_spec(s, InV::Add { dest, src }) is Next,
        step_spec(s, InV::Add { dest, src })->Next_0.regs[src] == Value::Undefined,
        step_spec(s, InV::Add { dest, src })->Next_0.regs[dest] == add_spec(
            s.regs[dest],
            s.regs[src],
        ),
{
}

/// Law (register clearing, `Bind`): a `Bind` of an in-range register
/// leaves that register reading as "undefined" afterwards, whether the
/// binding was committed or the environment refused it.
pub proof fn lemma_bind_clears_register(s: StateV, r: int, name: Seq<char>)
    requires
        0 <= r < s.regs.len(),
    ensures
        match step_spec(s, InV::Bind { r, name }) {
            StepResult::Next(s1) => s1.regs[r] == Value::Undefined,
            StepResult::Fault { kind, state } => state.regs[r] == Value::Undefined,
        },
{
}

/// Whether every register an instruction references lies inside a file
/// of `n` registers.
pub open spec fn instr_regs_in_range(i: InV, n: int) -> bool {
    match i {
        InV::Ld { r, .. } => 0 <= r < n,
        InV::Bind { r, .. } => 0 <= r < n,
        InV::Add { dest, src } => 0 <= dest < n && 0 <= src < n,
    }
}

/// Whether every register a sequence references lies inside a file of
/// `n` registers.
pub open spec fn code_regs_in_range(code: Seq<InV>, n: int) -> bool {
    forall|j: int| 0 <= j < code.len() ==> #[trigger] instr_regs_in_range(code[j], n)
}

proof fn lemma_regs_in_range_concat(a: Seq<InV>, b: Seq<InV>, n: int)
    requires
        code_regs_in_range(a, n),
        code_regs_in_range(b, n),
    ensures
        code_regs_in_range(a + b, n),
{
    assert forall|j: int| 0 <= j < (a + b).len() implies #[trigger] instr_regs_in_range(
        (a + b)[j],
        n,
    ) by {
        if j < a.len() {
            assert((a + b)[j] == a[j]);
            assert(instr_regs_in_range(a[j], n));
        } else {
            assert((a + b)[j] == b[j - a.len()]);
            assert(instr_regs_in_range(b[j - a.len()], n));
        }
    }
}

proof fn lemma_emitted_node(e: Node, base: int)
    requires
        0 <= base,
    ensures
        compile_node(e, base) is Ok ==> code_regs_in_range(
            compile_node(e, base)->Ok_0,
            REGISTER_COUNT as int,
        ),
    decreases e, 0int,
{
    let n = REGISTER_COUNT as int;
    match e {
        Node::Const(l) => {
            if base < n {
                let code = seq![InV::Ld { r: base, v: literal_value_spec(l) }];
                assert(instr_regs_in_range(code[0], n));
            }
        },
        Node::BinOp(op, l, r) => {
            if op == BinaryOp::Add && base + 1 < n {
                lemma_emitted_node(*l, base);
                lemma_emitted_node(*r, base + 1);
                if compile_node(e, base) is Ok {
                    let li = compile_node(*l, base)->Ok_0;
                    let ri = compile_node(*r, base + 1)->Ok_0;
                    let tail = seq![InV::Add { dest: base, src: base + 1 }];
                    assert(instr_regs_in_range(tail[0], n));
                    lemma_regs_in_range_concat(li, ri, n);
                    lemma_regs_in_range_concat(li + ri, tail, n);
                }
            }
        },
        Node::ConstDeclList(decls) => {
            lemma_emitted_decls(decls@, 0, base);
        },
        Node::Block(nodes) => {
            lemma_emitted_block(nodes@, 0, base);
        },
        _ => {},
    }
}

proof fn lemma_emitted_decls(decls: Seq<Decl>, i: int, base: int)
    requires
        0 <= base,
    ensures
        compile_decls(decls, i, base) is Ok ==> code_regs_in_range(
            compile_decls(decls, i, base)->Ok_0,
            REGISTER_COUNT as int,
        ),
    decreases decls, decls.len() - i,
{
    let n = REGISTER_COUNT as int;
    if 0 <= i < decls.len() {
        lemma_emitted_node(decls[i].init, base);
        lemma_emitted_decls(decls, i + 1, base);
        if compile_decls(decls, i, base) is Ok {
            let init_code = compile_node(decls[i].init, base)->Ok_0;
            let bind = seq![InV::Bind { r: base, name: decls[i].name@ }];
            let rest = compile_decls(decls, i + 1, base)->Ok_0;
            assert(instr_regs_in_range(bind[0], n));
            lemma_regs_in_range_concat(init_code, bind, n);
            lemma_regs_in_range_concat(init_code + bind, rest, n);
        }
    }
}

proof fn lemma_emitted_block(nodes: Seq<Node>, i: int, base: int)
    requires
        0 <= base,
    ensures
        compile_block(nodes, i, base) is Ok ==> code_regs_in_range(
            compile_block(nodes, i, base)->Ok_0,
            REGISTER_COUNT as int,
        ),
    decreases nodes, nodes.len() - i,
{
    if 0 <= i < nodes.len() {
        lemma_emitted_node(nodes[i], base);
        lemma_emitted_block(nodes, i + 1, base);
        if compile_block(nodes, i, base) is Ok {
            lemma_regs_in_range_concat(
                compile_node(nodes[i], base)->Ok_0,
                compile_block(nodes, i + 1, base)->Ok_0,
                REGISTER_COUNT as int,
            );
        }
    }
}

/// Law (every emitted register is in range): whatever unit compiles
/// successfully, every register index its code references lies inside
/// the register file — running out of registers is a compile-time
/// error, never a silent wrap at emission time.
pub proof fn lemma_emitted_registers_in_range(e: Node)
    ensures
        compile_node(e, 0) is Ok ==> code_regs_in_range(
            compile_node(e, 0)->Ok_0,
            REGISTER_COUNT as int,
        ),
{
    lemma_emitted_node(e, 0);
}

proof fn lemma_in_range_code_fault_kinds(s: StateV, code: Seq<InV>, pc: int)
    requires
        s.regs.len() == REGISTER_COUNT as int,
        code_regs_in_range(code, REGISTER_COUNT as int),
    ensures
        match run_spec(s, code, pc) {
            RunOutcome::Done { .. } => true,
            RunOutcome::Fault { kind, .. } => kind == FaultKind::EnvironmentBindingError,
        },
    decreases code.len() - pc,
{
    if 0 <= pc < code.len() {
        assert(instr_regs_in_range(code[pc], REGISTER_COUNT as int));
        match step_spec(s, code[pc]) {
            StepResult::Next(s2) => {
                assert(s2.regs.len() == REGISTER_COUNT as int);
                lemma_in_range_code_fault_kinds(s2, code, pc + 1);
            },
            StepResult::Fault { .. } => {},
        }
    }
}

/// Law (no out-of-range access at run time): a unit that compiled
/// successfully can fault only through the environment refusing a
/// binding update — never with an invalid register, whatever state the
/// machine starts from.
pub proof fn lemma_compiled_unit_fault_kinds(e: Node, s: StateV)
    requires
        s.regs.len() == REGISTER_COUNT as int,
        compile_node(e, 0) is Ok,
    ensures
        match run_spec(s, compile_node(e, 0)->Ok_0, 0) {
            RunOutcome::Done { .. } => true,
            RunOutcome::Fault { kind, .. } => kind == FaultKind::EnvironmentBindingError,
        },
{
    lemma_emitted_registers_in_range(e);
    lemma_in_range_code_fault_kinds(s, compile_node(e, 0)->Ok_0, 0);
}

} // verus!

