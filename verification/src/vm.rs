//! The virtual machine: a fixed-size register file executing one
//! instruction sequence in order against the realm's environment.
//!
//! [`step_spec`] is the mathematical meaning of one instruction and
//! [`run_spec`] of a whole sequence; [`VM::run`] is proved to follow them
//! exactly.  An operation that consumes a register resets it to
//! "undefined" before the result is stored, so no instruction ever
//! observes a stale consumed value.

use vstd::prelude::*;

use crate::bytecode::{views_of, In, InV, Opcode, Reg, REGISTER_COUNT};
use crate::environment::{BindingV, Realm, VariableScope};
use crate::value::{add_spec, Value};

verus! {

/// What stopped a run.
#[derive(Clone, Copy, Debug, PartialEq, Eq, Structural)]
pub enum FaultKind {
    /// An opcode the machine does not implement.  The instruction set is
    /// closed and every opcode is implemented, so this machine never
    /// raises it; the variant completes the fault taxonomy.
    UnsupportedOpcode,
    /// An instruction referenced a register index outside the file.
    InvalidRegister(u8),
    /// The environment refused a binding update, as on assignment to an
    /// immutable binding.
    EnvironmentBindingError,
}

/// A terminal runtime fault: the index and opcode of the offending
/// instruction, and what went wrong.  Bindings committed by instructions
/// before the fault are kept; nothing is rolled back.
#[derive(Clone, Copy, Debug, PartialEq, Eq, Structural)]
pub struct RuntimeFault {
    pub at: usize,
    pub opcode: Opcode,
    pub kind: FaultKind,
}

/// The observable execution status of a machine.  A machine is running
/// only inside [`VM::run`]; between calls it is ready, completed, or
/// faulted — and a faulted machine is terminal: it must not be resumed.
#[derive(Clone, Copy, Debug, PartialEq, Eq, Structural)]
pub enum VmStatus {
    Ready,
    Completed,
    Faulted,
}

/// The mathematical state a machine steps through: the register file and
/// the environment's bindings.
pub struct StateV {
    pub regs: Seq<Value>,
    pub env: Map<Seq<char>, BindingV>,
}

/// The outcome of one instruction: the next state, or a fault together
/// with the state the machine is left in.
pub enum StepResult {
    Next(StateV),
    Fault { kind: FaultKind, state: StateV },
}

/// The meaning of one instruction.
///
/// `Ld` stores the value in its register.  `Add` consumes the
/// destination, then the source — each read resets its slot to
/// "undefined" — and stores the sum in the destination.  `Bind` consumes
/// its register and hands the value to the environment: an existing
/// mutable binding is overwritten, a missing binding is created mutable
/// and initialized, and an existing immutable binding faults with the
/// register already consumed and the environment unchanged.
pub open spec fn step_spec(s: StateV, i: InV) -> StepResult {
    match i {
        InV::Ld { r, v } => if 0 <= r < s.regs.len() {
            StepResult::Next(StateV { regs: s.regs.update(r, v), env: s.env })
        } else {
            StepResult::Fault { kind: FaultKind::InvalidRegister(r as u8), state: s }
        },
        InV::Add { dest, src } => if 0 <= dest < s.regs.len() && 0 <= src < s.regs.len() {
            let a = s.regs[dest];
            let regs1 = s.regs.update(dest, Value::Undefined);
            let b = regs1[src];
            let regs2 = regs1.update(src, Value::Undefined);
            StepResult::Next(StateV { regs: regs2.update(dest, add_spec(a, b)), env: s.env })
        } else {
            let bad = if 0 <= dest < s.regs.len() {
                src
            } else {
                dest
            };
            StepResult::Fault { kind: FaultKind::InvalidRegister(bad as u8), state: s }
        },
        InV::Bind { r, name } => if 0 <= r < s.regs.len() {
            let val = s.regs[r];
            let regs1 = s.regs.update(r, Value::Undefined);
            if s.env.contains_key(name) && !s.env[name].mutable {
                StepResult::Fault {
                    kind: FaultKind::EnvironmentBindingError,
                    state: StateV { regs: regs1, env: s.env },
                }
            } else {
                StepResult::Next(
                    StateV {
                        regs: regs1,
                        env: s.env.insert(name, BindingV { value: val, mutable: true }),
                    },
                )
            }
        } else {
            StepResult::Fault { kind: FaultKind::InvalidRegister(r as u8), state: s }
        },
    }
}

/// The outcome of a whole run: the final state, or the first fault with
/// the index and opcode of the instruction that raised it and the state
/// the machine is left in.
pub enum RunOutcome {
    Done { state: StateV },
    Fault { at: int, opcode: Opcode, kind: FaultKind, state: StateV },
}

/// Sequential execution from instruction `pc` on: each instruction's
/// effects are fully visible before the next begins, and the first fault
/// stops the run.
pub open spec fn run_spec(s: StateV, code: Seq<InV>, pc: int) -> RunOutcome
    decreases code.len() - pc,
{
    if pc < 0 || pc >= code.len() {
        RunOutcome::Done { state: s }
    } else {
        match step_spec(s, code[pc]) {
            StepResult::Next(s2) => run_spec(s2, code, pc + 1),
            StepResult::Fault { kind, state } => RunOutcome::Fault {
                at: pc,
                opcode: code[pc].opcode(),
                kind,
                state,
            },
        }
    }
}

/// The observable content of a machine: its mathematical state and its
/// execution status.
pub struct VmV {
    pub state: StateV,
    pub status: VmStatus,
}

/// The virtual machine: a realm and a register file of
/// [`REGISTER_COUNT`] slots, exclusively owned and never resized.
pub struct VM {
    realm: Realm,
    regs: Vec<Value>,
    status: VmStatus,
}

impl View for VM {
    type V = VmV;

    closed spec fn view(&self) -> VmV {
        VmV {
            state: StateV { regs: self.regs@, env: self.realm.environment@ },
            status: self.status,
        }
    }
}

impl VM {
    /// Well-formedness: the register file has exactly
    /// [`REGISTER_COUNT`] slots and the environment is well formed.
    pub closed spec fn wf(&self) -> bool {
        self.regs@.len() == REGISTER_COUNT as int && self.realm.environment.wf()
    }

    /// A machine for the given realm, every register initialized to
    /// "undefined".
    pub fn new(realm: Realm) -> (vm: VM)
        requires
            realm.environment.wf(),
        ensures
            vm.wf(),
            vm@.status == VmStatus::Ready,
            vm@.state.env == realm.environment@,
            vm@.state.regs.len() == REGISTER_COUNT as int,
            forall|i: int| 0 <= i < REGISTER_COUNT as int ==> vm@.state.regs[i] == Value::Undefined,
    {
        let mut regs: Vec<Value> = Vec::new();
        let mut i: usize = 0;
        while i < REGISTER_COUNT
            invariant
                i <= REGISTER_COUNT,
                regs@.len() == i as int,
                forall|j: int| 0 <= j < i as int ==> regs@[j] == Value::Undefined,
            decreases REGISTER_COUNT - i,
        {
            regs.push(Value::Undefined);
            i += 1;
        }
        VM { realm, regs, status: VmStatus::Ready }
    }

    /// The current content of one register slot, for inspection.
    pub fn register(&self, i: usize) -> (v: Value)
        requires
            self.wf(),
            i < REGISTER_COUNT,
        ensures
            v == self@.state.regs[i as int],
    {
        self.regs[i]
    }

    /// The current execution status.
    pub fn status(&self) -> (s: VmStatus)
        ensures
            s == self@.status,
    {
        self.status
    }

    /// The realm this machine executes in.
    pub fn realm(&self) -> (r: &Realm)
        requires
            self.wf(),
        ensures
            r.environment.wf(),
            r.environment@ == self@.state.env,
    {
        &self.realm
    }

    /// Resets a register slot to "undefined" and returns its previous
    /// content.
    fn clear(&mut self, reg: Reg) -> (v: Value)
        requires
            0 <= reg@ < old(self).regs@.len(),
        ensures
            v == old(self).regs@[reg@],
            final(self).regs@ == old(self).regs@.update(reg@, Value::Undefined),
            final(self).realm == old(self).realm,
            final(self).status == old(self).status,
    {
        let i = reg.index() as usize;
        let v = self.regs[i];
        self.regs[i] = Value::Undefined;
        v
    }

    /// Executes the instruction sequence, strictly in order, and returns
    /// the content of register 0 on normal completion or the first fault.
    /// Execution picks up the register file as the previous run left it:
    /// a compiled program is rerunnable, not consumed.  A faulted machine
    /// is terminal and must not be resumed.
    pub fn run(&mut self, instrs: &[In]) -> (r: Result<Value, RuntimeFault>)
        requires
            old(self).wf(),
            old(self)@.status !is Faulted,
        ensures
            final(self).wf(),
            ({
                let out = run_spec(old(self)@.state, views_of(instrs@), 0);
                match out {
                    RunOutcome::Done { state } => r is Ok && r->Ok_0 == state.regs[0]
                        && final(self)@.state == state
                        && final(self)@.status == VmStatus::Completed,
                    RunOutcome::Fault { at, opcode, kind, state } => r == Err::<
                        Value,
                        RuntimeFault,
                    >(RuntimeFault { at: at as usize, opcode, kind }) && final(self)@.state == state
                        && final(self)@.status == VmStatus::Faulted,
                }
            }),
    {
        let ghost code = views_of(instrs@);
        let ghost s0 = self@.state;
        let mut idx: usize = 0;
        while idx < instrs.len()
            invariant
                self.wf(),
                idx <= instrs@.len(),
                s0 == old(self)@.state,
                code == views_of(instrs@),
                run_spec(s0, code, 0) == run_spec(self@.state, code, idx as int),
                self@.status == old(self)@.status,
            decreases instrs@.len() - idx,
        {
            let ghost prev = self@.state;
            let instr = &instrs[idx];
            proof {
                assert(code[idx as int] == instrs@[idx as int]@);
            }
            match instr {
                In::Ld(r, v) => {
                    let ri = r.index();
                    if (ri as usize) < REGISTER_COUNT {
                        self.regs[ri as usize] = *v;
                        proof {
                            assert(step_spec(prev, code[idx as int]) == StepResult::Next(
                                self@.state,
                            ));
                        }
                    } else {
                        self.status = VmStatus::Faulted;
                        proof {
                            assert(run_spec(prev, code, idx as int) == RunOutcome::Fault {
                                at: idx as int,
                                opcode: Opcode::Ld,
                                kind: FaultKind::InvalidRegister(ri),
                                state: prev,
                            });
                        }
                        return Err(
                            RuntimeFault {
                                at: idx,
                                opcode: Opcode::Ld,
                                kind: FaultKind::InvalidRegister(ri),
                            },
                        );
                    }
                },
                In::Add { dest, src } => {
                    let di = dest.index();
                    let si = src.index();
                    if (di as usize) < REGISTER_COUNT && (si as usize) < REGISTER_COUNT {
                        let a = self.clear(*dest);
                        let b = self.clear(*src);
                        let res = a.add(b);
                        self.regs[di as usize] = res;
                        proof {
                            assert(step_spec(prev, code[idx as int]) == StepResult::Next(
                                self@.state,
                            ));
                        }
                    } else {
                        let bad = if (di as usize) < REGISTER_COUNT {
                            si
                        } else {
                            di
                        };
                        self.status = VmStatus::Faulted;
                        proof {
                            assert(run_spec(prev, code, idx as int) == RunOutcome::Fault {
                                at: idx as int,
                                opcode: Opcode::Add,
                                kind: FaultKind::InvalidRegister(bad),
                                state: prev,
                            });
                        }
                        return Err(
                            RuntimeFault {
                                at: idx,
                                opcode: Opcode::Add,
                                kind: FaultKind::InvalidRegister(bad),
                            },
                        );
                    }
                },
                In::Bind(r, ident) => {
                    let ri = r.index();
                    if (ri as usize) < REGISTER_COUNT {
                        let val = self.clear(*r);
                        if self.realm.environment.has_binding(ident) {
                            match self.realm.environment.set_mutable_binding(ident, val, true) {
                                Ok(()) => {
                                    proof {
                                        assert(step_spec(prev, code[idx as int])
                                            == StepResult::Next(self@.state));
                                    }
                                },
                                Err(_) => {
                                    self.status = VmStatus::Faulted;
                                    proof {
                                        assert(run_spec(prev, code, idx as int)
                                            == RunOutcome::Fault {
                                            at: idx as int,
                                            opcode: Opcode::Bind,
                                            kind: FaultKind::EnvironmentBindingError,
                                            state: self@.state,
                                        });
                                    }
                                    return Err(
                                        RuntimeFault {
                                            at: idx,
                                            opcode: Opcode::Bind,
                                            kind: FaultKind::EnvironmentBindingError,
                                        },
                                    );
                                },
                            }
                        } else {
                            self.realm.environment.create_mutable_binding(
                                ident.clone(),
                                true,
                                VariableScope::Function,
                            );
                            self.realm.environment.initialize_binding(ident, val);
                            proof {
                                assert(prev.env.insert(
                                    ident@,
                                    BindingV { value: Value::Undefined, mutable: true },
                                ).insert(ident@, BindingV { value: val, mutable: true })
                                    =~= prev.env.insert(
                                    ident@,
                                    BindingV { value: val, mutable: true },
                                ));
                                assert(step_spec(prev, code[idx as int]) == StepResult::Next(
                                    self@.state,
                                ));
                            }
                        }
                    } else {
                        self.status = VmStatus::Faulted;
                        proof {
                            assert(run_spec(prev, code, idx as int) == RunOutcome::Fault {
                                at: idx as int,
                                opcode: Opcode::Bind,
                                kind: FaultKind::InvalidRegister(ri),
                                state: prev,
                            });
                        }
                        return Err(
                            RuntimeFault {
                                at: idx,
                                opcode: Opcode::Bind,
                                kind: FaultKind::InvalidRegister(ri),
                            },
                        );
                    }
                },
            }
            idx += 1;
        }
        self.status = VmStatus::Completed;
        let result = self.regs[0];
        Ok(result)
    }
}

} // verus!
