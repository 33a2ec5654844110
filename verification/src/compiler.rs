//! The compiler: a depth-first walk of the syntax tree that allocates
//! registers with one stack-discipline cursor and emits bytecode.
//!
//! The cursor is passed explicitly as the "current base register" of each
//! subtree, so sibling subtrees can never alias a live register: a subtree
//! leaves its result in its base register, and everything above the base
//! is scratch space that is free again once the parent has consumed the
//! result.

use vstd::prelude::*;

use crate::ast::{BinaryOp, Decl, Literal, Node, NodeKind};
use crate::bytecode::{views_of, In, InV, Reg, REGISTER_COUNT};
use crate::value::{Value, MICROS_PER_UNIT};

verus! {

broadcast use crate::bytecode::lemma_views_of_push;

/// An error that aborts the compilation of one unit.
#[derive(Clone, Copy, Debug, PartialEq, Eq, Structural)]
pub enum CompileError {
    /// The unit holds a node kind outside the supported subset.
    UnsupportedConstruct(NodeKind),
    /// The unit needs more registers than the register file holds.
    RegisterOverflow,
}

/// The value a literal constant loads: whole numbers are scaled to
/// micro-units, fixed-point numbers already carry them.
pub open spec fn literal_value_spec(l: Literal) -> Value {
    match l {
        Literal::Int(i) => Value::Number(((i as int) * (MICROS_PER_UNIT as int)) as i64),
        Literal::Num(m) => Value::Number(m),
    }
}

/// The instruction sequence a node compiles to with its result in
/// register `base`, or the error that aborts the unit.
///
/// A literal loads into `base`.  A supported binary operation compiles
/// its left operand into `base`, its right operand into `base + 1`, and
/// consumes both with an `Add` whose destination is `base`; the cursor is
/// restored to `base` afterwards, so a parent sees exactly one register
/// used.  Any register that would reach the end of the register file is
/// reported as an overflow at compile time.
pub open spec fn compile_node(e: Node, base: int) -> Result<Seq<InV>, CompileError>
    decreases e, 0int,
{
    match e {
        Node::Const(l) => if base < REGISTER_COUNT as int {
            Ok(seq![InV::Ld { r: base, v: literal_value_spec(l) }])
        } else {
            Err(CompileError::RegisterOverflow)
        },
        Node::BinOp(op, l, r) => if op != BinaryOp::Add {
            Err(CompileError::UnsupportedConstruct(NodeKind::BinOp(op)))
        } else if base + 1 >= REGISTER_COUNT as int {
            Err(CompileError::RegisterOverflow)
        } else {
            match compile_node(*l, base) {
                Ok(li) => match compile_node(*r, base + 1) {
                    Ok(ri) => Ok(li + ri + seq![InV::Add { dest: base, src: base + 1 }]),
                    Err(err) => Err(err),
                },
                Err(err) => Err(err),
            }
        },
        Node::ConstDeclList(decls) => compile_decls(decls@, 0, base),
        Node::Block(nodes) => compile_block(nodes@, 0, base),
        Node::Ident(_) => Err(CompileError::UnsupportedConstruct(NodeKind::Ident)),
        Node::UnaryMinus(_) => Err(CompileError::UnsupportedConstruct(NodeKind::UnaryMinus)),
    }
}

/// The code for the declarations from index `i` on: each initializer is
/// compiled into the cursor register, which a `Bind` then consumes.
pub open spec fn compile_decls(decls: Seq<Decl>, i: int, base: int) -> Result<
    Seq<InV>,
    CompileError,
>
    decreases decls, decls.len() - i,
{
    if i < 0 || i >= decls.len() {
        Ok(Seq::empty())
    } else {
        match compile_node(decls[i].init, base) {
            Ok(init_code) => if base < REGISTER_COUNT as int {
                match compile_decls(decls, i + 1, base) {
                    Ok(rest) => Ok(
                        init_code + seq![InV::Bind { r: base, name: decls[i].name@ }] + rest,
                    ),
                    Err(err) => Err(err),
                }
            } else {
                Err(CompileError::RegisterOverflow)
            },
            Err(err) => Err(err),
        }
    }
}

/// The code for the block statements from index `i` on, each compiled at
/// the same cursor.
pub open spec fn compile_block(nodes: Seq<Node>, i: int, base: int) -> Result<
    Seq<InV>,
    CompileError,
>
    decreases nodes, nodes.len() - i,
{
    if i < 0 || i >= nodes.len() {
        Ok(Seq::empty())
    } else {
        match compile_node(nodes[i], base) {
            Ok(code) => match compile_block(nodes, i + 1, base) {
                Ok(rest) => Ok(code + rest),
                Err(err) => Err(err),
            },
            Err(err) => Err(err),
        }
    }
}

/// The value a literal constant loads.
pub fn literal_value(l: Literal) -> (v: Value)
    ensures
        v == literal_value_spec(l),
{
    match l {
        Literal::Int(i) => Value::Number((i as i64) * MICROS_PER_UNIT),
        Literal::Num(m) => Value::Number(m),
    }
}

/// The compiler.  It accumulates the emitted instructions of the unit
/// being compiled; its view is that sequence of instructions.
pub struct Compiler {
    res: Vec<In>,
}

impl View for Compiler {
    type V = Seq<InV>;

    closed spec fn view(&self) -> Seq<InV> {
        views_of(self.res@)
    }
}

impl Compiler {
    /// A fresh compiler with nothing emitted yet.
    pub fn new() -> (c: Compiler)
        ensures
            c@ == Seq::<InV>::empty(),
    {
        let c = Compiler { res: Vec::new() };
        proof {
            assert(c@ =~= Seq::<InV>::empty());
        }
        c
    }

    /// Compiles one unit, deterministically: the result is exactly what
    /// [`compile_node`] states for the unit's root at cursor 0, and an
    /// unsupported construct or a register overflow surfaces as a typed
    /// error, never as an abort.
    pub fn compile(&mut self, expr: &Node) -> (r: Result<Vec<In>, CompileError>)
        ensures
            final(self)@ == Seq::<InV>::empty(),
            match r {
                Ok(instrs) => compile_node(*expr, 0) == Ok::<Seq<InV>, CompileError>(
                    views_of(instrs@),
                ),
                Err(err) => compile_node(*expr, 0) == Err::<Seq<InV>, CompileError>(err),
            },
    {
        self.res = Vec::new();
        proof {
            assert(self@ =~= Seq::<InV>::empty());
        }
        match self.compile_at(expr, 0) {
            Ok(()) => {
                let mut instrs: Vec<In> = Vec::new();
                core::mem::swap(&mut instrs, &mut self.res);
                proof {
                    assert(self@ =~= Seq::<InV>::empty());
                    assert(views_of(instrs@) =~= Seq::<InV>::empty() + views_of(instrs@));
                }
                Ok(instrs)
            },
            Err(err) => {
                self.res = Vec::new();
                proof {
                    assert(self@ =~= Seq::<InV>::empty());
                }
                Err(err)
            },
        }
    }

    /// Compiles one subtree with its result in register `base`, appending
    /// the emitted code.
    fn compile_at(&mut self, e: &Node, base: u8) -> (r: Result<(), CompileError>)
        ensures
            match r {
                Ok(()) => compile_node(*e, base as int) is Ok && final(self)@ == old(self)@
                    + compile_node(*e, base as int)->Ok_0,
                Err(err) => compile_node(*e, base as int) == Err::<Seq<InV>, CompileError>(err),
            },
        decreases *e, 0int,
    {
        match e {
            Node::Const(l) => {
                if (base as usize) < REGISTER_COUNT {
                    self.res.push(In::Ld(Reg::new(base), literal_value(*l)));
                    proof {
                        assert(final(self)@ =~= old(self)@ + compile_node(
                            *e,
                            base as int,
                        )->Ok_0);
                    }
                    Ok(())
                } else {
                    Err(CompileError::RegisterOverflow)
                }
            },
            Node::BinOp(op, l, r) => {
                if *op != BinaryOp::Add {
                    Err(CompileError::UnsupportedConstruct(NodeKind::BinOp(*op)))
                } else if (base as usize) + 1 >= REGISTER_COUNT {
                    Err(CompileError::RegisterOverflow)
                } else {
                    match self.compile_at(&**l, base) {
                        Ok(()) => {},
                        Err(err) => {
                            return Err(err);
                        },
                    }
                    match self.compile_at(&**r, base + 1) {
                        Ok(()) => {},
                        Err(err) => {
                            return Err(err);
                        },
                    }
                    self.res.push(In::Add { dest: Reg::new(base), src: Reg::new(base + 1) });
                    proof {
                        let s0 = old(self)@;
                        let li = compile_node(**l, base as int)->Ok_0;
                        let ri = compile_node(**r, base as int + 1)->Ok_0;
                        let tail = seq![InV::Add { dest: base as int, src: base as int + 1 }];
                        assert(compile_node(*e, base as int) == Ok::<Seq<InV>, CompileError>(
                            li + ri + tail,
                        ));
                        assert(self@ =~= s0 + (li + ri + tail));
                    }
                    Ok(())
                }
            },
            Node::ConstDeclList(decls) => {
                let r = self.compile_decls_at(decls, 0, base);
                r
            },
            Node::Block(nodes) => {
                let r = self.compile_block_at(nodes, 0, base);
                r
            },
            Node::Ident(_) => Err(CompileError::UnsupportedConstruct(NodeKind::Ident)),
            Node::UnaryMinus(_) => Err(CompileError::UnsupportedConstruct(NodeKind::UnaryMinus)),
        }
    }

    /// Compiles the declarations from index `i` on, appending the emitted
    /// code.
    fn compile_decls_at(&mut self, decls: &Vec<Decl>, i: usize, base: u8) -> (r: Result<
        (),
        CompileError,
    >)
        ensures
            match r {
                Ok(()) => compile_decls(decls@, i as int, base as int) is Ok && final(self)@ == old(
                    self,
                )@ + compile_decls(decls@, i as int, base as int)->Ok_0,
                Err(err) => compile_decls(decls@, i as int, base as int) == Err::<
                    Seq<InV>,
                    CompileError,
                >(err),
            },
        decreases decls@, decls@.len() - i,
    {
        if i >= decls.len() {
            proof {
                assert(final(self)@ =~= old(self)@ + Seq::<InV>::empty());
            }
            return Ok(());
        }
        let d = &decls[i];
        match self.compile_at(&d.init, base) {
            Ok(()) => {},
            Err(err) => {
                return Err(err);
            },
        }
        if (base as usize) >= REGISTER_COUNT {
            return Err(CompileError::RegisterOverflow);
        }
        self.res.push(In::Bind(Reg::new(base), d.name.clone()));
        match self.compile_decls_at(decls, i + 1, base) {
            Ok(()) => {
                proof {
                    let s0 = old(self)@;
                    let init_code = compile_node(decls@[i as int].init, base as int)->Ok_0;
                    let bind = seq![InV::Bind { r: base as int, name: decls@[i as int].name@ }];
                    let rest = compile_decls(decls@, i as int + 1, base as int)->Ok_0;
                    assert(compile_decls(decls@, i as int, base as int) == Ok::<
                        Seq<InV>,
                        CompileError,
                    >(init_code + bind + rest));
                    assert(self@ =~= s0 + (init_code + bind + rest));
                }
                Ok(())
            },
            Err(err) => Err(err),
        }
    }

    /// Compiles the block statements from index `i` on, appending the
    /// emitted code.
    fn compile_block_at(&mut self, nodes: &Vec<Node>, i: usize, base: u8) -> (r: Result<
        (),
        CompileError,
    >)
        ensures
            match r {
                Ok(()) => compile_block(nodes@, i as int, base as int) is Ok && final(self)@ == old(
                    self,
                )@ + compile_block(nodes@, i as int, base as int)->Ok_0,
                Err(err) => compile_block(nodes@, i as int, base as int) == Err::<
                    Seq<InV>,
                    CompileError,
                >(err),
            },
        decreases nodes@, nodes@.len() - i,
    {
        if i >= nodes.len() {
            proof {
                assert(final(self)@ =~= old(self)@ + Seq::<InV>::empty());
            }
            return Ok(());
        }
        match self.compile_at(&nodes[i], base) {
            Ok(()) => {},
            Err(err) => {
                return Err(err);
            },
        }
        match self.compile_block_at(nodes, i + 1, base) {
            Ok(()) => {
                proof {
                    let s0 = old(self)@;
                    let code = compile_node(nodes@[i as int], base as int)->Ok_0;
                    let rest = compile_block(nodes@, i as int + 1, base as int)->Ok_0;
                    assert(compile_block(nodes@, i as int, base as int) == Ok::<
                        Seq<InV>,
                        CompileError,
                    >(code + rest));
                    assert(self@ =~= s0 + (code + rest));
                }
                Ok(())
            },
            Err(err) => Err(err),
        }
    }
}

} // verus!
