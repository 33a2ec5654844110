//! The closed instruction set the compiler emits and the machine executes.

use vstd::prelude::*;

use crate::value::Value;

verus! {

/// How many registers the machine's register file holds.
pub const REGISTER_COUNT: usize = 8;

/// A register identifier: an index into the machine's register file.  It
/// only names a slot and carries no ownership of the slot's content.
#[derive(Clone, Copy, Debug, PartialEq, Eq, Structural)]
pub struct Reg(u8);

impl Reg {
    /// Names the register with the given index.
    pub fn new(index: u8) -> (r: Reg)
        ensures
            r@ == index as int,
    {
        Reg(index)
    }

    /// The index this register names.
    pub fn index(&self) -> (i: u8)
        ensures
            i as int == self@,
    {
        self.0
    }
}

impl View for Reg {
    type V = int;

    closed spec fn view(&self) -> int {
        self.0 as int
    }
}

/// One bytecode instruction.  Immutable once emitted.
#[derive(Clone, Debug, PartialEq)]
pub enum In {
    /// Loads a value into a register.
    Ld(Reg, Value),
    /// Consumes a register's value and binds it to an identifier in the
    /// active environment.
    Bind(Reg, String),
    /// Consumes the values of the destination and source registers, adds
    /// them, and stores the result in the destination register.
    Add { dest: Reg, src: Reg },
}

/// The opcode tag of an instruction, used when a fault names the
/// instruction it stopped on.
#[derive(Clone, Copy, Debug, PartialEq, Eq, Structural)]
pub enum Opcode {
    Ld,
    Bind,
    Add,
}

/// The mathematical shape of one instruction: register indices as
/// integers, the identifier as its character sequence.
pub enum InV {
    Ld { r: int, v: Value },
    Bind { r: int, name: Seq<char> },
    Add { dest: int, src: int },
}

impl View for In {
    type V = InV;

    open spec fn view(&self) -> InV {
        match self {
            In::Ld(r, v) => InV::Ld { r: r@, v: *v },
            In::Bind(r, name) => InV::Bind { r: r@, name: name@ },
            In::Add { dest, src } => InV::Add { dest: dest@, src: src@ },
        }
    }
}

impl InV {
    /// The opcode tag of this instruction.
    pub open spec fn opcode(self) -> Opcode {
        match self {
            InV::Ld { .. } => Opcode::Ld,
            InV::Bind { .. } => Opcode::Bind,
            InV::Add { .. } => Opcode::Add,
        }
    }
}

/// The views of a whole instruction sequence.
pub open spec fn views_of(s: Seq<In>) -> Seq<InV> {
    s.map_values(|i: In| i@)
}

/// Appending one instruction appends its view.
pub broadcast proof fn lemma_views_of_push(s: Seq<In>, x: In)
    ensures
        #[trigger] views_of(s.push(x)) == views_of(s) + seq![x@],
{
    assert(views_of(s.push(x)) =~= views_of(s) + seq![x@]);
}

} // verus!
