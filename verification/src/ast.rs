//! The tree-shaped program representation handed to the compiler.
//!
//! One closed tagged-variant type covers every node kind, so the compiler
//! is an exhaustive match: the kinds it supports are compiled, every other
//! kind is reported as an unsupported construct instead of aborting.

use vstd::prelude::*;

verus! {

/// A binary operator attached to a [`Node::BinOp`] node.  Only `Add` is in
/// the supported subset today; the register discipline generalizes to the
/// others without change once the instruction set grows.
#[derive(Clone, Copy, Debug, PartialEq, Eq, Structural)]
pub enum BinaryOp {
    Add,
    Sub,
    Mul,
    Div,
    Eq,
    Lt,
}

/// A literal constant, either a whole number or a fixed-point number
/// counted in micro-units (see [`crate::value::MICROS_PER_UNIT`]).
#[derive(Clone, Copy, Debug, PartialEq, Eq, Structural)]
pub enum Literal {
    /// A whole number, such as `7`.
    Int(i32),
    /// A fixed-point number in micro-units, so `1.1` is `Num(1_100_000)`.
    Num(i64),
}

/// The kind of a node, used to name a construct the compiler does not
/// support.  For a binary operation the kind carries the operator, since
/// support is decided per operator.
#[derive(Clone, Copy, Debug, PartialEq, Eq, Structural)]
pub enum NodeKind {
    Const,
    BinOp(BinaryOp),
    ConstDeclList,
    Block,
    Ident,
    UnaryMinus,
}

/// One binding of a declaration list: a name and its initializer.
#[derive(Debug)]
pub struct Decl {
    pub name: String,
    pub init: Node,
}

/// One node of the abstract syntax tree.
#[derive(Debug)]
pub enum Node {
    /// A literal constant.
    Const(Literal),
    /// A binary operation over a left and a right operand.
    BinOp(BinaryOp, Box<Node>, Box<Node>),
    /// A `const` declaration list, binding each initializer to a name.
    ConstDeclList(Vec<Decl>),
    /// A block of nodes, compiled in order.
    Block(Vec<Node>),
    /// An identifier reference; outside the supported subset.
    Ident(String),
    /// A unary negation; outside the supported subset.
    UnaryMinus(Box<Node>),
}

impl Node {
    /// The kind tag of this node.
    pub open spec fn kind_spec(&self) -> NodeKind {
        match self {
            Node::Const(_) => NodeKind::Const,
            Node::BinOp(op, _, _) => NodeKind::BinOp(*op),
            Node::ConstDeclList(_) => NodeKind::ConstDeclList,
            Node::Block(_) => NodeKind::Block,
            Node::Ident(_) => NodeKind::Ident,
            Node::UnaryMinus(_) => NodeKind::UnaryMinus,
        }
    }

    /// The kind tag of this node.
    pub fn kind(&self) -> (k: NodeKind)
        ensures
            k == self.kind_spec(),
    {
        match self {
            Node::Const(_) => NodeKind::Const,
            Node::BinOp(op, _, _) => NodeKind::BinOp(*op),
            Node::ConstDeclList(_) => NodeKind::ConstDeclList,
            Node::Block(_) => NodeKind::Block,
            Node::Ident(_) => NodeKind::Ident,
            Node::UnaryMinus(_) => NodeKind::UnaryMinus,
        }
    }
}

} // verus!
