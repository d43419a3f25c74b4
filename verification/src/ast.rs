use vstd::prelude::*;

verus! {

/// The four arithmetic operators that may appear at a `BinaryOp` node.
///
/// Keeping the operators in a dedicated enum, rather than storing a general
/// token, makes invalid operators unrepresentable in the tree: the code
/// generator is total over every well-formed expression.
#[derive(Debug, Clone, Copy, PartialEq, Eq)]
pub enum Operator {
    /// `+`
    Plus,
    /// `-`
    Minus,
    /// `*`
    Star,
    /// `/`
    Slash,
}

/// Expression tree produced by the parser and consumed by the code generator.
///
/// A `BinaryOp` node owns both operands outright, so the tree is strict:
/// no sharing and no cycles.
#[derive(Debug, PartialEq, Eq)]
pub enum Expr {
    /// An integer literal.
    Number(i64),
    /// A binary operation over two sub-expressions.
    BinaryOp { op: Operator, left: Box<Expr>, right: Box<Expr> },
}

} // verus!
