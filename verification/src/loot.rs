//! The reconstructed source language: literal data, primitive operations,
//! expressions, definitions, and whole programs.
//!
//! These types are the decompiler's output. They form a tree with exclusive
//! parent-to-child ownership, built once by the idiom matcher and handed to a
//! renderer unmodified.

use vstd::prelude::*;

verus! {

/// An identifier in the reconstructed source.
pub type Id = usize;

/// A literal datum of the source language.
#[derive(Debug, PartialEq, Eq)]
pub enum Datum {
    Integer(i64),
    Boolean(bool),
    Character(char),
    String(String),
}

/// A primitive operation together with its already-reconstructed operands.
/// The set is closed; each variant's arity is fixed.
#[derive(Debug, PartialEq, Eq)]
pub enum Operation {
    // Zero operands.
    ReadByte,
    PeekByte,
    Void,
    // One operand.
    Add1(Box<Expr>),
    Sub1(Box<Expr>),
    ZeroHuh(Box<Expr>),
    CharHuh(Box<Expr>),
    IntegerToChar(Box<Expr>),
    CharToInteger(Box<Expr>),
    WriteByte(Box<Expr>),
    EofObjectHuh(Box<Expr>),
    Box(Box<Expr>),
    Car(Box<Expr>),
    Cdr(Box<Expr>),
    Unbox(Box<Expr>),
    EmptyHuh(Box<Expr>),
    ConsHuh(Box<Expr>),
    BoxHuh(Box<Expr>),
    VectorHuh(Box<Expr>),
    VectorLength(Box<Expr>),
    StringHuh(Box<Expr>),
    StringLength(Box<Expr>),
    // Two operands.
    Plus(Box<Expr>, Box<Expr>),
    Sub(Box<Expr>, Box<Expr>),
    Less(Box<Expr>, Box<Expr>),
    Equal(Box<Expr>, Box<Expr>),
    EqHuh(Box<Expr>, Box<Expr>),
    Cons(Box<Expr>, Box<Expr>),
    MakeVector(Box<Expr>, Box<Expr>),
    VectorRef(Box<Expr>, Box<Expr>),
    MakeString(Box<Expr>, Box<Expr>),
    StringRef(Box<Expr>, Box<Expr>),
    // Three operands.
    VectorSetBang(Box<Expr>, Box<Expr>, Box<Expr>),
}

/// A pattern of a `match` form.
#[derive(Debug, PartialEq, Eq)]
pub enum Pattern {
    Var(Id),
    Literal(Datum),
    Box(Box<Pattern>),
    Cons(Box<Pattern>, Box<Pattern>),
    Conj(Box<Pattern>, Box<Pattern>),
}

/// An expression of the source language.
#[derive(Debug, PartialEq, Eq)]
pub enum Expr {
    Literal(Datum),
    Op(Operation),
    If(Box<Expr>, Box<Expr>, Box<Expr>),
    Begin(Box<Expr>, Box<Expr>),
    Let(Id, Box<Expr>, Box<Expr>),
    Var(Id),
    App(Box<Expr>, Vec<Expr>),
    Match(Box<Expr>, Vec<Pattern>, Vec<Expr>),
    Lam(Id, Vec<Id>, Box<Expr>),
    /// The matcher could not classify this region further. This is ordinary
    /// data, not an error: it marks an incomplete-but-valid fragment.
    Unknown,
}

/// A named top-level definition: name, parameter names, body.
#[derive(Debug, PartialEq, Eq)]
pub struct Defn(pub Id, pub Vec<Id>, pub Box<Expr>);

/// A whole reconstructed program: its definitions and its top-level expression.
#[derive(Debug, PartialEq, Eq)]
pub struct Program {
    pub defines: Vec<Defn>,
    pub expr: Box<Expr>,
}

} // verus!
