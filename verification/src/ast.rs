//! The syntax tree of a program: passive data, as a parser hands it over.

use crate::number::Number;
use vstd::prelude::*;

verus! {

/// The operators that join two expressions.
#[derive(Clone, Copy, Debug, PartialEq, Eq, Structural)]
pub enum BinaryOp {
    Add,
    Sub,
    Mul,
    Div,
    Less,
    Greater,
    Equal,
}

impl BinaryOp {
    /// The comparisons give a truth value, which only `if` takes.
    pub open spec fn is_comparison(self) -> bool {
        self is Less || self is Greater || self is Equal
    }

    /// Whether the operator is `<`, `>` or `=`.
    pub fn compares(self) -> (r: bool)
        ensures
            r == self.is_comparison(),
    {
        match self {
            BinaryOp::Less | BinaryOp::Greater | BinaryOp::Equal => true,
            _ => false,
        }
    }
}

/// What evaluates to a value.
#[derive(Debug, PartialEq, Eq)]
pub enum Expression {
    /// A numeric literal.
    Number(Number),
    /// A word, such as the name of a colour.
    Word(String),
    /// A list literal; its items are evaluated from left to right.
    List(Vec<Expression>),
    /// `:name`
    Variable(String),
    Binary(BinaryOp, Box<Expression>, Box<Expression>),
    /// `random n`
    Random(Box<Expression>),
    /// `pick list`
    Pick(Box<Expression>),
    /// `repcount`
    RepCount,
}

/// What a program does, one step at a time. A block is a vector of
/// instructions, owned by the `repeat` or the `if` that runs it.
#[derive(Debug, PartialEq, Eq)]
pub enum Instruction {
    Forward(Expression),
    Back(Expression),
    Left(Expression),
    Right(Expression),
    PenUp,
    PenDown,
    ShowTurtle,
    HideTurtle,
    SetColor(Expression),
    SetLabelHeight(Expression),
    ClearScreen,
    Window,
    Repeat(Expression, Vec<Instruction>),
    If(Expression, Vec<Instruction>),
    Stop,
    Wait(Expression),
    Label(String),
    Call(String, Vec<Expression>),
}

/// `TO name :p1 :p2 ... body END`
#[derive(Debug, PartialEq, Eq)]
pub struct FuncDeclaration {
    pub name: String,
    pub parameters: Vec<String>,
    pub body: Vec<Instruction>,
}

/// A whole program: the instructions outside any procedure, and the
/// procedures in the order of their declaration.
#[derive(Debug, PartialEq, Eq)]
pub struct Logo {
    pub instructions: Vec<Instruction>,
    pub functions: Vec<FuncDeclaration>,
}

} // verus!
