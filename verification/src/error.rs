//! The ways in which evaluation and rendering fail.

use vstd::prelude::*;

verus! {

/// Where a value of the wrong kind turned up.
#[derive(Clone, Copy, Debug, PartialEq, Eq, Structural)]
pub enum Operation {
    /// An operand of `+ - * /` or of a comparison that is no number.
    Arithmetic,
    /// A comparison in the place of a value.
    Comparison,
    /// The condition of `if` that is no comparison.
    Condition,
    /// The distance of `forward` or `back`.
    Distance,
    /// The angle of `left` or `right`.
    Angle,
    /// The colour of `setcolor`.
    Color,
    /// The height of `setlabelheight`.
    LabelHeight,
    /// The count of `repeat`.
    RepeatCount,
    /// The bound of `random`.
    RandomBound,
    /// The list of `pick`.
    PickList,
}

/// An error of evaluation. The first one ends the run.
#[derive(Debug, PartialEq, Eq)]
pub enum EvalError {
    /// A variable that the current activation does not bind.
    UnboundVariable(String),
    /// A call of a procedure that was never declared.
    UnknownProcedure(String),
    /// A call with more or fewer arguments than the declaration has parameters.
    WrongArgumentCount { name: String, expected: usize, found: usize },
    /// A value of the wrong kind.
    TypeMismatch(Operation),
    /// `repcount` outside every `repeat`.
    RepcountOutsideLoop,
    /// A division whose divisor is zero.
    DivisionByZero,
    /// A `repeat` count that is below zero or no number at all.
    InvalidCount,
    /// `random` of a bound that is not above zero, or `pick` of an empty list.
    EmptyRange,
    /// A heading or a turn that the arithmetic could not bring into one turn.
    AngleOutOfRange,
    /// Procedure calls nested deeper than the limit given to the run.
    RecursionLimit,
}

/// An error of the text of a program. Positions count characters from 0.
#[derive(Clone, Copy, Debug, PartialEq, Eq, Structural)]
pub enum SyntaxError {
    /// A character that begins no token.
    UnexpectedCharacter(usize),
    /// A numeric literal of more than 15 digits.
    NumberTooLong(usize),
    /// A token that cannot stand where it stands; the position is where the
    /// token begins.
    UnexpectedToken(usize),
    /// The text ends inside a procedure, a block, a list or an expression.
    UnexpectedEnd,
}

/// An error of rendering.
#[derive(Debug, PartialEq, Eq)]
pub enum RenderError {
    /// A canvas of size zero, or larger than `MAX_CANVAS`.
    InvalidSize(u32),
    /// A colour that the palette does not name.
    MalformedColor(String),
}

} // verus!
