//! A turtle-graphics interpreter: programs of a small Logo dialect are
//! evaluated against a turtle, the strokes and labels that the turtle leaves are
//! recorded in an effect log, and the log is laid out on a square canvas.
//!
//! * `lexer` and `parser` read the text of a program into the tree of `ast`;
//!   `syntax` holds the mathematical form of the tree, over which the grammar
//!   is stated.
//! * `number` holds the numbers, `value` the values, `random` the generator
//!   behind `random` and `pick`.
//! * `eval` evaluates expressions, `turtle` moves the turtle, `run` runs
//!   instructions and procedures.
//! * `render` lays the effect log out on a canvas and `svg` writes the canvas
//!   as text; `interpreter` goes from a program to its canvas in one call.
//! * `laws` states what holds of every program.

pub mod ast;
pub mod error;
pub mod eval;
pub mod interpreter;
pub mod laws;
pub mod lexer;
pub mod number;
pub mod parser;
pub mod random;
pub mod render;
pub mod run;
pub mod svg;
pub mod syntax;
pub mod turtle;
pub mod value;
