//! From a program to the shapes of a canvas: the table of procedures is
//! built, the instructions run against a fresh turtle, and the log that they
//! leave is rendered.

use crate::ast::Logo;
use crate::error::{EvalError, RenderError, SyntaxError};
use crate::parser::{parse, parsed};
use crate::eval::{Environment, Scope};
use crate::random::Rng;
use crate::render::{render, rendering, Document, Shape};
use crate::run::{create_functions_map, declared, run, run_instructions, Outcome, World};
use crate::svg::{svg_of, to_svg};
use crate::turtle::Turtle;
use crate::value::Datum;
use vstd::prelude::*;

verus! {

/// Why a program gave no document.
#[derive(Debug, PartialEq, Eq)]
pub enum Failure {
    Syntax(SyntaxError),
    Evaluation(EvalError),
    Rendering(RenderError),
}

/// The world that a run starts in: a fresh turtle, an empty log, and the
/// generator at `seed`.
pub open spec fn fresh_world(seed: u64) -> World {
    World { turtle: Turtle::initial(), log: Seq::empty(), rng: Rng { state: seed } }
}

/// How the instructions of a program end, and the world that they leave.
pub open spec fn performance(logo: Logo, seed: u64, depth: nat) -> (Outcome, World) {
    run(
        logo.instructions@,
        Scope { variables: Map::<Seq<char>, Datum>::empty(), counter: None },
        declared(logo.functions@, logo.functions@.len()),
        depth,
        fresh_world(seed),
    )
}

/// The shapes that a program draws on a canvas of `size`, or the reason why
/// it draws none. An error of evaluation comes before one of rendering.
pub open spec fn interpretation(logo: Logo, size: u32, seed: u64, depth: nat) -> Result<
    Seq<Shape>,
    Failure,
> {
    let (outcome, w) = performance(logo, seed, depth);
    match outcome {
        Outcome::Failed(err) => Err(Failure::Evaluation(err)),
        _ => match rendering(w.log, size) {
            Ok(shapes) => Ok(shapes),
            Err(err) => Err(Failure::Rendering(err)),
        },
    }
}

/// Whether `r` is the document of `size` with the shapes that `expected`
/// holds, or the failure that it holds.
pub open spec fn delivers(
    r: Result<Document, Failure>,
    expected: Result<Seq<Shape>, Failure>,
    size: u32,
) -> bool {
    match r {
        Ok(document) => document.size == size && expected == Ok::<Seq<Shape>, Failure>(
            document.shapes@,
        ),
        Err(failure) => expected == Err::<Seq<Shape>, Failure>(failure),
    }
}

/// Runs a program and renders what it drew. `seed` starts the generator
/// behind `random` and `pick`; `depth` is how deep calls may nest.
pub fn interpret(logo: Logo, size: u32, seed: u64, depth: usize) -> (r: Result<Document, Failure>)
    ensures
        delivers(r, interpretation(logo, size, seed, depth as nat), size),
{
    let Logo { instructions, functions } = logo;
    let procedures = create_functions_map(functions);
    let env = Environment::new();
    let mut turtle = Turtle::new();
    let mut rng = Rng::seeded(seed);
    let effects = match run_instructions(&instructions, &env, &mut turtle, &procedures, &mut rng, depth) {
        Ok(effects) => effects,
        Err(err) => { return Err(Failure::Evaluation(err)); },
    };
    match render(&effects, size) {
        Ok(document) => Ok(document),
        Err(err) => Err(Failure::Rendering(err)),
    }
}

/// Reads a program, runs it and renders what it drew. A text that is no
/// program fails before anything runs; otherwise the result is that of
/// `interpret` on a tree that has the form that the text spells.
pub fn interpret_text(text: &str, size: u32, seed: u64, depth: usize) -> (r: Result<
    Document,
    Failure,
>)
    ensures
        match parsed(text@) {
            Err(err) => r == Err::<Document, Failure>(Failure::Syntax(err)),
            Ok(program) => exists|logo: Logo|
                logo@ == program && delivers(
                    r,
                    #[trigger] interpretation(logo, size, seed, depth as nat),
                    size,
                ),
        },
{
    match parse(text) {
        Err(err) => Err(Failure::Syntax(err)),
        Ok(logo) => {
            let ghost tree = logo;
            let r = interpret(logo, size, seed, depth);
            assert(delivers(r, interpretation(tree, size, seed, depth as nat), size));
            r
        },
    }
}


/// Reads a program, runs it, renders what it drew and writes the canvas as
/// SVG text: the text of the document that `interpret_text` gives.
pub fn interpret_to_svg(text: &str, size: u32, seed: u64, depth: usize) -> (r: Result<
    String,
    Failure,
>)
    ensures
        match parsed(text@) {
            Err(err) => r == Err::<String, Failure>(Failure::Syntax(err)),
            Ok(program) => exists|logo: Logo|
                logo@ == program && (match #[trigger] interpretation(
                    logo,
                    size,
                    seed,
                    depth as nat,
                ) {
                    Ok(shapes) => r is Ok && r->Ok_0@ == svg_of(size, shapes),
                    Err(failure) => r == Err::<String, Failure>(failure),
                }),
        },
{
    match interpret_text(text, size, seed, depth) {
        Ok(document) => Ok(to_svg(&document)),
        Err(failure) => Err(failure),
    }
}


} // verus!
