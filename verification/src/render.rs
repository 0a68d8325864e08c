//! The renderer: from an effect log to the shapes of a square canvas.
//!
//! The turtle's origin is the centre of the canvas and its y axis points up;
//! on the canvas y grows downwards. A point `(x, y)` of the turtle is the
//! point `(size / 2 + x, size / 2 - y)` of the canvas.

use crate::error::RenderError;
use crate::number::Number;
use crate::turtle::{Color, Effect, Point};
use vstd::prelude::*;
use vstd::string::StringExecFns;

verus! {

/// The largest canvas: sizes are taken up to the largest `i32`.
pub const MAX_CANVAS: u32 = 0x7FFF_FFFF;

/// The pattern of 0.5.
pub const HALF_BITS: u64 = 0x3FE0_0000_0000_0000;

/// A colour of the canvas.
#[derive(Clone, Copy, Debug, PartialEq, Eq, Structural)]
pub struct Rgb {
    pub red: u8,
    pub green: u8,
    pub blue: u8,
}

/// One shape of the canvas, in canvas coordinates.
#[derive(Debug, PartialEq, Eq)]
pub enum Shape {
    Stroke { from: Point, to: Point, color: Rgb },
    Text { at: Point, height: Number, text: String, color: Rgb },
}

/// A canvas of `size` by `size` and its shapes, the earliest first: a later
/// shape lies over an earlier one.
#[derive(Debug, PartialEq, Eq)]
pub struct Document {
    pub size: u32,
    pub shapes: Vec<Shape>,
}

/// The colour of three parts.
pub open spec fn rgb(red: u8, green: u8, blue: u8) -> Rgb {
    Rgb { red, green, blue }
}

/// The colours that have a name.
pub open spec fn palette(name: Seq<char>) -> Option<Rgb> {
    if name == "black"@ {
        Some(rgb(0, 0, 0))
    } else if name == "white"@ {
        Some(rgb(255, 255, 255))
    } else if name == "red"@ {
        Some(rgb(255, 0, 0))
    } else if name == "orange"@ {
        Some(rgb(255, 165, 0))
    } else if name == "yellow"@ {
        Some(rgb(255, 255, 0))
    } else if name == "green"@ {
        Some(rgb(0, 128, 0))
    } else if name == "blue"@ {
        Some(rgb(0, 0, 255))
    } else if name == "violet"@ {
        Some(rgb(238, 130, 238))
    } else if name == "purple"@ {
        Some(rgb(128, 0, 128))
    } else if name == "cyan"@ {
        Some(rgb(0, 255, 255))
    } else if name == "magenta"@ {
        Some(rgb(255, 0, 255))
    } else if name == "pink"@ {
        Some(rgb(255, 192, 203))
    } else if name == "brown"@ {
        Some(rgb(165, 42, 42))
    } else if name == "grey"@ || name == "gray"@ {
        Some(rgb(128, 128, 128))
    } else {
        None
    }
}

/// The colour on the canvas; the colour of a fresh turtle is black. A name
/// outside the palette is malformed.
pub open spec fn resolved(color: Color) -> Result<Rgb, RenderError> {
    match color {
        Color::Default => Ok(rgb(0, 0, 0)),
        Color::Named(name) => match palette(name@) {
            Some(c) => Ok(c),
            None => Err(RenderError::MalformedColor(name)),
        },
    }
}

/// Half the size: the canvas coordinate of the turtle's origin.
pub open spec fn centre(size: u32) -> Number {
    Number::index_spec(size as u64).times_spec(Number { bits: HALF_BITS })
}

/// The place on the canvas of a point of the turtle.
pub open spec fn placed(p: Point, size: u32) -> Point {
    Point { x: centre(size).plus_spec(p.x), y: centre(size).minus_spec(p.y) }
}

/// The canvas while the log is read: the shapes so far, and the colour in
/// which the next label is written.
pub struct Canvas {
    pub shapes: Seq<Shape>,
    pub ink: Rgb,
}

/// The canvas after one more effect.
pub open spec fn painted(canvas: Canvas, effect: Effect, size: u32) -> Result<Canvas, RenderError> {
    match effect {
        Effect::Line { from, to, color } => match resolved(color) {
            Err(err) => Err(err),
            Ok(c) => Ok(
                Canvas {
                    shapes: canvas.shapes.push(
                        Shape::Stroke { from: placed(from, size), to: placed(to, size), color: c },
                    ),
                    ..canvas
                },
            ),
        },
        Effect::ColorChange(color) => match resolved(color) {
            Err(err) => Err(err),
            Ok(c) => Ok(Canvas { ink: c, ..canvas }),
        },
        Effect::Label { text, position, height } => Ok(
            Canvas {
                shapes: canvas.shapes.push(
                    Shape::Text { at: placed(position, size), height, text, color: canvas.ink },
                ),
                ..canvas
            },
        ),
        Effect::Visibility(_) => Ok(canvas),
        Effect::Clear => Ok(Canvas { shapes: Seq::empty(), ink: rgb(0, 0, 0) }),
    }
}

/// The canvas after the first `upto` effects, or the first error in them.
pub open spec fn canvas_after(effects: Seq<Effect>, upto: nat, size: u32) -> Result<
    Canvas,
    RenderError,
>
    decreases upto,
{
    if upto == 0 || upto > effects.len() {
        Ok(Canvas { shapes: Seq::empty(), ink: rgb(0, 0, 0) })
    } else {
        match canvas_after(effects, (upto - 1) as nat, size) {
            Err(err) => Err(err),
            Ok(canvas) => painted(canvas, effects[upto - 1], size),
        }
    }
}

/// The shapes that a log comes to on a canvas of `size`. A size of zero or
/// beyond `MAX_CANVAS` is refused before the log is read.
pub open spec fn rendering(effects: Seq<Effect>, size: u32) -> Result<Seq<Shape>, RenderError> {
    if size == 0 || size > MAX_CANVAS {
        Err(RenderError::InvalidSize(size))
    } else {
        match canvas_after(effects, effects.len(), size) {
            Err(err) => Err(err),
            Ok(canvas) => Ok(canvas.shapes),
        }
    }
}

/// An error among the first effects stays the result, however many more
/// effects follow.
pub proof fn first_malformed_stays(effects: Seq<Effect>, k: nat, upto: nat, size: u32)
    requires
        k <= upto <= effects.len(),
        canvas_after(effects, k, size) is Err,
    ensures
        canvas_after(effects, upto, size) == canvas_after(effects, k, size),
    decreases upto,
{
    if k < upto {
        first_malformed_stays(effects, k, (upto - 1) as nat, size);
    }
}

/// What is drawn stays drawn, under what comes later: an effect that is no
/// clearing of the screen keeps the shapes before it, in their order, and
/// adds at most one shape after them. A marker of the turtle's visibility
/// adds none.
pub proof fn later_shapes_lie_on_top(effects: Seq<Effect>, k: nat, size: u32)
    requires
        k < effects.len(),
        !(effects[k as int] is Clear),
        canvas_after(effects, k + 1, size) is Ok,
    ensures
        canvas_after(effects, k, size) is Ok,
        ({
            let before = canvas_after(effects, k, size)->Ok_0.shapes;
            let after = canvas_after(effects, k + 1, size)->Ok_0.shapes;
            &&& before.len() <= after.len() <= before.len() + 1
            &&& after.subrange(0, before.len() as int) == before
            &&& effects[k as int] is Visibility ==> after == before
        }),
{
    let before = canvas_after(effects, k, size)->Ok_0.shapes;
    let after = canvas_after(effects, k + 1, size)->Ok_0.shapes;
    assert(after.subrange(0, before.len() as int) =~= before);
}

fn names(name: &String, word: &str) -> (r: bool)
    ensures
        r == (name@ == word@),
{
    let w = String::from_str(word);
    *name == w
}

fn lookup(name: &String) -> (r: Option<Rgb>)
    ensures
        r == palette(name@),
{
    if names(name, "black") {
        Some(Rgb { red: 0, green: 0, blue: 0 })
    } else if names(name, "white") {
        Some(Rgb { red: 255, green: 255, blue: 255 })
    } else if names(name, "red") {
        Some(Rgb { red: 255, green: 0, blue: 0 })
    } else if names(name, "orange") {
        Some(Rgb { red: 255, green: 165, blue: 0 })
    } else if names(name, "yellow") {
        Some(Rgb { red: 255, green: 255, blue: 0 })
    } else if names(name, "green") {
        Some(Rgb { red: 0, green: 128, blue: 0 })
    } else if names(name, "blue") {
        Some(Rgb { red: 0, green: 0, blue: 255 })
    } else if names(name, "violet") {
        Some(Rgb { red: 238, green: 130, blue: 238 })
    } else if names(name, "purple") {
        Some(Rgb { red: 128, green: 0, blue: 128 })
    } else if names(name, "cyan") {
        Some(Rgb { red: 0, green: 255, blue: 255 })
    } else if names(name, "magenta") {
        Some(Rgb { red: 255, green: 0, blue: 255 })
    } else if names(name, "pink") {
        Some(Rgb { red: 255, green: 192, blue: 203 })
    } else if names(name, "brown") {
        Some(Rgb { red: 165, green: 42, blue: 42 })
    } else if names(name, "grey") || names(name, "gray") {
        Some(Rgb { red: 128, green: 128, blue: 128 })
    } else {
        None
    }
}

/// Finds the colour of the canvas for a colour of the turtle.
pub fn resolve(color: &Color) -> (r: Result<Rgb, RenderError>)
    ensures
        r == resolved(*color),
{
    match color {
        Color::Default => Ok(Rgb { red: 0, green: 0, blue: 0 }),
        Color::Named(name) => match lookup(name) {
            Some(c) => Ok(c),
            None => Err(RenderError::MalformedColor(name.clone())),
        },
    }
}

fn place(p: Point, centre: Number) -> (r: Point)
    ensures
        r == (Point { x: centre.plus_spec(p.x), y: centre.minus_spec(p.y) }),
{
    Point { x: centre.plus(p.x), y: centre.minus(p.y) }
}

/// Lays a log out on a canvas of `size` by `size`. The log is left as it is;
/// the shapes keep the order of the effects.
pub fn render(effects: &Vec<Effect>, size: u32) -> (r: Result<Document, RenderError>)
    ensures
        match r {
            Ok(document) => document.size == size && rendering(effects@, size) == Ok::<
                Seq<Shape>,
                RenderError,
            >(document.shapes@),
            Err(err) => rendering(effects@, size) == Err::<Seq<Shape>, RenderError>(err),
        },
{
    if size == 0 || size > MAX_CANVAS {
        return Err(RenderError::InvalidSize(size));
    }
    let middle = Number::from_index(size as u64).times(Number::from_bits(HALF_BITS));
    let mut shapes: Vec<Shape> = Vec::new();
    let mut ink = Rgb { red: 0, green: 0, blue: 0 };
    let mut i: usize = 0;
    while i < effects.len()
        invariant
            i <= effects.len(),
            0 < size <= MAX_CANVAS,
            middle == centre(size),
            canvas_after(effects@, i as nat, size) == Ok::<Canvas, RenderError>(
                Canvas { shapes: shapes@, ink },
            ),
        decreases effects.len() - i,
    {
        let ghost before = Canvas { shapes: shapes@, ink };
        match &effects[i] {
            Effect::Line { from, to, color } => match resolve(color) {
                Ok(c) => {
                    shapes.push(
                        Shape::Stroke { from: place(*from, middle), to: place(*to, middle), color: c },
                    );
                },
                Err(err) => {
                    proof {
                        assert(canvas_after(effects@, (i + 1) as nat, size) is Err);
                        first_malformed_stays(effects@, (i + 1) as nat, effects@.len(), size);
                    }
                    return Err(err);
                },
            },
            Effect::ColorChange(color) => match resolve(color) {
                Ok(c) => {
                    ink = c;
                },
                Err(err) => {
                    proof {
                        assert(canvas_after(effects@, (i + 1) as nat, size) is Err);
                        first_malformed_stays(effects@, (i + 1) as nat, effects@.len(), size);
                    }
                    return Err(err);
                },
            },
            Effect::Label { text, position, height } => {
                shapes.push(
                    Shape::Text {
                        at: place(*position, middle),
                        height: *height,
                        text: text.clone(),
                        color: ink,
                    },
                );
            },
            Effect::Visibility(_) => {},
            Effect::Clear => {
                shapes = Vec::new();
                ink = Rgb { red: 0, green: 0, blue: 0 };
            },
        }
        proof {
            assert(painted(before, effects@[i as int], size) == Ok::<Canvas, RenderError>(
                Canvas { shapes: shapes@, ink },
            ));
        }
        i = i + 1;
    }
    Ok(Document { size, shapes })
}

} // verus!
