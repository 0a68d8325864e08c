//! The turtle: a position, a heading and a pen, and the transitions that the
//! instructions of motion and style make on them.
//!
//! Headings are degrees, counter-clockwise from straight up, kept in
//! `[0, 360)`: a turn to the left adds to the heading, a turn to the right
//! takes from it. The y axis points up and the x axis to the right: a turtle
//! that heads 0 and moves forward gains y, one that heads 270 gains x.

use crate::error::EvalError;
use crate::number::Number;
use vstd::prelude::*;

verus! {

/// The pattern of 360.0.
pub const FULL_TURN_BITS: u64 = 0x4076_8000_0000_0000;

/// The pattern of pi / 180.
pub const RADIANS_PER_DEGREE_BITS: u64 = 0x3F91_DF46_A252_9D39;

/// The pattern of 10.0, the height of labels until a program sets another.
pub const DEFAULT_LABEL_HEIGHT_BITS: u64 = 0x4024_0000_0000_0000;

/// A place, in the turtle's coordinates or in those of a canvas.
#[derive(Clone, Copy, Debug, PartialEq, Eq, Structural)]
pub struct Point {
    pub x: Number,
    pub y: Number,
}

/// A colour as a program names it. Whether the name is one of the palette is
/// found out when the log is rendered.
#[derive(Debug, PartialEq, Eq)]
pub enum Color {
    /// The colour of a fresh turtle.
    Default,
    Named(String),
}

impl Color {
    /// A copy of the colour.
    pub fn duplicate(&self) -> (r: Color)
        ensures
            r == *self,
    {
        match self {
            Color::Default => Color::Default,
            Color::Named(name) => Color::Named(name.clone()),
        }
    }
}

/// One recorded event of a run.
#[derive(Debug, PartialEq, Eq)]
pub enum Effect {
    /// A stroke, left by a move with the pen down.
    Line { from: Point, to: Point, color: Color },
    /// The colour from here on.
    ColorChange(Color),
    /// A text at the turtle's place.
    Label { text: String, position: Point, height: Number },
    /// The turtle was shown (`true`) or hidden.
    Visibility(bool),
    /// The screen was cleared: what was drawn before is gone.
    Clear,
}

/// The state of the turtle.
#[derive(Debug, PartialEq, Eq)]
pub struct Turtle {
    pub position: Point,
    pub heading: Number,
    pub pen_down: bool,
    pub color: Color,
    pub visible: bool,
    pub label_height: Number,
}

/// 360.0
pub open spec fn full_turn() -> Number {
    Number { bits: FULL_TURN_BITS }
}

/// The heading in `[0, 360)` that `angle` degrees come to: `angle` less its
/// whole turns, brought up by a turn where that is below zero. `None` where
/// the arithmetic leaves the range (as it does for a NaN).
pub open spec fn normalized(angle: Number) -> Option<Number> {
    let quotient = Number { bits: crate::number::float_quotient(angle.bits, FULL_TURN_BITS) };
    match (Number { bits: quotient.magnitude() }).count_spec() {
        None => None,
        Some(n) => {
            let whole = Number::index_spec(n);
            let turns = if quotient.sign_set() {
                whole.negated()
            } else {
                whole
            };
            let rest = angle.minus_spec(turns.times_spec(full_turn()));
            let lifted = if rest.less_than_spec(Number::spec_zero()) {
                rest.plus_spec(full_turn())
            } else {
                rest
            };
            let lowered = if full_turn().at_most_spec(lifted) {
                lifted.minus_spec(full_turn())
            } else {
                lifted
            };
            if lowered.is_zero() {
                Some(Number::spec_zero())
            } else if lowered.bits < FULL_TURN_BITS {
                Some(lowered)
            } else {
                None
            }
        },
    }
}

/// Brings an angle into `[0, 360)`.
pub fn normalize(angle: Number) -> (r: Option<Number>)
    ensures
        r == normalized(angle),
        r matches Some(h) ==> h.bits < FULL_TURN_BITS,
{
    let full = Number::from_bits(FULL_TURN_BITS);
    let quotient = match angle.divided_by(full) {
        Some(q) => q,
        None => { return None; },
    };
    let count = match Number::from_bits(quotient.abs_bits()).to_count() {
        Some(n) => n,
        None => { return None; },
    };
    let whole = Number::from_index(count);
    let turns = if quotient.to_bits() >= crate::number::SIGN_BIT {
        whole.negate()
    } else {
        whole
    };
    let rest = angle.minus(turns.times(full));
    let lifted = if rest.less_than(Number::zero()) {
        rest.plus(full)
    } else {
        rest
    };
    let lowered = if full.at_most(lifted) {
        lifted.minus(full)
    } else {
        lifted
    };
    if lowered.has_zero_value() {
        Some(Number::zero())
    } else if lowered.to_bits() < FULL_TURN_BITS {
        Some(lowered)
    } else {
        None
    }
}

impl Turtle {
    /// The turtle of a fresh run: at the origin, heading up, pen down, shown.
    pub open spec fn initial() -> Turtle {
        Turtle {
            position: Point { x: Number::spec_zero(), y: Number::spec_zero() },
            heading: Number::spec_zero(),
            pen_down: true,
            color: Color::Default,
            visible: true,
            label_height: Number { bits: DEFAULT_LABEL_HEIGHT_BITS },
        }
    }

    /// The heading lies in `[0, 360)`.
    pub open spec fn well_formed(self) -> bool {
        self.heading.bits < FULL_TURN_BITS
    }

    /// Where a move of `distance` along the heading ends. `None` where the
    /// heading in radians is beyond what `sine` takes, which no heading in
    /// `[0, 360)` is expected to be.
    pub open spec fn target(self, distance: Number) -> Option<Point> {
        let radians = self.heading.times_spec(Number { bits: RADIANS_PER_DEGREE_BITS });
        if radians.within_trig_limit() {
            Some(
                Point {
                    x: self.position.x.minus_spec(distance.times_spec(radians.sine_spec())),
                    y: self.position.y.plus_spec(distance.times_spec(radians.cosine_spec())),
                },
            )
        } else {
            None
        }
    }

    /// The turtle at `to`, all else unchanged.
    pub open spec fn moved_to(self, to: Point) -> Turtle {
        Turtle { position: to, ..self }
    }

    /// The stroke that a move to `to` leaves: none while the pen is up.
    pub open spec fn stroke(self, to: Point) -> Option<Effect> {
        if self.pen_down {
            Some(Effect::Line { from: self.position, to, color: self.color })
        } else {
            None
        }
    }

    /// The heading after a turn of `degrees`, clockwise (to the right) or
    /// counter-clockwise.
    pub open spec fn turned(self, degrees: Number, clockwise: bool) -> Option<Number> {
        if clockwise {
            normalized(self.heading.minus_spec(degrees))
        } else {
            normalized(self.heading.plus_spec(degrees))
        }
    }

    /// The turtle of a fresh run.
    pub fn new() -> (r: Turtle)
        ensures
            r == Turtle::initial(),
            r.well_formed(),
    {
        Turtle {
            position: Point { x: Number::zero(), y: Number::zero() },
            heading: Number::zero(),
            pen_down: true,
            color: Color::Default,
            visible: true,
            label_height: Number::from_bits(DEFAULT_LABEL_HEIGHT_BITS),
        }
    }

    /// Moves `distance` along the heading and hands back the stroke, if the
    /// pen is down. On an error the turtle stays as it was.
    pub fn forward(&mut self, distance: Number) -> (r: Result<Option<Effect>, EvalError>)
        ensures
            match old(self).target(distance) {
                Some(to) => r == Ok::<Option<Effect>, EvalError>(old(self).stroke(to))
                    && *final(self) == old(self).moved_to(to),
                None => r == Err::<Option<Effect>, EvalError>(EvalError::AngleOutOfRange)
                    && *final(self) == *old(self),
            },
            !old(self).pen_down ==> !(r matches Ok(Some(_))),
            old(self).well_formed() ==> final(self).well_formed(),
    {
        let radians = self.heading.times(Number::from_bits(RADIANS_PER_DEGREE_BITS));
        let sine = match radians.sine() {
            Some(s) => s,
            None => { return Err(EvalError::AngleOutOfRange); },
        };
        let cosine = match radians.cosine() {
            Some(c) => c,
            None => { return Err(EvalError::AngleOutOfRange); },
        };
        let from = self.position;
        let to = Point {
            x: from.x.minus(distance.times(sine)),
            y: from.y.plus(distance.times(cosine)),
        };
        self.position = to;
        if self.pen_down {
            Ok(Some(Effect::Line { from, to, color: self.color.duplicate() }))
        } else {
            Ok(None)
        }
    }

    /// Moves `distance` against the heading: a move forward by `-distance`.
    pub fn back(&mut self, distance: Number) -> (r: Result<Option<Effect>, EvalError>)
        ensures
            match old(self).target(distance.negated()) {
                Some(to) => r == Ok::<Option<Effect>, EvalError>(old(self).stroke(to))
                    && *final(self) == old(self).moved_to(to),
                None => r == Err::<Option<Effect>, EvalError>(EvalError::AngleOutOfRange)
                    && *final(self) == *old(self),
            },
            !old(self).pen_down ==> !(r matches Ok(Some(_))),
            old(self).well_formed() ==> final(self).well_formed(),
    {
        self.forward(distance.negate())
    }

    /// Turns by `degrees`, clockwise or not, and keeps the heading in
    /// `[0, 360)`. On an error the turtle stays as it was.
    pub fn turn(&mut self, degrees: Number, clockwise: bool) -> (r: Result<(), EvalError>)
        ensures
            match old(self).turned(degrees, clockwise) {
                Some(h) => r == Ok::<(), EvalError>(()) && *final(self) == (Turtle {
                    heading: h,
                    ..*old(self)
                }) && final(self).well_formed(),
                None => r == Err::<(), EvalError>(EvalError::AngleOutOfRange) && *final(self)
                    == *old(self),
            },
            old(self).well_formed() ==> final(self).well_formed(),
    {
        let sum = if clockwise {
            self.heading.minus(degrees)
        } else {
            self.heading.plus(degrees)
        };
        match normalize(sum) {
            Some(h) => {
                self.heading = h;
                Ok(())
            },
            None => Err(EvalError::AngleOutOfRange),
        }
    }

    /// Puts the pen down or lifts it.
    pub fn set_pen(&mut self, down: bool)
        ensures
            *final(self) == (Turtle { pen_down: down, ..*old(self) }),
    {
        self.pen_down = down;
    }

    /// Shows or hides the turtle and hands back the marker for the log.
    pub fn set_visible(&mut self, visible: bool) -> (r: Effect)
        ensures
            *final(self) == (Turtle { visible, ..*old(self) }),
            r == Effect::Visibility(visible),
    {
        self.visible = visible;
        Effect::Visibility(visible)
    }

    /// Takes a new colour and hands back the marker for the log.
    pub fn set_color(&mut self, color: Color) -> (r: Effect)
        ensures
            *final(self) == (Turtle { color, ..*old(self) }),
            r == Effect::ColorChange(color),
    {
        let marker = Effect::ColorChange(color.duplicate());
        self.color = color;
        marker
    }

    /// Sets the height of the labels to come.
    pub fn set_label_height(&mut self, height: Number)
        ensures
            *final(self) == (Turtle { label_height: height, ..*old(self) }),
    {
        self.label_height = height;
    }

    /// The label of `text` at the turtle's place, in the current height.
    pub fn label(&self, text: String) -> (r: Effect)
        ensures
            r == (Effect::Label {
                text,
                position: self.position,
                height: self.label_height,
            }),
    {
        Effect::Label { text, position: self.position, height: self.label_height }
    }

    /// Back to the turtle of a fresh run; hands back the marker for the log.
    pub fn clear_screen(&mut self) -> (r: Effect)
        ensures
            *final(self) == Turtle::initial(),
            r == Effect::Clear,
    {
        *self = Turtle::new();
        Effect::Clear
    }
}

/// A well-formed turtle heads somewhere in `[0, 360)`, as numbers go.
pub proof fn heading_within_one_turn(turtle: Turtle)
    requires
        turtle.well_formed(),
    ensures
        Number::spec_zero().at_most_spec(turtle.heading),
        turtle.heading.less_than_spec(full_turn()),
{
}

} // verus!
