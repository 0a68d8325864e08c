//! Instructions: what a block does to the turtle, the effect log and the
//! generator, and the evaluator that does it.
//!
//! A block ends in one of three ways: it completes, it meets `stop`, or it
//! fails. `stop` ends the activation of the procedure that holds it and no
//! more: the call that started the activation completes.

use crate::ast::{Expression, FuncDeclaration, Instruction};
use crate::error::{EvalError, Operation};
use crate::eval::{
    evaluate_condition, evaluate_expression, evaluate_number, first_error_stays, number_of,
    truth_of, value_of, values_of, Environment, Scope,
};
use crate::number::Number;
use crate::random::Rng;
use crate::turtle::{Color, Effect, Turtle};
use crate::value::{Datum, Value};
use vstd::hash_map::StringHashMap;
use vstd::prelude::*;

verus! {

/// How a block ended.
#[derive(Debug, PartialEq, Eq)]
pub enum Outcome {
    Completed,
    /// `stop` was met; the rest of the activation is skipped.
    Stopped,
    Failed(EvalError),
}

/// All that a run changes.
pub struct World {
    pub turtle: Turtle,
    pub log: Seq<Effect>,
    pub rng: Rng,
}

impl World {
    /// The world with one more effect at the end of its log.
    pub open spec fn with_effect(self, effect: Effect) -> World {
        World { log: self.log.push(effect), ..self }
    }

    /// The world after a move to where `distance` along the heading leads.
    pub open spec fn after_move(self, distance: Number) -> (Outcome, World) {
        match self.turtle.target(distance) {
            None => (Outcome::Failed(EvalError::AngleOutOfRange), self),
            Some(to) => {
                let turtle = self.turtle.moved_to(to);
                match self.turtle.stroke(to) {
                    Some(line) => (Outcome::Completed, World { turtle, log: self.log.push(line), ..self }),
                    None => (Outcome::Completed, World { turtle, ..self }),
                }
            },
        }
    }

    /// The world after a turn.
    pub open spec fn after_turn(self, degrees: Number, clockwise: bool) -> (Outcome, World) {
        match self.turtle.turned(degrees, clockwise) {
            None => (Outcome::Failed(EvalError::AngleOutOfRange), self),
            Some(heading) => (
                Outcome::Completed,
                World { turtle: Turtle { heading, ..self.turtle }, ..self },
            ),
        }
    }
}

/// The colour that a value names.
pub open spec fn color_of(v: Datum) -> Result<Color, EvalError> {
    match v {
        Datum::Word(name) => Ok(Color::Named(name)),
        _ => Err(EvalError::TypeMismatch(Operation::Color)),
    }
}

/// The variables of an activation: the first `upto` parameters, each bound
/// to the argument at its position. Of two parameters of one name the later
/// one counts.
pub open spec fn bound(parameters: Seq<String>, arguments: Seq<Datum>, upto: nat) -> Map<
    Seq<char>,
    Datum,
>
    decreases upto,
{
    if upto == 0 || upto > parameters.len() || upto > arguments.len() {
        Map::empty()
    } else {
        bound(parameters, arguments, (upto - 1) as nat).insert(
            parameters[upto - 1]@,
            arguments[upto - 1],
        )
    }
}

/// The table of procedures that the first `upto` declarations make. Of two
/// declarations of one name the later one counts.
pub open spec fn declared(functions: Seq<FuncDeclaration>, upto: nat) -> Map<
    Seq<char>,
    FuncDeclaration,
>
    decreases upto,
{
    if upto == 0 || upto > functions.len() {
        Map::empty()
    } else {
        declared(functions, (upto - 1) as nat).insert(
            functions[upto - 1].name@,
            functions[upto - 1],
        )
    }
}

/// What a call leaves of the way its body ended: `stop` ends there.
pub open spec fn returned(outcome: Outcome) -> Outcome {
    match outcome {
        Outcome::Stopped => Outcome::Completed,
        other => other,
    }
}

/// What one instruction does. `depth` is how many calls may still nest.
pub open spec fn step(
    instruction: Instruction,
    scope: Scope,
    procedures: Map<Seq<char>, FuncDeclaration>,
    depth: nat,
    w: World,
) -> (Outcome, World)
    decreases depth, instruction, 0nat,
{
    match instruction {
        Instruction::Forward(e) => {
            let (d, rng) = number_of(e, scope, w.rng, Operation::Distance);
            match d {
                Err(err) => (Outcome::Failed(err), World { rng, ..w }),
                Ok(distance) => (World { rng, ..w }).after_move(distance),
            }
        },
        Instruction::Back(e) => {
            let (d, rng) = number_of(e, scope, w.rng, Operation::Distance);
            match d {
                Err(err) => (Outcome::Failed(err), World { rng, ..w }),
                Ok(distance) => (World { rng, ..w }).after_move(distance.negated()),
            }
        },
        Instruction::Left(e) => {
            let (a, rng) = number_of(e, scope, w.rng, Operation::Angle);
            match a {
                Err(err) => (Outcome::Failed(err), World { rng, ..w }),
                Ok(degrees) => (World { rng, ..w }).after_turn(degrees, false),
            }
        },
        Instruction::Right(e) => {
            let (a, rng) = number_of(e, scope, w.rng, Operation::Angle);
            match a {
                Err(err) => (Outcome::Failed(err), World { rng, ..w }),
                Ok(degrees) => (World { rng, ..w }).after_turn(degrees, true),
            }
        },
        Instruction::PenUp => (
            Outcome::Completed,
            World { turtle: Turtle { pen_down: false, ..w.turtle }, ..w },
        ),
        Instruction::PenDown => (
            Outcome::Completed,
            World { turtle: Turtle { pen_down: true, ..w.turtle }, ..w },
        ),
        Instruction::ShowTurtle => (
            Outcome::Completed,
            World {
                turtle: Turtle { visible: true, ..w.turtle },
                log: w.log.push(Effect::Visibility(true)),
                ..w
            },
        ),
        Instruction::HideTurtle => (
            Outcome::Completed,
            World {
                turtle: Turtle { visible: false, ..w.turtle },
                log: w.log.push(Effect::Visibility(false)),
                ..w
            },
        ),
        Instruction::SetColor(e) => {
            let (v, rng) = value_of(e, scope, w.rng);
            match v {
                Err(err) => (Outcome::Failed(err), World { rng, ..w }),
                Ok(d) => match color_of(d) {
                    Err(err) => (Outcome::Failed(err), World { rng, ..w }),
                    Ok(color) => (
                        Outcome::Completed,
                        World {
                            turtle: Turtle { color, ..w.turtle },
                            log: w.log.push(Effect::ColorChange(color)),
                            rng,
                        },
                    ),
                },
            }
        },
        Instruction::SetLabelHeight(e) => {
            let (h, rng) = number_of(e, scope, w.rng, Operation::LabelHeight);
            match h {
                Err(err) => (Outcome::Failed(err), World { rng, ..w }),
                Ok(height) => (
                    Outcome::Completed,
                    World { turtle: Turtle { label_height: height, ..w.turtle }, rng, ..w },
                ),
            }
        },
        Instruction::ClearScreen => (
            Outcome::Completed,
            World { turtle: Turtle::initial(), log: w.log.push(Effect::Clear), ..w },
        ),
        Instruction::Window => (Outcome::Completed, w),
        Instruction::Repeat(e, body) => {
            let (c, rng) = number_of(e, scope, w.rng, Operation::RepeatCount);
            match c {
                Err(err) => (Outcome::Failed(err), World { rng, ..w }),
                Ok(n) => match n.count_spec() {
                    None => (Outcome::Failed(EvalError::InvalidCount), World { rng, ..w }),
                    Some(count) => iterate(
                        body,
                        count as nat,
                        scope.variables,
                        procedures,
                        depth,
                        World { rng, ..w },
                    ),
                },
            }
        },
        Instruction::If(e, block) => {
            let (t, rng) = truth_of(e, scope, w.rng);
            match t {
                Err(err) => (Outcome::Failed(err), World { rng, ..w }),
                Ok(false) => (Outcome::Completed, World { rng, ..w }),
                Ok(true) => run_prefix(
                    block@,
                    block@.len(),
                    scope,
                    procedures,
                    depth,
                    World { rng, ..w },
                ),
            }
        },
        Instruction::Stop => (Outcome::Stopped, w),
        Instruction::Wait(_) => (Outcome::Completed, w),
        Instruction::Label(text) => (
            Outcome::Completed,
            w.with_effect(
                Effect::Label {
                    text,
                    position: w.turtle.position,
                    height: w.turtle.label_height,
                },
            ),
        ),
        Instruction::Call(name, arguments) => if !procedures.contains_key(name@) {
            (Outcome::Failed(EvalError::UnknownProcedure(name)), w)
        } else {
            let declaration = procedures[name@];
            if declaration.parameters.len() != arguments.len() {
                (
                    Outcome::Failed(
                        EvalError::WrongArgumentCount {
                            name,
                            expected: declaration.parameters.len(),
                            found: arguments.len(),
                        },
                    ),
                    w,
                )
            } else if depth == 0 {
                (Outcome::Failed(EvalError::RecursionLimit), w)
            } else {
                let (values, rng) = values_of(arguments@, arguments@.len(), scope, w.rng);
                match values {
                    Err(err) => (Outcome::Failed(err), World { rng, ..w }),
                    Ok(vs) => {
                        let callee = Scope {
                            variables: bound(declaration.parameters@, vs, vs.len()),
                            counter: scope.counter,
                        };
                        let (outcome, after) = run_prefix(
                            declaration.body@,
                            declaration.body@.len(),
                            callee,
                            procedures,
                            (depth - 1) as nat,
                            World { rng, ..w },
                        );
                        (returned(outcome), after)
                    },
                }
            }
        },
    }
}

/// What the first `upto` instructions of `block` do, one after the other.
/// The first that does not complete ends the block.
pub open spec fn run_prefix(
    block: Seq<Instruction>,
    upto: nat,
    scope: Scope,
    procedures: Map<Seq<char>, FuncDeclaration>,
    depth: nat,
    w: World,
) -> (Outcome, World)
    decreases depth, block, upto,
{
    if upto == 0 || upto > block.len() {
        (Outcome::Completed, w)
    } else {
        let (before, mid) = run_prefix(block, (upto - 1) as nat, scope, procedures, depth, w);
        match before {
            Outcome::Completed => step(block[upto - 1], scope, procedures, depth, mid),
            other => (other, mid),
        }
    }
}

/// What the first `done` rounds of a `repeat` do. Round `k`, counted from 1,
/// runs the body with the counter at `k`.
pub open spec fn iterate(
    body: Vec<Instruction>,
    done: nat,
    variables: Map<Seq<char>, Datum>,
    procedures: Map<Seq<char>, FuncDeclaration>,
    depth: nat,
    w: World,
) -> (Outcome, World)
    decreases depth, body, done,
{
    if done == 0 || done > u64::MAX {
        (Outcome::Completed, w)
    } else {
        let (before, mid) = iterate(body, (done - 1) as nat, variables, procedures, depth, w);
        match before {
            Outcome::Completed => run_prefix(
                body@,
                body@.len(),
                Scope { variables, counter: Some(Number::index_spec(done as u64)) },
                procedures,
                depth,
                mid,
            ),
            other => (other, mid),
        }
    }
}

/// What a whole block does.
pub open spec fn run(
    block: Seq<Instruction>,
    scope: Scope,
    procedures: Map<Seq<char>, FuncDeclaration>,
    depth: nat,
    w: World,
) -> (Outcome, World) {
    run_prefix(block, block.len(), scope, procedures, depth, w)
}

/// An instruction that did not complete ends the block, however many more
/// instructions follow.
pub proof fn first_break_stays(
    block: Seq<Instruction>,
    k: nat,
    upto: nat,
    scope: Scope,
    procedures: Map<Seq<char>, FuncDeclaration>,
    depth: nat,
    w: World,
)
    requires
        k <= upto <= block.len(),
        !(run_prefix(block, k, scope, procedures, depth, w).0 is Completed),
    ensures
        run_prefix(block, upto, scope, procedures, depth, w) == run_prefix(
            block,
            k,
            scope,
            procedures,
            depth,
            w,
        ),
    decreases upto,
{
    if k < upto {
        first_break_stays(block, k, (upto - 1) as nat, scope, procedures, depth, w);
    }
}

/// A round that did not complete ends the `repeat`, however many more rounds
/// were asked for.
pub proof fn first_broken_round_stays(
    body: Vec<Instruction>,
    k: nat,
    done: nat,
    variables: Map<Seq<char>, Datum>,
    procedures: Map<Seq<char>, FuncDeclaration>,
    depth: nat,
    w: World,
)
    requires
        k <= done <= u64::MAX,
        !(iterate(body, k, variables, procedures, depth, w).0 is Completed),
    ensures
        iterate(body, done, variables, procedures, depth, w) == iterate(
            body,
            k,
            variables,
            procedures,
            depth,
            w,
        ),
    decreases done,
{
    if k < done {
        first_broken_round_stays(body, k, (done - 1) as nat, variables, procedures, depth, w);
    }
}

/// Builds the table of procedures. A later declaration of a name takes the
/// place of an earlier one.
pub fn create_functions_map(func: Vec<FuncDeclaration>) -> (r: StringHashMap<FuncDeclaration>)
    ensures
        r@ == declared(func@, func@.len()),
{
    let mut res: StringHashMap<FuncDeclaration> = StringHashMap::new();
    let ghost all = func@;
    for f in iter: func
        invariant
            iter.seq() == all,
            res@ == declared(all, iter.index() as nat),
    {
        let key = f.name.clone();
        res.insert(key, f);
    }
    res
}

/// `bound` reads no more than the first `upto` arguments.
proof fn bound_reads_prefix(parameters: Seq<String>, a: Seq<Datum>, b: Seq<Datum>, upto: nat)
    requires
        upto <= a.len(),
        upto <= b.len(),
        forall|i: int| 0 <= i < upto ==> a[i] == b[i],
    ensures
        bound(parameters, a, upto) == bound(parameters, b, upto),
    decreases upto,
{
    if upto > 0 && upto <= parameters.len() {
        bound_reads_prefix(parameters, a, b, (upto - 1) as nat);
    }
}

/// Whether a turtle, a log and a generator are in the state that `expected`
/// describes, with the outcome that it holds.
pub open spec fn reached(
    r: Outcome,
    turtle: Turtle,
    log: Seq<Effect>,
    rng: Rng,
    expected: (Outcome, World),
) -> bool {
    r == expected.0 && turtle == expected.1.turtle && log == expected.1.log && rng
        == expected.1.rng
}

fn advance(turtle: &mut Turtle, log: &mut Vec<Effect>, distance: Number) -> (r: Outcome)
    ensures
        match old(turtle).target(distance) {
            None => r == Outcome::Failed(EvalError::AngleOutOfRange) && *final(turtle) == *old(
                turtle,
            ) && final(log)@ == old(log)@,
            Some(to) => r == Outcome::Completed && *final(turtle) == old(turtle).moved_to(to)
                && final(log)@ == (match old(turtle).stroke(to) {
                Some(line) => old(log)@.push(line),
                None => old(log)@,
            }),
        },
{
    match turtle.forward(distance) {
        Ok(Some(line)) => {
            log.push(line);
            Outcome::Completed
        },
        Ok(None) => Outcome::Completed,
        Err(err) => Outcome::Failed(err),
    }
}

fn rotate(turtle: &mut Turtle, degrees: Number, clockwise: bool) -> (r: Outcome)
    ensures
        match old(turtle).turned(degrees, clockwise) {
            None => r == Outcome::Failed(EvalError::AngleOutOfRange) && *final(turtle) == *old(
                turtle,
            ),
            Some(heading) => r == Outcome::Completed && *final(turtle) == (Turtle {
                heading,
                ..*old(turtle)
            }),
        },
{
    match turtle.turn(degrees, clockwise) {
        Ok(()) => Outcome::Completed,
        Err(err) => Outcome::Failed(err),
    }
}

fn color_from(v: Value) -> (r: Result<Color, EvalError>)
    ensures
        r == color_of(v@),
{
    match v {
        Value::Word(name) => Ok(Color::Named(name)),
        _ => Err(EvalError::TypeMismatch(Operation::Color)),
    }
}

/// Runs a block: its instructions in order, up to the first that does not
/// complete. `counter` is the counter of the `repeat` round that the block
/// runs in, if any; `depth` is how many calls may nest below this block.
pub fn evaluate(
    instructions: &Vec<Instruction>,
    env: &Environment,
    counter: Option<Number>,
    turtle: &mut Turtle,
    log: &mut Vec<Effect>,
    rng: &mut Rng,
    procedures: &StringHashMap<FuncDeclaration>,
    depth: usize,
) -> (r: Outcome)
    ensures
        reached(
            r,
            *final(turtle),
            final(log)@,
            *final(rng),
            run(
                instructions@,
                Scope { variables: env@, counter },
                procedures@,
                depth as nat,
                World { turtle: *old(turtle), log: old(log)@, rng: *old(rng) },
            ),
        ),
    decreases depth, instructions, 2nat,
{
    let ghost scope = Scope { variables: env@, counter };
    let ghost start = World { turtle: *turtle, log: log@, rng: *rng };
    let mut i: usize = 0;
    while i < instructions.len()
        invariant
            i <= instructions.len(),
            scope == (Scope { variables: env@, counter }),
            start == (World { turtle: *old(turtle), log: old(log)@, rng: *old(rng) }),
            run_prefix(instructions@, i as nat, scope, procedures@, depth as nat, start) == (
                Outcome::Completed,
                World { turtle: *turtle, log: log@, rng: *rng },
            ),
        decreases instructions.len() - i,
    {
        let outcome = execute(&instructions[i], env, counter, turtle, log, rng, procedures, depth);
        match outcome {
            Outcome::Completed => {},
            other => {
                proof {
                    first_break_stays(
                        instructions@,
                        (i + 1) as nat,
                        instructions@.len(),
                        scope,
                        procedures@,
                        depth as nat,
                        start,
                    );
                }
                return other;
            },
        }
        i = i + 1;
    }
    Outcome::Completed
}

/// Runs one instruction.
pub fn execute(
    instruction: &Instruction,
    env: &Environment,
    counter: Option<Number>,
    turtle: &mut Turtle,
    log: &mut Vec<Effect>,
    rng: &mut Rng,
    procedures: &StringHashMap<FuncDeclaration>,
    depth: usize,
) -> (r: Outcome)
    ensures
        reached(
            r,
            *final(turtle),
            final(log)@,
            *final(rng),
            step(
                *instruction,
                Scope { variables: env@, counter },
                procedures@,
                depth as nat,
                World { turtle: *old(turtle), log: old(log)@, rng: *old(rng) },
            ),
        ),
    decreases depth, instruction, 1nat,
{
    match instruction {
        Instruction::Forward(e) => match evaluate_number(e, env, counter, rng, Operation::Distance) {
            Err(err) => Outcome::Failed(err),
            Ok(distance) => advance(turtle, log, distance),
        },
        Instruction::Back(e) => match evaluate_number(e, env, counter, rng, Operation::Distance) {
            Err(err) => Outcome::Failed(err),
            Ok(distance) => advance(turtle, log, distance.negate()),
        },
        Instruction::Left(e) => match evaluate_number(e, env, counter, rng, Operation::Angle) {
            Err(err) => Outcome::Failed(err),
            Ok(degrees) => rotate(turtle, degrees, false),
        },
        Instruction::Right(e) => match evaluate_number(e, env, counter, rng, Operation::Angle) {
            Err(err) => Outcome::Failed(err),
            Ok(degrees) => rotate(turtle, degrees, true),
        },
        Instruction::PenUp => {
            turtle.set_pen(false);
            Outcome::Completed
        },
        Instruction::PenDown => {
            turtle.set_pen(true);
            Outcome::Completed
        },
        Instruction::ShowTurtle => {
            let marker = turtle.set_visible(true);
            log.push(marker);
            Outcome::Completed
        },
        Instruction::HideTurtle => {
            let marker = turtle.set_visible(false);
            log.push(marker);
            Outcome::Completed
        },
        Instruction::SetColor(e) => match evaluate_expression(e, env, counter, rng) {
            Err(err) => Outcome::Failed(err),
            Ok(v) => match color_from(v) {
                Err(err) => Outcome::Failed(err),
                Ok(color) => {
                    let marker = turtle.set_color(color);
                    log.push(marker);
                    Outcome::Completed
                },
            },
        },
        Instruction::SetLabelHeight(e) => match evaluate_number(
            e,
            env,
            counter,
            rng,
            Operation::LabelHeight,
        ) {
            Err(err) => Outcome::Failed(err),
            Ok(height) => {
                turtle.set_label_height(height);
                Outcome::Completed
            },
        },
        Instruction::ClearScreen => {
            let marker = turtle.clear_screen();
            log.push(marker);
            Outcome::Completed
        },
        Instruction::Window => Outcome::Completed,
        Instruction::Repeat(e, body) => match evaluate_number(
            e,
            env,
            counter,
            rng,
            Operation::RepeatCount,
        ) {
            Err(err) => Outcome::Failed(err),
            Ok(n) => match n.to_count() {
                None => Outcome::Failed(EvalError::InvalidCount),
                Some(count) => repeat_rounds(body, count, env, turtle, log, rng, procedures, depth),
            },
        },
        Instruction::If(e, block) => match evaluate_condition(e, env, counter, rng) {
            Err(err) => Outcome::Failed(err),
            Ok(false) => Outcome::Completed,
            Ok(true) => evaluate(block, env, counter, turtle, log, rng, procedures, depth),
        },
        Instruction::Stop => Outcome::Stopped,
        Instruction::Wait(_) => Outcome::Completed,
        Instruction::Label(text) => {
            let label = turtle.label(text.clone());
            log.push(label);
            Outcome::Completed
        },
        Instruction::Call(name, arguments) => call(
            instruction,
            name,
            arguments,
            env,
            counter,
            turtle,
            log,
            rng,
            procedures,
            depth,
        ),
    }
}

/// Runs the body of a `repeat` `count` times, with the counter at 1, 2, ...
fn repeat_rounds(
    body: &Vec<Instruction>,
    count: u64,
    env: &Environment,
    turtle: &mut Turtle,
    log: &mut Vec<Effect>,
    rng: &mut Rng,
    procedures: &StringHashMap<FuncDeclaration>,
    depth: usize,
) -> (r: Outcome)
    ensures
        reached(
            r,
            *final(turtle),
            final(log)@,
            *final(rng),
            iterate(
                *body,
                count as nat,
                env@,
                procedures@,
                depth as nat,
                World { turtle: *old(turtle), log: old(log)@, rng: *old(rng) },
            ),
        ),
    decreases depth, body, 3nat,
{
    let ghost start = World { turtle: *turtle, log: log@, rng: *rng };
    let mut k: u64 = 0;
    while k < count
        invariant
            k <= count,
            start == (World { turtle: *old(turtle), log: old(log)@, rng: *old(rng) }),
            iterate(*body, k as nat, env@, procedures@, depth as nat, start) == (
                Outcome::Completed,
                World { turtle: *turtle, log: log@, rng: *rng },
            ),
        decreases count - k,
    {
        k = k + 1;
        let outcome = evaluate(
            body,
            env,
            Some(Number::from_index(k)),
            turtle,
            log,
            rng,
            procedures,
            depth,
        );
        match outcome {
            Outcome::Completed => {},
            other => {
                proof {
                    first_broken_round_stays(
                        *body,
                        k as nat,
                        count as nat,
                        env@,
                        procedures@,
                        depth as nat,
                        start,
                    );
                }
                return other;
            },
        }
    }
    Outcome::Completed
}

/// Calls a procedure: the arguments are evaluated where the call stands, the
/// body runs with its parameters alone, and `stop` in the body ends the call.
fn call(
    instruction: &Instruction,
    name: &String,
    arguments: &Vec<Expression>,
    env: &Environment,
    counter: Option<Number>,
    turtle: &mut Turtle,
    log: &mut Vec<Effect>,
    rng: &mut Rng,
    procedures: &StringHashMap<FuncDeclaration>,
    depth: usize,
) -> (r: Outcome)
    requires
        *instruction == Instruction::Call(*name, *arguments),
    ensures
        reached(
            r,
            *final(turtle),
            final(log)@,
            *final(rng),
            step(
                *instruction,
                Scope { variables: env@, counter },
                procedures@,
                depth as nat,
                World { turtle: *old(turtle), log: old(log)@, rng: *old(rng) },
            ),
        ),
    decreases depth, instruction, 0nat,
{
    let ghost scope = Scope { variables: env@, counter };
    let ghost start = *rng;
    let declaration = match procedures.get(name.as_str()) {
        Some(d) => d,
        None => { return Outcome::Failed(EvalError::UnknownProcedure(name.clone())); },
    };
    if declaration.parameters.len() != arguments.len() {
        return Outcome::Failed(
            EvalError::WrongArgumentCount {
                name: name.clone(),
                expected: declaration.parameters.len(),
                found: arguments.len(),
            },
        );
    }
    if depth == 0 {
        return Outcome::Failed(EvalError::RecursionLimit);
    }
    let mut callee = Environment::new();
    let ghost mut values: Seq<Datum> = Seq::empty();
    let mut i: usize = 0;
    while i < arguments.len()
        invariant
            i <= arguments.len(),
            arguments.len() == declaration.parameters.len(),
            *instruction == Instruction::Call(*name, *arguments),
            procedures@.contains_key(name@),
            procedures@[name@] == *declaration,
            depth > 0,
            scope == (Scope { variables: env@, counter }),
            start == *old(rng),
            values.len() == i,
            values_of(arguments@, i as nat, scope, start) == (
                Ok::<Seq<Datum>, EvalError>(values),
                *rng,
            ),
            callee@ == bound(declaration.parameters@, values, i as nat),
            *turtle == *old(turtle),
            log@ == old(log)@,
        decreases arguments.len() - i,
    {
        match evaluate_expression(&arguments[i], env, counter, rng) {
            Ok(v) => {
                proof {
                    bound_reads_prefix(declaration.parameters@, values, values.push(v@), i as nat);
                    values = values.push(v@);
                }
                callee.bind(declaration.parameters[i].clone(), v);
            },
            Err(err) => {
                proof {
                    assert(values_of(arguments@, (i + 1) as nat, scope, start).0 is Err);
                    first_error_stays(arguments@, (i + 1) as nat, arguments@.len(), scope, start);
                }
                return Outcome::Failed(err);
            },
        }
        i = i + 1;
    }
    let outcome = evaluate(
        &declaration.body,
        &callee,
        counter,
        turtle,
        log,
        rng,
        procedures,
        depth - 1,
    );
    match outcome {
        Outcome::Stopped => Outcome::Completed,
        other => other,
    }
}

/// Runs a program from an empty log and hands back the log. A `stop` outside
/// every procedure ends the run without an error.
pub fn run_instructions(
    instructions: &Vec<Instruction>,
    env: &Environment,
    turtle: &mut Turtle,
    procedures: &StringHashMap<FuncDeclaration>,
    rng: &mut Rng,
    depth: usize,
) -> (r: Result<Vec<Effect>, EvalError>)
    ensures
        ({
            let (outcome, w) = run(
                instructions@,
                Scope { variables: env@, counter: None },
                procedures@,
                depth as nat,
                World { turtle: *old(turtle), log: Seq::empty(), rng: *old(rng) },
            );
            &&& *final(turtle) == w.turtle
            &&& *final(rng) == w.rng
            &&& match r {
                Ok(effects) => !(outcome is Failed) && effects@ == w.log,
                Err(err) => outcome == Outcome::Failed(err),
            }
        }),
{
    let mut log: Vec<Effect> = Vec::new();
    match evaluate(instructions, env, None, turtle, &mut log, rng, procedures, depth) {
        Outcome::Failed(err) => Err(err),
        _ => Ok(log),
    }
}


} // verus!
