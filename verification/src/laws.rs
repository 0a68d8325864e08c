//! What holds of every program: laws about the pen, the loop counter, the
//! scopes of procedures, `stop`, and the part that chance plays.

use crate::ast::{Expression, FuncDeclaration, Instruction};
use crate::error::EvalError;
use crate::error::Operation;
use crate::eval::{
    choices, number_of, picked_value, random_value, truth_of, value_of, values_of, Scope,
};
use crate::number::{index_round_trip, index_truncates, whole_part_grows, Number};
use crate::random::Rng;
use crate::run::{
    bound, first_break_stays, first_broken_round_stays, iterate, run, run_prefix, step, Outcome,
    World,
};
use crate::value::Datum;
use vstd::prelude::*;

verus! {

/// While the pen is up a move leaves no stroke: `forward` and `back` leave
/// the log as it was, whatever the distance and the heading.
pub proof fn pen_up_leaves_no_stroke(
    e: Expression,
    backwards: bool,
    scope: Scope,
    procedures: Map<Seq<char>, FuncDeclaration>,
    depth: nat,
    w: World,
)
    requires
        !w.turtle.pen_down,
    ensures
        step(
            if backwards {
                Instruction::Back(e)
            } else {
                Instruction::Forward(e)
            },
            scope,
            procedures,
            depth,
            w,
        ).1.log == w.log,
{
}

/// With the pen down a move that succeeds leaves exactly one stroke, from
/// where the turtle was to where it is, in the turtle's colour.
pub proof fn pen_down_leaves_one_stroke(
    e: Expression,
    scope: Scope,
    procedures: Map<Seq<char>, FuncDeclaration>,
    depth: nat,
    w: World,
)
    requires
        w.turtle.pen_down,
        step(Instruction::Forward(e), scope, procedures, depth, w).0 is Completed,
    ensures
        ({
            let after = step(Instruction::Forward(e), scope, procedures, depth, w).1;
            after.log == w.log.push(
                crate::turtle::Effect::Line {
                    from: w.turtle.position,
                    to: after.turtle.position,
                    color: w.turtle.color,
                },
            )
        }),
{
}

/// In round `i` of a `repeat` (counted from 1) the body runs with the
/// counter at `i`, and that is what `repcount` gives there: the number whose
/// integer part is `i`.
pub proof fn repcount_counts_rounds(
    body: Vec<Instruction>,
    i: nat,
    variables: Map<Seq<char>, Datum>,
    procedures: Map<Seq<char>, FuncDeclaration>,
    depth: nat,
    w: World,
    rng: Rng,
)
    requires
        1 <= i <= 0x20_0000_0000_0000,
        iterate(body, (i - 1) as nat, variables, procedures, depth, w).0 is Completed,
    ensures
        ({
            let before = iterate(body, (i - 1) as nat, variables, procedures, depth, w).1;
            let counter = Number::index_spec(i as u64);
            let inside = Scope { variables, counter: Some(counter) };
            &&& iterate(body, i, variables, procedures, depth, w) == run(
                body@,
                inside,
                procedures,
                depth,
                before,
            )
            &&& value_of(Expression::RepCount, inside, rng) == (
                Ok::<Datum, EvalError>(Datum::Number(counter)),
                rng,
            )
            &&& counter.count_spec() == Some(i as u64)
        }),
{
    index_round_trip(i as u64);
}

/// Outside every `repeat` there is no counter, and `repcount` is an error.
pub proof fn repcount_needs_a_loop(variables: Map<Seq<char>, Datum>, rng: Rng)
    ensures
        value_of(Expression::RepCount, Scope { variables, counter: None }, rng) == (
            Err::<Datum, EvalError>(EvalError::RepcountOutsideLoop),
            rng,
        ),
{
}

/// A callee sees of its caller what the arguments hand over, and the
/// caller's loop counter: two callers whose arguments evaluate alike get the
/// same from a call, whatever else their variables hold.
pub proof fn callee_sees_arguments_only(
    name: String,
    arguments: Vec<Expression>,
    a: Scope,
    b: Scope,
    procedures: Map<Seq<char>, FuncDeclaration>,
    depth: nat,
    w: World,
)
    requires
        a.counter == b.counter,
        values_of(arguments@, arguments@.len(), a, w.rng) == values_of(
            arguments@,
            arguments@.len(),
            b,
            w.rng,
        ),
    ensures
        step(Instruction::Call(name, arguments), a, procedures, depth, w) == step(
            Instruction::Call(name, arguments),
            b,
            procedures,
            depth,
            w,
        ),
{
}

/// The variables of an activation are its parameters and nothing else.
pub proof fn activation_binds_parameters_only(
    parameters: Seq<String>,
    arguments: Seq<Datum>,
    upto: nat,
    key: Seq<char>,
)
    requires
        bound(parameters, arguments, upto).contains_key(key),
    ensures
        exists|i: int| 0 <= i < upto && i < parameters.len() && (#[trigger] parameters[i])@ == key,
    decreases upto,
{
    if upto == 0 || upto > parameters.len() || upto > arguments.len() {
    } else if parameters[upto - 1]@ == key {
    } else {
        activation_binds_parameters_only(parameters, arguments, (upto - 1) as nat, key);
    }
}

/// What follows an instruction runs in the scope that the instruction ran
/// in: a call leaves none of its parameters behind.
pub proof fn caller_keeps_its_scope(
    block: Seq<Instruction>,
    k: nat,
    scope: Scope,
    procedures: Map<Seq<char>, FuncDeclaration>,
    depth: nat,
    w: World,
)
    requires
        k < block.len(),
        run_prefix(block, k, scope, procedures, depth, w).0 is Completed,
    ensures
        run_prefix(block, k + 1, scope, procedures, depth, w) == step(
            block[k as int],
            scope,
            procedures,
            depth,
            run_prefix(block, k, scope, procedures, depth, w).1,
        ),
{
}

/// A call never ends as stopped: `stop` in the body ends the call, and the
/// caller goes on.
pub proof fn stop_ends_the_call_only(
    name: String,
    arguments: Vec<Expression>,
    scope: Scope,
    procedures: Map<Seq<char>, FuncDeclaration>,
    depth: nat,
    w: World,
)
    ensures
        !(step(Instruction::Call(name, arguments), scope, procedures, depth, w).0 is Stopped),
{
}

/// `stop` skips what follows it in its block: the block ends as stopped, in
/// the state that `stop` was met in.
pub proof fn stop_skips_the_rest(
    block: Seq<Instruction>,
    k: nat,
    scope: Scope,
    procedures: Map<Seq<char>, FuncDeclaration>,
    depth: nat,
    w: World,
)
    requires
        k < block.len(),
        block[k as int] is Stop,
        run_prefix(block, k, scope, procedures, depth, w).0 is Completed,
    ensures
        run(block, scope, procedures, depth, w) == (
            Outcome::Stopped,
            run_prefix(block, k, scope, procedures, depth, w).1,
        ),
{
    let mid = run_prefix(block, k, scope, procedures, depth, w).1;
    assert(block[k as int] == Instruction::Stop);
    assert(step(block[k as int], scope, procedures, depth, mid) == (Outcome::Stopped, mid));
    assert(run_prefix(block, k + 1, scope, procedures, depth, w) == step(
        block[k as int],
        scope,
        procedures,
        depth,
        mid,
    ));
    first_break_stays(block, k + 1, block.len(), scope, procedures, depth, w);
}

/// A block that stops inside an `if` stops the `if`.
pub proof fn stop_leaves_an_if(
    e: Expression,
    block: Vec<Instruction>,
    scope: Scope,
    procedures: Map<Seq<char>, FuncDeclaration>,
    depth: nat,
    w: World,
)
    requires
        truth_of(e, scope, w.rng).0 == Ok::<bool, EvalError>(true),
        run(
            block@,
            scope,
            procedures,
            depth,
            World { rng: truth_of(e, scope, w.rng).1, ..w },
        ).0 is Stopped,
    ensures
        step(Instruction::If(e, block), scope, procedures, depth, w).0 is Stopped,
{
}

/// A round that stops ends the `repeat` as stopped: no later round runs.
pub proof fn stop_leaves_a_repeat(
    body: Vec<Instruction>,
    k: nat,
    count: nat,
    variables: Map<Seq<char>, Datum>,
    procedures: Map<Seq<char>, FuncDeclaration>,
    depth: nat,
    w: World,
)
    requires
        k <= count <= u64::MAX,
        iterate(body, k, variables, procedures, depth, w).0 is Stopped,
    ensures
        iterate(body, count, variables, procedures, depth, w) == iterate(
            body,
            k,
            variables,
            procedures,
            depth,
            w,
        ),
{
    first_broken_round_stays(body, k, count, variables, procedures, depth, w);
}

/// `random` of a bound above zero gives a number in `[0, bound)`, whatever
/// the generator holds.
pub proof fn random_stays_below_its_bound(bound: Number, rng: Rng)
    requires
        Number::spec_zero().less_than_spec(bound),
    ensures
        random_value(Datum::Number(bound), rng).0 matches Ok(Datum::Number(r))
            && Number::spec_zero().at_most_spec(r) && r.less_than_spec(bound),
{
    let limit = choices(bound);
    let i = rng.drawn_below(limit);
    let r = Number::index_spec(i);
    index_truncates(i);
    if i > 0 {
        assert(limit == bound.count_spec()->Some_0);
        if bound.magnitude() <= r.magnitude() {
            whole_part_grows(bound, r);
        }
    }
}

/// `pick` of a list that is not empty gives one of its items.
pub proof fn pick_takes_an_item(items: Seq<Datum>, rng: Rng)
    requires
        items.len() > 0,
    ensures
        picked_value(Datum::List(items), rng).0 matches Ok(v) && items.contains(v),
{
    let i = rng.drawn() as int % items.len() as int;
    assert(0 <= i < items.len());
    assert(items[i] == items[i]);
}

/// Whether an expression holds no `random` and no `pick`.
pub open spec fn chance_free(e: Expression) -> bool
    decreases e, 0nat,
{
    match e {
        Expression::List(items) => all_chance_free(items@, items@.len()),
        Expression::Binary(_, left, right) => chance_free(*left) && chance_free(*right),
        Expression::Random(_) => false,
        Expression::Pick(_) => false,
        _ => true,
    }
}

/// Whether the first `upto` expressions hold no `random` and no `pick`.
pub open spec fn all_chance_free(items: Seq<Expression>, upto: nat) -> bool
    decreases items, upto,
{
    if upto == 0 || upto > items.len() {
        true
    } else {
        all_chance_free(items, (upto - 1) as nat) && chance_free(items[upto - 1])
    }
}

/// Whether an instruction holds no `random` and no `pick` in what it
/// evaluates (the operand of `wait` is never evaluated).
pub open spec fn plain(instruction: Instruction) -> bool
    decreases instruction, 0nat,
{
    match instruction {
        Instruction::Forward(e) => chance_free(e),
        Instruction::Back(e) => chance_free(e),
        Instruction::Left(e) => chance_free(e),
        Instruction::Right(e) => chance_free(e),
        Instruction::SetColor(e) => chance_free(e),
        Instruction::SetLabelHeight(e) => chance_free(e),
        Instruction::Repeat(e, body) => chance_free(e) && all_plain(body@, body@.len()),
        Instruction::If(e, block) => chance_free(e) && all_plain(block@, block@.len()),
        Instruction::Call(_, arguments) => all_chance_free(arguments@, arguments@.len()),
        _ => true,
    }
}

/// Whether the first `upto` instructions are plain.
pub open spec fn all_plain(block: Seq<Instruction>, upto: nat) -> bool
    decreases block, upto,
{
    if upto == 0 || upto > block.len() {
        true
    } else {
        all_plain(block, (upto - 1) as nat) && plain(block[upto - 1])
    }
}

/// Whether every procedure of the table has a plain body.
pub open spec fn plain_table(procedures: Map<Seq<char>, FuncDeclaration>) -> bool {
    forall|name: Seq<char>| #[trigger]
        procedures.contains_key(name) ==> all_plain(
            procedures[name].body@,
            procedures[name].body@.len(),
        )
}

/// The same result with another generator in the world.
pub open spec fn with_rng(r: (Outcome, World), rng: Rng) -> (Outcome, World) {
    (r.0, World { rng, ..r.1 })
}

/// An expression without `random` and `pick` draws nothing, and its value
/// is the same whatever the generator holds.
pub proof fn chance_free_value(e: Expression, scope: Scope, a: Rng, b: Rng)
    requires
        chance_free(e),
    ensures
        value_of(e, scope, a).1 == a,
        value_of(e, scope, a).0 == value_of(e, scope, b).0,
    decreases e, 0nat,
{
    match e {
        Expression::List(items) => {
            chance_free_values(items@, items@.len(), scope, a, b);
            chance_free_values(items@, items@.len(), scope, b, a);
        },
        Expression::Binary(_, left, right) => {
            chance_free_value(*left, scope, a, b);
            chance_free_value(*left, scope, b, a);
            chance_free_value(*right, scope, a, b);
            chance_free_value(*right, scope, b, a);
        },
        _ => {},
    }
}

/// Expressions without `random` and `pick` draw nothing, and their values
/// are the same whatever the generator holds.
pub proof fn chance_free_values(items: Seq<Expression>, upto: nat, scope: Scope, a: Rng, b: Rng)
    requires
        all_chance_free(items, upto),
    ensures
        values_of(items, upto, scope, a).1 == a,
        values_of(items, upto, scope, a).0 == values_of(items, upto, scope, b).0,
    decreases items, upto,
{
    if upto == 0 || upto > items.len() {
    } else {
        chance_free_values(items, (upto - 1) as nat, scope, a, b);
        chance_free_values(items, (upto - 1) as nat, scope, b, a);
        chance_free_value(items[upto - 1], scope, a, b);
        chance_free_value(items[upto - 1], scope, b, a);
    }
}

proof fn chance_free_number(e: Expression, scope: Scope, a: Rng, b: Rng, operation: Operation)
    requires
        chance_free(e),
    ensures
        number_of(e, scope, a, operation).1 == a,
        number_of(e, scope, a, operation).0 == number_of(e, scope, b, operation).0,
{
    chance_free_value(e, scope, a, b);
}

proof fn chance_free_truth(e: Expression, scope: Scope, a: Rng, b: Rng)
    requires
        chance_free(e),
    ensures
        truth_of(e, scope, a).1 == a,
        truth_of(e, scope, a).0 == truth_of(e, scope, b).0,
{
    match e {
        Expression::Binary(_, left, right) => {
            chance_free_value(*left, scope, a, b);
            chance_free_value(*left, scope, b, a);
            chance_free_value(*right, scope, a, b);
            chance_free_value(*right, scope, b, a);
        },
        _ => {},
    }
}

proof fn plain_step(
    instruction: Instruction,
    scope: Scope,
    procedures: Map<Seq<char>, FuncDeclaration>,
    depth: nat,
    w: World,
    other: Rng,
)
    requires
        plain(instruction),
        plain_table(procedures),
    ensures
        step(instruction, scope, procedures, depth, World { rng: other, ..w }) == with_rng(
            step(instruction, scope, procedures, depth, w),
            other,
        ),
        step(instruction, scope, procedures, depth, w).1.rng == w.rng,
    decreases depth, instruction, 0nat,
{
    let v = World { rng: other, ..w };
    match instruction {
        Instruction::Forward(e) => {
            chance_free_number(e, scope, w.rng, other, Operation::Distance);
            chance_free_number(e, scope, other, w.rng, Operation::Distance);
        },
        Instruction::Back(e) => {
            chance_free_number(e, scope, w.rng, other, Operation::Distance);
            chance_free_number(e, scope, other, w.rng, Operation::Distance);
        },
        Instruction::Left(e) => {
            chance_free_number(e, scope, w.rng, other, Operation::Angle);
            chance_free_number(e, scope, other, w.rng, Operation::Angle);
        },
        Instruction::Right(e) => {
            chance_free_number(e, scope, w.rng, other, Operation::Angle);
            chance_free_number(e, scope, other, w.rng, Operation::Angle);
        },
        Instruction::SetColor(e) => {
            chance_free_value(e, scope, w.rng, other);
            chance_free_value(e, scope, other, w.rng);
        },
        Instruction::SetLabelHeight(e) => {
            chance_free_number(e, scope, w.rng, other, Operation::LabelHeight);
            chance_free_number(e, scope, other, w.rng, Operation::LabelHeight);
        },
        Instruction::Repeat(e, body) => {
            chance_free_number(e, scope, w.rng, other, Operation::RepeatCount);
            chance_free_number(e, scope, other, w.rng, Operation::RepeatCount);
            match number_of(e, scope, w.rng, Operation::RepeatCount).0 {
                Ok(n) => match n.count_spec() {
                    Some(count) => {
                        assert(World { rng: w.rng, ..w } == w);
                        assert(World { rng: other, ..v } == v);
                        plain_rounds(body, count as nat, scope.variables, procedures, depth, w, other);
                    },
                    None => {},
                },
                Err(_) => {},
            }
        },
        Instruction::If(e, block) => {
            chance_free_truth(e, scope, w.rng, other);
            chance_free_truth(e, scope, other, w.rng);
            assert(World { rng: w.rng, ..w } == w);
            assert(World { rng: other, ..v } == v);
            plain_prefix(block@, block@.len(), scope, procedures, depth, w, other);
        },
        Instruction::Call(name, arguments) => {
            chance_free_values(arguments@, arguments@.len(), scope, w.rng, other);
            chance_free_values(arguments@, arguments@.len(), scope, other, w.rng);
            if procedures.contains_key(name@) && procedures[name@].parameters.len()
                == arguments.len() && depth > 0 {
                match values_of(arguments@, arguments@.len(), scope, w.rng).0 {
                    Ok(vs) => {
                        let declaration = procedures[name@];
                        let callee = Scope {
                            variables: bound(declaration.parameters@, vs, vs.len()),
                            counter: scope.counter,
                        };
                        assert(World { rng: w.rng, ..w } == w);
                        assert(World { rng: other, ..v } == v);
                        plain_prefix(
                            declaration.body@,
                            declaration.body@.len(),
                            callee,
                            procedures,
                            (depth - 1) as nat,
                            w,
                            other,
                        );
                    },
                    Err(_) => {},
                }
            }
        },
        _ => {},
    }
}

proof fn plain_prefix(
    block: Seq<Instruction>,
    upto: nat,
    scope: Scope,
    procedures: Map<Seq<char>, FuncDeclaration>,
    depth: nat,
    w: World,
    other: Rng,
)
    requires
        all_plain(block, upto),
        plain_table(procedures),
    ensures
        run_prefix(block, upto, scope, procedures, depth, World { rng: other, ..w }) == with_rng(
            run_prefix(block, upto, scope, procedures, depth, w),
            other,
        ),
        run_prefix(block, upto, scope, procedures, depth, w).1.rng == w.rng,
    decreases depth, block, upto,
{
    if upto == 0 || upto > block.len() {
    } else {
        plain_prefix(block, (upto - 1) as nat, scope, procedures, depth, w, other);
        let (before, mid) = run_prefix(block, (upto - 1) as nat, scope, procedures, depth, w);
        if before is Completed {
            assert(mid == World { rng: w.rng, ..mid });
            plain_step(block[upto - 1], scope, procedures, depth, mid, other);
        }
    }
}

proof fn plain_rounds(
    body: Vec<Instruction>,
    done: nat,
    variables: Map<Seq<char>, Datum>,
    procedures: Map<Seq<char>, FuncDeclaration>,
    depth: nat,
    w: World,
    other: Rng,
)
    requires
        all_plain(body@, body@.len()),
        plain_table(procedures),
    ensures
        iterate(body, done, variables, procedures, depth, World { rng: other, ..w }) == with_rng(
            iterate(body, done, variables, procedures, depth, w),
            other,
        ),
        iterate(body, done, variables, procedures, depth, w).1.rng == w.rng,
    decreases depth, body, done,
{
    if done == 0 || done > u64::MAX {
    } else {
        plain_rounds(body, (done - 1) as nat, variables, procedures, depth, w, other);
        let (before, mid) = iterate(body, (done - 1) as nat, variables, procedures, depth, w);
        if before is Completed {
            assert(mid == World { rng: w.rng, ..mid });
            plain_prefix(
                body@,
                body@.len(),
                Scope { variables, counter: Some(Number::index_spec(done as u64)) },
                procedures,
                depth,
                mid,
                other,
            );
        }
    }
}

/// A program without `random` and `pick` leaves nothing to chance: it ends
/// the same way, with the same turtle and the same log, whatever the
/// generator holds, and it leaves the generator as it found it.
pub proof fn plain_programs_run_alike(
    block: Seq<Instruction>,
    scope: Scope,
    procedures: Map<Seq<char>, FuncDeclaration>,
    depth: nat,
    w: World,
    other: Rng,
)
    requires
        all_plain(block, block.len()),
        plain_table(procedures),
    ensures
        ({
            let first = run(block, scope, procedures, depth, w);
            let second = run(block, scope, procedures, depth, World { rng: other, ..w });
            &&& first.0 == second.0
            &&& first.1.turtle == second.1.turtle
            &&& first.1.log == second.1.log
            &&& first.1.rng == w.rng
            &&& second.1.rng == other
        }),
{
    plain_prefix(block, block.len(), scope, procedures, depth, w, other);
}


/// Whether `later` is `earlier` with effects added at its end.
pub open spec fn extends(later: Seq<crate::turtle::Effect>, earlier: Seq<crate::turtle::Effect>) -> bool {
    earlier.len() <= later.len() && earlier == later.subrange(0, earlier.len() as int)
}

/// What every run keeps: the log as it was, with what is new at its end, and
/// a heading in `[0, 360)`.
pub open spec fn kept(w: World, r: (Outcome, World)) -> bool {
    extends(r.1.log, w.log) && (w.turtle.well_formed() ==> r.1.turtle.well_formed())
}

proof fn step_keeps(
    instruction: Instruction,
    scope: Scope,
    procedures: Map<Seq<char>, FuncDeclaration>,
    depth: nat,
    w: World,
)
    ensures
        kept(w, step(instruction, scope, procedures, depth, w)),
    decreases depth, instruction, 0nat,
{
    assert(w.log == w.log.subrange(0, w.log.len() as int));
    match instruction {
        Instruction::Forward(e) => {
            let (d, rng) = number_of(e, scope, w.rng, Operation::Distance);
            if d is Ok {
                let r = (World { rng, ..w }).after_move(d->Ok_0);
                assert(w.log.push(r.1.log.last()).subrange(0, w.log.len() as int) == w.log);
            }
        },
        Instruction::Back(e) => {
            let (d, rng) = number_of(e, scope, w.rng, Operation::Distance);
            if d is Ok {
                let r = (World { rng, ..w }).after_move(d->Ok_0.negated());
                assert(w.log.push(r.1.log.last()).subrange(0, w.log.len() as int) == w.log);
            }
        },
        Instruction::ShowTurtle => {
            assert(w.log.push(crate::turtle::Effect::Visibility(true)).subrange(
                0,
                w.log.len() as int,
            ) == w.log);
        },
        Instruction::HideTurtle => {
            assert(w.log.push(crate::turtle::Effect::Visibility(false)).subrange(
                0,
                w.log.len() as int,
            ) == w.log);
        },
        Instruction::SetColor(e) => {
            let r = step(instruction, scope, procedures, depth, w);
            if r.0 is Completed {
                assert(w.log.push(r.1.log.last()).subrange(0, w.log.len() as int) == w.log);
            }
        },
        Instruction::ClearScreen => {
            assert(w.log.push(crate::turtle::Effect::Clear).subrange(0, w.log.len() as int)
                == w.log);
        },
        Instruction::Label(text) => {
            let r = step(instruction, scope, procedures, depth, w);
            assert(w.log.push(r.1.log.last()).subrange(0, w.log.len() as int) == w.log);
        },
        Instruction::Repeat(e, body) => {
            let (c, rng) = number_of(e, scope, w.rng, Operation::RepeatCount);
            match c {
                Ok(n) => match n.count_spec() {
                    Some(count) => {
                        rounds_keep(
                            body,
                            count as nat,
                            scope.variables,
                            procedures,
                            depth,
                            World { rng, ..w },
                        );
                    },
                    None => {},
                },
                Err(_) => {},
            }
        },
        Instruction::If(e, block) => {
            let (t, rng) = truth_of(e, scope, w.rng);
            prefix_keeps(block@, block@.len(), scope, procedures, depth, World { rng, ..w });
        },
        Instruction::Call(name, arguments) => {
            if procedures.contains_key(name@) && procedures[name@].parameters.len()
                == arguments.len() && depth > 0 {
                let (values, rng) = values_of(arguments@, arguments@.len(), scope, w.rng);
                match values {
                    Ok(vs) => {
                        let declaration = procedures[name@];
                        let callee = Scope {
                            variables: bound(declaration.parameters@, vs, vs.len()),
                            counter: scope.counter,
                        };
                        prefix_keeps(
                            declaration.body@,
                            declaration.body@.len(),
                            callee,
                            procedures,
                            (depth - 1) as nat,
                            World { rng, ..w },
                        );
                    },
                    Err(_) => {},
                }
            }
        },
        _ => {},
    }
}

proof fn prefix_keeps(
    block: Seq<Instruction>,
    upto: nat,
    scope: Scope,
    procedures: Map<Seq<char>, FuncDeclaration>,
    depth: nat,
    w: World,
)
    ensures
        kept(w, run_prefix(block, upto, scope, procedures, depth, w)),
    decreases depth, block, upto,
{
    assert(w.log == w.log.subrange(0, w.log.len() as int));
    if upto == 0 || upto > block.len() {
    } else {
        prefix_keeps(block, (upto - 1) as nat, scope, procedures, depth, w);
        let (before, mid) = run_prefix(block, (upto - 1) as nat, scope, procedures, depth, w);
        if before is Completed {
            step_keeps(block[upto - 1], scope, procedures, depth, mid);
            let after = step(block[upto - 1], scope, procedures, depth, mid).1;
            assert(after.log.subrange(0, w.log.len() as int) == mid.log.subrange(
                0,
                w.log.len() as int,
            ));
        }
    }
}

proof fn rounds_keep(
    body: Vec<Instruction>,
    done: nat,
    variables: Map<Seq<char>, Datum>,
    procedures: Map<Seq<char>, FuncDeclaration>,
    depth: nat,
    w: World,
)
    ensures
        kept(w, iterate(body, done, variables, procedures, depth, w)),
    decreases depth, body, done,
{
    assert(w.log == w.log.subrange(0, w.log.len() as int));
    if done == 0 || done > u64::MAX {
    } else {
        rounds_keep(body, (done - 1) as nat, variables, procedures, depth, w);
        let (before, mid) = iterate(body, (done - 1) as nat, variables, procedures, depth, w);
        if before is Completed {
            let inside = Scope { variables, counter: Some(Number::index_spec(done as u64)) };
            prefix_keeps(body@, body@.len(), inside, procedures, depth, mid);
            let after = run_prefix(body@, body@.len(), inside, procedures, depth, mid).1;
            assert(after.log.subrange(0, w.log.len() as int) == mid.log.subrange(
                0,
                w.log.len() as int,
            ));
        }
    }
}

/// The log is only ever added to: after a run it begins with what it held
/// before. And a heading in `[0, 360)` stays in `[0, 360)`, however the run
/// ends.
pub proof fn log_grows_and_heading_stays(
    block: Seq<Instruction>,
    scope: Scope,
    procedures: Map<Seq<char>, FuncDeclaration>,
    depth: nat,
    w: World,
)
    ensures
        extends(run(block, scope, procedures, depth, w).1.log, w.log),
        w.turtle.well_formed() ==> run(block, scope, procedures, depth, w).1.turtle.well_formed(),
{
    prefix_keeps(block, block.len(), scope, procedures, depth, w);
}


} // verus!
