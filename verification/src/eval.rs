//! Expressions: what they evaluate to in a scope, and the evaluator.
//!
//! Evaluation goes from left to right and stops at the first error. `random`
//! and `pick` draw from the generator, so a value comes with the generator
//! after it.

use crate::ast::{BinaryOp, Expression};
use crate::error::{EvalError, Operation};
use crate::number::Number;
use crate::random::Rng;
use crate::value::{data_of, data_of_is_pointwise, Datum, Value};
use vstd::hash_map::StringHashMap;
use vstd::prelude::*;

verus! {

/// The variables of one activation of a procedure (none at the top level).
pub struct Environment {
    bindings: StringHashMap<Value>,
}

impl View for Environment {
    type V = Map<Seq<char>, Datum>;

    closed spec fn view(&self) -> Map<Seq<char>, Datum> {
        self.bindings@.map_values(|v: Value| v@)
    }
}

impl Environment {
    /// An environment that binds nothing.
    pub fn new() -> (r: Environment)
        ensures
            r@ == Map::<Seq<char>, Datum>::empty(),
    {
        let r = Environment { bindings: StringHashMap::new() };
        assert(r@ =~= Map::<Seq<char>, Datum>::empty());
        r
    }

    /// Binds `name`, in place of an earlier binding of the same name.
    pub fn bind(&mut self, name: String, value: Value)
        ensures
            final(self)@ == old(self)@.insert(name@, value@),
    {
        self.bindings.insert(name, value);
        assert(self@ =~= old(self)@.insert(name@, value@));
    }

    /// A copy of the value bound to `name`.
    pub fn lookup(&self, name: &str) -> (r: Option<Value>)
        ensures
            match r {
                Some(v) => self@.contains_key(name@) && v@ == self@[name@],
                None => !self@.contains_key(name@),
            },
    {
        match self.bindings.get(name) {
            Some(v) => Some(v.duplicate()),
            None => None,
        }
    }
}

/// What an expression can see: the variables of the current activation, and
/// the counter of the nearest `repeat` that is running, whichever activation
/// started it.
pub struct Scope {
    pub variables: Map<Seq<char>, Datum>,
    pub counter: Option<Number>,
}

/// The result of `+ - * /` on two values.
pub open spec fn arithmetic(op: BinaryOp, left: Datum, right: Datum) -> Result<Datum, EvalError> {
    match (left, right) {
        (Datum::Number(a), Datum::Number(b)) => match op {
            BinaryOp::Add => Ok(Datum::Number(a.plus_spec(b))),
            BinaryOp::Sub => Ok(Datum::Number(a.minus_spec(b))),
            BinaryOp::Mul => Ok(Datum::Number(a.times_spec(b))),
            BinaryOp::Div => match a.divided_by_spec(b) {
                Some(q) => Ok(Datum::Number(q)),
                None => Err(EvalError::DivisionByZero),
            },
            _ => Err(EvalError::TypeMismatch(Operation::Comparison)),
        },
        _ => Err(EvalError::TypeMismatch(Operation::Arithmetic)),
    }
}

/// The result of `< > =` on two values.
pub open spec fn comparison(op: BinaryOp, left: Datum, right: Datum) -> Result<bool, EvalError> {
    match (left, right) {
        (Datum::Number(a), Datum::Number(b)) => match op {
            BinaryOp::Less => Ok(a.less_than_spec(b)),
            BinaryOp::Greater => Ok(b.less_than_spec(a)),
            BinaryOp::Equal => Ok(a.same_value_spec(b)),
            _ => Err(EvalError::TypeMismatch(Operation::Condition)),
        },
        _ => Err(EvalError::TypeMismatch(Operation::Arithmetic)),
    }
}

/// How many whole numbers `random` chooses from for a bound above zero: the
/// integer part of the bound, and one for a bound below 1.
pub open spec fn choices(bound: Number) -> u64 {
    match bound.count_spec() {
        Some(n) => if n == 0 {
            1
        } else {
            n
        },
        None => 1,
    }
}

/// `random bound`: a whole number in `[0, bound)`, by one draw.
pub open spec fn random_value(bound: Datum, rng: Rng) -> (Result<Datum, EvalError>, Rng) {
    match bound {
        Datum::Number(n) => if Number::spec_zero().less_than_spec(n) {
            (Ok(Datum::Number(Number::index_spec(rng.drawn_below(choices(n))))), rng.advanced())
        } else {
            (Err(EvalError::EmptyRange), rng)
        },
        _ => (Err(EvalError::TypeMismatch(Operation::RandomBound)), rng),
    }
}

/// `pick list`: one item of the list, by one draw.
pub open spec fn picked_value(list: Datum, rng: Rng) -> (Result<Datum, EvalError>, Rng) {
    match list {
        Datum::List(items) => if items.len() == 0 {
            (Err(EvalError::EmptyRange), rng)
        } else {
            (Ok(items[rng.drawn() as int % items.len() as int]), rng.advanced())
        },
        _ => (Err(EvalError::TypeMismatch(Operation::PickList)), rng),
    }
}

/// The value of `e` in `scope`, and the generator after the draws that the
/// evaluation made.
pub open spec fn value_of(e: Expression, scope: Scope, rng: Rng) -> (Result<Datum, EvalError>, Rng)
    decreases e, 0nat,
{
    match e {
        Expression::Number(n) => (Ok(Datum::Number(n)), rng),
        Expression::Word(w) => (Ok(Datum::Word(w)), rng),
        Expression::List(items) => {
            let (values, after) = values_of(items@, items@.len(), scope, rng);
            match values {
                Ok(s) => (Ok(Datum::List(s)), after),
                Err(err) => (Err(err), after),
            }
        },
        Expression::Variable(name) => if scope.variables.contains_key(name@) {
            (Ok(scope.variables[name@]), rng)
        } else {
            (Err(EvalError::UnboundVariable(name)), rng)
        },
        Expression::Binary(op, left, right) => if op.is_comparison() {
            (Err(EvalError::TypeMismatch(Operation::Comparison)), rng)
        } else {
            let (a, first) = value_of(*left, scope, rng);
            match a {
                Err(err) => (Err(err), first),
                Ok(x) => {
                    let (b, second) = value_of(*right, scope, first);
                    match b {
                        Err(err) => (Err(err), second),
                        Ok(y) => (arithmetic(op, x, y), second),
                    }
                },
            }
        },
        Expression::Random(bound) => {
            let (b, after) = value_of(*bound, scope, rng);
            match b {
                Err(err) => (Err(err), after),
                Ok(v) => random_value(v, after),
            }
        },
        Expression::Pick(list) => {
            let (l, after) = value_of(*list, scope, rng);
            match l {
                Err(err) => (Err(err), after),
                Ok(v) => picked_value(v, after),
            }
        },
        Expression::RepCount => match scope.counter {
            Some(c) => (Ok(Datum::Number(c)), rng),
            None => (Err(EvalError::RepcountOutsideLoop), rng),
        },
    }
}

/// The values of the first `upto` expressions of `items`, evaluated in
/// order, or the first error among them.
pub open spec fn values_of(items: Seq<Expression>, upto: nat, scope: Scope, rng: Rng) -> (
    Result<Seq<Datum>, EvalError>,
    Rng,
)
    decreases items, upto,
{
    if upto == 0 || upto > items.len() {
        (Ok(Seq::empty()), rng)
    } else {
        let (before, mid) = values_of(items, (upto - 1) as nat, scope, rng);
        match before {
            Err(err) => (Err(err), mid),
            Ok(s) => {
                let (v, after) = value_of(items[upto - 1], scope, mid);
                match v {
                    Err(err) => (Err(err), after),
                    Ok(d) => (Ok(s.push(d)), after),
                }
            },
        }
    }
}

/// The truth of a condition: a comparison of two numbers. Anything else in
/// the place of a condition is a type mismatch.
pub open spec fn truth_of(e: Expression, scope: Scope, rng: Rng) -> (Result<bool, EvalError>, Rng) {
    match e {
        Expression::Binary(op, left, right) => if op.is_comparison() {
            let (a, first) = value_of(*left, scope, rng);
            match a {
                Err(err) => (Err(err), first),
                Ok(x) => {
                    let (b, second) = value_of(*right, scope, first);
                    match b {
                        Err(err) => (Err(err), second),
                        Ok(y) => (comparison(op, x, y), second),
                    }
                },
            }
        } else {
            (Err(EvalError::TypeMismatch(Operation::Condition)), rng)
        },
        _ => (Err(EvalError::TypeMismatch(Operation::Condition)), rng),
    }
}

/// The number that `e` evaluates to; a value of another kind is a type
/// mismatch in `operation`.
pub open spec fn number_of(e: Expression, scope: Scope, rng: Rng, operation: Operation) -> (
    Result<Number, EvalError>,
    Rng,
) {
    let (v, after) = value_of(e, scope, rng);
    match v {
        Ok(Datum::Number(n)) => (Ok(n), after),
        Ok(_) => (Err(EvalError::TypeMismatch(operation)), after),
        Err(err) => (Err(err), after),
    }
}

/// An error among the first expressions stays the result, however many more
/// are asked for.
pub proof fn first_error_stays(items: Seq<Expression>, k: nat, upto: nat, scope: Scope, rng: Rng)
    requires
        k <= upto <= items.len(),
        values_of(items, k, scope, rng).0 is Err,
    ensures
        values_of(items, upto, scope, rng) == values_of(items, k, scope, rng),
    decreases upto,
{
    if k < upto {
        first_error_stays(items, k, (upto - 1) as nat, scope, rng);
    }
}

/// Whether an evaluator's result is the one that the definition gives.
pub open spec fn agrees(r: Result<Value, EvalError>, expected: Result<Datum, EvalError>) -> bool {
    match r {
        Ok(v) => expected == Ok::<Datum, EvalError>(v@),
        Err(err) => expected == Err::<Datum, EvalError>(err),
    }
}

fn apply_arithmetic(op: BinaryOp, left: Value, right: Value) -> (r: Result<Value, EvalError>)
    ensures
        agrees(r, arithmetic(op, left@, right@)),
{
    match (left, right) {
        (Value::Number(a), Value::Number(b)) => match op {
            BinaryOp::Add => Ok(Value::Number(a.plus(b))),
            BinaryOp::Sub => Ok(Value::Number(a.minus(b))),
            BinaryOp::Mul => Ok(Value::Number(a.times(b))),
            BinaryOp::Div => match a.divided_by(b) {
                Some(q) => Ok(Value::Number(q)),
                None => Err(EvalError::DivisionByZero),
            },
            _ => Err(EvalError::TypeMismatch(Operation::Comparison)),
        },
        _ => Err(EvalError::TypeMismatch(Operation::Arithmetic)),
    }
}

fn apply_comparison(op: BinaryOp, left: Value, right: Value) -> (r: Result<bool, EvalError>)
    ensures
        r == comparison(op, left@, right@),
{
    match (left, right) {
        (Value::Number(a), Value::Number(b)) => match op {
            BinaryOp::Less => Ok(a.less_than(b)),
            BinaryOp::Greater => Ok(b.less_than(a)),
            BinaryOp::Equal => Ok(a.same_value(b)),
            _ => Err(EvalError::TypeMismatch(Operation::Condition)),
        },
        _ => Err(EvalError::TypeMismatch(Operation::Arithmetic)),
    }
}

fn random_below(bound: Value, rng: &mut Rng) -> (r: Result<Value, EvalError>)
    ensures
        agrees(r, random_value(bound@, *old(rng)).0),
        *final(rng) == random_value(bound@, *old(rng)).1,
{
    match bound {
        Value::Number(n) => {
            if Number::zero().less_than(n) {
                let k: u64 = match n.to_count() {
                    Some(c) => if c == 0 {
                        1
                    } else {
                        c
                    },
                    None => 1,
                };
                let drawn: u64 = rng.draw_below(k);
                Ok(Value::Number(Number::from_index(drawn)))
            } else {
                Err(EvalError::EmptyRange)
            }
        },
        _ => Err(EvalError::TypeMismatch(Operation::RandomBound)),
    }
}

fn pick_from(list: Value, rng: &mut Rng) -> (r: Result<Value, EvalError>)
    ensures
        agrees(r, picked_value(list@, *old(rng)).0),
        *final(rng) == picked_value(list@, *old(rng)).1,
{
    match list {
        Value::List(items) => {
            proof {
                data_of_is_pointwise(items@, items@.len());
            }
            if items.len() == 0 {
                Err(EvalError::EmptyRange)
            } else {
                let drawn: u64 = rng.draw_below(items.len() as u64);
                Ok(items[drawn as usize].duplicate())
            }
        },
        _ => Err(EvalError::TypeMismatch(Operation::PickList)),
    }
}

/// Evaluates `e` with the variables of `env` and the counter of the nearest
/// running `repeat`.
pub fn evaluate_expression(
    e: &Expression,
    env: &Environment,
    counter: Option<Number>,
    rng: &mut Rng,
) -> (r: Result<Value, EvalError>)
    ensures
        agrees(r, value_of(*e, Scope { variables: env@, counter }, *old(rng)).0),
        *final(rng) == value_of(*e, Scope { variables: env@, counter }, *old(rng)).1,
    decreases e,
{
    let ghost scope = Scope { variables: env@, counter };
    match e {
        Expression::Number(n) => Ok(Value::Number(*n)),
        Expression::Word(w) => Ok(Value::Word(w.clone())),
        Expression::List(items) => {
            let ghost start = *rng;
            let mut values: Vec<Value> = Vec::new();
            let mut i: usize = 0;
            while i < items.len()
                invariant
                    i <= items.len(),
                    e matches Expression::List(list) && list == items,
                    scope == (Scope { variables: env@, counter }),
                    start == *old(rng),
                    values.len() == i,
                    values_of(items@, i as nat, scope, start) == (
                        Ok::<Seq<Datum>, EvalError>(data_of(values@, i as nat)),
                        *rng,
                    ),
                decreases items.len() - i,
            {
                let ghost before = data_of(values@, i as nat);
                let ghost old_values = values@;
                match evaluate_expression(&items[i], env, counter, rng) {
                    Ok(v) => {
                        values.push(v);
                        proof {
                            data_of_is_pointwise(old_values, i as nat);
                            data_of_is_pointwise(values@, (i + 1) as nat);
                            assert(data_of(values@, (i + 1) as nat) =~= before.push(v@));
                        }
                    },
                    Err(err) => {
                        proof {
                            assert(values_of(items@, (i + 1) as nat, scope, start).0 is Err);
                            first_error_stays(
                                items@,
                                (i + 1) as nat,
                                items@.len(),
                                scope,
                                start,
                            );
                        }
                        return Err(err);
                    },
                }
                i = i + 1;
            }
            Ok(Value::List(values))
        },
        Expression::Variable(name) => match env.lookup(name.as_str()) {
            Some(v) => Ok(v),
            None => Err(EvalError::UnboundVariable(name.clone())),
        },
        Expression::Binary(op, left, right) => {
            if op.compares() {
                Err(EvalError::TypeMismatch(Operation::Comparison))
            } else {
                let a = evaluate_expression(left, env, counter, rng)?;
                let b = evaluate_expression(right, env, counter, rng)?;
                apply_arithmetic(*op, a, b)
            }
        },
        Expression::Random(bound) => {
            let b = evaluate_expression(bound, env, counter, rng)?;
            random_below(b, rng)
        },
        Expression::Pick(list) => {
            let l = evaluate_expression(list, env, counter, rng)?;
            pick_from(l, rng)
        },
        Expression::RepCount => match counter {
            Some(c) => Ok(Value::Number(c)),
            None => Err(EvalError::RepcountOutsideLoop),
        },
    }
}

/// Evaluates a condition: a comparison of two numbers.
pub fn evaluate_condition(
    e: &Expression,
    env: &Environment,
    counter: Option<Number>,
    rng: &mut Rng,
) -> (r: Result<bool, EvalError>)
    ensures
        r == truth_of(*e, Scope { variables: env@, counter }, *old(rng)).0,
        *final(rng) == truth_of(*e, Scope { variables: env@, counter }, *old(rng)).1,
{
    match e {
        Expression::Binary(op, left, right) => {
            if op.compares() {
                let a = evaluate_expression(left, env, counter, rng)?;
                let b = evaluate_expression(right, env, counter, rng)?;
                apply_comparison(*op, a, b)
            } else {
                Err(EvalError::TypeMismatch(Operation::Condition))
            }
        },
        _ => Err(EvalError::TypeMismatch(Operation::Condition)),
    }
}

/// Evaluates `e` to a number; `operation` says where, for the error.
pub fn evaluate_number(
    e: &Expression,
    env: &Environment,
    counter: Option<Number>,
    rng: &mut Rng,
    operation: Operation,
) -> (r: Result<Number, EvalError>)
    ensures
        r == number_of(*e, Scope { variables: env@, counter }, *old(rng), operation).0,
        *final(rng) == number_of(*e, Scope { variables: env@, counter }, *old(rng), operation).1,
{
    match evaluate_expression(e, env, counter, rng) {
        Ok(Value::Number(n)) => Ok(n),
        Ok(_) => Err(EvalError::TypeMismatch(operation)),
        Err(err) => Err(err),
    }
}

} // verus!
