use turtle_logo::ast::{BinaryOp, Expression, FuncDeclaration, Instruction, Logo};
use turtle_logo::error::{EvalError, Operation, RenderError};
use turtle_logo::eval::{evaluate_condition, evaluate_expression, Environment};
use turtle_logo::interpreter::{interpret, Failure};
use turtle_logo::number::Number;
use turtle_logo::random::Rng;
use turtle_logo::render::{render, Rgb, Shape};
use turtle_logo::run::{create_functions_map, evaluate, run_instructions, Outcome};
use turtle_logo::turtle::{Color, Effect, Point, Turtle};
use turtle_logo::value::Value;

fn num(x: f64) -> Number {
    Number::from_bits(x.to_bits())
}

fn float(n: Number) -> f64 {
    f64::from_bits(n.to_bits())
}

fn lit(x: f64) -> Expression {
    Expression::Number(num(x))
}

fn var(name: &str) -> Expression {
    Expression::Variable(name.to_string())
}

fn word(name: &str) -> Expression {
    Expression::Word(name.to_string())
}

fn bin(op: BinaryOp, a: Expression, b: Expression) -> Expression {
    Expression::Binary(op, Box::new(a), Box::new(b))
}

fn fd(x: f64) -> Instruction {
    Instruction::Forward(lit(x))
}

fn rt(x: f64) -> Instruction {
    Instruction::Right(lit(x))
}

fn call(name: &str, args: Vec<Expression>) -> Instruction {
    Instruction::Call(name.to_string(), args)
}

fn proc(name: &str, params: &[&str], body: Vec<Instruction>) -> FuncDeclaration {
    FuncDeclaration {
        name: name.to_string(),
        parameters: params.iter().map(|p| p.to_string()).collect(),
        body,
    }
}

fn point(x: f64, y: f64) -> Point {
    Point { x: num(x), y: num(y) }
}

struct Run {
    result: Result<Vec<Effect>, EvalError>,
    turtle: Turtle,
    rng: Rng,
}

fn run_with(program: Vec<Instruction>, procs: Vec<FuncDeclaration>, seed: u64, depth: usize) -> Run {
    let table = create_functions_map(procs);
    let env = Environment::new();
    let mut turtle = Turtle::new();
    let mut rng = Rng::seeded(seed);
    let result = run_instructions(&program, &env, &mut turtle, &table, &mut rng, depth);
    Run { result, turtle, rng }
}

fn run_plain(program: Vec<Instruction>, procs: Vec<FuncDeclaration>) -> Run {
    run_with(program, procs, 1, 64)
}

fn lines(effects: &[Effect]) -> Vec<(f64, f64, f64, f64)> {
    effects
        .iter()
        .filter_map(|e| match e {
            Effect::Line { from, to, .. } => Some((float(from.x), float(from.y), float(to.x), float(to.y))),
            _ => None,
        })
        .collect()
}

fn eval(e: &Expression, counter: Option<Number>) -> Result<Value, EvalError> {
    let env = Environment::new();
    let mut rng = Rng::seeded(7);
    evaluate_expression(e, &env, counter, &mut rng)
}

fn star() -> (Vec<Instruction>, Vec<FuncDeclaration>) {
    (
        vec![Instruction::ClearScreen, call("star", vec![])],
        vec![proc("star", &[], vec![Instruction::Repeat(lit(5.0), vec![fd(100.0), rt(144.0)])])],
    )
}

fn square_program() -> (Vec<Instruction>, Vec<FuncDeclaration>) {
    (
        vec![Instruction::ClearScreen, call("square", vec![lit(100.0)])],
        vec![proc(
            "square",
            &["length"],
            vec![Instruction::Repeat(
                lit(4.0),
                vec![Instruction::Forward(var("length")), rt(90.0)],
            )],
        )],
    )
}

fn tree_program() -> (Vec<Instruction>, Vec<FuncDeclaration>) {
    let size = || var("size");
    let scaled = |m: f64, d: f64| bin(BinaryOp::Div, bin(BinaryOp::Mul, size(), lit(m)), lit(d));
    let body = vec![
        Instruction::If(
            bin(BinaryOp::Less, size(), lit(5.0)),
            vec![Instruction::Forward(size()), Instruction::Back(size()), Instruction::Stop],
        ),
        Instruction::Forward(bin(BinaryOp::Div, size(), lit(3.0))),
        Instruction::Left(lit(30.0)),
        call("tree", vec![scaled(2.0, 3.0)]),
        Instruction::Right(lit(30.0)),
        Instruction::Forward(bin(BinaryOp::Div, size(), lit(6.0))),
        Instruction::Right(lit(25.0)),
        call("tree", vec![bin(BinaryOp::Div, size(), lit(2.0))]),
        Instruction::Left(lit(25.0)),
        Instruction::Forward(bin(BinaryOp::Div, size(), lit(3.0))),
        Instruction::Right(lit(25.0)),
        call("tree", vec![bin(BinaryOp::Div, size(), lit(2.0))]),
        Instruction::Left(lit(25.0)),
        Instruction::Forward(bin(BinaryOp::Div, size(), lit(6.0))),
        Instruction::Back(size()),
    ];
    (
        vec![
            Instruction::ClearScreen,
            Instruction::PenUp,
            Instruction::Back(lit(100.0)),
            Instruction::PenDown,
            call("tree", vec![lit(150.0)]),
        ],
        vec![proc("tree", &["size"], body)],
    )
}

#[test]
fn polygons_close() {
    for n in [1u32, 2, 3, 4, 5, 6, 7, 8, 9, 10, 12, 36, 100, 360] {
        for d in [1.0f64, 10.0, 100.0, 0.25] {
            let angle = bin(BinaryOp::Div, lit(360.0), lit(n as f64));
            let program = vec![Instruction::Repeat(lit(n as f64), vec![fd(d), Instruction::Right(angle)])];
            let run = run_plain(program, vec![]);
            let effects = run.result.unwrap();
            assert_eq!(lines(&effects).len(), n as usize);
            let x = float(run.turtle.position.x);
            let y = float(run.turtle.position.y);
            let tolerance = 1e-9 * d * n as f64;
            if n >= 2 {
                assert!(x.abs() < tolerance, "n={} d={} x={}", n, d, x);
                assert!(y.abs() < tolerance, "n={} d={} y={}", n, d, y);
            } else {
                // one side and a full turn: the turtle ends one side away
                assert_eq!((x, y), (0.0, d));
            }
            let h = float(run.turtle.heading);
            assert!((0.0..360.0).contains(&h));
            assert!(h < 1e-9 || 360.0 - h < 1e-9, "n={} heading={}", n, h);
        }
    }
}

#[test]
fn square_of_side_100_closes_exactly() {
    let (program, procs) = square_program();
    let run = run_plain(program, procs);
    let effects = run.result.unwrap();
    assert_eq!(effects[0], Effect::Clear);
    let strokes = lines(&effects);
    assert_eq!(strokes.len(), 4);
    let corners = [(0.0, 0.0), (0.0, 100.0), (100.0, 100.0), (100.0, 0.0), (0.0, 0.0)];
    for (i, s) in strokes.iter().enumerate() {
        assert!((s.0 - corners[i].0).abs() < 1e-9 && (s.1 - corners[i].1).abs() < 1e-9);
        assert!((s.2 - corners[i + 1].0).abs() < 1e-9 && (s.3 - corners[i + 1].1).abs() < 1e-9);
        let side = ((s.2 - s.0).powi(2) + (s.3 - s.1).powi(2)).sqrt();
        assert!((side - 100.0).abs() < 1e-9);
    }
    assert_eq!(float(run.turtle.heading), 0.0);
    assert!(float(run.turtle.position.x).abs() < 1e-9);
    assert!(float(run.turtle.position.y).abs() < 1e-9);
}

#[test]
fn square_is_centred_on_the_canvas() {
    let (instructions, functions) = square_program();
    let document = interpret(Logo { instructions, functions }, 400, 1, 64).unwrap();
    assert_eq!(document.size, 400);
    assert_eq!(document.shapes.len(), 4);
    match &document.shapes[0] {
        Shape::Stroke { from, to, color } => {
            assert_eq!((float(from.x), float(from.y)), (200.0, 200.0));
            assert!((float(to.x) - 200.0).abs() < 1e-9);
            assert!((float(to.y) - 100.0).abs() < 1e-9);
            assert_eq!(*color, Rgb { red: 0, green: 0, blue: 0 });
        }
        other => panic!("not a stroke: {:?}", other),
    }
    match &document.shapes[3] {
        Shape::Stroke { to, .. } => {
            assert!((float(to.x) - 200.0).abs() < 1e-9);
            assert!((float(to.y) - 200.0).abs() < 1e-9);
        }
        other => panic!("not a stroke: {:?}", other),
    }
}

#[test]
fn forward_moves_along_the_heading() {
    let run = run_plain(vec![rt(90.0), fd(50.0), Instruction::Left(lit(180.0)), Instruction::Back(lit(20.0))], vec![]);
    let strokes = lines(&run.result.unwrap());
    assert_eq!(strokes.len(), 2);
    assert!((strokes[0].2 - 50.0).abs() < 1e-12 && strokes[0].3.abs() < 1e-12);
    assert!((strokes[1].2 - 70.0).abs() < 1e-12 && strokes[1].3.abs() < 1e-12);
    assert_eq!(float(run.turtle.heading), 90.0);
}

#[test]
fn left_adds_to_the_heading_and_right_takes_from_it() {
    let run = run_plain(vec![Instruction::Left(lit(30.0))], vec![]);
    run.result.unwrap();
    assert_eq!(float(run.turtle.heading), 30.0);
    let run = run_plain(vec![rt(30.0)], vec![]);
    run.result.unwrap();
    assert_eq!(float(run.turtle.heading), 330.0);
    let run = run_plain(vec![Instruction::Left(lit(90.0)), fd(10.0)], vec![]);
    run.result.unwrap();
    assert!((float(run.turtle.position.x) + 10.0).abs() < 1e-12);
    assert!(float(run.turtle.position.y).abs() < 1e-12);
}

#[test]
fn headings_wrap_into_one_turn() {
    for (turn, expected) in [(90.0, 90.0), (360.0, 0.0), (450.0, 90.0), (-90.0, 270.0), (-720.0, 0.0), (1000.5, 280.5), (0.0, 0.0)] {
        let run = run_plain(vec![Instruction::Left(lit(turn))], vec![]);
        run.result.unwrap();
        assert_eq!(float(run.turtle.heading), expected, "left {}", turn);
        let run = run_plain(vec![rt(-turn)], vec![]);
        run.result.unwrap();
        assert_eq!(float(run.turtle.heading), expected, "right {}", -turn);
    }
}

#[test]
fn pen_up_draws_nothing() {
    let program = vec![
        Instruction::PenUp,
        fd(100.0),
        rt(37.0),
        Instruction::Back(lit(1e6)),
        Instruction::Repeat(lit(10.0), vec![fd(3.5), Instruction::Left(lit(11.0))]),
        Instruction::PenDown,
        fd(1.0),
    ];
    let run = run_plain(program, vec![]);
    let effects = run.result.unwrap();
    assert_eq!(lines(&effects).len(), 1);
    assert_eq!(effects.len(), 1);
}

#[test]
fn lines_span_the_move_in_the_current_colour() {
    let program = vec![Instruction::SetColor(word("red")), fd(10.0)];
    let effects = run_plain(program, vec![]).result.unwrap();
    assert_eq!(
        effects,
        vec![
            Effect::ColorChange(Color::Named("red".to_string())),
            Effect::Line { from: point(0.0, 0.0), to: point(0.0, 10.0), color: Color::Named("red".to_string()) },
        ]
    );
}

#[test]
fn repcount_counts_from_one() {
    let program = vec![Instruction::Repeat(
        lit(5.0),
        vec![Instruction::SetLabelHeight(Expression::RepCount), Instruction::Label("x".to_string())],
    )];
    let effects = run_plain(program, vec![]).result.unwrap();
    let heights: Vec<f64> = effects
        .iter()
        .map(|e| match e {
            Effect::Label { height, .. } => float(*height),
            other => panic!("not a label: {:?}", other),
        })
        .collect();
    assert_eq!(heights, vec![1.0, 2.0, 3.0, 4.0, 5.0]);
}

#[test]
fn repcount_outside_a_loop_is_an_error() {
    let run = run_plain(vec![Instruction::Forward(Expression::RepCount)], vec![]);
    assert_eq!(run.result, Err(EvalError::RepcountOutsideLoop));
    assert_eq!(eval(&Expression::RepCount, None), Err(EvalError::RepcountOutsideLoop));
    assert_eq!(eval(&Expression::RepCount, Some(num(3.0))), Ok(Value::Number(num(3.0))));
}

#[test]
fn repcount_of_the_nearest_loop() {
    let inner = Instruction::Repeat(lit(2.0), vec![Instruction::Forward(Expression::RepCount)]);
    let program = vec![Instruction::Repeat(lit(2.0), vec![inner, Instruction::Forward(bin(BinaryOp::Mul, Expression::RepCount, lit(10.0)))])];
    let effects = run_plain(program, vec![]).result.unwrap();
    let lengths: Vec<f64> = lines(&effects).iter().map(|s| s.3 - s.1).collect();
    assert_eq!(lengths, vec![1.0, 2.0, 10.0, 1.0, 2.0, 20.0]);
}

#[test]
fn repcount_reaches_into_a_called_procedure() {
    let procs = vec![proc("step", &[], vec![Instruction::Forward(Expression::RepCount)])];
    let program = vec![Instruction::Repeat(lit(3.0), vec![call("step", vec![])])];
    let effects = run_plain(program, procs).result.unwrap();
    let lengths: Vec<f64> = lines(&effects).iter().map(|s| s.3 - s.1).collect();
    assert_eq!(lengths, vec![1.0, 2.0, 3.0]);
    let procs = vec![proc("step", &[], vec![Instruction::Forward(Expression::RepCount)])];
    assert_eq!(run_plain(vec![call("step", vec![])], procs).result, Err(EvalError::RepcountOutsideLoop));
}

#[test]
fn repeat_truncates_its_count() {
    let effects = run_plain(vec![Instruction::Repeat(lit(3.9), vec![fd(1.0)])], vec![]).result.unwrap();
    assert_eq!(effects.len(), 3);
    let effects = run_plain(vec![Instruction::Repeat(lit(0.0), vec![fd(1.0)])], vec![]).result.unwrap();
    assert_eq!(effects.len(), 0);
}

#[test]
fn repeat_refuses_a_negative_count() {
    assert_eq!(run_plain(vec![Instruction::Repeat(lit(-1.0), vec![fd(1.0)])], vec![]).result, Err(EvalError::InvalidCount));
    assert_eq!(
        run_plain(vec![Instruction::Repeat(word("many"), vec![fd(1.0)])], vec![]).result,
        Err(EvalError::TypeMismatch(Operation::RepeatCount))
    );
}

#[test]
fn parameters_do_not_leak_to_the_caller() {
    let procs = vec![proc("f", &["x"], vec![Instruction::Forward(var("x"))])];
    let program = vec![call("f", vec![lit(5.0)]), Instruction::Forward(var("x"))];
    let run = run_plain(program, procs);
    assert_eq!(run.result, Err(EvalError::UnboundVariable("x".to_string())));
    assert_eq!(float(run.turtle.position.y), 5.0);
}

#[test]
fn callers_variables_are_hidden_from_the_callee() {
    let procs = vec![
        proc("outer", &["a"], vec![call("inner", vec![lit(1.0)])]),
        proc("inner", &["b"], vec![Instruction::Forward(var("a"))]),
    ];
    let run = run_plain(vec![call("outer", vec![lit(5.0)])], procs);
    assert_eq!(run.result, Err(EvalError::UnboundVariable("a".to_string())));
    let procs = vec![
        proc("outer", &["a"], vec![call("inner", vec![var("a")])]),
        proc("inner", &["b"], vec![Instruction::Forward(var("b"))]),
    ];
    let run = run_plain(vec![call("outer", vec![lit(5.0)])], procs);
    run.result.unwrap();
    assert_eq!(float(run.turtle.position.y), 5.0);
}

#[test]
fn arguments_are_evaluated_in_the_callers_scope() {
    let procs = vec![
        proc("outer", &["x"], vec![call("inner", vec![bin(BinaryOp::Add, var("x"), lit(1.0))])]),
        proc("inner", &["x"], vec![Instruction::Forward(var("x"))]),
    ];
    let run = run_plain(vec![call("outer", vec![lit(5.0)])], procs);
    run.result.unwrap();
    assert_eq!(float(run.turtle.position.y), 6.0);
}

#[test]
fn stop_ends_only_its_procedure() {
    let procs = vec![proc(
        "f",
        &["n"],
        vec![
            fd(1.0),
            Instruction::Repeat(lit(3.0), vec![Instruction::If(bin(BinaryOp::Less, var("n"), lit(5.0)), vec![fd(10.0), Instruction::Stop, fd(100.0)]), fd(1000.0)]),
            fd(10000.0),
        ],
    )];
    let program = vec![call("f", vec![lit(1.0)]), fd(0.5)];
    let run = run_plain(program, procs);
    let effects = run.result.unwrap();
    let lengths: Vec<f64> = lines(&effects).iter().map(|s| s.3 - s.1).collect();
    assert_eq!(lengths, vec![1.0, 10.0, 0.5]);
}

#[test]
fn stop_at_the_top_level_ends_the_run() {
    let run = run_plain(vec![fd(1.0), Instruction::Stop, fd(2.0)], vec![]);
    assert_eq!(run.result.unwrap().len(), 1);
    let table = create_functions_map(vec![]);
    let env = Environment::new();
    let mut turtle = Turtle::new();
    let mut log = Vec::new();
    let mut rng = Rng::seeded(0);
    let outcome = evaluate(&vec![fd(1.0), Instruction::Stop, fd(2.0)], &env, None, &mut turtle, &mut log, &mut rng, &table, 8);
    assert_eq!(outcome, Outcome::Stopped);
    assert_eq!(log.len(), 1);
}

#[test]
fn tree_recursion_with_stop() {
    let (program, procs) = tree_program();
    let run = run_plain(program, procs);
    let effects = run.result.unwrap();
    assert!(lines(&effects).len() > 100);
    assert!((float(run.turtle.position.x)).abs() < 1e-6);
    assert!((float(run.turtle.position.y) + 100.0).abs() < 1e-6);
}

#[test]
fn star_has_five_strokes() {
    let (program, procs) = star();
    let run = run_plain(program, procs);
    let effects = run.result.unwrap();
    assert_eq!(effects.len(), 6);
    assert_eq!(lines(&effects).len(), 5);
    assert!(float(run.turtle.position.x).abs() < 1e-9);
    assert!(float(run.turtle.position.y).abs() < 1e-9);
}

#[test]
fn unknown_procedure() {
    assert_eq!(run_plain(vec![call("nothing", vec![])], vec![]).result, Err(EvalError::UnknownProcedure("nothing".to_string())));
}

#[test]
fn wrong_argument_count() {
    let procs = vec![proc("f", &["a", "b"], vec![])];
    assert_eq!(
        run_plain(vec![call("f", vec![lit(1.0)])], procs).result,
        Err(EvalError::WrongArgumentCount { name: "f".to_string(), expected: 2, found: 1 })
    );
}

#[test]
fn recursion_is_limited() {
    let procs = vec![proc("forever", &[], vec![fd(1.0), call("forever", vec![])])];
    let run = run_with(vec![call("forever", vec![])], procs, 0, 10);
    assert_eq!(run.result, Err(EvalError::RecursionLimit));
    assert_eq!(float(run.turtle.position.y), 10.0);
    let procs = vec![proc("once", &[], vec![fd(1.0)])];
    assert_eq!(run_with(vec![call("once", vec![])], procs, 0, 0).result, Err(EvalError::RecursionLimit));
    let procs = vec![proc("once", &[], vec![fd(1.0)])];
    assert!(run_with(vec![call("once", vec![])], procs, 0, 1).result.is_ok());
}

#[test]
fn division_by_zero_is_an_error() {
    assert_eq!(eval(&bin(BinaryOp::Div, lit(1.0), lit(0.0)), None), Err(EvalError::DivisionByZero));
    assert_eq!(eval(&bin(BinaryOp::Div, lit(0.0), lit(-0.0)), None), Err(EvalError::DivisionByZero));
    assert_eq!(eval(&bin(BinaryOp::Div, lit(1.0), lit(4.0)), None), Ok(Value::Number(num(0.25))));
}

#[test]
fn arithmetic_on_values() {
    let e = bin(BinaryOp::Add, lit(1.5), bin(BinaryOp::Mul, lit(2.0), bin(BinaryOp::Sub, lit(10.0), lit(4.0))));
    assert_eq!(eval(&e, None), Ok(Value::Number(num(13.5))));
    let list = Expression::List(vec![lit(1.0), word("red"), bin(BinaryOp::Add, lit(1.0), lit(1.0))]);
    assert_eq!(
        eval(&list, None),
        Ok(Value::List(vec![Value::Number(num(1.0)), Value::Word("red".to_string()), Value::Number(num(2.0))]))
    );
}

#[test]
fn arithmetic_on_a_list_is_a_type_mismatch() {
    let e = bin(BinaryOp::Add, Expression::List(vec![lit(1.0)]), lit(1.0));
    assert_eq!(eval(&e, None), Err(EvalError::TypeMismatch(Operation::Arithmetic)));
    let e = bin(BinaryOp::Less, lit(1.0), lit(2.0));
    assert_eq!(eval(&e, None), Err(EvalError::TypeMismatch(Operation::Comparison)));
    assert_eq!(run_plain(vec![Instruction::Forward(word("far"))], vec![]).result, Err(EvalError::TypeMismatch(Operation::Distance)));
    assert_eq!(run_plain(vec![Instruction::Left(word("far"))], vec![]).result, Err(EvalError::TypeMismatch(Operation::Angle)));
    assert_eq!(run_plain(vec![Instruction::SetColor(lit(1.0))], vec![]).result, Err(EvalError::TypeMismatch(Operation::Color)));
    assert_eq!(
        run_plain(vec![Instruction::SetLabelHeight(word("tall"))], vec![]).result,
        Err(EvalError::TypeMismatch(Operation::LabelHeight))
    );
}

#[test]
fn conditions_are_comparisons() {
    let env = Environment::new();
    let mut rng = Rng::seeded(0);
    assert_eq!(evaluate_condition(&bin(BinaryOp::Less, lit(1.0), lit(2.0)), &env, None, &mut rng), Ok(true));
    assert_eq!(evaluate_condition(&bin(BinaryOp::Greater, lit(1.0), lit(2.0)), &env, None, &mut rng), Ok(false));
    assert_eq!(evaluate_condition(&bin(BinaryOp::Equal, lit(0.0), lit(-0.0)), &env, None, &mut rng), Ok(true));
    assert_eq!(evaluate_condition(&lit(1.0), &env, None, &mut rng), Err(EvalError::TypeMismatch(Operation::Condition)));
    assert_eq!(
        evaluate_condition(&bin(BinaryOp::Add, lit(1.0), lit(2.0)), &env, None, &mut rng),
        Err(EvalError::TypeMismatch(Operation::Condition))
    );
    let effects = run_plain(vec![Instruction::If(bin(BinaryOp::Less, lit(2.0), lit(1.0)), vec![fd(1.0)]), fd(2.0)], vec![]).result.unwrap();
    assert_eq!(effects.len(), 1);
}

#[test]
fn unbound_variable() {
    assert_eq!(eval(&var("size"), None), Err(EvalError::UnboundVariable("size".to_string())));
    let mut env = Environment::new();
    env.bind("size".to_string(), Value::Number(num(2.0)));
    env.bind("size".to_string(), Value::Number(num(3.0)));
    let mut rng = Rng::seeded(0);
    assert_eq!(evaluate_expression(&var("size"), &env, None, &mut rng), Ok(Value::Number(num(3.0))));
}

#[test]
fn random_stays_below_its_bound() {
    let env = Environment::new();
    let mut rng = Rng::seeded(42);
    let mut seen = [false; 6];
    for _ in 0..200 {
        match evaluate_expression(&Expression::Random(Box::new(lit(6.0))), &env, None, &mut rng) {
            Ok(Value::Number(n)) => {
                let x = float(n);
                assert!(x >= 0.0 && x < 6.0 && x.fract() == 0.0);
                seen[x as usize] = true;
            }
            other => panic!("{:?}", other),
        }
    }
    assert!(seen.iter().all(|s| *s));
    assert_eq!(evaluate_expression(&Expression::Random(Box::new(lit(0.5))), &env, None, &mut rng), Ok(Value::Number(num(0.0))));
    assert_eq!(evaluate_expression(&Expression::Random(Box::new(lit(0.0))), &env, None, &mut rng), Err(EvalError::EmptyRange));
    assert_eq!(evaluate_expression(&Expression::Random(Box::new(lit(-3.0))), &env, None, &mut rng), Err(EvalError::EmptyRange));
    assert_eq!(
        evaluate_expression(&Expression::Random(Box::new(word("six"))), &env, None, &mut rng),
        Err(EvalError::TypeMismatch(Operation::RandomBound))
    );
}

#[test]
fn pick_takes_an_item_of_the_list() {
    let env = Environment::new();
    let mut rng = Rng::seeded(3);
    let list = || Expression::List(vec![word("red"), word("orange"), word("yellow")]);
    let mut seen = std::collections::BTreeSet::new();
    for _ in 0..100 {
        match evaluate_expression(&Expression::Pick(Box::new(list())), &env, None, &mut rng) {
            Ok(Value::Word(w)) => {
                assert!(["red", "orange", "yellow"].contains(&w.as_str()));
                seen.insert(w);
            }
            other => panic!("{:?}", other),
        }
    }
    assert_eq!(seen.len(), 3);
    assert_eq!(evaluate_expression(&Expression::Pick(Box::new(Expression::List(vec![]))), &env, None, &mut rng), Err(EvalError::EmptyRange));
    assert_eq!(
        evaluate_expression(&Expression::Pick(Box::new(lit(1.0))), &env, None, &mut rng),
        Err(EvalError::TypeMismatch(Operation::PickList))
    );
}

#[test]
fn the_generator_is_a_function_of_its_seed() {
    let mut a = Rng::seeded(0);
    let mut b = Rng::seeded(0);
    let first = a.draw();
    assert_eq!(first, 0xE220A8397B1DCDAF);
    assert_eq!(b.draw(), first);
    assert_eq!(a.draw(), 0x6E789E6AA1B965F4);
    assert_eq!(a.draw_below(10), 0x06C45D188009454F % 10);
}

fn random_squares() -> (Vec<Instruction>, Vec<FuncDeclaration>) {
    let colours = Expression::List(vec![word("red"), word("orange"), word("yellow"), word("green"), word("blue"), word("violet")]);
    (
        vec![
            Instruction::ClearScreen,
            Instruction::Repeat(
                lit(36.0),
                vec![call("randomcolor", vec![]), call("square", vec![Expression::Random(Box::new(lit(200.0)))]), rt(10.0)],
            ),
        ],
        vec![
            proc("square", &["length"], vec![Instruction::Repeat(lit(4.0), vec![Instruction::Forward(var("length")), rt(90.0)])]),
            proc("randomcolor", &[], vec![Instruction::SetColor(Expression::Pick(Box::new(colours)))]),
        ],
    )
}

#[test]
fn runs_with_one_seed_are_identical() {
    let (p1, f1) = random_squares();
    let (p2, f2) = random_squares();
    let a = run_with(p1, f1, 99, 64);
    let b = run_with(p2, f2, 99, 64);
    let ea = a.result.unwrap();
    assert_eq!(ea.len(), 1 + 36 * 5);
    assert_eq!(ea, b.result.unwrap());
    assert_eq!(a.turtle, b.turtle);
    assert_eq!(a.rng, b.rng);
    let (p3, f3) = random_squares();
    let c = run_with(p3, f3, 100, 64);
    assert_ne!(ea, c.result.unwrap());
}

#[test]
fn programs_without_chance_ignore_the_seed() {
    let (p1, f1) = tree_program();
    let (p2, f2) = tree_program();
    let a = run_with(p1, f1, 1, 64);
    let b = run_with(p2, f2, 0xDEADBEEF, 64);
    assert_eq!(a.result.unwrap(), b.result.unwrap());
    assert_eq!(a.turtle, b.turtle);
    assert_eq!(a.rng, Rng::seeded(1));
    assert_eq!(b.rng, Rng::seeded(0xDEADBEEF));
}

#[test]
fn a_heading_that_is_no_number_is_refused() {
    let huge = bin(BinaryOp::Mul, lit(1e308), lit(10.0));
    let nan = bin(BinaryOp::Sub, huge, bin(BinaryOp::Mul, lit(1e308), lit(10.0)));
    let run = run_plain(vec![Instruction::Right(nan)], vec![]);
    assert_eq!(run.result, Err(EvalError::AngleOutOfRange));
    assert_eq!(float(run.turtle.heading), 0.0);
}

#[test]
fn wait_and_window_change_nothing() {
    let run = run_plain(vec![Instruction::Wait(var("unbound")), Instruction::Window, Instruction::Wait(lit(5.0))], vec![]);
    assert_eq!(run.result, Ok(vec![]));
    assert_eq!(run.turtle, Turtle::new());
}

#[test]
fn show_and_hide_leave_markers() {
    let run = run_plain(vec![Instruction::HideTurtle, fd(1.0), Instruction::ShowTurtle], vec![]);
    let effects = run.result.unwrap();
    assert_eq!(effects[0], Effect::Visibility(false));
    assert_eq!(effects[2], Effect::Visibility(true));
    assert!(run.turtle.visible);
    assert_eq!(float(run.turtle.position.y), 1.0);
}

#[test]
fn clearscreen_resets_the_turtle() {
    let run = run_plain(vec![Instruction::PenUp, rt(45.0), fd(10.0), Instruction::SetColor(word("blue")), Instruction::ClearScreen], vec![]);
    let effects = run.result.unwrap();
    assert_eq!(effects.last(), Some(&Effect::Clear));
    assert_eq!(run.turtle, Turtle::new());
    assert!(run.turtle.pen_down);
    assert_eq!(run.turtle.color, Color::Default);
    assert_eq!(float(run.turtle.label_height), 10.0);
}

#[test]
fn later_declaration_replaces_earlier() {
    let procs = vec![proc("f", &[], vec![fd(1.0)]), proc("g", &[], vec![fd(5.0)]), proc("f", &[], vec![fd(2.0)])];
    let run = run_plain(vec![call("f", vec![]), call("g", vec![])], procs);
    run.result.unwrap();
    assert_eq!(float(run.turtle.position.y), 7.0);
    let table = create_functions_map(vec![proc("f", &[], vec![]), proc("f", &["x"], vec![])]);
    assert_eq!(table.len(), 1);
    assert_eq!(table.get("f").unwrap().parameters.len(), 1);
    assert!(table.get("g").is_none());
}

#[test]
fn labels_are_placed_while_the_pen_is_up() {
    let program = vec![
        Instruction::SetLabelHeight(lit(7.0)),
        Instruction::PenUp,
        fd(30.0),
        Instruction::Label("Logo".to_string()),
    ];
    let effects = run_plain(program, vec![]).result.unwrap();
    assert_eq!(effects, vec![Effect::Label { text: "Logo".to_string(), position: point(0.0, 30.0), height: num(7.0) }]);
}

#[test]
fn rendering_keeps_the_order_and_flips_y() {
    let effects = vec![
        Effect::Line { from: point(0.0, 0.0), to: point(10.0, 20.0), color: Color::Default },
        Effect::ColorChange(Color::Named("blue".to_string())),
        Effect::Visibility(false),
        Effect::Label { text: "hi".to_string(), position: point(-5.0, -5.0), height: num(12.0) },
        Effect::Line { from: point(10.0, 20.0), to: point(0.0, 0.0), color: Color::Named("orange".to_string()) },
    ];
    let before = format!("{:?}", effects);
    let document = render(&effects, 101).unwrap();
    assert_eq!(format!("{:?}", effects), before);
    assert_eq!(document.size, 101);
    assert_eq!(
        document.shapes,
        vec![
            Shape::Stroke { from: point(50.5, 50.5), to: point(60.5, 30.5), color: Rgb { red: 0, green: 0, blue: 0 } },
            Shape::Text { at: point(45.5, 55.5), height: num(12.0), text: "hi".to_string(), color: Rgb { red: 0, green: 0, blue: 255 } },
            Shape::Stroke { from: point(60.5, 30.5), to: point(50.5, 50.5), color: Rgb { red: 255, green: 165, blue: 0 } },
        ]
    );
}

#[test]
fn rendering_starts_afresh_at_a_clear() {
    let effects = vec![
        Effect::ColorChange(Color::Named("red".to_string())),
        Effect::Line { from: point(0.0, 0.0), to: point(1.0, 1.0), color: Color::Named("red".to_string()) },
        Effect::Clear,
        Effect::Label { text: "a".to_string(), position: point(0.0, 0.0), height: num(10.0) },
    ];
    let document = render(&effects, 10).unwrap();
    assert_eq!(
        document.shapes,
        vec![Shape::Text { at: point(5.0, 5.0), height: num(10.0), text: "a".to_string(), color: Rgb { red: 0, green: 0, blue: 0 } }]
    );
}

#[test]
fn rendering_refuses_bad_sizes() {
    assert_eq!(render(&vec![], 0), Err(RenderError::InvalidSize(0)));
    assert_eq!(render(&vec![], 0x8000_0000), Err(RenderError::InvalidSize(0x8000_0000)));
    assert!(render(&vec![], 0x7FFF_FFFF).is_ok());
    assert!(render(&vec![], 1).is_ok());
}

#[test]
fn rendering_refuses_unknown_colours() {
    let effects = vec![
        Effect::Line { from: point(0.0, 0.0), to: point(1.0, 1.0), color: Color::Named("green".to_string()) },
        Effect::ColorChange(Color::Named("greenish".to_string())),
        Effect::ColorChange(Color::Named("bluish".to_string())),
    ];
    assert_eq!(render(&effects, 10), Err(RenderError::MalformedColor("greenish".to_string())));
    let effects = vec![Effect::Line { from: point(0.0, 0.0), to: point(1.0, 1.0), color: Color::Named("Red".to_string()) }];
    assert_eq!(render(&effects, 10), Err(RenderError::MalformedColor("Red".to_string())));
}

#[test]
fn every_palette_name_resolves() {
    for (name, rgb) in [
        ("black", (0, 0, 0)),
        ("white", (255, 255, 255)),
        ("red", (255, 0, 0)),
        ("orange", (255, 165, 0)),
        ("yellow", (255, 255, 0)),
        ("green", (0, 128, 0)),
        ("blue", (0, 0, 255)),
        ("violet", (238, 130, 238)),
        ("purple", (128, 0, 128)),
        ("cyan", (0, 255, 255)),
        ("magenta", (255, 0, 255)),
        ("pink", (255, 192, 203)),
        ("brown", (165, 42, 42)),
        ("grey", (128, 128, 128)),
        ("gray", (128, 128, 128)),
    ] {
        let c = turtle_logo::render::resolve(&Color::Named(name.to_string())).unwrap();
        assert_eq!((c.red, c.green, c.blue), rgb);
    }
}

#[test]
fn interpret_reports_evaluation_before_rendering() {
    let logo = Logo { instructions: vec![Instruction::Forward(var("x"))], functions: vec![] };
    assert_eq!(interpret(logo, 0, 1, 8), Err(Failure::Evaluation(EvalError::UnboundVariable("x".to_string()))));
    let logo = Logo { instructions: vec![fd(1.0)], functions: vec![] };
    assert_eq!(interpret(logo, 0, 1, 8), Err(Failure::Rendering(RenderError::InvalidSize(0))));
    let logo = Logo { instructions: vec![Instruction::SetColor(word("mud")), fd(1.0)], functions: vec![] };
    assert_eq!(interpret(logo, 10, 1, 8), Err(Failure::Rendering(RenderError::MalformedColor("mud".to_string()))));
}
