use turtle_logo::ast::{BinaryOp, Expression, FuncDeclaration, Instruction, Logo};
use turtle_logo::error::{EvalError, RenderError, SyntaxError};
use turtle_logo::eval::Environment;
use turtle_logo::interpreter::{interpret_text, Failure};
use turtle_logo::lexer::{tokenize, Keyword, Token, TokenKind};
use turtle_logo::number::Number;
use turtle_logo::parser::{characters, parse};
use turtle_logo::random::Rng;
use turtle_logo::render::{Rgb, Shape};
use turtle_logo::run::{create_functions_map, run_instructions};
use turtle_logo::turtle::{Color, Effect, Turtle};

const STAR: &str = "
    TO star
        repeat 5 [ fd 100 rt 144 ]
    END
    clearscreen
    star";

const RAND_SQUARE: &str = "
    TO square :length
        repeat 4 [ fd :length rt 90 ]
    END
    TO randomcolor
        setcolor (pick [ red orange yellow green blue violet ])
    END
    clearscreen
    repeat 36 [ randomcolor square (random 200) rt 10 ]
    ";

const TEXT: &str = "
    clearscreen window hideturtle
    repeat 144 [
      setlabelheight (repcount)
      penup
      fd (repcount) * (repcount) / 30
      label \"Logo
      bk (repcount) * (repcount) / 30
      pendown
      rt 10
      wait 5
    ]
    setcolor (blue)
    showturtle";

const TREE: &str = "
    TO tree :size
        if :size < 5 [forward :size back :size stop]
        forward :size/3
        left 30 tree :size*2/3 right 30
        forward :size/6
        right 25 tree :size/2 left 25
        forward :size/3
        right 25 tree :size/2 left 25
        forward :size/6
        back :size
    END
    clearscreen
    pu bk 100 pd
    tree 150";

const FERN: &str = "
    TO fern :size :sign
        if :size < 1 [ stop ]
        fd :size
        rt 70 * :sign fern :size * 0.5 :sign * (-1) lt 70 * :sign
        fd :size
        lt 70 * :sign fern :size * 0.5 :sign rt 70 * :sign
        rt 7 * :sign fern :size - 1 :sign lt 7 * :sign
        bk :size * 2
    END
    window clearscreen pu bk 150 pd
    fern 25 1
    ";

fn num(x: f64) -> Number {
    Number::from_bits(x.to_bits())
}

fn float(n: Number) -> f64 {
    f64::from_bits(n.to_bits())
}

fn lit(x: f64) -> Expression {
    Expression::Number(num(x))
}

fn var(name: &str) -> Expression {
    Expression::Variable(name.to_string())
}

fn word(name: &str) -> Expression {
    Expression::Word(name.to_string())
}

fn bin(op: BinaryOp, a: Expression, b: Expression) -> Expression {
    Expression::Binary(op, Box::new(a), Box::new(b))
}

fn instructions(text: &str) -> Vec<Instruction> {
    parse(text).unwrap().instructions
}

fn operand(text: &str) -> Expression {
    let program = format!("fd {}", text);
    let mut parsed = instructions(&program);
    assert_eq!(parsed.len(), 1, "{}", text);
    match parsed.remove(0) {
        Instruction::Forward(e) => e,
        other => panic!("{:?}", other),
    }
}

fn kinds(text: &str) -> Vec<TokenKind> {
    tokenize(&characters(text)).unwrap().iter().map(|t| t.kind).collect()
}

fn run_text(text: &str, seed: u64) -> (Result<Vec<Effect>, EvalError>, Turtle) {
    let Logo { instructions, functions } = parse(text).unwrap();
    let table = create_functions_map(functions);
    let env = Environment::new();
    let mut turtle = Turtle::new();
    let mut rng = Rng::seeded(seed);
    let result = run_instructions(&instructions, &env, &mut turtle, &table, &mut rng, 200);
    (result, turtle)
}

fn strokes(effects: &[Effect]) -> usize {
    effects.iter().filter(|e| matches!(e, Effect::Line { .. })).count()
}

#[test]
fn tokens_of_a_line() {
    assert_eq!(
        tokenize(&characters("fd :size*2 [\"Logo]")).unwrap(),
        vec![
            Token { kind: TokenKind::Keyword(Keyword::Forward), at: 0 },
            Token { kind: TokenKind::Variable { start: 4, end: 8 }, at: 3 },
            Token { kind: TokenKind::Operator(BinaryOp::Mul), at: 8 },
            Token { kind: TokenKind::Number(num(2.0)), at: 9 },
            Token { kind: TokenKind::Open, at: 11 },
            Token { kind: TokenKind::Quoted { start: 13, end: 17 }, at: 12 },
            Token { kind: TokenKind::Close, at: 17 },
        ]
    );
    assert_eq!(tokenize(&characters(" \t\r\n ")).unwrap(), vec![]);
}

#[test]
fn keywords_in_either_case_and_short_forms() {
    let pairs = [
        ("forward", Keyword::Forward),
        ("FD", Keyword::Forward),
        ("Back", Keyword::Back),
        ("bk", Keyword::Back),
        ("left", Keyword::Left),
        ("lt", Keyword::Left),
        ("right", Keyword::Right),
        ("rt", Keyword::Right),
        ("penup", Keyword::PenUp),
        ("pu", Keyword::PenUp),
        ("pendown", Keyword::PenDown),
        ("pd", Keyword::PenDown),
        ("showturtle", Keyword::ShowTurtle),
        ("st", Keyword::ShowTurtle),
        ("hideturtle", Keyword::HideTurtle),
        ("ht", Keyword::HideTurtle),
        ("setcolor", Keyword::SetColor),
        ("setlabelheight", Keyword::SetLabelHeight),
        ("clearscreen", Keyword::ClearScreen),
        ("cs", Keyword::ClearScreen),
        ("window", Keyword::Window),
        ("repeat", Keyword::Repeat),
        ("if", Keyword::If),
        ("stop", Keyword::Stop),
        ("wait", Keyword::Wait),
        ("label", Keyword::Label),
        ("random", Keyword::Random),
        ("pick", Keyword::Pick),
        ("repcount", Keyword::RepCount),
        ("TO", Keyword::To),
        ("to", Keyword::To),
        ("END", Keyword::End),
        ("End", Keyword::End),
    ];
    for (text, keyword) in pairs {
        assert_eq!(kinds(text), vec![TokenKind::Keyword(keyword)], "{}", text);
    }
    assert_eq!(kinds("fdx"), vec![TokenKind::Name { start: 0, end: 3 }]);
    assert_eq!(kinds("square_2"), vec![TokenKind::Name { start: 0, end: 8 }]);
}

#[test]
fn numeric_literals_are_rounded_once() {
    for text in ["0", "1", "144", "0.5", "0.1", "1.1", "3.14159", "0.01745329251994", "123456789012345", "1234567.89012345", "2.2250738585072", "0.00000000000001", "999999999999999", "25", "0.30", "100.0"] {
        let expected: f64 = text.parse().unwrap();
        assert_eq!(kinds(text), vec![TokenKind::Number(num(expected))], "{}", text);
    }
}

#[test]
fn numeric_literals_have_at_most_15_digits() {
    assert_eq!(tokenize(&characters("fd 1234567890123456")), Err(SyntaxError::NumberTooLong(3)));
    assert_eq!(tokenize(&characters("0.1234567890123456")), Err(SyntaxError::NumberTooLong(0)));
    assert!(tokenize(&characters("12345678.9012345")).is_ok());
    assert_eq!(tokenize(&characters("1. 5")), Err(SyntaxError::UnexpectedCharacter(1)));
}

#[test]
fn characters_that_begin_no_token() {
    assert_eq!(tokenize(&characters("fd 10 # no")), Err(SyntaxError::UnexpectedCharacter(6)));
    assert_eq!(tokenize(&characters("fd : x")), Err(SyntaxError::UnexpectedCharacter(3)));
    assert_eq!(tokenize(&characters("label \" x")), Err(SyntaxError::UnexpectedCharacter(6)));
    assert_eq!(tokenize(&characters("\u{e9}")), Err(SyntaxError::UnexpectedCharacter(0)));
    assert_eq!(parse("fd 1 ; rt 2"), Err(SyntaxError::UnexpectedCharacter(5)));
}

#[test]
fn instructions_with_and_without_operands() {
    assert_eq!(
        instructions("fd 100 rt 144 pu pd st ht cs window stop wait 5 bk 2 lt 3 setlabelheight 4 label \"Logo"),
        vec![
            Instruction::Forward(lit(100.0)),
            Instruction::Right(lit(144.0)),
            Instruction::PenUp,
            Instruction::PenDown,
            Instruction::ShowTurtle,
            Instruction::HideTurtle,
            Instruction::ClearScreen,
            Instruction::Window,
            Instruction::Stop,
            Instruction::Wait(lit(5.0)),
            Instruction::Back(lit(2.0)),
            Instruction::Left(lit(3.0)),
            Instruction::SetLabelHeight(lit(4.0)),
            Instruction::Label("Logo".to_string()),
        ]
    );
}

#[test]
fn products_bind_tighter_than_sums() {
    assert_eq!(operand("1 + 2 * 3"), bin(BinaryOp::Add, lit(1.0), bin(BinaryOp::Mul, lit(2.0), lit(3.0))));
    assert_eq!(operand("(1 + 2) * 3"), bin(BinaryOp::Mul, bin(BinaryOp::Add, lit(1.0), lit(2.0)), lit(3.0)));
    assert_eq!(operand("10 - 4 - 3"), bin(BinaryOp::Sub, bin(BinaryOp::Sub, lit(10.0), lit(4.0)), lit(3.0)));
    assert_eq!(operand(":size*2/3"), bin(BinaryOp::Div, bin(BinaryOp::Mul, var("size"), lit(2.0)), lit(3.0)));
    assert_eq!(
        operand("(repcount) * (repcount) / 30"),
        bin(BinaryOp::Div, bin(BinaryOp::Mul, Expression::RepCount, Expression::RepCount), lit(30.0))
    );
    assert_eq!(
        operand("1 + 2 < 3 * 4"),
        bin(BinaryOp::Less, bin(BinaryOp::Add, lit(1.0), lit(2.0)), bin(BinaryOp::Mul, lit(3.0), lit(4.0)))
    );
    assert_eq!(operand(":a = 1"), bin(BinaryOp::Equal, var("a"), lit(1.0)));
    assert_eq!(operand(":a > 1"), bin(BinaryOp::Greater, var("a"), lit(1.0)));
}

#[test]
fn minus_before_an_atom_negates() {
    assert_eq!(operand("-10"), bin(BinaryOp::Sub, lit(0.0), lit(10.0)));
    assert_eq!(operand(":sign * (-1)"), bin(BinaryOp::Mul, var("sign"), bin(BinaryOp::Sub, lit(0.0), lit(1.0))));
    assert_eq!(operand("2 - -3"), bin(BinaryOp::Sub, lit(2.0), bin(BinaryOp::Sub, lit(0.0), lit(3.0))));
}

#[test]
fn words_lists_and_builtins() {
    assert_eq!(operand("(blue)"), word("blue"));
    assert_eq!(operand("\"blue"), word("blue"));
    assert_eq!(operand("[ red 1 :x (2 + 3) [ a ] ]"), Expression::List(vec![
        word("red"),
        lit(1.0),
        var("x"),
        bin(BinaryOp::Add, lit(2.0), lit(3.0)),
        Expression::List(vec![word("a")]),
    ]));
    assert_eq!(operand("[]"), Expression::List(vec![]));
    assert_eq!(operand("(random 200)"), Expression::Random(Box::new(lit(200.0))));
    assert_eq!(operand("random 200 + 1"), bin(BinaryOp::Add, Expression::Random(Box::new(lit(200.0))), lit(1.0)));
    assert_eq!(
        operand("(pick [ red orange ])"),
        Expression::Pick(Box::new(Expression::List(vec![word("red"), word("orange")])))
    );
    assert_eq!(operand("repcount"), Expression::RepCount);
}

#[test]
fn a_call_takes_the_expressions_that_follow() {
    assert_eq!(
        instructions("rt 70 * :sign fern :size * 0.5 :sign * (-1) lt 70 * :sign"),
        vec![
            Instruction::Right(bin(BinaryOp::Mul, lit(70.0), var("sign"))),
            Instruction::Call(
                "fern".to_string(),
                vec![
                    bin(BinaryOp::Mul, var("size"), lit(0.5)),
                    bin(BinaryOp::Mul, var("sign"), bin(BinaryOp::Sub, lit(0.0), lit(1.0))),
                ]
            ),
            Instruction::Left(bin(BinaryOp::Mul, lit(70.0), var("sign"))),
        ]
    );
    assert_eq!(
        instructions("randomcolor square (random 200) rt 10"),
        vec![
            Instruction::Call("randomcolor".to_string(), vec![]),
            Instruction::Call("square".to_string(), vec![Expression::Random(Box::new(lit(200.0)))]),
            Instruction::Right(lit(10.0)),
        ]
    );
    assert_eq!(
        instructions("fern :size - 1 :sign"),
        vec![Instruction::Call("fern".to_string(), vec![bin(BinaryOp::Sub, var("size"), lit(1.0)), var("sign")])]
    );
}

#[test]
fn blocks_nest() {
    assert_eq!(
        instructions("repeat 2 [ if :n < 5 [ fd 1 stop ] repeat 3 [] ]"),
        vec![Instruction::Repeat(
            lit(2.0),
            vec![
                Instruction::If(bin(BinaryOp::Less, var("n"), lit(5.0)), vec![Instruction::Forward(lit(1.0)), Instruction::Stop]),
                Instruction::Repeat(lit(3.0), vec![]),
            ]
        )]
    );
}

#[test]
fn procedures_and_instructions_in_any_order() {
    let logo = parse("fd 1 to f :a :b fd :a end rt 2 TO g END f 1 2").unwrap();
    assert_eq!(
        logo,
        Logo {
            instructions: vec![
                Instruction::Forward(lit(1.0)),
                Instruction::Right(lit(2.0)),
                Instruction::Call("f".to_string(), vec![lit(1.0), lit(2.0)]),
            ],
            functions: vec![
                FuncDeclaration {
                    name: "f".to_string(),
                    parameters: vec!["a".to_string(), "b".to_string()],
                    body: vec![Instruction::Forward(var("a"))],
                },
                FuncDeclaration { name: "g".to_string(), parameters: vec![], body: vec![] },
            ],
        }
    );
    assert_eq!(parse(""), Ok(Logo { instructions: vec![], functions: vec![] }));
}

#[test]
fn texts_that_end_too_early() {
    assert_eq!(parse("repeat 4 [ fd 1"), Err(SyntaxError::UnexpectedEnd));
    assert_eq!(parse("fd"), Err(SyntaxError::UnexpectedEnd));
    assert_eq!(parse("fd (1 + 2"), Err(SyntaxError::UnexpectedEnd));
    assert_eq!(parse("fd [ 1 2"), Err(SyntaxError::UnexpectedEnd));
    assert_eq!(parse("to f fd 1"), Err(SyntaxError::UnexpectedEnd));
    assert_eq!(parse("to"), Err(SyntaxError::UnexpectedEnd));
    assert_eq!(parse("fd 1 +"), Err(SyntaxError::UnexpectedEnd));
    assert_eq!(parse("label"), Err(SyntaxError::UnexpectedEnd));
}

#[test]
fn tokens_out_of_place() {
    assert_eq!(parse("fd 1 ]"), Err(SyntaxError::UnexpectedToken(5)));
    assert_eq!(parse("fd rt 1"), Err(SyntaxError::UnexpectedToken(3)));
    assert_eq!(parse("repeat 4 fd 1"), Err(SyntaxError::UnexpectedToken(9)));
    assert_eq!(parse("label 5"), Err(SyntaxError::UnexpectedToken(6)));
    assert_eq!(parse("to 5 end"), Err(SyntaxError::UnexpectedToken(3)));
    assert_eq!(parse("to f to g end end"), Err(SyntaxError::UnexpectedToken(5)));
    assert_eq!(parse("end"), Err(SyntaxError::UnexpectedToken(0)));
    assert_eq!(parse("fd (1 2)"), Err(SyntaxError::UnexpectedToken(6)));
    assert_eq!(parse("fd * 2"), Err(SyntaxError::UnexpectedToken(3)));
    assert_eq!(parse("random 5"), Err(SyntaxError::UnexpectedToken(0)));
    assert_eq!(parse("fd red"), Err(SyntaxError::UnexpectedToken(3)));
}

#[test]
fn star_program() {
    let (result, turtle) = run_text(STAR, 1);
    let effects = result.unwrap();
    assert_eq!(effects.len(), 6);
    assert_eq!(strokes(&effects), 5);
    assert!(float(turtle.position.x).abs() < 1e-9 && float(turtle.position.y).abs() < 1e-9);
    let document = interpret_text(STAR, 300, 1, 64).unwrap();
    assert_eq!(document.size, 300);
    assert_eq!(document.shapes.len(), 5);
}

#[test]
fn square_program_round_trip() {
    let text = "TO square :length \n repeat 4 [ fd :length rt 90 ] \n END \n clearscreen \n square 100";
    let (result, turtle) = run_text(text, 1);
    let effects = result.unwrap();
    assert_eq!(strokes(&effects), 4);
    assert_eq!(float(turtle.heading), 0.0);
    assert!(float(turtle.position.x).abs() < 1e-9 && float(turtle.position.y).abs() < 1e-9);
    let document = interpret_text(text, 400, 1, 64).unwrap();
    let expected = [(200.0, 200.0, 200.0, 100.0), (200.0, 100.0, 300.0, 100.0), (300.0, 100.0, 300.0, 200.0), (300.0, 200.0, 200.0, 200.0)];
    assert_eq!(document.shapes.len(), 4);
    for (shape, e) in document.shapes.iter().zip(expected) {
        match shape {
            Shape::Stroke { from, to, color } => {
                assert!((float(from.x) - e.0).abs() < 1e-9 && (float(from.y) - e.1).abs() < 1e-9);
                assert!((float(to.x) - e.2).abs() < 1e-9 && (float(to.y) - e.3).abs() < 1e-9);
                assert_eq!(*color, Rgb { red: 0, green: 0, blue: 0 });
            }
            other => panic!("{:?}", other),
        }
    }
}

#[test]
fn random_squares_program() {
    let (result, _) = run_text(RAND_SQUARE, 5);
    let effects = result.unwrap();
    assert_eq!(strokes(&effects), 36 * 4);
    let colours: Vec<&Color> = effects
        .iter()
        .filter_map(|e| match e {
            Effect::ColorChange(c) => Some(c),
            _ => None,
        })
        .collect();
    assert_eq!(colours.len(), 36);
    for c in colours {
        match c {
            Color::Named(name) => assert!(["red", "orange", "yellow", "green", "blue", "violet"].contains(&name.as_str())),
            Color::Default => panic!("no colour picked"),
        }
    }
    let (again, _) = run_text(RAND_SQUARE, 5);
    assert_eq!(again.unwrap(), effects);
    assert!(interpret_text(RAND_SQUARE, 400, 5, 64).is_ok());
}

#[test]
fn text_program() {
    let (result, turtle) = run_text(TEXT, 1);
    let effects = result.unwrap();
    assert_eq!(strokes(&effects), 0);
    let heights: Vec<f64> = effects
        .iter()
        .filter_map(|e| match e {
            Effect::Label { text, height, .. } => {
                assert_eq!(text, "Logo");
                Some(float(*height))
            }
            _ => None,
        })
        .collect();
    assert_eq!(heights, (1..=144).map(|i| i as f64).collect::<Vec<_>>());
    assert_eq!(effects[1], Effect::Visibility(false));
    assert_eq!(effects[effects.len() - 2], Effect::ColorChange(Color::Named("blue".to_string())));
    assert_eq!(effects[effects.len() - 1], Effect::Visibility(true));
    assert_eq!(float(turtle.heading), 0.0);
    let document = interpret_text(TEXT, 600, 1, 64).unwrap();
    assert_eq!(document.shapes.len(), 144);
}

#[test]
fn tree_program() {
    let (result, turtle) = run_text(TREE, 1);
    let effects = result.unwrap();
    assert!(strokes(&effects) > 100);
    assert!(float(turtle.position.x).abs() < 1e-6);
    assert!((float(turtle.position.y) + 100.0).abs() < 1e-6);
    assert!(interpret_text(TREE, 400, 1, 64).is_ok());
}

#[test]
fn fern_program() {
    let (result, turtle) = run_text(FERN, 1);
    let effects = result.unwrap();
    assert!(strokes(&effects) > 100);
    assert!(float(turtle.position.x).abs() < 1e-6);
    assert!((float(turtle.position.y) + 150.0).abs() < 1e-6);
}

#[test]
fn failures_come_in_the_order_of_the_stages() {
    assert_eq!(interpret_text("fd (", 0, 1, 8), Err(Failure::Syntax(SyntaxError::UnexpectedEnd)));
    assert_eq!(interpret_text("fd :x", 0, 1, 8), Err(Failure::Evaluation(EvalError::UnboundVariable("x".to_string()))));
    assert_eq!(interpret_text("fd 1", 0, 1, 8), Err(Failure::Rendering(RenderError::InvalidSize(0))));
    assert_eq!(
        interpret_text("setcolor \"mud fd 1", 10, 1, 8),
        Err(Failure::Rendering(RenderError::MalformedColor("mud".to_string())))
    );
}
