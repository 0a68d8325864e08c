//! From the tokens of a program to its syntax tree.
//!
//! ```text
//! program     := { procedure | instruction }
//! procedure   := TO name { :parameter } { instruction } END
//! instruction := FORWARD expr | BACK expr | LEFT expr | RIGHT expr
//!              | PENUP | PENDOWN | SHOWTURTLE | HIDETURTLE | CLEARSCREEN | WINDOW
//!              | SETCOLOR expr | SETLABELHEIGHT expr | WAIT expr | STOP
//!              | REPEAT expr "[" { instruction } "]"
//!              | IF expr "[" { instruction } "]"
//!              | LABEL "word
//!              | name { expr }
//! expr        := sum [ ( "<" | ">" | "=" ) sum ]
//! sum         := product { ( "+" | "-" ) product }
//! product     := atom { ( "*" | "/" ) atom }
//! atom        := number | :name | "word | "-" atom | REPCOUNT
//!              | RANDOM atom | PICK atom
//!              | "(" name ")" | "(" expr ")" | "[" { name | atom } "]"
//! ```
//!
//! A name in parentheses or in a list is a word. The arguments of a call are
//! the expressions that follow the name, as many as there are; `-` after an
//! expression subtracts.

use crate::ast::{BinaryOp, Expression, FuncDeclaration, Instruction, Logo};
use crate::error::SyntaxError;
use crate::lexer::{tokenize, tokens_of, Keyword, Token, TokenKind};
use crate::number::Number;
use crate::syntax::{
    commands_of, commands_of_push, names_of, procedures_of, terms_of, terms_of_push, Command,
    Procedure, Program, Term,
};
use vstd::prelude::*;
use vstd::string::StrSliceExecFns;

verus! {

/// A parsed item and the position of the token after it.
pub type Parsed<T> = Result<(T, nat), SyntaxError>;

/// The characters of a span of the text; none where the span is no span.
pub open spec fn span(chars: Seq<char>, start: usize, end: usize) -> Seq<char> {
    if start <= end <= chars.len() {
        chars.subrange(start as int, end as int)
    } else {
        Seq::empty()
    }
}

/// The error for what stands at `pos`: the token there, or the end.
pub open spec fn unexpected(tokens: Seq<Token>, pos: nat) -> SyntaxError {
    if pos < tokens.len() {
        SyntaxError::UnexpectedToken(tokens[pos as int].at)
    } else {
        SyntaxError::UnexpectedEnd
    }
}

/// The kind of the token at `pos`, if there is one.
pub open spec fn kind_at(tokens: Seq<Token>, pos: nat) -> Option<TokenKind> {
    if pos < tokens.len() {
        Some(tokens[pos as int].kind)
    } else {
        None
    }
}

/// A result that took at least one token and stayed within the tokens.
pub open spec fn advancing<T>(r: Parsed<T>, pos: nat, tokens: Seq<Token>) -> Parsed<T> {
    match r {
        Ok((item, next)) => if pos < next <= tokens.len() {
            Ok((item, next))
        } else {
            Err(unexpected(tokens, pos))
        },
        Err(err) => Err(err),
    }
}

/// Whether an expression can begin with a token of this kind.
pub open spec fn begins_expression(kind: TokenKind) -> bool {
    match kind {
        TokenKind::Number(_) => true,
        TokenKind::Variable { .. } => true,
        TokenKind::Quoted { .. } => true,
        TokenKind::Open => true,
        TokenKind::LeftParen => true,
        TokenKind::Operator(op) => op == BinaryOp::Sub,
        TokenKind::Keyword(k) => k == Keyword::Random || k == Keyword::Pick || k
            == Keyword::RepCount,
        _ => false,
    }
}

/// `-x` is `0 - x`.
pub open spec fn negative(t: Term) -> Term {
    Term::Binary(BinaryOp::Sub, Box::new(Term::Number(Number::spec_zero())), Box::new(t))
}

/// The atom that begins at `pos`.
pub open spec fn atom(chars: Seq<char>, tokens: Seq<Token>, pos: nat) -> Parsed<Term>
    decreases tokens.len() - pos, 0nat,
{
    match kind_at(tokens, pos) {
        None => Err(SyntaxError::UnexpectedEnd),
        Some(TokenKind::Number(n)) => Ok((Term::Number(n), pos + 1)),
        Some(TokenKind::Variable { start, end }) => Ok(
            (Term::Variable(span(chars, start, end)), pos + 1),
        ),
        Some(TokenKind::Quoted { start, end }) => Ok((Term::Word(span(chars, start, end)), pos + 1)),
        Some(TokenKind::Keyword(Keyword::RepCount)) => Ok((Term::RepCount, pos + 1)),
        Some(TokenKind::Operator(BinaryOp::Sub)) => match atom(chars, tokens, pos + 1) {
            Ok((t, next)) => Ok((negative(t), next)),
            Err(err) => Err(err),
        },
        Some(TokenKind::Keyword(Keyword::Random)) => match atom(chars, tokens, pos + 1) {
            Ok((t, next)) => Ok((Term::Random(Box::new(t)), next)),
            Err(err) => Err(err),
        },
        Some(TokenKind::Keyword(Keyword::Pick)) => match atom(chars, tokens, pos + 1) {
            Ok((t, next)) => Ok((Term::Pick(Box::new(t)), next)),
            Err(err) => Err(err),
        },
        Some(TokenKind::LeftParen) => match (kind_at(tokens, pos + 1), kind_at(tokens, pos + 2)) {
            (Some(TokenKind::Name { start, end }), Some(TokenKind::RightParen)) => Ok(
                (Term::Word(span(chars, start, end)), pos + 3),
            ),
            _ => match expression(chars, tokens, pos + 1) {
                Ok((t, next)) => if kind_at(tokens, next) == Some(TokenKind::RightParen) {
                    Ok((t, next + 1))
                } else {
                    Err(unexpected(tokens, next))
                },
                Err(err) => Err(err),
            },
        },
        Some(TokenKind::Open) => match elements(chars, tokens, pos + 1, Seq::empty()) {
            Ok((items, next)) => Ok((Term::List(items), next)),
            Err(err) => Err(err),
        },
        Some(_) => Err(unexpected(tokens, pos)),
    }
}

/// The items of a list up to its `]`, after those of `found`.
pub open spec fn elements(chars: Seq<char>, tokens: Seq<Token>, pos: nat, found: Seq<Term>) -> Parsed<
    Seq<Term>,
>
    decreases tokens.len() - pos, 1nat,
{
    match kind_at(tokens, pos) {
        None => Err(SyntaxError::UnexpectedEnd),
        Some(TokenKind::Close) => Ok((found, pos + 1)),
        Some(TokenKind::Name { start, end }) => elements(
            chars,
            tokens,
            pos + 1,
            found.push(Term::Word(span(chars, start, end))),
        ),
        Some(_) => match advancing(atom(chars, tokens, pos), pos, tokens) {
            Ok((t, next)) => elements(chars, tokens, next, found.push(t)),
            Err(err) => Err(err),
        },
    }
}

/// The product that begins at `pos`; `*` and `/` join from the left.
pub open spec fn product(chars: Seq<char>, tokens: Seq<Token>, pos: nat) -> Parsed<Term>
    decreases tokens.len() - pos, 3nat,
{
    match advancing(atom(chars, tokens, pos), pos, tokens) {
        Ok((left, next)) => factors(chars, tokens, next, left),
        Err(err) => Err(err),
    }
}

/// The product of `left` and the factors that follow at `pos`.
pub open spec fn factors(chars: Seq<char>, tokens: Seq<Token>, pos: nat, left: Term) -> Parsed<Term>
    decreases tokens.len() - pos, 2nat,
{
    match kind_at(tokens, pos) {
        Some(TokenKind::Operator(op)) => if op == BinaryOp::Mul || op == BinaryOp::Div {
            match advancing(atom(chars, tokens, pos + 1), pos + 1, tokens) {
                Ok((right, next)) => factors(
                    chars,
                    tokens,
                    next,
                    Term::Binary(op, Box::new(left), Box::new(right)),
                ),
                Err(err) => Err(err),
            }
        } else {
            Ok((left, pos))
        },
        _ => Ok((left, pos)),
    }
}

/// The sum that begins at `pos`; `+` and `-` join from the left.
pub open spec fn sum(chars: Seq<char>, tokens: Seq<Token>, pos: nat) -> Parsed<Term>
    decreases tokens.len() - pos, 5nat,
{
    match advancing(product(chars, tokens, pos), pos, tokens) {
        Ok((left, next)) => summands(chars, tokens, next, left),
        Err(err) => Err(err),
    }
}

/// The sum of `left` and the summands that follow at `pos`.
pub open spec fn summands(chars: Seq<char>, tokens: Seq<Token>, pos: nat, left: Term) -> Parsed<Term>
    decreases tokens.len() - pos, 4nat,
{
    match kind_at(tokens, pos) {
        Some(TokenKind::Operator(op)) => if op == BinaryOp::Add || op == BinaryOp::Sub {
            match advancing(product(chars, tokens, pos + 1), pos + 1, tokens) {
                Ok((right, next)) => summands(
                    chars,
                    tokens,
                    next,
                    Term::Binary(op, Box::new(left), Box::new(right)),
                ),
                Err(err) => Err(err),
            }
        } else {
            Ok((left, pos))
        },
        _ => Ok((left, pos)),
    }
}

/// The expression that begins at `pos`: a sum, or two sums compared.
pub open spec fn expression(chars: Seq<char>, tokens: Seq<Token>, pos: nat) -> Parsed<Term>
    decreases tokens.len() - pos, 6nat,
{
    match advancing(sum(chars, tokens, pos), pos, tokens) {
        Ok((left, next)) => match kind_at(tokens, next) {
            Some(TokenKind::Operator(op)) => if op.is_comparison() {
                match sum(chars, tokens, next + 1) {
                    Ok((right, after)) => Ok(
                        (Term::Binary(op, Box::new(left), Box::new(right)), after),
                    ),
                    Err(err) => Err(err),
                }
            } else {
                Ok((left, next))
            },
            _ => Ok((left, next)),
        },
        Err(err) => Err(err),
    }
}

/// The arguments of a call: the expressions from `pos` on, after `found`.
pub open spec fn arguments(chars: Seq<char>, tokens: Seq<Token>, pos: nat, found: Seq<Term>) -> Parsed<
    Seq<Term>,
>
    decreases tokens.len() - pos, 7nat,
{
    match kind_at(tokens, pos) {
        Some(kind) => if begins_expression(kind) {
            match advancing(expression(chars, tokens, pos), pos, tokens) {
                Ok((t, next)) => arguments(chars, tokens, next, found.push(t)),
                Err(err) => Err(err),
            }
        } else {
            Ok((found, pos))
        },
        None => Ok((found, pos)),
    }
}

/// The instruction that a keyword and one expression make, if any.
pub open spec fn with_operand(k: Keyword, t: Term) -> Option<Command> {
    match k {
        Keyword::Forward => Some(Command::Forward(t)),
        Keyword::Back => Some(Command::Back(t)),
        Keyword::Left => Some(Command::Left(t)),
        Keyword::Right => Some(Command::Right(t)),
        Keyword::SetColor => Some(Command::SetColor(t)),
        Keyword::SetLabelHeight => Some(Command::SetLabelHeight(t)),
        Keyword::Wait => Some(Command::Wait(t)),
        _ => None,
    }
}

/// The instruction that a keyword makes alone, if any.
pub open spec fn alone(k: Keyword) -> Option<Command> {
    match k {
        Keyword::PenUp => Some(Command::PenUp),
        Keyword::PenDown => Some(Command::PenDown),
        Keyword::ShowTurtle => Some(Command::ShowTurtle),
        Keyword::HideTurtle => Some(Command::HideTurtle),
        Keyword::ClearScreen => Some(Command::ClearScreen),
        Keyword::Window => Some(Command::Window),
        Keyword::Stop => Some(Command::Stop),
        _ => None,
    }
}

/// The instruction that begins at `pos`.
pub open spec fn instruction(chars: Seq<char>, tokens: Seq<Token>, pos: nat) -> Parsed<Command>
    decreases tokens.len() - pos, 8nat,
{
    match kind_at(tokens, pos) {
        None => Err(SyntaxError::UnexpectedEnd),
        Some(TokenKind::Name { start, end }) => match arguments(
            chars,
            tokens,
            pos + 1,
            Seq::empty(),
        ) {
            Ok((found, next)) => Ok((Command::Call(span(chars, start, end), found), next)),
            Err(err) => Err(err),
        },
        Some(TokenKind::Keyword(k)) => if alone(k) is Some {
            Ok((alone(k)->Some_0, pos + 1))
        } else if with_operand(k, Term::RepCount) is Some {
            match expression(chars, tokens, pos + 1) {
                Ok((t, next)) => Ok((with_operand(k, t)->Some_0, next)),
                Err(err) => Err(err),
            }
        } else if k == Keyword::Repeat || k == Keyword::If {
            match advancing(expression(chars, tokens, pos + 1), pos + 1, tokens) {
                Ok((t, next)) => if kind_at(tokens, next) == Some(TokenKind::Open) {
                    match block(chars, tokens, next + 1, Seq::empty()) {
                        Ok((body, after)) => if k == Keyword::Repeat {
                            Ok((Command::Repeat(t, body), after))
                        } else {
                            Ok((Command::If(t, body), after))
                        },
                        Err(err) => Err(err),
                    }
                } else {
                    Err(unexpected(tokens, next))
                },
                Err(err) => Err(err),
            }
        } else if k == Keyword::Label {
            match kind_at(tokens, pos + 1) {
                Some(TokenKind::Quoted { start, end }) => Ok(
                    (Command::Label(span(chars, start, end)), pos + 2),
                ),
                _ => Err(unexpected(tokens, pos + 1)),
            }
        } else {
            Err(unexpected(tokens, pos))
        },
        Some(_) => Err(unexpected(tokens, pos)),
    }
}

/// The instructions of a block up to its `]`, after those of `found`.
pub open spec fn block(chars: Seq<char>, tokens: Seq<Token>, pos: nat, found: Seq<Command>) -> Parsed<
    Seq<Command>,
>
    decreases tokens.len() - pos, 9nat,
{
    match kind_at(tokens, pos) {
        None => Err(SyntaxError::UnexpectedEnd),
        Some(TokenKind::Close) => Ok((found, pos + 1)),
        Some(_) => match advancing(instruction(chars, tokens, pos), pos, tokens) {
            Ok((c, next)) => block(chars, tokens, next, found.push(c)),
            Err(err) => Err(err),
        },
    }
}

/// The instructions of a procedure up to its `END`, after those of `found`.
pub open spec fn body(chars: Seq<char>, tokens: Seq<Token>, pos: nat, found: Seq<Command>) -> Parsed<
    Seq<Command>,
>
    decreases tokens.len() - pos, 9nat,
{
    match kind_at(tokens, pos) {
        None => Err(SyntaxError::UnexpectedEnd),
        Some(TokenKind::Keyword(Keyword::End)) => Ok((found, pos + 1)),
        Some(_) => match advancing(instruction(chars, tokens, pos), pos, tokens) {
            Ok((c, next)) => body(chars, tokens, next, found.push(c)),
            Err(err) => Err(err),
        },
    }
}

/// The parameters from `pos` on, after those of `found`, and the position of
/// the first token that is no parameter.
pub open spec fn parameters(chars: Seq<char>, tokens: Seq<Token>, pos: nat, found: Seq<Seq<char>>) -> (
    Seq<Seq<char>>,
    nat,
)
    decreases tokens.len() - pos,
{
    match kind_at(tokens, pos) {
        Some(TokenKind::Variable { start, end }) => parameters(
            chars,
            tokens,
            pos + 1,
            found.push(span(chars, start, end)),
        ),
        _ => (found, pos),
    }
}

/// The procedure whose `TO` stands at `pos`.
pub open spec fn procedure(chars: Seq<char>, tokens: Seq<Token>, pos: nat) -> Parsed<Procedure>
    decreases tokens.len() - pos, 10nat,
{
    match kind_at(tokens, pos + 1) {
        Some(TokenKind::Name { start, end }) => {
            let (names, next) = parameters(chars, tokens, pos + 2, Seq::empty());
            if next < pos + 2 {
                Err(unexpected(tokens, pos))
            } else {
                match body(chars, tokens, next, Seq::empty()) {
                    Ok((commands, after)) => Ok(
                        (
                            Procedure {
                                name: span(chars, start, end),
                                parameters: names,
                                body: commands,
                            },
                            after,
                        ),
                    ),
                    Err(err) => Err(err),
                }
            }
        },
        _ => Err(unexpected(tokens, pos + 1)),
    }
}

/// The program that the tokens from `pos` on add to `found`.
pub open spec fn program(chars: Seq<char>, tokens: Seq<Token>, pos: nat, found: Program) -> Result<
    Program,
    SyntaxError,
>
    decreases tokens.len() - pos, 11nat,
{
    match kind_at(tokens, pos) {
        None => Ok(found),
        Some(TokenKind::Keyword(Keyword::To)) => match advancing(
            procedure(chars, tokens, pos),
            pos,
            tokens,
        ) {
            Ok((p, next)) => program(
                chars,
                tokens,
                next,
                Program { functions: found.functions.push(p), ..found },
            ),
            Err(err) => Err(err),
        },
        Some(_) => match advancing(instruction(chars, tokens, pos), pos, tokens) {
            Ok((c, next)) => program(
                chars,
                tokens,
                next,
                Program { instructions: found.instructions.push(c), ..found },
            ),
            Err(err) => Err(err),
        },
    }
}

/// The program that a text spells.
pub open spec fn parsed(chars: Seq<char>) -> Result<Program, SyntaxError> {
    match tokens_of(chars) {
        Err(err) => Err(err),
        Ok(tokens) => program(
            chars,
            tokens,
            0,
            Program { instructions: Seq::empty(), functions: Seq::empty() },
        ),
    }
}

/// Whether a success took at least one token and stayed within the tokens.
pub open spec fn advances<T>(r: Parsed<T>, pos: nat, tokens: Seq<Token>) -> bool {
    r matches Ok((_, next)) ==> pos < next <= tokens.len()
}

/// Whether a success went no further back than `pos` and stayed within the
/// tokens.
pub open spec fn holds_ground<T>(r: Parsed<T>, pos: nat, tokens: Seq<Token>) -> bool {
    r matches Ok((_, next)) ==> pos <= next <= tokens.len()
}

/// An atom takes at least one token.
pub proof fn atom_advances(chars: Seq<char>, tokens: Seq<Token>, pos: nat)
    ensures
        advances(atom(chars, tokens, pos), pos, tokens),
    decreases tokens.len() - pos, 0nat,
{
    match kind_at(tokens, pos) {
        Some(TokenKind::Operator(BinaryOp::Sub)) => atom_advances(chars, tokens, pos + 1),
        Some(TokenKind::Keyword(Keyword::Random)) => atom_advances(chars, tokens, pos + 1),
        Some(TokenKind::Keyword(Keyword::Pick)) => atom_advances(chars, tokens, pos + 1),
        Some(TokenKind::LeftParen) => expression_advances(chars, tokens, pos + 1),
        Some(TokenKind::Open) => elements_advance(chars, tokens, pos + 1, Seq::empty()),
        _ => {},
    }
}

/// The items of a list, with its `]`, take at least one token.
pub proof fn elements_advance(chars: Seq<char>, tokens: Seq<Token>, pos: nat, found: Seq<Term>)
    ensures
        advances(elements(chars, tokens, pos, found), pos, tokens),
    decreases tokens.len() - pos, 1nat,
{
    match kind_at(tokens, pos) {
        None => {},
        Some(TokenKind::Close) => {},
        Some(TokenKind::Name { start, end }) => {
            elements_advance(
                chars,
                tokens,
                pos + 1,
                found.push(Term::Word(span(chars, start, end))),
            );
        },
        Some(_) => {
            atom_advances(chars, tokens, pos);
            match atom(chars, tokens, pos) {
                Ok((t, next)) => elements_advance(chars, tokens, next, found.push(t)),
                Err(_) => {},
            }
        },
    }
}

/// A product takes at least one token.
pub proof fn product_advances(chars: Seq<char>, tokens: Seq<Token>, pos: nat)
    ensures
        advances(product(chars, tokens, pos), pos, tokens),
    decreases tokens.len() - pos, 3nat,
{
    atom_advances(chars, tokens, pos);
    match atom(chars, tokens, pos) {
        Ok((left, next)) => factors_hold_ground(chars, tokens, next, left),
        Err(_) => {},
    }
}

proof fn factors_hold_ground(chars: Seq<char>, tokens: Seq<Token>, pos: nat, left: Term)
    requires
        pos <= tokens.len(),
    ensures
        holds_ground(factors(chars, tokens, pos, left), pos, tokens),
    decreases tokens.len() - pos, 2nat,
{
    match kind_at(tokens, pos) {
        Some(TokenKind::Operator(op)) => {
            if op == BinaryOp::Mul || op == BinaryOp::Div {
                atom_advances(chars, tokens, pos + 1);
                match atom(chars, tokens, pos + 1) {
                    Ok((right, next)) => factors_hold_ground(
                        chars,
                        tokens,
                        next,
                        Term::Binary(op, Box::new(left), Box::new(right)),
                    ),
                    Err(_) => {},
                }
            }
        },
        _ => {},
    }
}

/// A sum takes at least one token.
pub proof fn sum_advances(chars: Seq<char>, tokens: Seq<Token>, pos: nat)
    ensures
        advances(sum(chars, tokens, pos), pos, tokens),
    decreases tokens.len() - pos, 5nat,
{
    product_advances(chars, tokens, pos);
    match product(chars, tokens, pos) {
        Ok((left, next)) => summands_hold_ground(chars, tokens, next, left),
        Err(_) => {},
    }
}

proof fn summands_hold_ground(chars: Seq<char>, tokens: Seq<Token>, pos: nat, left: Term)
    requires
        pos <= tokens.len(),
    ensures
        holds_ground(summands(chars, tokens, pos, left), pos, tokens),
    decreases tokens.len() - pos, 4nat,
{
    match kind_at(tokens, pos) {
        Some(TokenKind::Operator(op)) => {
            if op == BinaryOp::Add || op == BinaryOp::Sub {
                product_advances(chars, tokens, pos + 1);
                match product(chars, tokens, pos + 1) {
                    Ok((right, next)) => summands_hold_ground(
                        chars,
                        tokens,
                        next,
                        Term::Binary(op, Box::new(left), Box::new(right)),
                    ),
                    Err(_) => {},
                }
            }
        },
        _ => {},
    }
}

/// An expression takes at least one token.
pub proof fn expression_advances(chars: Seq<char>, tokens: Seq<Token>, pos: nat)
    ensures
        advances(expression(chars, tokens, pos), pos, tokens),
    decreases tokens.len() - pos, 6nat,
{
    sum_advances(chars, tokens, pos);
    match sum(chars, tokens, pos) {
        Ok((left, next)) => {
            if pos < next < tokens.len() {
                sum_advances(chars, tokens, next + 1);
            }
        },
        Err(_) => {},
    }
}

proof fn arguments_hold_ground(chars: Seq<char>, tokens: Seq<Token>, pos: nat, found: Seq<Term>)
    requires
        pos <= tokens.len(),
    ensures
        holds_ground(arguments(chars, tokens, pos, found), pos, tokens),
    decreases tokens.len() - pos, 7nat,
{
    match kind_at(tokens, pos) {
        Some(kind) => {
            if begins_expression(kind) {
                expression_advances(chars, tokens, pos);
                match expression(chars, tokens, pos) {
                    Ok((t, next)) => arguments_hold_ground(chars, tokens, next, found.push(t)),
                    Err(_) => {},
                }
            }
        },
        None => {},
    }
}

/// An instruction takes at least one token.
pub proof fn instruction_advances(chars: Seq<char>, tokens: Seq<Token>, pos: nat)
    ensures
        advances(instruction(chars, tokens, pos), pos, tokens),
    decreases tokens.len() - pos, 8nat,
{
    match kind_at(tokens, pos) {
        Some(TokenKind::Name { start, end }) => {
            arguments_hold_ground(chars, tokens, pos + 1, Seq::empty());
        },
        Some(TokenKind::Keyword(k)) => {
            if alone(k) is Some {
            } else if with_operand(k, Term::RepCount) is Some {
                expression_advances(chars, tokens, pos + 1);
            } else if k == Keyword::Repeat || k == Keyword::If {
                expression_advances(chars, tokens, pos + 1);
                match expression(chars, tokens, pos + 1) {
                    Ok((t, next)) => {
                        if pos + 1 < next < tokens.len() {
                            block_advances(chars, tokens, next + 1, Seq::empty());
                        }
                    },
                    Err(_) => {},
                }
            }
        },
        _ => {},
    }
}

/// The instructions of a block, with its `]`, take at least one token.
pub proof fn block_advances(chars: Seq<char>, tokens: Seq<Token>, pos: nat, found: Seq<Command>)
    ensures
        advances(block(chars, tokens, pos, found), pos, tokens),
    decreases tokens.len() - pos, 9nat,
{
    match kind_at(tokens, pos) {
        None => {},
        Some(TokenKind::Close) => {},
        Some(_) => {
            instruction_advances(chars, tokens, pos);
            match instruction(chars, tokens, pos) {
                Ok((c, next)) => block_advances(chars, tokens, next, found.push(c)),
                Err(_) => {},
            }
        },
    }
}

/// The instructions of a procedure, with its `END`, take at least one token.
pub proof fn body_advances(chars: Seq<char>, tokens: Seq<Token>, pos: nat, found: Seq<Command>)
    ensures
        advances(body(chars, tokens, pos, found), pos, tokens),
    decreases tokens.len() - pos, 9nat,
{
    match kind_at(tokens, pos) {
        None => {},
        Some(TokenKind::Keyword(Keyword::End)) => {},
        Some(_) => {
            instruction_advances(chars, tokens, pos);
            match instruction(chars, tokens, pos) {
                Ok((c, next)) => body_advances(chars, tokens, next, found.push(c)),
                Err(_) => {},
            }
        },
    }
}

proof fn parameters_hold_ground(
    chars: Seq<char>,
    tokens: Seq<Token>,
    pos: nat,
    found: Seq<Seq<char>>,
)
    requires
        pos <= tokens.len(),
    ensures
        pos <= parameters(chars, tokens, pos, found).1 <= tokens.len(),
    decreases tokens.len() - pos,
{
    match kind_at(tokens, pos) {
        Some(TokenKind::Variable { start, end }) => {
            parameters_hold_ground(chars, tokens, pos + 1, found.push(span(chars, start, end)));
        },
        _ => {},
    }
}

/// A procedure takes at least one token.
pub proof fn procedure_advances(chars: Seq<char>, tokens: Seq<Token>, pos: nat)
    ensures
        advances(procedure(chars, tokens, pos), pos, tokens),
{
    match kind_at(tokens, pos + 1) {
        Some(TokenKind::Name { start, end }) => {
            parameters_hold_ground(chars, tokens, pos + 2, Seq::empty());
            let (names, next) = parameters(chars, tokens, pos + 2, Seq::empty());
            body_advances(chars, tokens, next, Seq::empty());
        },
        _ => {},
    }
}

/// The grammar never stalls: whatever it parses takes at least one token, so
/// the demand that a step advance, which the definitions make of every step
/// that another follows, turns no success into an error.
pub proof fn no_step_stalls(chars: Seq<char>, tokens: Seq<Token>, pos: nat)
    ensures
        advancing(atom(chars, tokens, pos), pos, tokens) == atom(chars, tokens, pos),
        advancing(product(chars, tokens, pos), pos, tokens) == product(chars, tokens, pos),
        advancing(sum(chars, tokens, pos), pos, tokens) == sum(chars, tokens, pos),
        advancing(expression(chars, tokens, pos), pos, tokens) == expression(chars, tokens, pos),
        advancing(instruction(chars, tokens, pos), pos, tokens) == instruction(
            chars,
            tokens,
            pos,
        ),
        advancing(procedure(chars, tokens, pos), pos, tokens) == procedure(chars, tokens, pos),
{
    atom_advances(chars, tokens, pos);
    product_advances(chars, tokens, pos);
    sum_advances(chars, tokens, pos);
    expression_advances(chars, tokens, pos);
    instruction_advances(chars, tokens, pos);
    procedure_advances(chars, tokens, pos);
}

/// Whether a parser's result is the one that the grammar gives, and, where
/// it is a success, ends after `pos` and within the tokens.
pub open spec fn found_term(
    r: Result<(Expression, usize), SyntaxError>,
    expected: Parsed<Term>,
    pos: usize,
    tokens: Seq<Token>,
) -> bool {
    match r {
        Ok((e, next)) => expected == Ok::<(Term, nat), SyntaxError>((e@, next as nat)) && pos < next
            <= tokens.len(),
        Err(err) => expected == Err::<(Term, nat), SyntaxError>(err),
    }
}

/// The same for a vector of expressions, which may be empty and take no
/// token.
pub open spec fn found_terms(
    r: Result<(Vec<Expression>, usize), SyntaxError>,
    expected: Parsed<Seq<Term>>,
    pos: usize,
    tokens: Seq<Token>,
) -> bool {
    match r {
        Ok((items, next)) => expected == Ok::<(Seq<Term>, nat), SyntaxError>(
            (terms_of(items@, items@.len()), next as nat),
        ) && pos <= next <= tokens.len(),
        Err(err) => expected == Err::<(Seq<Term>, nat), SyntaxError>(err),
    }
}

/// The same for an instruction.
pub open spec fn found_command(
    r: Result<(Instruction, usize), SyntaxError>,
    expected: Parsed<Command>,
    pos: usize,
    tokens: Seq<Token>,
) -> bool {
    match r {
        Ok((i, next)) => expected == Ok::<(Command, nat), SyntaxError>((i@, next as nat)) && pos
            < next <= tokens.len(),
        Err(err) => expected == Err::<(Command, nat), SyntaxError>(err),
    }
}

/// The same for the instructions of a block or a body, with what closes
/// it.
pub open spec fn found_commands(
    r: Result<(Vec<Instruction>, usize), SyntaxError>,
    expected: Parsed<Seq<Command>>,
    pos: usize,
    tokens: Seq<Token>,
) -> bool {
    match r {
        Ok((items, next)) => expected == Ok::<(Seq<Command>, nat), SyntaxError>(
            (commands_of(items@, items@.len()), next as nat),
        ) && pos < next <= tokens.len(),
        Err(err) => expected == Err::<(Seq<Command>, nat), SyntaxError>(err),
    }
}

fn name_at(text: &str, length: usize, start: usize, end: usize) -> (r: String)
    requires
        length == text@.len(),
    ensures
        r@ == span(text@, start, end),
{
    if start <= end && end <= length {
        text.substring_char(start, end).to_owned()
    } else {
        String::new()
    }
}

fn kind(tokens: &Vec<Token>, pos: usize) -> (r: Option<TokenKind>)
    ensures
        r == kind_at(tokens@, pos as nat),
{
    if pos < tokens.len() {
        Some(tokens[pos].kind)
    } else {
        None
    }
}

fn complain(tokens: &Vec<Token>, pos: usize) -> (r: SyntaxError)
    ensures
        r == unexpected(tokens@, pos as nat),
{
    if pos < tokens.len() {
        SyntaxError::UnexpectedToken(tokens[pos].at)
    } else {
        SyntaxError::UnexpectedEnd
    }
}

fn starts_expression(kind: TokenKind) -> (r: bool)
    ensures
        r == begins_expression(kind),
{
    match kind {
        TokenKind::Number(_) => true,
        TokenKind::Variable { .. } => true,
        TokenKind::Quoted { .. } => true,
        TokenKind::Open => true,
        TokenKind::LeftParen => true,
        TokenKind::Operator(op) => op == BinaryOp::Sub,
        TokenKind::Keyword(k) => k == Keyword::Random || k == Keyword::Pick || k
            == Keyword::RepCount,
        _ => false,
    }
}

fn parse_atom(text: &str, length: usize, tokens: &Vec<Token>, pos: usize) -> (r: Result<
    (Expression, usize),
    SyntaxError,
>)
    requires
        length == text@.len(),
    ensures
        found_term(r, atom(text@, tokens@, pos as nat), pos, tokens@),
    decreases tokens.len() - pos, 0nat,
{
    if pos >= tokens.len() {
        return Err(SyntaxError::UnexpectedEnd);
    }
    match tokens[pos].kind {
        TokenKind::Number(n) => Ok((Expression::Number(n), pos + 1)),
        TokenKind::Variable { start, end } => Ok(
            (Expression::Variable(name_at(text, length, start, end)), pos + 1),
        ),
        TokenKind::Quoted { start, end } => Ok(
            (Expression::Word(name_at(text, length, start, end)), pos + 1),
        ),
        TokenKind::Keyword(Keyword::RepCount) => Ok((Expression::RepCount, pos + 1)),
        TokenKind::Operator(BinaryOp::Sub) => {
            let (e, next) = parse_atom(text, length, tokens, pos + 1)?;
            let zero = Expression::Number(Number::zero());
            assert(zero@ == Term::Number(Number::spec_zero()));
            Ok((Expression::Binary(BinaryOp::Sub, Box::new(zero), Box::new(e)), next))
        },
        TokenKind::Keyword(Keyword::Random) => {
            let (e, next) = parse_atom(text, length, tokens, pos + 1)?;
            Ok((Expression::Random(Box::new(e)), next))
        },
        TokenKind::Keyword(Keyword::Pick) => {
            let (e, next) = parse_atom(text, length, tokens, pos + 1)?;
            Ok((Expression::Pick(Box::new(e)), next))
        },
        TokenKind::LeftParen => {
            if tokens.len() - pos > 2 {
                match (tokens[pos + 1].kind, tokens[pos + 2].kind) {
                    (TokenKind::Name { start, end }, TokenKind::RightParen) => {
                        return Ok((Expression::Word(name_at(text, length, start, end)), pos + 3));
                    },
                    _ => {},
                }
            }
            let (e, next) = parse_expression(text, length, tokens, pos + 1)?;
            match kind(tokens, next) {
                Some(TokenKind::RightParen) => Ok((e, next + 1)),
                _ => Err(complain(tokens, next)),
            }
        },
        TokenKind::Open => {
            let (items, next) = parse_elements(text, length, tokens, pos + 1)?;
            Ok((Expression::List(items), next))
        },
        _ => Err(complain(tokens, pos)),
    }
}

fn parse_elements(text: &str, length: usize, tokens: &Vec<Token>, pos: usize) -> (r: Result<
    (Vec<Expression>, usize),
    SyntaxError,
>)
    requires
        length == text@.len(),
    ensures
        found_terms(r, elements(text@, tokens@, pos as nat, Seq::empty()), pos, tokens@),
        r matches Ok((_, next)) ==> pos < next,
    decreases tokens.len() - pos, 1nat,
{
    let mut items: Vec<Expression> = Vec::new();
    let mut p: usize = pos;
    loop
        invariant
            length == text@.len(),
            pos <= p,
            elements(text@, tokens@, pos as nat, Seq::empty()) == elements(
                text@,
                tokens@,
                p as nat,
                terms_of(items@, items@.len()),
            ),
        decreases tokens.len() - p,
    {
        if p >= tokens.len() {
            return Err(SyntaxError::UnexpectedEnd);
        }
        let ghost before = items@;
        match tokens[p].kind {
            TokenKind::Close => {
                return Ok((items, p + 1));
            },
            TokenKind::Name { start, end } => {
                let word = Expression::Word(name_at(text, length, start, end));
                proof {
                    terms_of_push(before, word);
                }
                items.push(word);
                p = p + 1;
            },
            _ => {
                let (e, next) = parse_atom(text, length, tokens, p)?;
                proof {
                    terms_of_push(before, e);
                }
                items.push(e);
                p = next;
            },
        }
    }
}

fn parse_product(text: &str, length: usize, tokens: &Vec<Token>, pos: usize) -> (r: Result<
    (Expression, usize),
    SyntaxError,
>)
    requires
        length == text@.len(),
    ensures
        found_term(r, product(text@, tokens@, pos as nat), pos, tokens@),
    decreases tokens.len() - pos, 3nat,
{
    let (first, after) = parse_atom(text, length, tokens, pos)?;
    let mut left = first;
    let mut p: usize = after;
    loop
        invariant
            length == text@.len(),
            pos < p <= tokens.len(),
            product(text@, tokens@, pos as nat) == factors(text@, tokens@, p as nat, left@),
        decreases tokens.len() - p,
    {
        match kind(tokens, p) {
            Some(TokenKind::Operator(op)) => {
                if op == BinaryOp::Mul || op == BinaryOp::Div {
                    let (right, next) = parse_atom(text, length, tokens, p + 1)?;
                    left = Expression::Binary(op, Box::new(left), Box::new(right));
                    p = next;
                } else {
                    return Ok((left, p));
                }
            },
            _ => {
                return Ok((left, p));
            },
        }
    }
}

fn parse_sum(text: &str, length: usize, tokens: &Vec<Token>, pos: usize) -> (r: Result<
    (Expression, usize),
    SyntaxError,
>)
    requires
        length == text@.len(),
    ensures
        found_term(r, sum(text@, tokens@, pos as nat), pos, tokens@),
    decreases tokens.len() - pos, 5nat,
{
    let (first, after) = parse_product(text, length, tokens, pos)?;
    let mut left = first;
    let mut p: usize = after;
    loop
        invariant
            length == text@.len(),
            pos < p <= tokens.len(),
            sum(text@, tokens@, pos as nat) == summands(text@, tokens@, p as nat, left@),
        decreases tokens.len() - p,
    {
        match kind(tokens, p) {
            Some(TokenKind::Operator(op)) => {
                if op == BinaryOp::Add || op == BinaryOp::Sub {
                    let (right, next) = parse_product(text, length, tokens, p + 1)?;
                    left = Expression::Binary(op, Box::new(left), Box::new(right));
                    p = next;
                } else {
                    return Ok((left, p));
                }
            },
            _ => {
                return Ok((left, p));
            },
        }
    }
}

fn parse_expression(text: &str, length: usize, tokens: &Vec<Token>, pos: usize) -> (r: Result<
    (Expression, usize),
    SyntaxError,
>)
    requires
        length == text@.len(),
    ensures
        found_term(r, expression(text@, tokens@, pos as nat), pos, tokens@),
    decreases tokens.len() - pos, 6nat,
{
    let (left, next) = parse_sum(text, length, tokens, pos)?;
    match kind(tokens, next) {
        Some(TokenKind::Operator(op)) => {
            if op.compares() {
                let (right, after) = parse_sum(text, length, tokens, next + 1)?;
                Ok((Expression::Binary(op, Box::new(left), Box::new(right)), after))
            } else {
                Ok((left, next))
            }
        },
        _ => Ok((left, next)),
    }
}

fn parse_arguments(text: &str, length: usize, tokens: &Vec<Token>, pos: usize) -> (r: Result<
    (Vec<Expression>, usize),
    SyntaxError,
>)
    requires
        length == text@.len(),
        pos <= tokens.len(),
    ensures
        found_terms(r, arguments(text@, tokens@, pos as nat, Seq::empty()), pos, tokens@),
    decreases tokens.len() - pos, 7nat,
{
    let mut items: Vec<Expression> = Vec::new();
    let mut p: usize = pos;
    loop
        invariant
            length == text@.len(),
            pos <= p <= tokens.len(),
            arguments(text@, tokens@, pos as nat, Seq::empty()) == arguments(
                text@,
                tokens@,
                p as nat,
                terms_of(items@, items@.len()),
            ),
        decreases tokens.len() - p,
    {
        match kind(tokens, p) {
            Some(k) => {
                if starts_expression(k) {
                    let ghost before = items@;
                    let (e, next) = parse_expression(text, length, tokens, p)?;
                    proof {
                        terms_of_push(before, e);
                    }
                    items.push(e);
                    p = next;
                } else {
                    return Ok((items, p));
                }
            },
            None => {
                return Ok((items, p));
            },
        }
    }
}

fn stands_alone(k: Keyword) -> (r: Option<Instruction>)
    ensures
        match r {
            Some(i) => alone(k) == Some(i@),
            None => alone(k) is None,
        },
{
    match k {
        Keyword::PenUp => Some(Instruction::PenUp),
        Keyword::PenDown => Some(Instruction::PenDown),
        Keyword::ShowTurtle => Some(Instruction::ShowTurtle),
        Keyword::HideTurtle => Some(Instruction::HideTurtle),
        Keyword::ClearScreen => Some(Instruction::ClearScreen),
        Keyword::Window => Some(Instruction::Window),
        Keyword::Stop => Some(Instruction::Stop),
        _ => None,
    }
}

fn takes_operand(k: Keyword) -> (r: bool)
    ensures
        r == (with_operand(k, Term::RepCount) is Some),
        r ==> forall|t: Term| with_operand(k, t) is Some,
{
    match k {
        Keyword::Forward | Keyword::Back | Keyword::Left | Keyword::Right | Keyword::SetColor
        | Keyword::SetLabelHeight | Keyword::Wait => true,
        _ => false,
    }
}

fn operate(k: Keyword, e: Expression) -> (r: Instruction)
    requires
        with_operand(k, e@) is Some,
    ensures
        with_operand(k, e@) == Some(r@),
{
    match k {
        Keyword::Forward => Instruction::Forward(e),
        Keyword::Back => Instruction::Back(e),
        Keyword::Left => Instruction::Left(e),
        Keyword::Right => Instruction::Right(e),
        Keyword::SetColor => Instruction::SetColor(e),
        Keyword::SetLabelHeight => Instruction::SetLabelHeight(e),
        _ => Instruction::Wait(e),
    }
}

fn parse_instruction(text: &str, length: usize, tokens: &Vec<Token>, pos: usize) -> (r: Result<
    (Instruction, usize),
    SyntaxError,
>)
    requires
        length == text@.len(),
    ensures
        found_command(r, instruction(text@, tokens@, pos as nat), pos, tokens@),
    decreases tokens.len() - pos, 8nat,
{
    if pos >= tokens.len() {
        return Err(SyntaxError::UnexpectedEnd);
    }
    match tokens[pos].kind {
        TokenKind::Name { start, end } => {
            let (found, next) = parse_arguments(text, length, tokens, pos + 1)?;
            Ok((Instruction::Call(name_at(text, length, start, end), found), next))
        },
        TokenKind::Keyword(k) => {
            match stands_alone(k) {
                Some(i) => { return Ok((i, pos + 1)); },
                None => {},
            }
            if takes_operand(k) {
                let (e, next) = parse_expression(text, length, tokens, pos + 1)?;
                Ok((operate(k, e), next))
            } else if k == Keyword::Repeat || k == Keyword::If {
                let (e, next) = parse_expression(text, length, tokens, pos + 1)?;
                match kind(tokens, next) {
                    Some(TokenKind::Open) => {
                        let (body, after) = parse_block(text, length, tokens, next + 1)?;
                        if k == Keyword::Repeat {
                            Ok((Instruction::Repeat(e, body), after))
                        } else {
                            Ok((Instruction::If(e, body), after))
                        }
                    },
                    _ => Err(complain(tokens, next)),
                }
            } else if k == Keyword::Label {
                match kind(tokens, pos + 1) {
                    Some(TokenKind::Quoted { start, end }) => Ok(
                        (Instruction::Label(name_at(text, length, start, end)), pos + 2),
                    ),
                    _ => Err(complain(tokens, pos + 1)),
                }
            } else {
                Err(complain(tokens, pos))
            }
        },
        _ => Err(complain(tokens, pos)),
    }
}

fn parse_block(text: &str, length: usize, tokens: &Vec<Token>, pos: usize) -> (r: Result<
    (Vec<Instruction>, usize),
    SyntaxError,
>)
    requires
        length == text@.len(),
    ensures
        found_commands(r, block(text@, tokens@, pos as nat, Seq::empty()), pos, tokens@),
    decreases tokens.len() - pos, 9nat,
{
    let mut items: Vec<Instruction> = Vec::new();
    let mut p: usize = pos;
    loop
        invariant
            length == text@.len(),
            pos <= p,
            block(text@, tokens@, pos as nat, Seq::empty()) == block(
                text@,
                tokens@,
                p as nat,
                commands_of(items@, items@.len()),
            ),
        decreases tokens.len() - p,
    {
        if p >= tokens.len() {
            return Err(SyntaxError::UnexpectedEnd);
        }
        match tokens[p].kind {
            TokenKind::Close => {
                return Ok((items, p + 1));
            },
            _ => {
                let ghost before = items@;
                let (i, next) = parse_instruction(text, length, tokens, p)?;
                proof {
                    commands_of_push(before, i);
                }
                items.push(i);
                p = next;
            },
        }
    }
}

fn parse_body(text: &str, length: usize, tokens: &Vec<Token>, pos: usize) -> (r: Result<
    (Vec<Instruction>, usize),
    SyntaxError,
>)
    requires
        length == text@.len(),
    ensures
        found_commands(r, body(text@, tokens@, pos as nat, Seq::empty()), pos, tokens@),
    decreases tokens.len() - pos, 9nat,
{
    let mut items: Vec<Instruction> = Vec::new();
    let mut p: usize = pos;
    loop
        invariant
            length == text@.len(),
            pos <= p,
            body(text@, tokens@, pos as nat, Seq::empty()) == body(
                text@,
                tokens@,
                p as nat,
                commands_of(items@, items@.len()),
            ),
        decreases tokens.len() - p,
    {
        if p >= tokens.len() {
            return Err(SyntaxError::UnexpectedEnd);
        }
        match tokens[p].kind {
            TokenKind::Keyword(Keyword::End) => {
                return Ok((items, p + 1));
            },
            _ => {
                let ghost before = items@;
                let (i, next) = parse_instruction(text, length, tokens, p)?;
                proof {
                    commands_of_push(before, i);
                }
                items.push(i);
                p = next;
            },
        }
    }
}

fn parse_parameters(text: &str, length: usize, tokens: &Vec<Token>, pos: usize) -> (r: (
    Vec<String>,
    usize,
))
    requires
        length == text@.len(),
        pos <= tokens.len(),
    ensures
        parameters(text@, tokens@, pos as nat, Seq::empty()) == (names_of(r.0@), r.1 as nat),
        pos <= r.1 <= tokens.len(),
{
    let mut names: Vec<String> = Vec::new();
    let mut p: usize = pos;
    assert(names_of(names@) =~= Seq::<Seq<char>>::empty());
    loop
        invariant
            length == text@.len(),
            pos <= p <= tokens.len(),
            parameters(text@, tokens@, pos as nat, Seq::empty()) == parameters(
                text@,
                tokens@,
                p as nat,
                names_of(names@),
            ),
        decreases tokens.len() - p,
    {
        match kind(tokens, p) {
            Some(TokenKind::Variable { start, end }) => {
                let ghost before = names@;
                let name = name_at(text, length, start, end);
                names.push(name);
                assert(names_of(names@) =~= names_of(before).push(name@));
                p = p + 1;
            },
            _ => {
                return (names, p);
            },
        }
    }
}

fn parse_procedure(text: &str, length: usize, tokens: &Vec<Token>, pos: usize) -> (r: Result<
    (FuncDeclaration, usize),
    SyntaxError,
>)
    requires
        length == text@.len(),
        pos < tokens.len(),
    ensures
        match r {
            Ok((f, next)) => procedure(text@, tokens@, pos as nat) == Ok::<
                (Procedure, nat),
                SyntaxError,
            >((f@, next as nat)) && pos < next <= tokens.len(),
            Err(err) => procedure(text@, tokens@, pos as nat) == Err::<
                (Procedure, nat),
                SyntaxError,
            >(err),
        },
{
    match kind(tokens, pos + 1) {
        Some(TokenKind::Name { start, end }) => {
            let (parameters, next) = parse_parameters(text, length, tokens, pos + 2);
            let (body, after) = parse_body(text, length, tokens, next)?;
            Ok((FuncDeclaration { name: name_at(text, length, start, end), parameters, body }, after))
        },
        _ => Err(complain(tokens, pos + 1)),
    }
}

/// Builds the syntax tree of a tokenized text.
pub fn parse_tokens(text: &str, tokens: &Vec<Token>) -> (r: Result<Logo, SyntaxError>)
    ensures
        match r {
            Ok(logo) => program(
                text@,
                tokens@,
                0,
                Program { instructions: Seq::empty(), functions: Seq::empty() },
            ) == Ok::<Program, SyntaxError>(logo@),
            Err(err) => program(
                text@,
                tokens@,
                0,
                Program { instructions: Seq::empty(), functions: Seq::empty() },
            ) == Err::<Program, SyntaxError>(err),
        },
{
    let length = text.unicode_len();
    let mut instructions: Vec<Instruction> = Vec::new();
    let mut functions: Vec<FuncDeclaration> = Vec::new();
    let mut p: usize = 0;
    let ghost start = Program { instructions: Seq::empty(), functions: Seq::empty() };
    assert(procedures_of(functions@) =~= Seq::<Procedure>::empty());
    loop
        invariant
            length == text@.len(),
            p <= tokens.len(),
            start == (Program { instructions: Seq::empty(), functions: Seq::empty() }),
            program(text@, tokens@, 0, start) == program(
                text@,
                tokens@,
                p as nat,
                Program {
                    instructions: commands_of(instructions@, instructions@.len()),
                    functions: procedures_of(functions@),
                },
            ),
        decreases tokens.len() - p,
    {
        match kind(tokens, p) {
            None => {
                return Ok(Logo { instructions, functions });
            },
            Some(TokenKind::Keyword(Keyword::To)) => {
                let ghost before = functions@;
                let (f, next) = parse_procedure(text, length, tokens, p)?;
                functions.push(f);
                assert(procedures_of(functions@) =~= procedures_of(before).push(f@));
                p = next;
            },
            Some(_) => {
                let ghost before = instructions@;
                let (i, next) = parse_instruction(text, length, tokens, p)?;
                proof {
                    commands_of_push(before, i);
                }
                instructions.push(i);
                p = next;
            },
        }
    }
}

/// The characters of a text, one by one.
pub fn characters(text: &str) -> (r: Vec<char>)
    ensures
        r@ == text@,
{
    let length = text.unicode_len();
    let mut chars: Vec<char> = Vec::new();
    let mut i: usize = 0;
    while i < length
        invariant
            i <= length,
            length == text@.len(),
            chars@ == text@.subrange(0, i as int),
        decreases length - i,
    {
        chars.push(text.get_char(i));
        assert(chars@ =~= text@.subrange(0, i as int + 1));
        i = i + 1;
    }
    assert(text@.subrange(0, length as int) =~= text@);
    chars
}

/// Reads a program.
pub fn parse(text: &str) -> (r: Result<Logo, SyntaxError>)
    ensures
        match r {
            Ok(logo) => parsed(text@) == Ok::<Program, SyntaxError>(logo@),
            Err(err) => parsed(text@) == Err::<Program, SyntaxError>(err),
        },
{
    let chars = characters(text);
    let tokens = tokenize(&chars)?;
    parse_tokens(text, &tokens)
}


} // verus!
