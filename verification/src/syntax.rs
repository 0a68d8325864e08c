//! The mathematical form of a syntax tree: names are sequences of characters
//! and lists of sub-trees are sequences. The parser is specified over these.

use crate::ast::{BinaryOp, Expression, FuncDeclaration, Instruction, Logo};
use crate::number::Number;
use vstd::prelude::*;

verus! {

/// The form of an `Expression`.
pub enum Term {
    Number(Number),
    Word(Seq<char>),
    List(Seq<Term>),
    Variable(Seq<char>),
    Binary(BinaryOp, Box<Term>, Box<Term>),
    Random(Box<Term>),
    Pick(Box<Term>),
    RepCount,
}

/// The form of an `Instruction`.
pub enum Command {
    Forward(Term),
    Back(Term),
    Left(Term),
    Right(Term),
    PenUp,
    PenDown,
    ShowTurtle,
    HideTurtle,
    SetColor(Term),
    SetLabelHeight(Term),
    ClearScreen,
    Window,
    Repeat(Term, Seq<Command>),
    If(Term, Seq<Command>),
    Stop,
    Wait(Term),
    Label(Seq<char>),
    Call(Seq<char>, Seq<Term>),
}

/// The form of a `FuncDeclaration`.
pub struct Procedure {
    pub name: Seq<char>,
    pub parameters: Seq<Seq<char>>,
    pub body: Seq<Command>,
}

/// The form of a `Logo`.
pub struct Program {
    pub instructions: Seq<Command>,
    pub functions: Seq<Procedure>,
}

/// The forms of the first `upto` expressions.
pub open spec fn terms_of(items: Seq<Expression>, upto: nat) -> Seq<Term>
    decreases items, upto,
{
    if upto == 0 || upto > items.len() {
        Seq::empty()
    } else {
        terms_of(items, (upto - 1) as nat).push(items[upto - 1].view())
    }
}

impl View for Expression {
    type V = Term;

    open spec fn view(&self) -> Term
        decreases self, 0nat,
    {
        match self {
            Expression::Number(n) => Term::Number(*n),
            Expression::Word(w) => Term::Word(w@),
            Expression::List(items) => Term::List(terms_of(items@, items@.len())),
            Expression::Variable(name) => Term::Variable(name@),
            Expression::Binary(op, left, right) => Term::Binary(
                *op,
                Box::new((**left).view()),
                Box::new((**right).view()),
            ),
            Expression::Random(bound) => Term::Random(Box::new((**bound).view())),
            Expression::Pick(list) => Term::Pick(Box::new((**list).view())),
            Expression::RepCount => Term::RepCount,
        }
    }
}

/// The forms of the first `upto` instructions.
pub open spec fn commands_of(block: Seq<Instruction>, upto: nat) -> Seq<Command>
    decreases block, upto,
{
    if upto == 0 || upto > block.len() {
        Seq::empty()
    } else {
        commands_of(block, (upto - 1) as nat).push(block[upto - 1].view())
    }
}

impl View for Instruction {
    type V = Command;

    open spec fn view(&self) -> Command
        decreases self, 0nat,
    {
        match self {
            Instruction::Forward(e) => Command::Forward(e@),
            Instruction::Back(e) => Command::Back(e@),
            Instruction::Left(e) => Command::Left(e@),
            Instruction::Right(e) => Command::Right(e@),
            Instruction::PenUp => Command::PenUp,
            Instruction::PenDown => Command::PenDown,
            Instruction::ShowTurtle => Command::ShowTurtle,
            Instruction::HideTurtle => Command::HideTurtle,
            Instruction::SetColor(e) => Command::SetColor(e@),
            Instruction::SetLabelHeight(e) => Command::SetLabelHeight(e@),
            Instruction::ClearScreen => Command::ClearScreen,
            Instruction::Window => Command::Window,
            Instruction::Repeat(e, body) => Command::Repeat(e@, commands_of(body@, body@.len())),
            Instruction::If(e, block) => Command::If(e@, commands_of(block@, block@.len())),
            Instruction::Stop => Command::Stop,
            Instruction::Wait(e) => Command::Wait(e@),
            Instruction::Label(text) => Command::Label(text@),
            Instruction::Call(name, arguments) => Command::Call(
                name@,
                terms_of(arguments@, arguments@.len()),
            ),
        }
    }
}

/// The names as sequences of characters.
pub open spec fn names_of(names: Seq<String>) -> Seq<Seq<char>> {
    Seq::new(names.len(), |i: int| names[i]@)
}

/// The forms of the declarations, in order.
pub open spec fn procedures_of(functions: Seq<FuncDeclaration>) -> Seq<Procedure> {
    Seq::new(functions.len(), |i: int| functions[i]@)
}

impl View for FuncDeclaration {
    type V = Procedure;

    open spec fn view(&self) -> Procedure {
        Procedure {
            name: self.name@,
            parameters: names_of(self.parameters@),
            body: commands_of(self.body@, self.body@.len()),
        }
    }
}

impl View for Logo {
    type V = Program;

    open spec fn view(&self) -> Program {
        Program {
            instructions: commands_of(self.instructions@, self.instructions@.len()),
            functions: procedures_of(self.functions@),
        }
    }
}

/// `terms_of` takes the form of each expression, in order.
pub proof fn terms_of_is_pointwise(items: Seq<Expression>, upto: nat)
    requires
        upto <= items.len(),
    ensures
        terms_of(items, upto).len() == upto,
        forall|i: int| 0 <= i < upto ==> (#[trigger] terms_of(items, upto)[i]) == items[i]@,
    decreases upto,
{
    if upto > 0 {
        terms_of_is_pointwise(items, (upto - 1) as nat);
        assert(terms_of(items, upto) == terms_of(items, (upto - 1) as nat).push(
            items[upto - 1].view(),
        ));
    } else {
        assert(terms_of(items, upto) == Seq::<Term>::empty());
    }
}

/// `commands_of` takes the form of each instruction, in order.
pub proof fn commands_of_is_pointwise(block: Seq<Instruction>, upto: nat)
    requires
        upto <= block.len(),
    ensures
        commands_of(block, upto).len() == upto,
        forall|i: int| 0 <= i < upto ==> (#[trigger] commands_of(block, upto)[i]) == block[i]@,
    decreases upto,
{
    if upto > 0 {
        commands_of_is_pointwise(block, (upto - 1) as nat);
        assert(commands_of(block, upto) == commands_of(block, (upto - 1) as nat).push(
            block[upto - 1].view(),
        ));
    } else {
        assert(commands_of(block, upto) == Seq::<Command>::empty());
    }
}

/// One more expression at the end of a vector is one more term at the end
/// of its forms.
pub proof fn terms_of_push(items: Seq<Expression>, e: Expression)
    ensures
        terms_of(items.push(e), items.len() + 1) == terms_of(items, items.len()).push(e@),
{
    let longer = items.push(e);
    terms_of_is_pointwise(items, items.len());
    terms_of_is_pointwise(longer, longer.len());
    assert(terms_of(longer, longer.len()) =~= terms_of(items, items.len()).push(e@));
}

/// One more instruction at the end of a vector is one more command at the
/// end of its forms.
pub proof fn commands_of_push(block: Seq<Instruction>, i: Instruction)
    ensures
        commands_of(block.push(i), block.len() + 1) == commands_of(block, block.len()).push(i@),
{
    let longer = block.push(i);
    commands_of_is_pointwise(block, block.len());
    commands_of_is_pointwise(longer, longer.len());
    assert(commands_of(longer, longer.len()) =~= commands_of(block, block.len()).push(i@));
}

} // verus!
