//! From the characters of a program to its tokens.
//!
//! White space separates tokens and means nothing else. Names and words are
//! kept as spans of the text; keywords are told from names here, in either
//! case of their letters; numeric literals are converted here.

use crate::ast::BinaryOp;
use crate::error::SyntaxError;
use crate::number::Number;
use vstd::prelude::*;
use vstd::string::StrSliceExecFns;

verus! {

/// The words of the language that are no names.
#[derive(Clone, Copy, Debug, PartialEq, Eq, Structural)]
pub enum Keyword {
    To,
    End,
    Forward,
    Back,
    Left,
    Right,
    PenUp,
    PenDown,
    ShowTurtle,
    HideTurtle,
    SetColor,
    SetLabelHeight,
    ClearScreen,
    Window,
    Repeat,
    If,
    Stop,
    Wait,
    Label,
    Random,
    Pick,
    RepCount,
}

/// What a token is.
#[derive(Clone, Copy, Debug, PartialEq, Eq, Structural)]
pub enum TokenKind {
    Number(Number),
    Keyword(Keyword),
    /// A name; the span is that of the name.
    Name { start: usize, end: usize },
    /// `:name`; the span is that of the name, after the colon.
    Variable { start: usize, end: usize },
    /// `"word`; the span is that of the word, after the quote.
    Quoted { start: usize, end: usize },
    /// `[`
    Open,
    /// `]`
    Close,
    LeftParen,
    RightParen,
    Operator(BinaryOp),
}

/// A token and the position of its first character.
#[derive(Clone, Copy, Debug, PartialEq, Eq, Structural)]
pub struct Token {
    pub kind: TokenKind,
    pub at: usize,
}

/// The kinds of characters that make up runs.
#[derive(Clone, Copy, Debug, PartialEq, Eq, Structural)]
pub enum Class {
    Digit,
    /// Letters, digits and the underscore.
    NameChar,
    /// All but white space, brackets and parentheses.
    WordChar,
}

/// Blank, tab, line feed and carriage return.
pub open spec fn is_space(c: char) -> bool {
    c == ' ' || c == '\t' || c == '\n' || c == '\r'
}

/// `0` to `9`.
pub open spec fn is_digit(c: char) -> bool {
    48 <= c as u32 <= 57
}

/// `A` to `Z`, `a` to `z` and the underscore.
pub open spec fn is_letter(c: char) -> bool {
    65 <= c as u32 <= 90 || 97 <= c as u32 <= 122 || c == '_'
}

/// Whether a character is of a class.
pub open spec fn belongs(c: char, class: Class) -> bool {
    match class {
        Class::Digit => is_digit(c),
        Class::NameChar => is_letter(c) || is_digit(c),
        Class::WordChar => !is_space(c) && c != '[' && c != ']' && c != '(' && c != ')',
    }
}

/// The end of the longest run of characters of `class` that begins at `pos`.
pub open spec fn run_end(chars: Seq<char>, pos: nat, class: Class) -> nat
    decreases chars.len() - pos,
{
    if pos < chars.len() && belongs(chars[pos as int], class) {
        run_end(chars, pos + 1, class)
    } else {
        pos
    }
}

/// The code of a character, with capital letters taken as small ones.
pub open spec fn folded(c: char) -> u32 {
    if 65 <= c as u32 <= 90 {
        (c as u32 + 32) as u32
    } else {
        c as u32
    }
}

/// Whether `name` is `word` but for the case of its letters.
pub open spec fn spelled(name: Seq<char>, word: Seq<char>) -> bool {
    name.len() == word.len() && forall|i: int|
        0 <= i < name.len() ==> folded(#[trigger] name[i]) == word[i] as u32
}

/// The keyword that a name spells, if any.
pub open spec fn keyword_of(name: Seq<char>) -> Option<Keyword> {
    if spelled(name, "to"@) {
        Some(Keyword::To)
    } else if spelled(name, "end"@) {
        Some(Keyword::End)
    } else if spelled(name, "forward"@) || spelled(name, "fd"@) {
        Some(Keyword::Forward)
    } else if spelled(name, "back"@) || spelled(name, "bk"@) {
        Some(Keyword::Back)
    } else if spelled(name, "left"@) || spelled(name, "lt"@) {
        Some(Keyword::Left)
    } else if spelled(name, "right"@) || spelled(name, "rt"@) {
        Some(Keyword::Right)
    } else if spelled(name, "penup"@) || spelled(name, "pu"@) {
        Some(Keyword::PenUp)
    } else if spelled(name, "pendown"@) || spelled(name, "pd"@) {
        Some(Keyword::PenDown)
    } else if spelled(name, "showturtle"@) || spelled(name, "st"@) {
        Some(Keyword::ShowTurtle)
    } else if spelled(name, "hideturtle"@) || spelled(name, "ht"@) {
        Some(Keyword::HideTurtle)
    } else if spelled(name, "setcolor"@) {
        Some(Keyword::SetColor)
    } else if spelled(name, "setlabelheight"@) {
        Some(Keyword::SetLabelHeight)
    } else if spelled(name, "clearscreen"@) || spelled(name, "cs"@) {
        Some(Keyword::ClearScreen)
    } else if spelled(name, "window"@) {
        Some(Keyword::Window)
    } else if spelled(name, "repeat"@) {
        Some(Keyword::Repeat)
    } else if spelled(name, "if"@) {
        Some(Keyword::If)
    } else if spelled(name, "stop"@) {
        Some(Keyword::Stop)
    } else if spelled(name, "wait"@) {
        Some(Keyword::Wait)
    } else if spelled(name, "label"@) {
        Some(Keyword::Label)
    } else if spelled(name, "random"@) {
        Some(Keyword::Random)
    } else if spelled(name, "pick"@) {
        Some(Keyword::Pick)
    } else if spelled(name, "repcount"@) {
        Some(Keyword::RepCount)
    } else {
        None
    }
}

/// Ten to the power of `k`.
pub open spec fn power_of_ten(k: nat) -> nat
    decreases k,
{
    if k == 0 {
        1
    } else {
        10 * power_of_ten((k - 1) as nat)
    }
}

/// The number that the digits of `chars` from `from` up to `to` spell.
pub open spec fn decimal(chars: Seq<char>, from: nat, to: nat) -> nat
    decreases to,
{
    if to <= from || to > chars.len() {
        0
    } else {
        10 * decimal(chars, from, (to - 1) as nat) + (chars[to - 1] as u32 - 48) as nat
    }
}

/// The most digits that a numeric literal may have.
pub const MAX_DIGITS: usize = 15;

/// The value of a literal with the digits of `digits` and `scale` of them
/// after the point: the quotient, rounded once, of two whole numbers that
/// doubles hold exactly.
pub open spec fn literal(digits: nat, scale: nat) -> Number {
    if scale == 0 {
        Number::index_spec(digits as u64)
    } else {
        Number::index_spec(digits as u64).ratio_spec(
            Number::index_spec(power_of_ten(scale) as u64),
        )
    }
}

/// The single character tokens.
pub open spec fn symbol(c: char) -> Option<TokenKind> {
    if c == '[' {
        Some(TokenKind::Open)
    } else if c == ']' {
        Some(TokenKind::Close)
    } else if c == '(' {
        Some(TokenKind::LeftParen)
    } else if c == ')' {
        Some(TokenKind::RightParen)
    } else if c == '+' {
        Some(TokenKind::Operator(BinaryOp::Add))
    } else if c == '-' {
        Some(TokenKind::Operator(BinaryOp::Sub))
    } else if c == '*' {
        Some(TokenKind::Operator(BinaryOp::Mul))
    } else if c == '/' {
        Some(TokenKind::Operator(BinaryOp::Div))
    } else if c == '<' {
        Some(TokenKind::Operator(BinaryOp::Less))
    } else if c == '>' {
        Some(TokenKind::Operator(BinaryOp::Greater))
    } else if c == '=' {
        Some(TokenKind::Operator(BinaryOp::Equal))
    } else {
        None
    }
}

/// The numeric literal that begins at `pos`, where a digit stands: digits,
/// and after them, if a point and a digit follow, the point and more digits.
pub open spec fn number_at(chars: Seq<char>, pos: nat) -> Result<(TokenKind, nat), SyntaxError> {
    let whole_end = run_end(chars, pos, Class::Digit);
    let fraction = whole_end + 1 < chars.len() && chars[whole_end as int] == '.' && is_digit(
        chars[whole_end as int + 1],
    );
    let end = if fraction {
        run_end(chars, whole_end + 1, Class::Digit)
    } else {
        whole_end
    };
    let scale: nat = if fraction {
        (end - whole_end - 1) as nat
    } else {
        0
    };
    if (whole_end - pos) + scale > MAX_DIGITS {
        Err(SyntaxError::NumberTooLong(pos as usize))
    } else {
        let digits = decimal(chars, pos, whole_end) * power_of_ten(scale) + decimal(
            chars,
            whole_end + 1,
            end,
        );
        Ok((TokenKind::Number(literal(digits, scale)), end))
    }
}

/// The token that begins at `pos`, where no white space stands, and the
/// position after it.
pub open spec fn token_at(chars: Seq<char>, pos: nat) -> Result<(TokenKind, nat), SyntaxError>
    recommends
        pos < chars.len(),
{
    let c = chars[pos as int];
    if symbol(c) is Some {
        Ok((symbol(c)->Some_0, pos + 1))
    } else if is_digit(c) {
        number_at(chars, pos)
    } else if is_letter(c) {
        let end = run_end(chars, pos, Class::NameChar);
        match keyword_of(chars.subrange(pos as int, end as int)) {
            Some(k) => Ok((TokenKind::Keyword(k), end)),
            None => Ok((TokenKind::Name { start: pos as usize, end: end as usize }, end)),
        }
    } else if c == ':' {
        let end = run_end(chars, pos + 1, Class::NameChar);
        if end == pos + 1 {
            Err(SyntaxError::UnexpectedCharacter(pos as usize))
        } else {
            Ok((TokenKind::Variable { start: (pos + 1) as usize, end: end as usize }, end))
        }
    } else if c == '"' {
        let end = run_end(chars, pos + 1, Class::WordChar);
        if end == pos + 1 {
            Err(SyntaxError::UnexpectedCharacter(pos as usize))
        } else {
            Ok((TokenKind::Quoted { start: (pos + 1) as usize, end: end as usize }, end))
        }
    } else {
        Err(SyntaxError::UnexpectedCharacter(pos as usize))
    }
}

/// The tokens of `chars` from `pos` on, after those of `found`.
pub open spec fn tokens_from(chars: Seq<char>, pos: nat, found: Seq<Token>) -> Result<
    Seq<Token>,
    SyntaxError,
>
    decreases chars.len() - pos,
{
    if pos >= chars.len() {
        Ok(found)
    } else if is_space(chars[pos as int]) {
        tokens_from(chars, pos + 1, found)
    } else {
        match token_at(chars, pos) {
            Err(err) => Err(err),
            Ok((kind, end)) => if pos < end <= chars.len() {
                tokens_from(chars, end, found.push(Token { kind, at: pos as usize }))
            } else {
                Err(SyntaxError::UnexpectedCharacter(pos as usize))
            },
        }
    }
}

/// The tokens of a text.
pub open spec fn tokens_of(chars: Seq<char>) -> Result<Seq<Token>, SyntaxError> {
    tokens_from(chars, 0, Seq::empty())
}

/// A run ends at or after its beginning, within the text, and holds
/// characters of its class only.
pub proof fn run_end_bounds(chars: Seq<char>, pos: nat, class: Class)
    requires
        pos <= chars.len(),
    ensures
        pos <= run_end(chars, pos, class) <= chars.len(),
        pos < chars.len() && belongs(chars[pos as int], class) ==> pos < run_end(
            chars,
            pos,
            class,
        ),
    decreases chars.len() - pos,
{
    if pos < chars.len() && belongs(chars[pos as int], class) {
        run_end_bounds(chars, pos + 1, class);
    }
}

/// Digits spell a number below the power of ten of their count.
pub proof fn decimal_bound(chars: Seq<char>, from: nat, to: nat)
    requires
        from <= to <= chars.len(),
        forall|i: int| from <= i < to ==> is_digit(#[trigger] chars[i]),
    ensures
        decimal(chars, from, to) < power_of_ten((to - from) as nat),
    decreases to,
{
    if from < to {
        decimal_bound(chars, from, (to - 1) as nat);
    }
}

/// The powers of ten grow, and the 15th is below two to the 53rd.
pub proof fn power_of_ten_bound(k: nat)
    requires
        k <= 15,
    ensures
        1 <= power_of_ten(k) <= 1_000_000_000_000_000,
        k > 0 ==> power_of_ten(k) == 10 * power_of_ten((k - 1) as nat),
    decreases k,
{
    reveal_with_fuel(power_of_ten, 16);
}

/// Whether the span of a token, where it has one, is a part of a text of
/// `length` characters that is not empty.
pub open spec fn spans_within(kind: TokenKind, length: nat) -> bool {
    match kind {
        TokenKind::Name { start, end } => start < end <= length,
        TokenKind::Variable { start, end } => start < end <= length,
        TokenKind::Quoted { start, end } => start < end <= length,
        _ => true,
    }
}

/// A token takes at least one character and ends within the text, and so
/// does its span.
pub proof fn token_advances(chars: Seq<char>, pos: nat)
    requires
        pos < chars.len() <= usize::MAX,
    ensures
        token_at(chars, pos) matches Ok((kind, end)) ==> pos < end <= chars.len() && spans_within(
            kind,
            chars.len(),
        ),
{
    run_end_bounds(chars, pos, Class::Digit);
    run_end_bounds(chars, pos, Class::NameChar);
    run_end_bounds(chars, pos + 1, Class::NameChar);
    run_end_bounds(chars, pos + 1, Class::WordChar);
    let whole_end = run_end(chars, pos, Class::Digit);
    if whole_end < chars.len() {
        run_end_bounds(chars, whole_end + 1, Class::Digit);
    }
}

/// The tokens of a text never stall and never point outside it: the step
/// from one token to the next always advances, and every span of a name or
/// a word is a part of the text.
pub proof fn tokens_stay_within(chars: Seq<char>, pos: nat, found: Seq<Token>)
    requires
        pos <= chars.len() <= usize::MAX,
        forall|i: int| 0 <= i < found.len() ==> spans_within(#[trigger] found[i].kind, chars.len()),
    ensures
        tokens_from(chars, pos, found) matches Ok(tokens) ==> forall|i: int|
            0 <= i < tokens.len() ==> spans_within(#[trigger] tokens[i].kind, chars.len()),
        pos < chars.len() && !is_space(chars[pos as int]) && token_at(chars, pos) is Ok
            ==> tokens_from(chars, pos, found) == tokens_from(
            chars,
            token_at(chars, pos)->Ok_0.1,
            found.push(Token { kind: token_at(chars, pos)->Ok_0.0, at: pos as usize }),
        ),
    decreases chars.len() - pos,
{
    if pos >= chars.len() {
    } else if is_space(chars[pos as int]) {
        tokens_stay_within(chars, pos + 1, found);
    } else {
        token_advances(chars, pos);
        match token_at(chars, pos) {
            Ok((kind, end)) => {
                let longer = found.push(Token { kind, at: pos as usize });
                assert forall|i: int| 0 <= i < longer.len() implies spans_within(
                    #[trigger] longer[i].kind,
                    chars.len(),
                ) by {
                    if i < found.len() {
                        assert(longer[i] == found[i]);
                    }
                }
                tokens_stay_within(chars, end, longer);
            },
            Err(_) => {},
        }
    }
}

fn is_blank(c: char) -> (r: bool)
    ensures
        r == is_space(c),
{
    c == ' ' || c == '\t' || c == '\n' || c == '\r'
}

fn digit(c: char) -> (r: bool)
    ensures
        r == is_digit(c),
{
    let code = c as u32;
    48 <= code && code <= 57
}

fn letter(c: char) -> (r: bool)
    ensures
        r == is_letter(c),
{
    let code = c as u32;
    (65 <= code && code <= 90) || (97 <= code && code <= 122) || c == '_'
}

fn member(c: char, class: Class) -> (r: bool)
    ensures
        r == belongs(c, class),
{
    match class {
        Class::Digit => digit(c),
        Class::NameChar => letter(c) || digit(c),
        Class::WordChar => !is_blank(c) && c != '[' && c != ']' && c != '(' && c != ')',
    }
}

fn scan(chars: &Vec<char>, pos: usize, class: Class) -> (end: usize)
    requires
        pos <= chars.len(),
    ensures
        end == run_end(chars@, pos as nat, class),
        pos <= end <= chars.len(),
        forall|i: int| pos <= i < end ==> belongs(#[trigger] chars@[i], class),
{
    let mut end: usize = pos;
    while end < chars.len() && member(chars[end], class)
        invariant
            pos <= end <= chars.len(),
            run_end(chars@, pos as nat, class) == run_end(chars@, end as nat, class),
            forall|i: int| pos <= i < end ==> belongs(#[trigger] chars@[i], class),
        decreases chars.len() - end,
    {
        end = end + 1;
    }
    end
}

fn fold(c: char) -> (r: u32)
    ensures
        r == folded(c),
{
    let code = c as u32;
    if 65 <= code && code <= 90 {
        code + 32
    } else {
        code
    }
}

fn spells(chars: &Vec<char>, start: usize, end: usize, word: &str) -> (r: bool)
    requires
        start <= end <= chars.len(),
    ensures
        r == spelled(chars@.subrange(start as int, end as int), word@),
{
    let ghost name = chars@.subrange(start as int, end as int);
    let n = word.unicode_len();
    if end - start != n {
        return false;
    }
    let mut i: usize = 0;
    while i < n
        invariant
            i <= n,
            n == word@.len(),
            n == end - start,
            start <= end <= chars.len(),
            name == chars@.subrange(start as int, end as int),
            forall|j: int| 0 <= j < i ==> folded(#[trigger] name[j]) == word@[j] as u32,
        decreases n - i,
    {
        if fold(chars[start + i]) != word.get_char(i) as u32 {
            assert(folded(name[i as int]) != word@[i as int] as u32);
            return false;
        }
        i = i + 1;
    }
    true
}

fn keyword(chars: &Vec<char>, start: usize, end: usize) -> (r: Option<Keyword>)
    requires
        start <= end <= chars.len(),
    ensures
        r == keyword_of(chars@.subrange(start as int, end as int)),
{
    if spells(chars, start, end, "to") {
        Some(Keyword::To)
    } else if spells(chars, start, end, "end") {
        Some(Keyword::End)
    } else if spells(chars, start, end, "forward") || spells(chars, start, end, "fd") {
        Some(Keyword::Forward)
    } else if spells(chars, start, end, "back") || spells(chars, start, end, "bk") {
        Some(Keyword::Back)
    } else if spells(chars, start, end, "left") || spells(chars, start, end, "lt") {
        Some(Keyword::Left)
    } else if spells(chars, start, end, "right") || spells(chars, start, end, "rt") {
        Some(Keyword::Right)
    } else if spells(chars, start, end, "penup") || spells(chars, start, end, "pu") {
        Some(Keyword::PenUp)
    } else if spells(chars, start, end, "pendown") || spells(chars, start, end, "pd") {
        Some(Keyword::PenDown)
    } else if spells(chars, start, end, "showturtle") || spells(chars, start, end, "st") {
        Some(Keyword::ShowTurtle)
    } else if spells(chars, start, end, "hideturtle") || spells(chars, start, end, "ht") {
        Some(Keyword::HideTurtle)
    } else if spells(chars, start, end, "setcolor") {
        Some(Keyword::SetColor)
    } else if spells(chars, start, end, "setlabelheight") {
        Some(Keyword::SetLabelHeight)
    } else if spells(chars, start, end, "clearscreen") || spells(chars, start, end, "cs") {
        Some(Keyword::ClearScreen)
    } else if spells(chars, start, end, "window") {
        Some(Keyword::Window)
    } else if spells(chars, start, end, "repeat") {
        Some(Keyword::Repeat)
    } else if spells(chars, start, end, "if") {
        Some(Keyword::If)
    } else if spells(chars, start, end, "stop") {
        Some(Keyword::Stop)
    } else if spells(chars, start, end, "wait") {
        Some(Keyword::Wait)
    } else if spells(chars, start, end, "label") {
        Some(Keyword::Label)
    } else if spells(chars, start, end, "random") {
        Some(Keyword::Random)
    } else if spells(chars, start, end, "pick") {
        Some(Keyword::Pick)
    } else if spells(chars, start, end, "repcount") {
        Some(Keyword::RepCount)
    } else {
        None
    }
}

fn mark(c: char) -> (r: Option<TokenKind>)
    ensures
        r == symbol(c),
{
    if c == '[' {
        Some(TokenKind::Open)
    } else if c == ']' {
        Some(TokenKind::Close)
    } else if c == '(' {
        Some(TokenKind::LeftParen)
    } else if c == ')' {
        Some(TokenKind::RightParen)
    } else if c == '+' {
        Some(TokenKind::Operator(BinaryOp::Add))
    } else if c == '-' {
        Some(TokenKind::Operator(BinaryOp::Sub))
    } else if c == '*' {
        Some(TokenKind::Operator(BinaryOp::Mul))
    } else if c == '/' {
        Some(TokenKind::Operator(BinaryOp::Div))
    } else if c == '<' {
        Some(TokenKind::Operator(BinaryOp::Less))
    } else if c == '>' {
        Some(TokenKind::Operator(BinaryOp::Greater))
    } else if c == '=' {
        Some(TokenKind::Operator(BinaryOp::Equal))
    } else {
        None
    }
}

/// The value of at most 15 digits, and ten to the power of their count.
fn read_digits(chars: &Vec<char>, from: usize, to: usize) -> (r: (u64, u64))
    requires
        from <= to <= chars.len(),
        to - from <= MAX_DIGITS,
        forall|i: int| from <= i < to ==> is_digit(#[trigger] chars@[i]),
    ensures
        r.0 == decimal(chars@, from as nat, to as nat),
        r.1 == power_of_ten((to - from) as nat),
        r.0 < r.1 <= 1_000_000_000_000_000,
{
    let mut value: u64 = 0;
    let mut power: u64 = 1;
    let mut i: usize = from;
    while i < to
        invariant
            from <= i <= to <= chars.len(),
            to - from <= MAX_DIGITS,
            forall|j: int| from <= j < to ==> is_digit(#[trigger] chars@[j]),
            value == decimal(chars@, from as nat, i as nat),
            power == power_of_ten((i - from) as nat),
            value < power <= 1_000_000_000_000_000,
        decreases to - i,
    {
        proof {
            power_of_ten_bound((i - from) as nat);
            power_of_ten_bound((i + 1 - from) as nat);
        }
        let d: u64 = (chars[i] as u32 - 48) as u64;
        value = 10 * value + d;
        power = 10 * power;
        i = i + 1;
    }
    (value, power)
}

fn read_number(chars: &Vec<char>, pos: usize) -> (r: Result<(TokenKind, usize), SyntaxError>)
    requires
        pos < chars.len(),
        is_digit(chars@[pos as int]),
    ensures
        match r {
            Ok((kind, end)) => number_at(chars@, pos as nat) == Ok::<(TokenKind, nat), SyntaxError>(
                (kind, end as nat),
            ) && pos < end <= chars.len(),
            Err(err) => number_at(chars@, pos as nat) == Err::<(TokenKind, nat), SyntaxError>(err),
        },
{
    let whole_end = scan(chars, pos, Class::Digit);
    proof {
        run_end_bounds(chars@, pos as nat, Class::Digit);
    }
    let fraction = whole_end < chars.len() && chars[whole_end] == '.' && whole_end + 1
        < chars.len() && digit(chars[whole_end + 1]);
    let end = if fraction {
        proof {
            run_end_bounds(chars@, (whole_end + 1) as nat, Class::Digit);
        }
        scan(chars, whole_end + 1, Class::Digit)
    } else {
        whole_end
    };
    let scale: usize = if fraction {
        end - whole_end - 1
    } else {
        0
    };
    if whole_end - pos > MAX_DIGITS || scale > MAX_DIGITS || (whole_end - pos) + scale
        > MAX_DIGITS {
        return Err(SyntaxError::NumberTooLong(pos));
    }
    let (whole, _) = read_digits(chars, pos, whole_end);
    if fraction {
        let (part, power) = read_digits(chars, whole_end + 1, end);
        proof {
            power_of_ten_bound((whole_end - pos) as nat);
            power_of_ten_bound(scale as nat);
            assert(whole * power + part < 1_000_000_000_000_000_000_000_000_000_000)
                by (nonlinear_arith)
                requires
                    whole < 1_000_000_000_000_000,
                    power <= 1_000_000_000_000_000,
                    part < power,
            ;
            digits_fit(whole as nat, (whole_end - pos) as nat, part as nat, scale as nat);
        }
        let digits: u64 = whole * power + part;
        let value = Number::from_index(digits).ratio(Number::from_index(power));
        Ok((TokenKind::Number(value), end))
    } else {
        proof {
            assert(decimal(chars@, (whole_end + 1) as nat, whole_end as nat) == 0);
            assert(power_of_ten(0) == 1);
            assert(whole * power_of_ten(0) + 0 == whole) by (nonlinear_arith)
                requires
                    power_of_ten(0) == 1,
            ;
        }
        Ok((TokenKind::Number(Number::from_index(whole)), end))
    }
}

/// The digits before and after the point, read as one whole number, stay
/// below ten to the power of their count.
proof fn digits_fit(whole: nat, whole_count: nat, part: nat, scale: nat)
    requires
        whole < power_of_ten(whole_count),
        part < power_of_ten(scale),
        whole_count + scale <= 15,
    ensures
        whole * power_of_ten(scale) + part < power_of_ten(whole_count + scale),
        power_of_ten(whole_count + scale) <= 1_000_000_000_000_000,
    decreases scale,
{
    power_of_ten_bound(whole_count + scale);
    power_of_ten_sum(whole_count, scale);
    let a = power_of_ten(whole_count) as int;
    let b = power_of_ten(scale) as int;
    let w = whole as int;
    let p = part as int;
    assert(w * b + p < a * b) by (nonlinear_arith)
        requires
            0 <= w < a,
            0 <= p < b,
    ;
}

proof fn power_of_ten_sum(a: nat, b: nat)
    ensures
        power_of_ten(a + b) == power_of_ten(a) * power_of_ten(b),
    decreases b,
{
    if b > 0 {
        power_of_ten_sum(a, (b - 1) as nat);
        let x = power_of_ten(a) as int;
        let y = power_of_ten((b - 1) as nat) as int;
        assert(10 * (x * y) == x * (10 * y)) by (nonlinear_arith);
    } else {
        assert(power_of_ten(a) * 1 == power_of_ten(a)) by (nonlinear_arith);
    }
}

fn next_token(chars: &Vec<char>, pos: usize) -> (r: Result<(TokenKind, usize), SyntaxError>)
    requires
        pos < chars.len(),
    ensures
        match r {
            Ok((kind, end)) => token_at(chars@, pos as nat) == Ok::<(TokenKind, nat), SyntaxError>(
                (kind, end as nat),
            ) && pos < end <= chars.len(),
            Err(err) => token_at(chars@, pos as nat) == Err::<(TokenKind, nat), SyntaxError>(err),
        },
{
    let c = chars[pos];
    match mark(c) {
        Some(kind) => { return Ok((kind, pos + 1)); },
        None => {},
    }
    if digit(c) {
        read_number(chars, pos)
    } else if letter(c) {
        let end = scan(chars, pos, Class::NameChar);
        proof {
            run_end_bounds(chars@, pos as nat, Class::NameChar);
        }
        match keyword(chars, pos, end) {
            Some(k) => Ok((TokenKind::Keyword(k), end)),
            None => Ok((TokenKind::Name { start: pos, end }, end)),
        }
    } else if c == ':' {
        let end = scan(chars, pos + 1, Class::NameChar);
        if end == pos + 1 {
            Err(SyntaxError::UnexpectedCharacter(pos))
        } else {
            Ok((TokenKind::Variable { start: pos + 1, end }, end))
        }
    } else if c == '"' {
        let end = scan(chars, pos + 1, Class::WordChar);
        if end == pos + 1 {
            Err(SyntaxError::UnexpectedCharacter(pos))
        } else {
            Ok((TokenKind::Quoted { start: pos + 1, end }, end))
        }
    } else {
        Err(SyntaxError::UnexpectedCharacter(pos))
    }
}

/// Splits a text into its tokens.
pub fn tokenize(chars: &Vec<char>) -> (r: Result<Vec<Token>, SyntaxError>)
    ensures
        match r {
            Ok(tokens) => tokens_of(chars@) == Ok::<Seq<Token>, SyntaxError>(tokens@),
            Err(err) => tokens_of(chars@) == Err::<Seq<Token>, SyntaxError>(err),
        },
{
    let mut tokens: Vec<Token> = Vec::new();
    let mut pos: usize = 0;
    while pos < chars.len()
        invariant
            pos <= chars.len(),
            tokens_of(chars@) == tokens_from(chars@, pos as nat, tokens@),
        decreases chars.len() - pos,
    {
        if is_blank(chars[pos]) {
            pos = pos + 1;
        } else {
            match next_token(chars, pos) {
                Ok((kind, end)) => {
                    tokens.push(Token { kind, at: pos });
                    pos = end;
                },
                Err(err) => { return Err(err); },
            }
        }
    }
    Ok(tokens)
}

} // verus!
