//! The state machine: one state per kind of lexeme, a transition for each
//! character, and the token that a finished lexeme gives.

use vstd::prelude::*;
use crate::chars::{
    bracket, digit, ident_part, is_bracket, is_digit, is_ident_part, is_ident_start, is_operator,
    is_operator_char, is_space, letter, push_char, space,
};
use crate::common::Errors;
use crate::number::{decimal_value, denotes_i32, parse_decimal};

verus! {

/// One classified lexeme.
///
/// A `Float` carries its numeral as written, digits around one decimal point:
/// turning it into a binary floating-point number is left to the caller.
#[derive(PartialEq, Debug)]
pub enum Token {
    Number(i32),
    Operator(String),
    Float(String),
    Ident(String),
    Keyword(String),
    LPAR,
    RPAR,
    LBR,
    RBR,
    /// Never produced by the machine; for its callers.
    Text(String),
    /// Nothing is pending.
    Blank,
}

/// A token as a mathematical value.
pub enum TokenView {
    Number(int),
    Operator(Seq<char>),
    Float(Seq<char>),
    Ident(Seq<char>),
    Keyword(Seq<char>),
    LPAR,
    RPAR,
    LBR,
    RBR,
    Text(Seq<char>),
    Blank,
}

impl View for Token {
    type V = TokenView;

    open spec fn view(&self) -> TokenView {
        match *self {
            Token::Number(n) => TokenView::Number(n as int),
            Token::Operator(s) => TokenView::Operator(s@),
            Token::Float(s) => TokenView::Float(s@),
            Token::Ident(s) => TokenView::Ident(s@),
            Token::Keyword(s) => TokenView::Keyword(s@),
            Token::LPAR => TokenView::LPAR,
            Token::RPAR => TokenView::RPAR,
            Token::LBR => TokenView::LBR,
            Token::RBR => TokenView::RBR,
            Token::Text(s) => TokenView::Text(s@),
            Token::Blank => TokenView::Blank,
        }
    }
}

/// A state as a mathematical value: its kind and the lexeme gathered so far.
pub enum StateView {
    Blank,
    Number(Seq<char>),
    Float(Seq<char>),
    /// The lexeme, and whether it was a keyword when its last character came.
    Ident(Seq<char>, bool),
    Operator(Seq<char>),
    Lpar,
    Rpar,
    Lbr,
    Rbr,
}

/// What a transition gives: the next state, and a token if a lexeme ended.
pub type Update = (LexState, Option<Token>);

/// The keywords: `if`.
pub open spec fn is_keyword(s: Seq<char>) -> bool {
    s == seq!['i', 'f']
}

/// The state that a character starts when nothing is pending; `None` where
/// no lexeme starts with it.
pub open spec fn dispatch(c: char) -> Option<StateView> {
    if is_digit(c) {
        Some(StateView::Number(seq![c]))
    } else if is_ident_start(c) {
        Some(StateView::Ident(seq![c], false))
    } else if is_space(c) {
        Some(StateView::Blank)
    } else if is_operator_char(c) {
        Some(StateView::Operator(seq![c]))
    } else if c == '(' {
        Some(StateView::Lpar)
    } else if c == ')' {
        Some(StateView::Rpar)
    } else if c == '{' {
        Some(StateView::Lbr)
    } else if c == '}' {
        Some(StateView::Rbr)
    } else {
        None
    }
}

/// Whether a state has a token to give. Only a number may have none: its
/// digits must denote a 32-bit signed integer.
pub open spec fn has_pending(s: StateView) -> bool {
    match s {
        StateView::Number(text) => denotes_i32(text),
        _ => true,
    }
}

/// The token that a state gives when its lexeme ends.
pub open spec fn pending(s: StateView) -> TokenView {
    match s {
        StateView::Blank => TokenView::Blank,
        StateView::Number(text) => TokenView::Number(decimal_value(text)),
        StateView::Float(text) => TokenView::Float(text),
        StateView::Ident(text, keyword) => if keyword {
            TokenView::Keyword(text)
        } else {
            TokenView::Ident(text)
        },
        StateView::Operator(text) => TokenView::Operator(text),
        StateView::Lpar => TokenView::LPAR,
        StateView::Rpar => TokenView::RPAR,
        StateView::Lbr => TokenView::LBR,
        StateView::Rbr => TokenView::RBR,
    }
}

/// The lexeme ends with token `token`, and `c` starts what follows.
pub open spec fn emit_then(c: char, token: TokenView) -> Option<(StateView, Option<TokenView>)> {
    match dispatch(c) {
        Some(next) => Some((next, Some(token))),
        None => None,
    }
}

/// The lexeme ends with token `token` on `c`: white space leaves nothing
/// pending, any other character starts what follows.
pub open spec fn leave(c: char, token: TokenView) -> Option<(StateView, Option<TokenView>)> {
    if is_space(c) {
        Some((StateView::Blank, Some(token)))
    } else {
        emit_then(c, token)
    }
}

/// The transition: the next state and the token given, or `None` where `c`
/// fits no rule of `s`.
///
/// A number whose digits denote no 32-bit signed integer has no token, so
/// nothing can end it: it takes more digits or the point, and no other
/// character fits.
pub open spec fn step(s: StateView, c: char) -> Option<(StateView, Option<TokenView>)> {
    match s {
        StateView::Blank => match dispatch(c) {
            Some(next) => Some((next, None)),
            None => None,
        },
        StateView::Number(text) => if is_digit(c) {
            Some((StateView::Number(text.push(c)), None))
        } else if c == '.' {
            Some((StateView::Float(text.push('.')), None))
        } else if !denotes_i32(text) {
            None
        } else if is_bracket(c) {
            emit_then(c, pending(s))
        } else if is_space(c) {
            Some((StateView::Blank, Some(pending(s))))
        } else {
            None
        },
        StateView::Float(text) => if is_digit(c) {
            Some((StateView::Float(text.push(c)), None))
        } else if is_space(c) {
            Some((StateView::Blank, Some(pending(s))))
        } else {
            None
        },
        StateView::Ident(text, _) => if is_ident_part(c) {
            Some((StateView::Ident(text.push(c), is_keyword(text.push(c))), None))
        } else if is_operator_char(c) {
            Some((StateView::Operator(seq![c]), Some(pending(s))))
        } else if is_bracket(c) {
            emit_then(c, pending(s))
        } else if is_space(c) {
            Some((StateView::Blank, Some(pending(s))))
        } else {
            None
        },
        StateView::Operator(text) => if is_operator_char(c) {
            Some((StateView::Operator(text.push(c)), None))
        } else {
            leave(c, pending(s))
        },
        _ => leave(c, pending(s)),
    }
}

/// The view of a token that may be absent.
pub open spec fn token_view(t: Option<Token>) -> Option<TokenView> {
    match t {
        Some(t) => Some(t@),
        None => None,
    }
}

/// `r` is what a transition returns where the rules give `expected`.
pub open spec fn feed_agrees(
    r: Result<Update, Errors>,
    expected: Option<(StateView, Option<TokenView>)>,
) -> bool {
    match expected {
        Some((next, token)) => r matches Ok(u) && u.0@ == next && token_view(u.1) == token,
        None => r matches Err(e) && e == Errors::SyntaxError,
    }
}

/// What kind of lexeme is being gathered, with the lexeme so far.
pub trait State {
    /// The state as a mathematical value.
    spec fn model(&self) -> StateView;

    /// Takes one character: the next state and, where a lexeme ended, its
    /// token; `SyntaxError` where the character fits no rule.
    fn feed(&self, input: char) -> (r: Result<Update, Errors>)
        ensures
            feed_agrees(r, step(self.model(), input)),
    ;

    /// The state's name.
    fn get_type(&self) -> (r: String)
        ensures
            r@ == kind_name(self.model()),
    ;

    /// Whether the state has a token to give.
    fn has_token(&self) -> (b: bool)
        ensures
            b == has_pending(self.model()),
    ;

    /// The token that the state gives when its lexeme ends here.
    fn get_token(&self) -> (t: Token)
        requires
            has_pending(self.model()),
        ensures
            t@ == pending(self.model()),
    ;

    /// The lexeme gathered so far.
    fn get_value(&self) -> (r: String)
        ensures
            r@ == lexeme(self.model()),
    ;
}

/// The name of a state's kind.
pub open spec fn kind_name(s: StateView) -> Seq<char> {
    match s {
        StateView::Blank => "Blank"@,
        StateView::Number(_) => "Number"@,
        StateView::Float(_) => "Float"@,
        StateView::Ident(_, keyword) => if keyword {
            "Keyword"@
        } else {
            "Ident"@
        },
        StateView::Operator(_) => "Operator"@,
        StateView::Lpar => "Lpar"@,
        StateView::Rpar => "Rpar"@,
        StateView::Lbr => "Lbr"@,
        StateView::Rbr => "Rbr"@,
    }
}

/// The lexeme that a state holds; a bracket holds itself, the blank state
/// nothing.
pub open spec fn lexeme(s: StateView) -> Seq<char> {
    match s {
        StateView::Blank => Seq::empty(),
        StateView::Number(text) => text,
        StateView::Float(text) => text,
        StateView::Ident(text, _) => text,
        StateView::Operator(text) => text,
        StateView::Lpar => "("@,
        StateView::Rpar => ")"@,
        StateView::Lbr => "{"@,
        StateView::Rbr => "}"@,
    }
}

/// Nothing is pending.
pub struct Blank;

pub struct Lpar;

pub struct Rpar;

pub struct Lbr;

pub struct Rbr;

/// A run of operator characters.
pub struct Operator {
    pub value: String,
}

/// A name or a keyword.
pub struct Ident {
    pub value: String,
    pub is_keyword: bool,
}

/// Digits, one decimal point, and the digits after it.
pub struct Float {
    pub value: String,
}

/// A run of digits.
pub struct Number {
    pub value: String,
}

/// The state of the machine: one of the nine kinds.
pub enum LexState {
    Blank(Blank),
    Number(Number),
    Float(Float),
    Ident(Ident),
    Operator(Operator),
    Lpar(Lpar),
    Rpar(Rpar),
    Lbr(Lbr),
    Rbr(Rbr),
}

/// Whether `text` is a keyword.
pub fn keyword(text: &String) -> (r: bool)
    ensures
        r == is_keyword(text@),
{
    let s = text.as_str();
    let r = s.unicode_len() == 2 && s.get_char(0) == 'i' && s.get_char(1) == 'f';
    proof {
        if r {
            assert(text@ =~= seq!['i', 'f']);
        }
    }
    r
}

/// The text made of one character.
fn single(c: char) -> (r: String)
    ensures
        r@ == seq![c],
{
    let r = push_char(String::new(), c);
    proof {
        assert(r@ =~= seq![c]);
    }
    r
}

/// The state that `input` starts when nothing is pending.
pub fn start(input: char) -> (r: Option<LexState>)
    ensures
        match dispatch(input) {
            Some(next) => r matches Some(s) && s@ == next,
            None => r is None,
        },
{
    if digit(input) {
        return Some(LexState::Number(Number::new(single(input))));
    }
    if letter(input) || input == '_' {
        return Some(LexState::Ident(Ident::new(single(input), false)));
    }
    if space(input) {
        return Some(LexState::Blank(Blank));
    }
    if is_operator(&input) {
        return Some(LexState::Operator(Operator::new(single(input))));
    }
    if input == '(' {
        return Some(LexState::Lpar(Lpar));
    }
    if input == ')' {
        return Some(LexState::Rpar(Rpar));
    }
    if input == '{' {
        return Some(LexState::Lbr(Lbr));
    }
    if input == '}' {
        return Some(LexState::Rbr(Rbr));
    }
    None
}

/// Ends a lexeme with `token` and lets `input` start what follows.
fn emit_and_start(input: char, token: Token) -> (r: Result<Update, Errors>)
    ensures
        feed_agrees(r, emit_then(input, token@)),
{
    match start(input) {
        Some(next) => Ok((next, Some(token))),
        None => Err(Errors::SyntaxError),
    }
}

/// Ends a lexeme with `token` on `input`.
fn emit_and_leave(input: char, token: Token) -> (r: Result<Update, Errors>)
    ensures
        feed_agrees(r, leave(input, token@)),
{
    if space(input) {
        return Ok((LexState::Blank(Blank), Some(token)));
    }
    emit_and_start(input, token)
}

impl State for Blank {
    open spec fn model(&self) -> StateView {
        StateView::Blank
    }

    fn feed(&self, input: char) -> (r: Result<Update, Errors>) {
        match start(input) {
            Some(next) => Ok((next, None)),
            None => Err(Errors::SyntaxError),
        }
    }

    fn get_type(&self) -> (r: String) {
        String::from_str("Blank")
    }

    fn has_token(&self) -> (b: bool) {
        true
    }

    fn get_token(&self) -> (t: Token) {
        Token::Blank
    }

    fn get_value(&self) -> (r: String) {
        String::new()
    }
}

impl State for Lpar {
    open spec fn model(&self) -> StateView {
        StateView::Lpar
    }

    fn feed(&self, input: char) -> (r: Result<Update, Errors>) {
        emit_and_leave(input, self.get_token())
    }

    fn get_type(&self) -> (r: String) {
        String::from_str("Lpar")
    }

    fn has_token(&self) -> (b: bool) {
        true
    }

    fn get_token(&self) -> (t: Token) {
        Token::LPAR
    }

    fn get_value(&self) -> (r: String) {
        String::from_str("(")
    }
}

impl State for Rpar {
    open spec fn model(&self) -> StateView {
        StateView::Rpar
    }

    fn feed(&self, input: char) -> (r: Result<Update, Errors>) {
        emit_and_leave(input, self.get_token())
    }

    fn get_type(&self) -> (r: String) {
        String::from_str("Rpar")
    }

    fn has_token(&self) -> (b: bool) {
        true
    }

    fn get_token(&self) -> (t: Token) {
        Token::RPAR
    }

    fn get_value(&self) -> (r: String) {
        String::from_str(")")
    }
}

impl State for Lbr {
    open spec fn model(&self) -> StateView {
        StateView::Lbr
    }

    fn feed(&self, input: char) -> (r: Result<Update, Errors>) {
        emit_and_leave(input, self.get_token())
    }

    fn get_type(&self) -> (r: String) {
        String::from_str("Lbr")
    }

    fn has_token(&self) -> (b: bool) {
        true
    }

    fn get_token(&self) -> (t: Token) {
        Token::LBR
    }

    fn get_value(&self) -> (r: String) {
        String::from_str("{")
    }
}

impl State for Rbr {
    open spec fn model(&self) -> StateView {
        StateView::Rbr
    }

    fn feed(&self, input: char) -> (r: Result<Update, Errors>) {
        emit_and_leave(input, self.get_token())
    }

    fn get_type(&self) -> (r: String) {
        String::from_str("Rbr")
    }

    fn has_token(&self) -> (b: bool) {
        true
    }

    fn get_token(&self) -> (t: Token) {
        Token::RBR
    }

    fn get_value(&self) -> (r: String) {
        String::from_str("}")
    }
}

impl Operator {
    pub fn new(value: String) -> (r: Operator)
        ensures
            r.value == value,
    {
        Operator { value }
    }
}

impl State for Operator {
    open spec fn model(&self) -> StateView {
        StateView::Operator(self.value@)
    }

    fn feed(&self, input: char) -> (r: Result<Update, Errors>) {
        if is_operator(&input) {
            let new_operator = push_char(self.value.clone(), input);
            return Ok((LexState::Operator(Operator::new(new_operator)), None));
        }
        emit_and_leave(input, self.get_token())
    }

    fn get_type(&self) -> (r: String) {
        String::from_str("Operator")
    }

    fn has_token(&self) -> (b: bool) {
        true
    }

    fn get_token(&self) -> (t: Token) {
        Token::Operator(self.value.clone())
    }

    fn get_value(&self) -> (r: String) {
        self.value.clone()
    }
}

impl Ident {
    pub fn new(value: String, is_keyword: bool) -> (r: Ident)
        ensures
            r.value == value,
            r.is_keyword == is_keyword,
    {
        Ident { value, is_keyword }
    }
}

impl State for Ident {
    open spec fn model(&self) -> StateView {
        StateView::Ident(self.value@, self.is_keyword)
    }

    fn feed(&self, input: char) -> (r: Result<Update, Errors>) {
        if ident_part(input) {
            let new_value = push_char(self.value.clone(), input);
            let is_keyword = keyword(&new_value);
            return Ok((LexState::Ident(Ident::new(new_value, is_keyword)), None));
        }
        if is_operator(&input) {
            let next = LexState::Operator(Operator::new(single(input)));
            return Ok((next, Some(self.get_token())));
        }
        if bracket(input) {
            return emit_and_start(input, self.get_token());
        }
        if space(input) {
            return Ok((LexState::Blank(Blank), Some(self.get_token())));
        }
        Err(Errors::SyntaxError)
    }

    fn get_type(&self) -> (r: String) {
        if self.is_keyword {
            String::from_str("Keyword")
        } else {
            String::from_str("Ident")
        }
    }

    fn has_token(&self) -> (b: bool) {
        true
    }

    fn get_token(&self) -> (t: Token) {
        if self.is_keyword {
            return Token::Keyword(self.value.clone());
        }
        Token::Ident(self.value.clone())
    }

    fn get_value(&self) -> (r: String) {
        self.value.clone()
    }
}

impl Float {
    pub fn new(value: String) -> (r: Float)
        ensures
            r.value == value,
    {
        Float { value }
    }
}

impl State for Float {
    open spec fn model(&self) -> StateView {
        StateView::Float(self.value@)
    }

    fn feed(&self, input: char) -> (r: Result<Update, Errors>) {
        if digit(input) {
            let new_value = push_char(self.value.clone(), input);
            return Ok((LexState::Float(Float::new(new_value)), None));
        }
        if space(input) {
            return Ok((LexState::Blank(Blank), Some(self.get_token())));
        }
        Err(Errors::SyntaxError)
    }

    fn get_type(&self) -> (r: String) {
        String::from_str("Float")
    }

    fn has_token(&self) -> (b: bool) {
        true
    }

    fn get_token(&self) -> (t: Token) {
        Token::Float(self.value.clone())
    }

    fn get_value(&self) -> (r: String) {
        self.value.clone()
    }
}

impl Number {
    pub fn new(value: String) -> (r: Number)
        ensures
            r.value == value,
    {
        Number { value }
    }
}

impl State for Number {
    open spec fn model(&self) -> StateView {
        StateView::Number(self.value@)
    }

    fn feed(&self, input: char) -> (r: Result<Update, Errors>) {
        if digit(input) {
            let new_value = push_char(self.value.clone(), input);
            return Ok((LexState::Number(Number::new(new_value)), None));
        }
        if input == '.' {
            let new_value = push_char(self.value.clone(), '.');
            return Ok((LexState::Float(Float::new(new_value)), None));
        }
        match parse_decimal(&self.value) {
            None => Err(Errors::SyntaxError),
            Some(n) => {
                if bracket(input) {
                    return emit_and_start(input, Token::Number(n));
                }
                if space(input) {
                    return Ok((LexState::Blank(Blank), Some(Token::Number(n))));
                }
                Err(Errors::SyntaxError)
            },
        }
    }

    fn get_type(&self) -> (r: String) {
        String::from_str("Number")
    }

    fn has_token(&self) -> (b: bool) {
        parse_decimal(&self.value).is_some()
    }

    fn get_token(&self) -> (t: Token) {
        Token::Number(parse_decimal(&self.value).unwrap())
    }

    fn get_value(&self) -> (r: String) {
        self.value.clone()
    }
}

impl View for LexState {
    type V = StateView;

    open spec fn view(&self) -> StateView {
        match *self {
            LexState::Blank(_) => StateView::Blank,
            LexState::Number(s) => StateView::Number(s.value@),
            LexState::Float(s) => StateView::Float(s.value@),
            LexState::Ident(s) => StateView::Ident(s.value@, s.is_keyword),
            LexState::Operator(s) => StateView::Operator(s.value@),
            LexState::Lpar(_) => StateView::Lpar,
            LexState::Rpar(_) => StateView::Rpar,
            LexState::Lbr(_) => StateView::Lbr,
            LexState::Rbr(_) => StateView::Rbr,
        }
    }
}

impl State for LexState {
    open spec fn model(&self) -> StateView {
        self@
    }

    fn feed(&self, input: char) -> (r: Result<Update, Errors>) {
        match self {
            LexState::Blank(s) => s.feed(input),
            LexState::Number(s) => s.feed(input),
            LexState::Float(s) => s.feed(input),
            LexState::Ident(s) => s.feed(input),
            LexState::Operator(s) => s.feed(input),
            LexState::Lpar(s) => s.feed(input),
            LexState::Rpar(s) => s.feed(input),
            LexState::Lbr(s) => s.feed(input),
            LexState::Rbr(s) => s.feed(input),
        }
    }

    fn get_type(&self) -> (r: String) {
        match self {
            LexState::Blank(s) => s.get_type(),
            LexState::Number(s) => s.get_type(),
            LexState::Float(s) => s.get_type(),
            LexState::Ident(s) => s.get_type(),
            LexState::Operator(s) => s.get_type(),
            LexState::Lpar(s) => s.get_type(),
            LexState::Rpar(s) => s.get_type(),
            LexState::Lbr(s) => s.get_type(),
            LexState::Rbr(s) => s.get_type(),
        }
    }

    fn has_token(&self) -> (b: bool) {
        match self {
            LexState::Number(s) => s.has_token(),
            _ => true,
        }
    }

    fn get_token(&self) -> (t: Token) {
        match self {
            LexState::Blank(s) => s.get_token(),
            LexState::Number(s) => s.get_token(),
            LexState::Float(s) => s.get_token(),
            LexState::Ident(s) => s.get_token(),
            LexState::Operator(s) => s.get_token(),
            LexState::Lpar(s) => s.get_token(),
            LexState::Rpar(s) => s.get_token(),
            LexState::Lbr(s) => s.get_token(),
            LexState::Rbr(s) => s.get_token(),
        }
    }

    fn get_value(&self) -> (r: String) {
        match self {
            LexState::Blank(s) => s.get_value(),
            LexState::Number(s) => s.get_value(),
            LexState::Float(s) => s.get_value(),
            LexState::Ident(s) => s.get_value(),
            LexState::Operator(s) => s.get_value(),
            LexState::Lpar(s) => s.get_value(),
            LexState::Rpar(s) => s.get_value(),
            LexState::Lbr(s) => s.get_value(),
            LexState::Rbr(s) => s.get_value(),
        }
    }
}

/// A machine holds one state, takes characters one at a time and hands out
/// the tokens of the lexemes that end.
pub trait Machine {
    /// The machine's current state.
    spec fn state(&self) -> StateView;

    /// Whether the current state has a token to give.
    fn has_final_token(&self) -> (b: bool)
        ensures
            b == has_pending(self.state()),
    ;

    /// The token of the lexeme that the end of the input ends.
    fn get_final_token(&self) -> (t: Token)
        requires
            has_pending(self.state()),
        ensures
            t@ == pending(self.state()),
    ;

    /// Takes one character. Where a rule fits, the machine moves to the next
    /// state and a finished lexeme's token is returned; where none fits, the
    /// machine stays as it was and `SyntaxError` is returned.
    fn feed(&mut self, input: char) -> (r: Result<Option<Token>, Errors>)
        ensures
            match step(old(self).state(), input) {
                Some((next, token)) => r matches Ok(t) && token_view(t) == token && final(self).state()
                    == next,
                None => r matches Err(e) && e == Errors::SyntaxError && final(self).state()
                    == old(self).state(),
            },
    ;
}

/// The machine of this lexer.
pub struct ImagineMachine {
    current_state: LexState,
}

impl ImagineMachine {
    /// A machine with nothing pending.
    pub fn new() -> (r: ImagineMachine)
        ensures
            r.state() == StateView::Blank,
    {
        ImagineMachine { current_state: LexState::Blank(Blank) }
    }
}

impl Machine for ImagineMachine {
    closed spec fn state(&self) -> StateView {
        self.current_state@
    }

    fn has_final_token(&self) -> (b: bool) {
        self.current_state.has_token()
    }

    fn get_final_token(&self) -> (t: Token) {
        self.current_state.get_token()
    }

    fn feed(&mut self, input: char) -> (r: Result<Option<Token>, Errors>) {
        let update = self.current_state.feed(input);
        match update {
            Ok((new_state, token)) => {
                self.current_state = new_state;
                Ok(token)
            },
            Err(err) => Err(err),
        }
    }
}

} // verus!
