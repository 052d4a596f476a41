//! The driver: it owns a text, feeds it to a machine character by character,
//! and gathers the tokens.

use vstd::prelude::*;
use crate::common::Errors;
use crate::statemachine::{has_pending, pending, step, Machine, StateView, Token, TokenView};

verus! {

/// Where a search for the next token ends.
pub struct Scan {
    /// The machine's state then.
    pub state: StateView,
    /// The number of characters consumed then.
    pub pos: nat,
    /// The token found and whether it is the last one; `None` where the
    /// search fails.
    pub found: Option<(TokenView, bool)>,
}

/// The search for the next token, from state `state` and with the first
/// `pos` characters of `text` consumed: characters are fed until one ends a
/// lexeme or fits no rule; at the end of the text the pending token is the
/// last one, and a state that has none fails.
pub open spec fn scan(state: StateView, text: Seq<char>, pos: nat) -> Scan
    decreases text.len() - pos,
{
    if pos >= text.len() {
        Scan {
            state,
            pos,
            found: if has_pending(state) {
                Some((pending(state), true))
            } else {
                None
            },
        }
    } else {
        match step(state, text[pos as int]) {
            None => Scan { state, pos: pos + 1, found: None },
            Some((next, Some(token))) => Scan {
                state: next,
                pos: pos + 1,
                found: Some((token, false)),
            },
            Some((next, None)) => scan(next, text, pos + 1),
        }
    }
}

/// Where lexing a whole text ends.
pub struct Run {
    /// The machine's state then.
    pub state: StateView,
    /// The number of characters consumed then.
    pub pos: nat,
    /// The tokens in the order of their lexemes; `None` where lexing fails.
    pub tokens: Option<Seq<TokenView>>,
}

/// `first`, then the tokens of `rest`.
pub open spec fn preceded(first: Seq<TokenView>, rest: Run) -> Run {
    Run {
        state: rest.state,
        pos: rest.pos,
        tokens: match rest.tokens {
            Some(ts) => Some(first + ts),
            None => None,
        },
    }
}

/// Lexing from state `state` with the first `pos` characters of `text`
/// consumed. Each character takes its transition and adds the token of the
/// lexeme it ends, if any; the end of the text adds the pending token.
/// Lexing stops and fails at the first character that fits no rule, and at
/// the end of the text where the state has no token.
pub open spec fn run(state: StateView, text: Seq<char>, pos: nat) -> Run
    decreases text.len() - pos,
{
    if pos >= text.len() {
        Run {
            state,
            pos,
            tokens: if has_pending(state) {
                Some(seq![pending(state)])
            } else {
                None
            },
        }
    } else {
        match step(state, text[pos as int]) {
            None => Run { state, pos: pos + 1, tokens: None },
            Some((next, Some(token))) => preceded(seq![token], run(next, text, pos + 1)),
            Some((next, None)) => run(next, text, pos + 1),
        }
    }
}

/// What `run` gives after a search for the next token ended as `s`.
pub open spec fn run_after(s: Scan, text: Seq<char>) -> Run {
    match s.found {
        None => Run { state: s.state, pos: s.pos, tokens: None },
        Some((token, true)) => Run { state: s.state, pos: s.pos, tokens: Some(seq![token]) },
        Some((token, false)) => preceded(seq![token], run(s.state, text, s.pos)),
    }
}

/// Lexing a text is searching for its next token and lexing on from there.
/// A search that found a token which is not the last consumed a character.
pub proof fn lemma_run_by_scan(state: StateView, text: Seq<char>, pos: nat)
    ensures
        run(state, text, pos) == run_after(scan(state, text, pos), text),
        scan(state, text, pos).found matches Some((_, false)) ==> pos < scan(state, text, pos).pos
            <= text.len(),
    decreases text.len() - pos,
{
    if pos < text.len() {
        match step(state, text[pos as int]) {
            Some((next, None)) => {
                lemma_run_by_scan(next, text, pos + 1);
            },
            _ => {},
        }
    }
}

/// The views of a sequence of tokens.
pub open spec fn tokens_view(tokens: Seq<Token>) -> Seq<TokenView> {
    tokens.map_values(|t: Token| t@)
}

/// A lexer hands out the tokens of its text, one at a time or all at once.
pub trait Lexer {
    /// The text.
    spec fn text(&self) -> Seq<char>;

    /// The number of characters consumed.
    spec fn pos(&self) -> nat;

    /// The state of the lexer's machine.
    spec fn machine_state(&self) -> StateView;

    /// Searches for the next token. Returns it with `false`, or the pending
    /// token with `true` where the text ended; `SyntaxError` where a
    /// character fits no rule or the text ends on digits that denote no
    /// 32-bit signed integer.
    fn get_new_token(&mut self) -> (r: Result<(Token, bool), Errors>)
        ensures
            final(self).text() == old(self).text(),
            ({
                let s = scan(old(self).machine_state(), old(self).text(), old(self).pos());
                &&& final(self).machine_state() == s.state
                &&& final(self).pos() == s.pos
                &&& match s.found {
                    Some((token, last)) => r matches Ok(p) && p.0@ == token && p.1 == last,
                    None => r matches Err(e) && e == Errors::SyntaxError,
                }
            }),
    ;

    /// Lexes what is left of the text: all its tokens in order, the last of
    /// them the one that was pending at the end; `SyntaxError`, and no token,
    /// where lexing fails.
    fn lex(&mut self) -> (r: Result<Vec<Token>, Errors>)
        ensures
            final(self).text() == old(self).text(),
            ({
                let e = run(old(self).machine_state(), old(self).text(), old(self).pos());
                &&& final(self).machine_state() == e.state
                &&& final(self).pos() == e.pos
                &&& match e.tokens {
                    Some(ts) => r matches Ok(v) && tokens_view(v@) == ts,
                    None => r matches Err(e) && e == Errors::SyntaxError,
                }
            }),
    ;
}

/// A lexer over a text held in memory.
pub struct ImagineLexer<T: Machine> {
    text: String,
    pos: usize,
    machine: T,
}

impl<T: Machine> ImagineLexer<T> {
    /// A lexer at the start of `text`, driving `machine`.
    pub fn new(text: String, machine: T) -> (r: ImagineLexer<T>)
        ensures
            r.text() == text@,
            r.pos() == 0,
            r.machine_state() == machine.state(),
    {
        ImagineLexer { text, pos: 0, machine }
    }
}

impl<T: Machine> Lexer for ImagineLexer<T> {
    closed spec fn text(&self) -> Seq<char> {
        self.text@
    }

    closed spec fn pos(&self) -> nat {
        self.pos as nat
    }

    closed spec fn machine_state(&self) -> StateView {
        self.machine.state()
    }

    fn get_new_token(&mut self) -> (r: Result<(Token, bool), Errors>) {
        let n: usize = self.text.as_str().unicode_len();
        while self.pos < n
            invariant
                n == self.text@.len(),
                self.text@ == old(self).text@,
                scan(old(self).machine.state(), old(self).text@, old(self).pos as nat) == scan(
                    self.machine.state(),
                    self.text@,
                    self.pos as nat,
                ),
            decreases n - self.pos,
        {
            let input: char = self.text.as_str().get_char(self.pos);
            self.pos += 1;
            match self.machine.feed(input) {
                Err(err) => {
                    return Err(err);
                },
                Ok(Some(token)) => {
                    return Ok((token, false));
                },
                Ok(None) => {},
            }
        }
        if self.machine.has_final_token() {
            Ok((self.machine.get_final_token(), true))
        } else {
            Err(Errors::SyntaxError)
        }
    }

    fn lex(&mut self) -> (r: Result<Vec<Token>, Errors>) {
        let mut tokens: Vec<Token> = Vec::new();
        let ghost whole = run(self.machine_state(), self.text(), self.pos());
        proof {
            assert(tokens_view(tokens@) =~= Seq::empty());
            assert(whole.tokens is Some ==> Seq::<TokenView>::empty() + whole.tokens.unwrap()
                =~= whole.tokens.unwrap());
        }
        loop
            invariant
                self.text() == old(self).text(),
                whole == run(old(self).machine_state(), old(self).text(), old(self).pos()),
                whole == preceded(
                    tokens_view(tokens@),
                    run(self.machine_state(), self.text(), self.pos()),
                ),
            decreases self.text().len() + 1 - self.pos(),
        {
            proof {
                lemma_run_by_scan(self.machine_state(), self.text(), self.pos());
            }
            let ghost before = tokens_view(tokens@);
            match self.get_new_token() {
                Err(err) => {
                    return Err(err);
                },
                Ok((token, is_last_token)) => {
                    tokens.push(token);
                    proof {
                        assert(tokens_view(tokens@) =~= before + seq![token@]);
                    }
                    if is_last_token {
                        return Ok(tokens);
                    }
                    proof {
                        let rest = run(self.machine_state(), self.text(), self.pos());
                        if rest.tokens is Some {
                            assert(before + (seq![token@] + rest.tokens.unwrap()) =~= (before
                                + seq![token@]) + rest.tokens.unwrap());
                        }
                    }
                },
            }
        }
    }
}

} // verus!
