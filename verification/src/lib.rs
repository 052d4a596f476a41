//! A character-driven lexer: a finite state machine that is fed one character
//! at a time and hands out typed tokens, and a driver that runs it over a text.

pub mod chars;
pub mod common;
pub mod number;
pub mod statemachine;
pub mod lexer;
pub mod laws;

