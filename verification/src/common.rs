use vstd::prelude::*;

verus! {

/// What the lexer reports when it cannot go on.
#[derive(PartialEq, Eq, Structural, Debug, Clone, Copy)]
pub enum Errors {
    /// The character that was fed fits no rule of the state that received it.
    SyntaxError,
}

} // verus!
