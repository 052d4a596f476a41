//! What holds of lexing whole texts, proved from the transition rules.

use vstd::prelude::*;
use crate::chars::{
    is_bracket, is_digit, is_ident_part, is_ident_start, is_operator_char, is_space,
};
use crate::lexer::{preceded, run};
use crate::number::{all_ascii_digits, decimal_value, lemma_value_not_negative};
use crate::statemachine::{
    dispatch, has_pending, is_keyword, pending, step, StateView, TokenView,
};

verus! {

/// The tokens of a whole text, lexed from the start with nothing pending;
/// `None` where lexing fails.
pub open spec fn lexed(text: Seq<char>) -> Option<Seq<TokenView>> {
    run(StateView::Blank, text, 0).tokens
}

/// The state after the characters of `text` from `pos` up to `k` were fed,
/// starting in `state`; `None` where one of them fits no rule.
pub open spec fn reached(state: StateView, text: Seq<char>, pos: nat, k: nat) -> Option<StateView>
    decreases k - pos,
{
    if pos >= k || pos >= text.len() {
        Some(state)
    } else {
        match step(state, text[pos as int]) {
            None => None,
            Some((next, _)) => reached(next, text, pos + 1, k),
        }
    }
}

/// A text with a character that fits no rule of the state it meets has no
/// tokens: lexing fails, whatever came before and whatever follows.
pub proof fn law_inapplicable_character_fails(
    state: StateView,
    text: Seq<char>,
    pos: nat,
    k: nat,
)
    requires
        pos <= k < text.len(),
        reached(state, text, pos, k) matches Some(s) ==> step(s, text[k as int]) is None,
    ensures
        run(state, text, pos).tokens is None,
    decreases k - pos,
{
    if pos < k {
        match step(state, text[pos as int]) {
            None => {},
            Some((next, _)) => {
                law_inapplicable_character_fails(next, text, pos + 1, k);
            },
        }
    }
}

/// Digits are gathered one by one: a number that holds the text from `start`
/// to `i` and meets digits up to `n` goes on as the number from `start` to `n`.
proof fn lemma_number_gathers(text: Seq<char>, start: int, i: nat, n: nat)
    requires
        0 <= start <= i <= n <= text.len(),
        forall|j: int| i <= j < n ==> is_digit(#[trigger] text[j]),
    ensures
        run(StateView::Number(text.subrange(start, i as int)), text, i) == run(
            StateView::Number(text.subrange(start, n as int)),
            text,
            n,
        ),
    decreases n - i,
{
    if i < n {
        assert(is_digit(text[i as int]));
        assert(text.subrange(start, i as int).push(text[i as int]) =~= text.subrange(
            start,
            i as int + 1,
        ));
        lemma_number_gathers(text, start, i + 1, n);
    }
}

/// The same for the digits of a float.
proof fn lemma_float_gathers(text: Seq<char>, start: int, i: nat, n: nat)
    requires
        0 <= start <= i <= n <= text.len(),
        forall|j: int| i <= j < n ==> is_digit(#[trigger] text[j]),
    ensures
        run(StateView::Float(text.subrange(start, i as int)), text, i) == run(
            StateView::Float(text.subrange(start, n as int)),
            text,
            n,
        ),
    decreases n - i,
{
    if i < n {
        assert(is_digit(text[i as int]));
        assert(text.subrange(start, i as int).push(text[i as int]) =~= text.subrange(
            start,
            i as int + 1,
        ));
        lemma_float_gathers(text, start, i + 1, n);
    }
}

/// The same for the characters of a name; the keyword flag is that of the
/// name gathered so far.
proof fn lemma_ident_gathers(text: Seq<char>, start: int, i: nat, n: nat)
    requires
        0 <= start <= i <= n <= text.len(),
        forall|j: int| i <= j < n ==> is_ident_part(#[trigger] text[j]),
    ensures
        run(
            StateView::Ident(
                text.subrange(start, i as int),
                is_keyword(text.subrange(start, i as int)),
            ),
            text,
            i,
        ) == run(
            StateView::Ident(
                text.subrange(start, n as int),
                is_keyword(text.subrange(start, n as int)),
            ),
            text,
            n,
        ),
    decreases n - i,
{
    if i < n {
        assert(is_ident_part(text[i as int]));
        assert(text.subrange(start, i as int).push(text[i as int]) =~= text.subrange(
            start,
            i as int + 1,
        ));
        lemma_ident_gathers(text, start, i + 1, n);
    }
}

/// The same for the characters of an operator.
proof fn lemma_operator_gathers(text: Seq<char>, start: int, i: nat, n: nat)
    requires
        0 <= start <= i <= n <= text.len(),
        forall|j: int| i <= j < n ==> is_operator_char(#[trigger] text[j]),
    ensures
        run(StateView::Operator(text.subrange(start, i as int)), text, i) == run(
            StateView::Operator(text.subrange(start, n as int)),
            text,
            n,
        ),
    decreases n - i,
{
    if i < n {
        assert(is_operator_char(text[i as int]));
        assert(text.subrange(start, i as int).push(text[i as int]) =~= text.subrange(
            start,
            i as int + 1,
        ));
        lemma_operator_gathers(text, start, i + 1, n);
    }
}

/// A lexeme that ends on the last character of the text with token `token`,
/// leaving `next` pending, gives that token and then the pending one.
proof fn lemma_last_character(state: StateView, text: Seq<char>, token: TokenView, next: StateView)
    requires
        text.len() > 0,
        step(state, text.last()) == Some((next, Some(token))),
        !(next is Number),
    ensures
        run(state, text, (text.len() - 1) as nat).tokens == Some(seq![token, pending(next)]),
{
    let n = (text.len() - 1) as nat;
    let rest = run(next, text, n + 1);
    assert(rest.tokens == Some(seq![pending(next)]));
    assert(run(state, text, n) == preceded(seq![token], rest));
    assert(seq![token] + seq![pending(next)] =~= seq![token, pending(next)]);
}

/// A run of decimal digits whose value fits 32 signed bits, followed by white
/// space, lexes as one number of that value, and then nothing is pending.
pub proof fn law_number(digits: Seq<char>, delimiter: char)
    requires
        digits.len() > 0,
        all_ascii_digits(digits),
        decimal_value(digits) <= i32::MAX,
        is_space(delimiter),
        !is_digit(delimiter),
    ensures
        lexed(digits.push(delimiter)) == Some(
            seq![TokenView::Number(decimal_value(digits)), TokenView::Blank],
        ),
{
    let text = digits.push(delimiter);
    let n = digits.len();
    assert forall|j: int| 0 <= j < n implies is_digit(#[trigger] text[j]) by {
        assert(text[j] == digits[j]);
    }
    assert(is_digit(text[0]));
    assert(text.subrange(0, 1) =~= seq![text[0]]);
    assert(run(StateView::Blank, text, 0) == run(StateView::Number(text.subrange(0, 1)), text, 1));
    lemma_number_gathers(text, 0, 1, n);
    assert(text.subrange(0, n as int) =~= digits);
    assert(text.last() == delimiter);
    lemma_last_character(
        StateView::Number(digits),
        text,
        TokenView::Number(decimal_value(digits)),
        StateView::Blank,
    );
}

/// A run of decimal digits whose value fits 32 signed bits, followed at once
/// by a bracket, lexes as the number and then the bracket.
pub proof fn law_number_then_bracket(digits: Seq<char>, bracket: char)
    requires
        digits.len() > 0,
        all_ascii_digits(digits),
        decimal_value(digits) <= i32::MAX,
        is_bracket(bracket),
    ensures
        lexed(digits.push(bracket)) == Some(
            seq![
                TokenView::Number(decimal_value(digits)),
                if bracket == '(' {
                    TokenView::LPAR
                } else if bracket == ')' {
                    TokenView::RPAR
                } else if bracket == '{' {
                    TokenView::LBR
                } else {
                    TokenView::RBR
                },
            ],
        ),
{
    let text = digits.push(bracket);
    let n = digits.len();
    assert forall|j: int| 0 <= j < n implies is_digit(#[trigger] text[j]) by {
        assert(text[j] == digits[j]);
    }
    assert(is_digit(text[0]));
    assert(text.subrange(0, 1) =~= seq![text[0]]);
    assert(run(StateView::Blank, text, 0) == run(StateView::Number(text.subrange(0, 1)), text, 1));
    lemma_number_gathers(text, 0, 1, n);
    assert(text.subrange(0, n as int) =~= digits);
    assert(text.last() == bracket);
    lemma_last_character(
        StateView::Number(digits),
        text,
        TokenView::Number(decimal_value(digits)),
        dispatch(bracket).unwrap(),
    );
}

/// Digits, one point and more digits, followed by white space, lex as one
/// float that carries the numeral as written, and then nothing is pending.
pub proof fn law_float(whole: Seq<char>, fraction: Seq<char>, delimiter: char)
    requires
        whole.len() > 0,
        fraction.len() > 0,
        forall|i: int| 0 <= i < whole.len() ==> is_digit(#[trigger] whole[i]),
        forall|i: int| 0 <= i < fraction.len() ==> is_digit(#[trigger] fraction[i]),
        is_space(delimiter),
        !is_digit(delimiter),
    ensures
        lexed((whole.push('.') + fraction).push(delimiter)) == Some(
            seq![TokenView::Float(whole.push('.') + fraction), TokenView::Blank],
        ),
{
    let numeral = whole.push('.') + fraction;
    let text = numeral.push(delimiter);
    let n = whole.len();
    let m = numeral.len();
    assert forall|j: int| 0 <= j < n implies is_digit(#[trigger] text[j]) by {
        assert(text[j] == whole[j]);
    }
    assert forall|j: int| n + 1 <= j < m implies is_digit(#[trigger] text[j]) by {
        assert(text[j] == fraction[j - n - 1]);
    }
    assert(is_digit(text[0]));
    assert(text.subrange(0, 1) =~= seq![text[0]]);
    assert(run(StateView::Blank, text, 0) == run(StateView::Number(text.subrange(0, 1)), text, 1));
    lemma_number_gathers(text, 0, 1, n);
    assert(text[n as int] == '.');
    assert(text.subrange(0, n as int).push('.') =~= text.subrange(0, n as int + 1));
    assert(run(StateView::Number(text.subrange(0, n as int)), text, n) == run(
        StateView::Float(text.subrange(0, n as int + 1)),
        text,
        n + 1,
    ));
    lemma_float_gathers(text, 0, n + 1, m);
    assert(text.subrange(0, m as int) =~= numeral);
    assert(text.last() == delimiter);
    lemma_last_character(
        StateView::Float(numeral),
        text,
        TokenView::Float(numeral),
        StateView::Blank,
    );
}

/// A name is a character that starts one and is no digit, and then any
/// characters that continue one.
pub open spec fn is_name(s: Seq<char>) -> bool {
    &&& s.len() > 0
    &&& is_ident_start(s[0])
    &&& !is_digit(s[0])
    &&& forall|i: int| 0 < i < s.len() ==> is_ident_part(#[trigger] s[i])
}

/// A name followed by white space lexes as one token, and then nothing is
/// pending: a keyword where the name is one, an identifier where not.
pub proof fn law_keyword_or_ident(name: Seq<char>, delimiter: char)
    requires
        is_name(name),
        is_space(delimiter),
        !is_ident_part(delimiter),
    ensures
        lexed(name.push(delimiter)) == Some(
            seq![
                if is_keyword(name) {
                    TokenView::Keyword(name)
                } else {
                    TokenView::Ident(name)
                },
                TokenView::Blank,
            ],
        ),
{
    let text = name.push(delimiter);
    let n = name.len();
    assert forall|j: int| 1 <= j < n implies is_ident_part(#[trigger] text[j]) by {
        assert(text[j] == name[j]);
    }
    assert(text[0] == name[0]);
    assert(text.subrange(0, 1) =~= seq![text[0]]);
    assert(!is_keyword(text.subrange(0, 1)));
    assert(run(StateView::Blank, text, 0) == run(
        StateView::Ident(text.subrange(0, 1), false),
        text,
        1,
    ));
    lemma_ident_gathers(text, 0, 1, n);
    assert(text.subrange(0, n as int) =~= name);
    assert(text.last() == delimiter);
    let state = StateView::Ident(name, is_keyword(name));
    lemma_last_character(state, text, pending(state), StateView::Blank);
}

/// A run of operator characters followed by white space lexes as one
/// operator made of all of them, and then nothing is pending.
pub proof fn law_operator_is_maximal(operator: Seq<char>, delimiter: char)
    requires
        operator.len() > 0,
        forall|i: int| 0 <= i < operator.len() ==> is_operator_char(#[trigger] operator[i]),
        is_space(delimiter),
    ensures
        lexed(operator.push(delimiter)) == Some(
            seq![TokenView::Operator(operator), TokenView::Blank],
        ),
{
    let text = operator.push(delimiter);
    let n = operator.len();
    assert forall|j: int| 0 <= j < n implies is_operator_char(#[trigger] text[j]) by {
        assert(text[j] == operator[j]);
    }
    assert(is_operator_char(text[0]));
    assert(text.subrange(0, 1) =~= seq![text[0]]);
    assert(run(StateView::Blank, text, 0) == run(
        StateView::Operator(text.subrange(0, 1)),
        text,
        1,
    ));
    lemma_operator_gathers(text, 0, 1, n);
    assert(text.subrange(0, n as int) =~= operator);
    assert(text.last() == delimiter);
    lemma_last_character(
        StateView::Operator(operator),
        text,
        TokenView::Operator(operator),
        StateView::Blank,
    );
}

/// Every character of `s` is a digit.
pub open spec fn all_digits(s: Seq<char>) -> bool {
    forall|i: int| 0 <= i < s.len() ==> is_digit(#[trigger] s[i])
}

/// Every character of `s` is an operator character.
pub open spec fn all_operator_chars(s: Seq<char>) -> bool {
    forall|i: int| 0 <= i < s.len() ==> is_operator_char(#[trigger] s[i])
}

/// `s` has a point at `k`, at least one digit before it and only digits
/// before and after it.
pub open spec fn point_at(s: Seq<char>, k: int) -> bool {
    &&& 0 < k < s.len()
    &&& s[k] == '.'
    &&& all_digits(s.take(k))
    &&& all_digits(s.skip(k + 1))
}

/// A float's numeral: digits, of which at least one comes first, around one
/// point.
pub open spec fn is_float_numeral(s: Seq<char>) -> bool {
    exists|k: int| #[trigger] point_at(s, k)
}

/// The lexemes that the rules can gather: a number holds digits and at least
/// one; a float holds digits around one point; an identifier holds a name, and
/// its flag says whether the name is a keyword; an operator holds operator
/// characters and at least one.
pub open spec fn well_formed(s: StateView) -> bool {
    match s {
        StateView::Number(text) => text.len() > 0 && all_digits(text),
        StateView::Float(text) => is_float_numeral(text),
        StateView::Ident(text, keyword) => is_name(text) && keyword == is_keyword(text),
        StateView::Operator(text) => text.len() > 0 && all_operator_chars(text),
        _ => true,
    }
}

/// The tokens that the rules can give: a number within 32 signed bits and not
/// negative; a float with digits around one point; a keyword that is one, an
/// identifier that is a name and no keyword; an operator of operator
/// characters. The machine gives no `Text`.
pub open spec fn token_well_formed(t: TokenView) -> bool {
    match t {
        TokenView::Number(n) => 0 <= n <= i32::MAX,
        TokenView::Float(text) => is_float_numeral(text),
        TokenView::Ident(text) => is_name(text) && !is_keyword(text),
        TokenView::Keyword(text) => is_name(text) && is_keyword(text),
        TokenView::Operator(text) => text.len() > 0 && all_operator_chars(text),
        TokenView::Text(_) => false,
        _ => true,
    }
}

/// The token of a well-formed state is well formed.
pub proof fn law_pending_well_formed(s: StateView)
    requires
        well_formed(s),
        has_pending(s),
    ensures
        token_well_formed(pending(s)),
{
    if let StateView::Number(text) = s {
        lemma_value_not_negative(text);
    }
}

/// The state that a character starts is well formed.
pub proof fn law_dispatch_well_formed(c: char)
    requires
        dispatch(c) is Some,
    ensures
        well_formed(dispatch(c).unwrap()),
{
    if !is_digit(c) && is_ident_start(c) {
        assert(seq![c].len() == 1);
        assert(is_name(seq![c]));
    }
}

/// A transition from a well-formed state leads to a well-formed state, and
/// the token it gives, if any, is well formed.
pub proof fn law_step_keeps_well_formed(s: StateView, c: char)
    requires
        well_formed(s),
        step(s, c) is Some,
    ensures
        well_formed(step(s, c).unwrap().0),
        step(s, c).unwrap().1 matches Some(t) ==> token_well_formed(t),
{
    if step(s, c).unwrap().1 is Some {
        assert(step(s, c).unwrap().1 == Some(pending(s)));
        assert(has_pending(s));
        law_pending_well_formed(s);
    }
    if dispatch(c) is Some {
        law_dispatch_well_formed(c);
    }
    match s {
        StateView::Number(text) => {
            if is_digit(c) {
                let t = text.push(c);
                assert forall|i: int| 0 <= i < t.len() implies is_digit(#[trigger] t[i]) by {
                    if i < text.len() {
                        assert(t[i] == text[i]);
                    }
                }
            } else if c == '.' {
                let t = text.push('.');
                let k = text.len() as int;
                assert(t.take(k) =~= text);
                assert(t.skip(k + 1) =~= Seq::<char>::empty());
                assert(point_at(t, k));
            }
        },
        StateView::Float(text) => {
            if is_digit(c) {
                let k = choose|k: int| #[trigger] point_at(text, k);
                let t = text.push(c);
                assert(t.take(k) =~= text.take(k));
                assert(t.skip(k + 1) =~= text.skip(k + 1).push(c));
                assert(point_at(t, k));
            }
        },
        StateView::Ident(text, _) => {
            if is_ident_part(c) {
                let t = text.push(c);
                assert(t[0] == text[0]);
                assert forall|i: int| 0 < i < t.len() implies is_ident_part(#[trigger] t[i]) by {
                    if i < text.len() {
                        assert(t[i] == text[i]);
                    }
                }
            }
        },
        StateView::Operator(text) => {
            if is_operator_char(c) {
                let t = text.push(c);
                assert forall|i: int| 0 <= i < t.len() implies is_operator_char(
                    #[trigger] t[i],
                ) by {
                    if i < text.len() {
                        assert(t[i] == text[i]);
                    }
                }
            }
        },
        _ => {},
    }
}

/// Lexing from a well-formed state gives well-formed tokens only.
pub proof fn law_run_well_formed(state: StateView, text: Seq<char>, pos: nat)
    requires
        well_formed(state),
    ensures
        well_formed(run(state, text, pos).state),
        run(state, text, pos).tokens matches Some(ts) ==> forall|i: int|
            0 <= i < ts.len() ==> token_well_formed(#[trigger] ts[i]),
    decreases text.len() - pos,
{
    if pos >= text.len() {
        if has_pending(state) {
            law_pending_well_formed(state);
        }
    } else {
        match step(state, text[pos as int]) {
            None => {},
            Some((next, token)) => {
                law_step_keeps_well_formed(state, text[pos as int]);
                law_run_well_formed(next, text, pos + 1);
            },
        }
    }
}

/// The tokens of a whole text are well formed.
pub proof fn law_lexed_well_formed(text: Seq<char>)
    ensures
        lexed(text) matches Some(ts) ==> forall|i: int|
            0 <= i < ts.len() ==> token_well_formed(#[trigger] ts[i]),
{
    law_run_well_formed(StateView::Blank, text, 0);
}

} // verus!
