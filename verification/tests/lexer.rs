use imagine::common::Errors;
use imagine::lexer::{ImagineLexer, Lexer};
use imagine::statemachine::{ImagineMachine, Token};

#[derive(PartialEq, Debug)]
enum Lexed {
    Number(i32),
    Operator(String),
    Float(f32),
    Ident(String),
    Keyword(String),
    LPAR,
    RPAR,
    LBR,
    RBR,
    Text(String),
    Blank,
}

fn lexed(token: Token) -> Lexed {
    match token {
        Token::Number(n) => Lexed::Number(n),
        Token::Operator(s) => Lexed::Operator(s),
        Token::Float(s) => Lexed::Float(s.parse::<f32>().unwrap()),
        Token::Ident(s) => Lexed::Ident(s),
        Token::Keyword(s) => Lexed::Keyword(s),
        Token::LPAR => Lexed::LPAR,
        Token::RPAR => Lexed::RPAR,
        Token::LBR => Lexed::LBR,
        Token::RBR => Lexed::RBR,
        Token::Text(s) => Lexed::Text(s),
        Token::Blank => Lexed::Blank,
    }
}

fn lex(text: &str) -> Result<Vec<Lexed>, Errors> {
    let mut lexer = ImagineLexer::new(String::from(text), ImagineMachine::new());
    Ok(lexer.lex()?.into_iter().map(lexed).collect())
}

#[test]
fn lex_test() {
    let machine = ImagineMachine::new();
    let mut lexer = ImagineLexer::new(String::from("72 3.14 player if
        player2 36 100 -7 + 8 var += 12 !bool !(2 + 2) block{code}"), machine);

    let tokens: Vec<Lexed> = lexer.lex().unwrap().into_iter().map(lexed).collect();

    assert_eq!(tokens, vec![
        Lexed::Number(72),
        Lexed::Float(3.14),
        Lexed::Ident("player".to_string()),
        Lexed::Keyword("if".to_string()),
        Lexed::Ident("player2".to_string()),
        Lexed::Number(36),
        Lexed::Number(100),
        Lexed::Operator("-".to_string()),
        Lexed::Number(7),
        Lexed::Operator(String::from("+")),
        Lexed::Number(8),
        Lexed::Ident("var".to_string()),
        Lexed::Operator("+=".to_string()),
        Lexed::Number(12),
        Lexed::Operator("!".to_string()),
        Lexed::Ident("bool".to_string()),
        Lexed::Operator("!".to_string()),
        Lexed::LPAR,
        Lexed::Number(2),
        Lexed::Operator("+".to_string()),
        Lexed::Number(2),
        Lexed::RPAR,
        Lexed::Ident("block".to_string()),
        Lexed::LBR,
        Lexed::Ident("code".to_string()),
        Lexed::RBR,
    ]);
}

#[test]
fn lex_on_one_line() {
    let tokens =
        lex("72 3.14 player if player2 36 100 -7 + 8 var += 12 !bool !(2 + 2) block{code}")
            .unwrap();
    assert_eq!(tokens.len(), 26);
    assert_eq!(tokens[1], Lexed::Float(3.14));
    assert_eq!(tokens[3], Lexed::Keyword("if".to_string()));
    assert_eq!(tokens[12], Lexed::Operator("+=".to_string()));
    assert_eq!(tokens[25], Lexed::RBR);
}

#[test]
fn lex_empty_text() {
    assert_eq!(lex(""), Ok(vec![Lexed::Blank]));
    assert_eq!(lex("  \n\t "), Ok(vec![Lexed::Blank]));
}

#[test]
fn lex_number_and_delimiter() {
    assert_eq!(lex("12 "), Ok(vec![Lexed::Number(12), Lexed::Blank]));
    assert_eq!(lex("007\n"), Ok(vec![Lexed::Number(7), Lexed::Blank]));
    assert_eq!(lex("2147483647 "), Ok(vec![Lexed::Number(2147483647), Lexed::Blank]));
    assert_eq!(lex("12"), Ok(vec![Lexed::Number(12)]));
}

#[test]
fn lex_number_then_bracket() {
    assert_eq!(lex("12)"), Ok(vec![Lexed::Number(12), Lexed::RPAR]));
    assert_eq!(lex("12{"), Ok(vec![Lexed::Number(12), Lexed::LBR]));
}

#[test]
fn lex_float_and_delimiter() {
    assert_eq!(lex("3.14 "), Ok(vec![Lexed::Float(3.14), Lexed::Blank]));
    assert_eq!(lex("0.5"), Ok(vec![Lexed::Float(0.5)]));
    assert_eq!(lex("99999999999.5 "), Ok(vec![Lexed::Float(99999999999.5), Lexed::Blank]));
}

#[test]
fn lex_keeps_the_float_as_written() {
    let mut lexer = ImagineLexer::new(String::from("3.140 "), ImagineMachine::new());
    assert_eq!(lexer.lex(), Ok(vec![Token::Float(String::from("3.140")), Token::Blank]));
}

#[test]
fn lex_keyword_or_ident() {
    assert_eq!(lex("if "), Ok(vec![Lexed::Keyword("if".to_string()), Lexed::Blank]));
    assert_eq!(lex("iff "), Ok(vec![Lexed::Ident("iff".to_string()), Lexed::Blank]));
    assert_eq!(lex("i "), Ok(vec![Lexed::Ident("i".to_string()), Lexed::Blank]));
    assert_eq!(lex("_if"), Ok(vec![Lexed::Ident("_if".to_string())]));
    assert_eq!(lex("if("), Ok(vec![Lexed::Keyword("if".to_string()), Lexed::LPAR]));
}

#[test]
fn lex_operator_is_greedy() {
    assert_eq!(lex("+= "), Ok(vec![Lexed::Operator("+=".to_string()), Lexed::Blank]));
    assert_eq!(lex("<=>!~ "), Ok(vec![Lexed::Operator("<=>!~".to_string()), Lexed::Blank]));
    assert_eq!(lex("a+=b"), Ok(vec![
        Lexed::Ident("a".to_string()),
        Lexed::Operator("+=".to_string()),
        Lexed::Ident("b".to_string()),
    ]));
}

#[test]
fn lex_fails_on_inapplicable_character() {
    assert_eq!(lex("3.1a"), Err(Errors::SyntaxError));
    assert_eq!(lex("3.14)"), Err(Errors::SyntaxError));
    assert_eq!(lex("1.2.3"), Err(Errors::SyntaxError));
    assert_eq!(lex("12a"), Err(Errors::SyntaxError));
    assert_eq!(lex("12+"), Err(Errors::SyntaxError));
    assert_eq!(lex("x y #"), Err(Errors::SyntaxError));
    assert_eq!(lex("(#"), Err(Errors::SyntaxError));
    assert_eq!(lex("a.b"), Err(Errors::SyntaxError));
    assert_eq!(lex("1 2 3 ."), Err(Errors::SyntaxError));
}

#[test]
fn lex_fails_on_number_out_of_range() {
    assert_eq!(lex("2147483648 "), Err(Errors::SyntaxError));
    assert_eq!(lex("2147483648"), Err(Errors::SyntaxError));
    assert_eq!(lex("99999999999)"), Err(Errors::SyntaxError));
}

#[test]
fn lex_text_beyond_ascii() {
    assert_eq!(lex("\u{e9}t\u{e9} "), Ok(vec![
        Lexed::Ident("\u{e9}t\u{e9}".to_string()),
        Lexed::Blank,
    ]));
    assert_eq!(lex("a\u{a0}b"), Ok(vec![
        Lexed::Ident("a".to_string()),
        Lexed::Ident("b".to_string()),
    ]));
}

#[test]
fn get_new_token_one_by_one() {
    let mut lexer = ImagineLexer::new(String::from("a 1"), ImagineMachine::new());
    assert_eq!(lexer.get_new_token(), Ok((Token::Ident("a".to_string()), false)));
    assert_eq!(lexer.get_new_token(), Ok((Token::Number(1), true)));
    assert_eq!(lexer.get_new_token(), Ok((Token::Number(1), true)));

    let mut lexer = ImagineLexer::new(String::from("a #b"), ImagineMachine::new());
    assert_eq!(lexer.get_new_token(), Ok((Token::Ident("a".to_string()), false)));
    assert_eq!(lexer.get_new_token(), Err(Errors::SyntaxError));
    assert_eq!(lexer.get_new_token(), Ok((Token::Ident("b".to_string()), true)));
}

#[test]
fn lexed_tokens_are_well_formed() {
    let mut lexer = ImagineLexer::new(
        String::from("12 0.50 x_1 if <= (a){b} 7"),
        ImagineMachine::new(),
    );
    let tokens = lexer.lex().unwrap();
    assert_eq!(tokens.len(), 12);
    for token in tokens {
        match token {
            Token::Number(n) => assert!(n >= 0),
            Token::Float(text) => {
                assert_eq!(text.chars().filter(|c| *c == '.').count(), 1);
                assert!(text.chars().all(|c| c == '.' || c.is_numeric()));
                assert!(!text.starts_with('.'));
            }
            Token::Ident(text) => assert!(text != "if" && !text.is_empty()),
            Token::Keyword(text) => assert_eq!(text, "if"),
            Token::Operator(text) => assert!(!text.is_empty()),
            Token::Text(_) => panic!("the machine gives no text"),
            _ => {}
        }
    }
}
