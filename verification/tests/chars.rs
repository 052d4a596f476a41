use imagine::chars::{bracket, digit, ident_part, is_operator, letter, space};
use imagine::number::parse_decimal;
use imagine::statemachine::{keyword, start, State};

#[test]
fn ascii_classes() {
    for c in "0123456789".chars() {
        assert!(digit(c) && !letter(c) && !space(c) && ident_part(c));
    }
    for c in "azAZmQ".chars() {
        assert!(letter(c) && !digit(c) && !space(c) && ident_part(c));
    }
    for c in " \t\n\r\u{b}\u{c}".chars() {
        assert!(space(c) && !digit(c) && !letter(c) && !ident_part(c));
    }
    for c in "/:@[`{\u{8}\u{e}\u{1f}!\u{7f}".chars() {
        assert!(!space(c) && !digit(c) && !letter(c));
    }
    assert!(ident_part('_') && !letter('_'));
}

#[test]
fn ascii_classes_are_those_of_std() {
    for u in 0u8..128 {
        let c = char::from(u);
        assert_eq!(digit(c), c.is_numeric());
        assert_eq!(letter(c), c.is_alphabetic());
        assert_eq!(space(c), c.is_whitespace());
        assert_eq!(ident_part(c), c.is_alphanumeric() || c == '_');
    }
}

#[test]
fn classes_beyond_ascii_are_those_of_std() {
    for c in ['\u{e9}', '\u{b2}', '\u{663}', '\u{a0}', '\u{2028}', '\u{3042}', '\u{2167}', '\u{2014}'] {
        assert_eq!(digit(c), c.is_numeric());
        assert_eq!(letter(c), c.is_alphabetic());
        assert_eq!(space(c), c.is_whitespace());
    }
    assert!(digit('\u{663}') && letter('\u{e9}') && space('\u{2028}'));
}

#[test]
fn operator_characters() {
    for c in "+-=/*!<>~|&^".chars() {
        assert!(is_operator(&c));
    }
    for c in "%.,;:?#@$()[]{}a1 _".chars() {
        assert!(!is_operator(&c));
    }
}

#[test]
fn bracket_characters() {
    for c in "(){}".chars() {
        assert!(bracket(c));
    }
    for c in "[]<>a1 ".chars() {
        assert!(!bracket(c));
    }
}

#[test]
fn parse_decimal_values() {
    assert_eq!(parse_decimal(&String::from("0")), Some(0));
    assert_eq!(parse_decimal(&String::from("72")), Some(72));
    assert_eq!(parse_decimal(&String::from("00100")), Some(100));
    assert_eq!(parse_decimal(&String::from("2147483647")), Some(2147483647));
    assert_eq!(parse_decimal(&String::from("2147483648")), None);
    assert_eq!(parse_decimal(&String::from("99999999999999999999")), None);
    assert_eq!(parse_decimal(&String::from("")), None);
    assert_eq!(parse_decimal(&String::from("12a")), None);
    assert_eq!(parse_decimal(&String::from("-1")), None);
    assert_eq!(parse_decimal(&String::from("1.5")), None);
    assert_eq!(parse_decimal(&String::from("\u{663}")), None);
}

#[test]
fn keyword_table() {
    assert!(keyword(&String::from("if")));
    for word in ["", "i", "f", "fi", "iff", "If", "IF", "else"] {
        assert!(!keyword(&String::from(word)));
    }
}

#[test]
fn start_of_a_lexeme() {
    assert_eq!(start('5').unwrap().get_value(), "5");
    assert_eq!(start('q').unwrap().get_type(), "Ident");
    assert_eq!(start('^').unwrap().get_type(), "Operator");
    assert_eq!(start(' ').unwrap().get_type(), "Blank");
    assert!(start('#').is_none());
    assert!(start('.').is_none());
}
