use tokenizer::{ScanError, Token, Tokenizer};

fn all_tokens(text: &str) -> Vec<Result<Token, ScanError>> {
    let mut t = Tokenizer::new(text);
    let mut out = Vec::new();
    while let Some(r) = t.next() {
        out.push(r);
    }
    out
}

fn name(s: &str) -> Token {
    Token::Name(s.to_string())
}

#[test]
fn consume_whitespace() {
    let mut t = Tokenizer::new("t \t\na");

    t.consume_whitespace();
    assert!(t.peek_char() == Some('t'));

    t.next_char();
    t.consume_whitespace();
    assert!(t.peek_char() == Some('a'));

    t.next_char();
    t.consume_whitespace();
    assert!(t.peek_char() == None);
}

#[test]
fn symbol_tokens() {
    let mut t = Tokenizer::new("+-*/::=<<=");

    assert!(t.next() == Some(Ok(Token::Plus)));
    assert!(t.next() == Some(Ok(Token::Minus)));
    assert!(t.next() == Some(Ok(Token::Asterisk)));
    assert!(t.next() == Some(Ok(Token::Slash)));
    assert!(t.next() == Some(Ok(Token::Colon)));
    assert!(t.next() == Some(Ok(Token::Assign)));
    assert!(t.next() == Some(Ok(Token::Lt)));
    assert!(t.next() == Some(Ok(Token::Le)));
    assert!(t.next() == None);
}

#[test]
fn int_tokens() {
    let mut t = Tokenizer::new("1 2 3 123 987");

    assert!(t.next() == Some(Ok(Token::Integer(1))));
    assert!(t.next() == Some(Ok(Token::Integer(2))));
    assert!(t.next() == Some(Ok(Token::Integer(3))));
    assert!(t.next() == Some(Ok(Token::Integer(123))));
    assert!(t.next() == Some(Ok(Token::Integer(987))));
    assert!(t.next() == None);
}

#[test]
fn keyword_tokens() {
    let mut t = Tokenizer::new("and array if let not or print while");

    assert!(t.next() == Some(Ok(Token::And)));
    assert!(t.next() == Some(Ok(Token::Array)));
    assert!(t.next() == Some(Ok(Token::If)));
    assert!(t.next() == Some(Ok(Token::Let)));
    assert!(t.next() == Some(Ok(Token::Not)));
    assert!(t.next() == Some(Ok(Token::Or)));
    assert!(t.next() == Some(Ok(Token::Print)));
    assert!(t.next() == Some(Ok(Token::While)));
    assert!(t.next() == None);
}

#[test]
fn name_tokens() {
    let mut t = Tokenizer::new("and xxx if If");

    assert!(t.next() == Some(Ok(Token::And)));
    assert!(t.next() == Some(Ok(Token::Name("xxx".to_string()))));
    assert!(t.next() == Some(Ok(Token::If)));
    assert!(t.next() == Some(Ok(Token::Name("If".to_string()))));
    assert!(t.next() == None);
}

#[test]
fn whitespace_run_is_skipped_whole() {
    let mut t = Tokenizer::new(" \t\n \n\tx");
    t.consume_whitespace();
    assert_eq!(t.position(), 6);
    assert_eq!(t.peek_char(), Some('x'));
    t.consume_whitespace();
    assert_eq!(t.position(), 6);
    assert_eq!(t.next(), Some(Ok(name("x"))));
}

#[test]
fn digits_then_letters_split() {
    assert_eq!(all_tokens("123abc"), vec![Ok(Token::Integer(123)), Ok(name("abc"))]);
}

#[test]
fn letters_then_digits_stay_one_name() {
    assert_eq!(all_tokens("abc123 x_9_"), vec![Ok(name("abc123")), Ok(name("x_9_"))]);
}

#[test]
fn underscore_cannot_start_a_name() {
    assert_eq!(all_tokens("_a"), vec![Ok(Token::Invalid), Ok(name("a"))]);
}

#[test]
fn lookahead_leaves_next_character() {
    assert_eq!(all_tokens(":x"), vec![Ok(Token::Colon), Ok(name("x"))]);
    assert_eq!(all_tokens("=1"), vec![Ok(Token::EqualSign), Ok(Token::Integer(1))]);
    assert_eq!(all_tokens(">("), vec![Ok(Token::Gt), Ok(Token::ParenLeft)]);
    assert_eq!(all_tokens("<;"), vec![Ok(Token::Lt), Ok(Token::Semicolon)]);
    assert_eq!(all_tokens(": ="), vec![Ok(Token::Colon), Ok(Token::EqualSign)]);
    assert_eq!(all_tokens("<"), vec![Ok(Token::Lt)]);
}

#[test]
fn two_character_operators() {
    assert_eq!(
        all_tokens(":= == >= <= <> ==="),
        vec![
            Ok(Token::Assign),
            Ok(Token::Eq),
            Ok(Token::Ge),
            Ok(Token::Le),
            Ok(Token::Ne),
            Ok(Token::Eq),
            Ok(Token::EqualSign),
        ]
    );
}

#[test]
fn every_single_symbol() {
    assert_eq!(
        all_tokens("*{}[]:.=-()+;/><"),
        vec![
            Ok(Token::Asterisk),
            Ok(Token::BraceLeft),
            Ok(Token::BraceRight),
            Ok(Token::BracketLeft),
            Ok(Token::BracketRight),
            Ok(Token::Colon),
            Ok(Token::Dot),
            Ok(Token::EqualSign),
            Ok(Token::Minus),
            Ok(Token::ParenLeft),
            Ok(Token::ParenRight),
            Ok(Token::Plus),
            Ok(Token::Semicolon),
            Ok(Token::Slash),
            Ok(Token::Gt),
            Ok(Token::Lt),
        ]
    );
}

#[test]
fn keywords_are_case_sensitive() {
    assert_eq!(all_tokens("If"), vec![Ok(name("If"))]);
    assert_eq!(all_tokens("if"), vec![Ok(Token::If)]);
    assert_eq!(all_tokens("WHILE iff"), vec![Ok(name("WHILE")), Ok(name("iff"))]);
}

#[test]
fn empty_and_blank_texts_have_no_tokens() {
    assert_eq!(all_tokens(""), vec![]);
    assert_eq!(all_tokens(" \t\n  \n"), vec![]);
    let mut t = Tokenizer::new("   ");
    assert_eq!(t.next(), None);
    assert_eq!(t.next(), None);
}

#[test]
fn invalid_characters_are_consumed() {
    assert_eq!(
        all_tokens("@#é1"),
        vec![Ok(Token::Invalid), Ok(Token::Invalid), Ok(Token::Invalid), Ok(Token::Integer(1))]
    );
}

#[test]
fn largest_integer_fits() {
    assert_eq!(all_tokens("2147483647"), vec![Ok(Token::Integer(2147483647))]);
    assert_eq!(all_tokens("007"), vec![Ok(Token::Integer(7))]);
}

#[test]
fn integer_overflow_is_an_error() {
    assert_eq!(
        all_tokens("2147483648 5"),
        vec![Err(ScanError::NumericOverflow), Ok(Token::Integer(5))]
    );
    assert_eq!(
        all_tokens("99999999999999999999999x"),
        vec![Err(ScanError::NumericOverflow), Ok(name("x"))]
    );
}

#[test]
fn line_and_column_follow_the_text() {
    let mut t = Tokenizer::new("let a\n  b");
    assert_eq!((t.line(), t.column(), t.position()), (1, 0, 0));
    assert_eq!(t.next(), Some(Ok(Token::Let)));
    assert_eq!((t.line(), t.column(), t.position()), (1, 3, 3));
    assert_eq!(t.next(), Some(Ok(name("a"))));
    assert_eq!(t.next(), Some(Ok(name("b"))));
    assert_eq!((t.line(), t.column(), t.position()), (2, 3, 9));
}

#[test]
fn peek_does_not_consume() {
    let mut t = Tokenizer::new("ab");
    assert_eq!(t.peek_char(), Some('a'));
    assert_eq!(t.peek_char(), Some('a'));
    assert_eq!(t.next_char(), Some('a'));
    assert_eq!(t.next_char(), Some('b'));
    assert_eq!(t.next_char(), None);
    assert_eq!(t.position(), 2);
}

#[test]
fn name_holds_its_spelling() {
    let mut t = Tokenizer::new("arrays");
    match t.next() {
        Some(Ok(Token::Name(n))) => assert_eq!(n, "arrays"),
        other => panic!("unexpected {:?}", other),
    }
}
