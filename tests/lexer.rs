use expr_lexer::error::Error;
use expr_lexer::lexer::Lexer;
use expr_lexer::token::{Token, TokenKind};

fn val(v: f64) -> Token {
    let magnitude = v.abs().to_string();
    Token::new_val(v.is_sign_negative(), &magnitude).unwrap()
}

fn op(kind: TokenKind) -> Token {
    Token::new(kind)
}

fn lex(input: &str) -> (Vec<Token>, Result<(), Error>) {
    let s = input.to_string();
    let mut lexer = Lexer::new(&s);
    let r = lexer.lex();
    (lexer.tokens, r)
}

fn test_lexer(input: &str, tokens: &[Token]) {
    let (got, r) = lex(input);
    assert_eq!(r, Ok(()));
    assert_eq!(got.as_slice(), tokens);
}

#[test]
fn operators_test() {
    // `!=` is the not-equal operator
    let tokens = vec![
        op(TokenKind::Minus(0)),
        op(TokenKind::Plus(0)),
        op(TokenKind::Mul(0)),
        op(TokenKind::Div(0)),
        op(TokenKind::NotEq(0)),
        op(TokenKind::Eq(0)),
    ];
    test_lexer("- + * / != =", &tokens)
}

#[test]
fn mod_test_numbers() {
    let tokens = vec![
        val(-69.5),
        op(TokenKind::Plus(0)),
        val(-420.3123),
        op(TokenKind::Minus(0)),
        val(228.1),
        op(TokenKind::Mul(0)),
        val(322.0),
    ];
    test_lexer("-69.5 + -420.3123 - 228.1 * 322", &tokens);
}

#[test]
fn test_equals() {
    let raw_token = vec![
        op(TokenKind::EqOrLess(0)),
        op(TokenKind::EqOrGreater(0)),
        op(TokenKind::Less(0)),
        op(TokenKind::Greater(0)),
        op(TokenKind::NotEq(0)),
        op(TokenKind::Eq(0)),
    ];
    test_lexer("<= >= < > != =", &raw_token);
}

#[test]
fn test_numbers() {
    let raw_token = vec![
        val(1.0),
        op(TokenKind::Plus(0)),
        val(-69.5),
        op(TokenKind::Plus(0)),
        val(-420.3123),
        op(TokenKind::Minus(0)),
        val(228.1),
        op(TokenKind::Mul(0)),
        val(322.0),
        op(TokenKind::Rem(0)),
        val(-16.9),
        val(229.0),
        op(TokenKind::EqOrGreater(0)),
        val(228.0),
        val(28.0),
        op(TokenKind::Greater(0)),
        val(229.0),
    ];
    test_lexer("1 + -69.5 + -420.3123 - 228.1 * 322 % -16.9 229>=228 28>229", &raw_token);
}

#[test]
fn single_ops() {
    let tokens = vec![
        op(TokenKind::Not(0)),
        op(TokenKind::Greater(0)),
        op(TokenKind::Less(0)),
    ];
    test_lexer("! > <", &tokens);
}

#[test]
fn binary_ops() {
    let tokens = vec![
        op(TokenKind::LeftBracket(0)),
        op(TokenKind::LeftBracket(0)),
        val(2.0),
        op(TokenKind::Plus(0)),
        val(2.0),
        op(TokenKind::RightBracket(0)),
        op(TokenKind::Eq(0)),
        val(2.0),
        op(TokenKind::And(0)),
        op(TokenKind::LeftBracket(0)),
        val(2.0),
        op(TokenKind::Mul(0)),
        val(2.0),
        op(TokenKind::RightBracket(0)),
        op(TokenKind::Eq(0)),
        val(2.0),
        op(TokenKind::RightBracket(0)),
    ];
    test_lexer("((2 + 2) = 2 & (2 * 2) = 2)", &tokens);
}

#[test]
fn bracket_test() {
    let tokens = vec![op(TokenKind::LeftBracket(0)), op(TokenKind::RightBracket(0))];
    test_lexer("()", &tokens);
}
