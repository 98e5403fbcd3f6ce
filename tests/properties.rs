use expr_lexer::error::Error;
use expr_lexer::lexer::Lexer;
use expr_lexer::token::{Token, TokenKind};

fn lex(input: &str) -> (Vec<Token>, Result<(), Error>) {
    let s = input.to_string();
    let mut lexer = Lexer::new(&s);
    let r = lexer.lex();
    (lexer.tokens, r)
}

fn num(negative: bool, magnitude: &str) -> Token {
    Token::new_val(negative, magnitude).unwrap()
}

fn all_operator_kinds() -> Vec<TokenKind> {
    vec![
        TokenKind::Plus(0),
        TokenKind::Minus(0),
        TokenKind::Mul(0),
        TokenKind::Div(0),
        TokenKind::Rem(0),
        TokenKind::Eq(0),
        TokenKind::NotEq(0),
        TokenKind::Greater(0),
        TokenKind::Less(0),
        TokenKind::EqOrGreater(0),
        TokenKind::EqOrLess(0),
        TokenKind::Not(0),
        TokenKind::Or(0),
        TokenKind::And(0),
        TokenKind::LeftBracket(0),
        TokenKind::RightBracket(0),
    ]
}

#[test]
fn number_alone_is_one_value_token() {
    for (input, text) in [("42", "42"), ("007.50", "7.5"), ("12.", "12"), ("0.0", "0"), ("3.14159", "3.14159")] {
        let (tokens, r) = lex(input);
        assert_eq!(r, Ok(()));
        assert_eq!(tokens.len(), 1);
        assert!(tokens[0].is_value());
        assert_eq!(tokens[0].text(), text);
    }
}

#[test]
fn symbol_round_trip_for_every_operator() {
    let kinds = all_operator_kinds();
    let mut seen: Vec<String> = Vec::new();
    for k in kinds {
        let text = k.to_text().unwrap();
        assert!(!seen.contains(&text));
        seen.push(text.clone());
        let t = Token::from_text(&text).unwrap();
        assert_eq!(t.kind(), k);
        assert_eq!(t.text(), text);
    }
    assert_eq!(seen.len(), 16);
}

#[test]
fn symbols_of_some_kinds() {
    assert_eq!(TokenKind::Plus(0).to_text().unwrap(), "+");
    assert_eq!(TokenKind::EqOrLess(0).to_text().unwrap(), "<=");
    assert_eq!(TokenKind::NotEq(0).to_text().unwrap(), "!=");
    assert_eq!(Token::new(TokenKind::RightBracket(0)).text(), ")");
}

#[test]
fn value_kind_has_no_symbol() {
    assert_eq!(TokenKind::Value(0).to_text(), Err(Error::ParseValueToStr));
}

#[test]
fn unknown_symbol_text_is_refused() {
    for text in ["==", "", "a", "+=", "(("] {
        assert_eq!(Token::from_text(text), Err(Error::ParseStrToToken));
    }
}

#[test]
fn lexing_twice_gives_the_same_tokens() {
    let input = "1 + -69.5 - (228.1 * 322) % -16.9 != 3";
    let (a, ra) = lex(input);
    let (b, rb) = lex(input);
    assert_eq!(ra, rb);
    assert_eq!(a, b);
    assert_eq!(a.len(), 13);
}

#[test]
fn empty_and_space_only_inputs() {
    for input in ["", " ", "     "] {
        let (tokens, r) = lex(input);
        assert_eq!(r, Ok(()));
        assert!(tokens.is_empty());
    }
}

#[test]
fn lone_minus_is_an_operator() {
    let (tokens, r) = lex("-");
    assert_eq!(r, Ok(()));
    assert_eq!(tokens, vec![Token::new(TokenKind::Minus(0))]);
}

#[test]
fn two_points_fail_with_the_run() {
    let (tokens, r) = lex("1.2.3");
    assert_eq!(r, Err(Error::ParsingNumber("1.2.3".to_string())));
    assert!(tokens.is_empty());
}

#[test]
fn mixed_signs_and_operators() {
    let (tokens, r) = lex("1 + -69.5 - 228.1 * 322 % -16.9");
    assert_eq!(r, Ok(()));
    let expected = vec![
        num(false, "1"),
        Token::new(TokenKind::Plus(0)),
        num(true, "69.5"),
        Token::new(TokenKind::Minus(0)),
        num(false, "228.1"),
        Token::new(TokenKind::Mul(0)),
        num(false, "322"),
        Token::new(TokenKind::Rem(0)),
        num(true, "16.9"),
    ];
    assert_eq!(tokens, expected);
    assert_eq!(tokens[2].text(), "-69.5");
}

#[test]
fn comparisons_without_spaces() {
    let (tokens, r) = lex("229>=228 28>229");
    assert_eq!(r, Ok(()));
    let expected = vec![
        num(false, "229"),
        Token::new(TokenKind::EqOrGreater(0)),
        num(false, "228"),
        num(false, "28"),
        Token::new(TokenKind::Greater(0)),
        num(false, "229"),
    ];
    assert_eq!(tokens, expected);
}

#[test]
fn brackets_are_counted_as_in_the_input() {
    let input = "((2 + 2) = 2 & (2 * 2) = 2)";
    let (tokens, r) = lex(input);
    assert_eq!(r, Ok(()));
    let left = tokens.iter().filter(|t| t.kind() == TokenKind::LeftBracket(0)).count();
    let right = tokens.iter().filter(|t| t.kind() == TokenKind::RightBracket(0)).count();
    assert_eq!(left, input.matches('(').count());
    assert_eq!(right, input.matches(')').count());
    assert_eq!(left, 3);
    assert_eq!(right, 3);
}

#[test]
fn unknown_symbol_reports_its_offset() {
    let (tokens, r) = lex("228.1 @ 2");
    assert_eq!(r, Err(Error::UnknownSymbol('@', 6)));
    assert_eq!(tokens, vec![num(false, "228.1")]);
}

#[test]
fn other_whitespace_is_unknown() {
    assert_eq!(lex("1\t2").1, Err(Error::UnknownSymbol('\t', 1)));
    assert_eq!(lex("\n").1, Err(Error::UnknownSymbol('\n', 0)));
}

#[test]
fn offset_counts_characters_not_bytes() {
    assert_eq!(lex("1 é").1, Err(Error::UnknownSymbol('é', 2)));
    assert_eq!(lex("é é").1, Err(Error::UnknownSymbol('é', 0)));
}

#[test]
fn leading_point_is_unknown() {
    assert_eq!(lex(".5").1, Err(Error::UnknownSymbol('.', 0)));
}

#[test]
fn minus_followed_by_point_only() {
    assert_eq!(lex("-.").1, Err(Error::ParsingNumber(".".to_string())));
    let (tokens, r) = lex("-.5");
    assert_eq!(r, Ok(()));
    assert_eq!(tokens[0].text(), "-0.5");
}

#[test]
fn negative_zero_keeps_its_sign() {
    let (tokens, _) = lex("-0");
    assert_eq!(tokens[0].text(), "-0");
}

#[test]
fn minus_before_space_is_an_operator() {
    let (tokens, r) = lex("- 3");
    assert_eq!(r, Ok(()));
    assert_eq!(tokens, vec![Token::new(TokenKind::Minus(0)), num(false, "3")]);
}

#[test]
fn error_keeps_earlier_tokens() {
    let (tokens, r) = lex("1 + 2.3.4 5");
    assert_eq!(r, Err(Error::ParsingNumber("2.3.4".to_string())));
    assert_eq!(tokens, vec![num(false, "1"), Token::new(TokenKind::Plus(0))]);
}

#[test]
fn bang_at_end_and_before_other() {
    let (tokens, r) = lex("!!=");
    assert_eq!(r, Ok(()));
    assert_eq!(tokens, vec![Token::new(TokenKind::Not(0)), Token::new(TokenKind::NotEq(0))]);
}

#[test]
fn literal_constructor_checks_the_run() {
    assert_eq!(Token::new_val(false, "1.2.3"), Err(Error::ParsingNumber("1.2.3".to_string())));
    assert_eq!(Token::new_val(false, "1a"), Err(Error::ParsingNumber("1a".to_string())));
    assert_eq!(Token::new_val(true, "."), Err(Error::ParsingNumber(".".to_string())));
    assert_eq!(num(false, "0100.0100").text(), "100.01");
    assert_eq!(num(true, "000").text(), "-0");
    assert!(num(false, "5").is_value());
    assert!(!Token::new(TokenKind::Or(0)).is_value());
}
