use vstd::prelude::*;

use crate::error::{Error, ErrorModel};
use crate::number::{number_text, validate_value};
use crate::stream::chars_of;

verus! {

/// The syntactic category of a token. Each operator and bracket carries a
/// precedence slot that the lexer always leaves at zero, for a parser to use.
#[derive(Debug, PartialEq, Eq, Structural, Clone, Copy)]
pub enum TokenKind {
    Plus(u8),
    Minus(u8),
    Mul(u8),
    Div(u8),
    Rem(u8),
    Eq(u8),
    NotEq(u8),
    Greater(u8),
    Less(u8),
    EqOrGreater(u8),
    EqOrLess(u8),
    Not(u8),
    Or(u8),
    And(u8),
    LeftBracket(u8),
    RightBracket(u8),
    Value(u8),
}

/// The kind with every slot at zero, as the lexer makes it.
pub open spec fn has_zero_priority(k: TokenKind) -> bool {
    match k {
        TokenKind::Plus(p) | TokenKind::Minus(p) | TokenKind::Mul(p) | TokenKind::Div(p)
        | TokenKind::Rem(p) | TokenKind::Eq(p) | TokenKind::NotEq(p) | TokenKind::Greater(p)
        | TokenKind::Less(p) | TokenKind::EqOrGreater(p) | TokenKind::EqOrLess(p)
        | TokenKind::Not(p) | TokenKind::Or(p) | TokenKind::And(p) | TokenKind::LeftBracket(p)
        | TokenKind::RightBracket(p) | TokenKind::Value(p) => p == 0,
    }
}

/// The fixed symbol of an operator or bracket; empty for `Value`.
pub open spec fn symbol_of(k: TokenKind) -> Seq<char> {
    match k {
        TokenKind::Plus(_) => seq!['+'],
        TokenKind::Minus(_) => seq!['-'],
        TokenKind::Mul(_) => seq!['*'],
        TokenKind::Div(_) => seq!['/'],
        TokenKind::Rem(_) => seq!['%'],
        TokenKind::Eq(_) => seq!['='],
        TokenKind::NotEq(_) => seq!['!', '='],
        TokenKind::Greater(_) => seq!['>'],
        TokenKind::Less(_) => seq!['<'],
        TokenKind::EqOrGreater(_) => seq!['>', '='],
        TokenKind::EqOrLess(_) => seq!['<', '='],
        TokenKind::Not(_) => seq!['!'],
        TokenKind::Or(_) => seq!['|'],
        TokenKind::And(_) => seq!['&'],
        TokenKind::LeftBracket(_) => seq!['('],
        TokenKind::RightBracket(_) => seq![')'],
        TokenKind::Value(_) => Seq::empty(),
    }
}

/// The kind whose symbol is the single character `c`.
pub open spec fn single_kind(c: char) -> Option<TokenKind> {
    if c == '+' {
        Some(TokenKind::Plus(0))
    } else if c == '-' {
        Some(TokenKind::Minus(0))
    } else if c == '*' {
        Some(TokenKind::Mul(0))
    } else if c == '/' {
        Some(TokenKind::Div(0))
    } else if c == '%' {
        Some(TokenKind::Rem(0))
    } else if c == '=' {
        Some(TokenKind::Eq(0))
    } else if c == '>' {
        Some(TokenKind::Greater(0))
    } else if c == '<' {
        Some(TokenKind::Less(0))
    } else if c == '!' {
        Some(TokenKind::Not(0))
    } else if c == '|' {
        Some(TokenKind::Or(0))
    } else if c == '&' {
        Some(TokenKind::And(0))
    } else if c == '(' {
        Some(TokenKind::LeftBracket(0))
    } else if c == ')' {
        Some(TokenKind::RightBracket(0))
    } else {
        None
    }
}

/// The kind whose symbol is `c` followed by `=`.
pub open spec fn double_kind(c: char) -> Option<TokenKind> {
    if c == '!' {
        Some(TokenKind::NotEq(0))
    } else if c == '>' {
        Some(TokenKind::EqOrGreater(0))
    } else if c == '<' {
        Some(TokenKind::EqOrLess(0))
    } else {
        None
    }
}

/// The kind whose symbol is `t`, if there is one.
pub open spec fn kind_of_symbol(t: Seq<char>) -> Option<TokenKind> {
    if t.len() == 1 {
        single_kind(t[0])
    } else if t.len() == 2 && t[1] == '=' {
        double_kind(t[0])
    } else {
        None
    }
}

/// Symbol to kind undoes kind to symbol, for every operator and bracket.
pub proof fn lemma_symbol_round_trip(k: TokenKind)
    requires
        !(k is Value),
        has_zero_priority(k),
    ensures
        kind_of_symbol(symbol_of(k)) == Some(k),
{
}

/// Kind to symbol undoes symbol to kind: each symbol names exactly one kind.
pub proof fn lemma_kind_round_trip(t: Seq<char>)
    requires
        kind_of_symbol(t) is Some,
    ensures
        symbol_of(kind_of_symbol(t)->0) == t,
        !(kind_of_symbol(t)->0 is Value),
        has_zero_priority(kind_of_symbol(t)->0),
{
    assert(symbol_of(kind_of_symbol(t)->0) =~= t);
}

/// The kind for the symbol `first` (followed by `second`, when there is one).
pub fn kind_for(first: char, second: Option<char>) -> (r: Result<TokenKind, Error>)
    ensures
        match second {
            None => match r {
                Ok(k) => single_kind(first) == Some(k),
                Err(e) => single_kind(first) is None && e is ParseStrToToken,
            },
            Some(c) => match r {
                Ok(k) => c == '=' && double_kind(first) == Some(k),
                Err(e) => (c != '=' || double_kind(first) is None) && e is ParseStrToToken,
            },
        },
{
    match second {
        None => match first {
            '+' => Ok(TokenKind::Plus(0)),
            '-' => Ok(TokenKind::Minus(0)),
            '*' => Ok(TokenKind::Mul(0)),
            '/' => Ok(TokenKind::Div(0)),
            '%' => Ok(TokenKind::Rem(0)),
            '=' => Ok(TokenKind::Eq(0)),
            '>' => Ok(TokenKind::Greater(0)),
            '<' => Ok(TokenKind::Less(0)),
            '!' => Ok(TokenKind::Not(0)),
            '|' => Ok(TokenKind::Or(0)),
            '&' => Ok(TokenKind::And(0)),
            '(' => Ok(TokenKind::LeftBracket(0)),
            ')' => Ok(TokenKind::RightBracket(0)),
            _ => Err(Error::ParseStrToToken),
        },
        Some('=') => match first {
            '!' => Ok(TokenKind::NotEq(0)),
            '>' => Ok(TokenKind::EqOrGreater(0)),
            '<' => Ok(TokenKind::EqOrLess(0)),
            _ => Err(Error::ParseStrToToken),
        },
        Some(_) => Err(Error::ParseStrToToken),
    }
}

impl TokenKind {
    /// The characters of this kind's symbol.
    fn symbol_chars(&self) -> (r: (char, Option<char>))
        requires
            !(*self is Value),
        ensures
            symbol_of(*self) == match r.1 {
                None => seq![r.0],
                Some(c) => seq![r.0, c],
            },
    {
        match self {
            TokenKind::Plus(_) => ('+', None),
            TokenKind::Minus(_) => ('-', None),
            TokenKind::Mul(_) => ('*', None),
            TokenKind::Div(_) => ('/', None),
            TokenKind::Rem(_) => ('%', None),
            TokenKind::Eq(_) => ('=', None),
            TokenKind::NotEq(_) => ('!', Some('=')),
            TokenKind::Greater(_) => ('>', None),
            TokenKind::Less(_) => ('<', None),
            TokenKind::EqOrGreater(_) => ('>', Some('=')),
            TokenKind::EqOrLess(_) => ('<', Some('=')),
            TokenKind::Not(_) => ('!', None),
            TokenKind::Or(_) => ('|', None),
            TokenKind::And(_) => ('&', None),
            TokenKind::LeftBracket(_) => ('(', None),
            TokenKind::RightBracket(_) => (')', None),
            TokenKind::Value(_) => ('0', None),
        }
    }

    fn symbol(&self) -> (r: String)
        requires
            !(*self is Value),
        ensures
            r@ == symbol_of(*self),
    {
        let (first, second) = self.symbol_chars();
        let mut s = String::new();
        s.push(first);
        match second {
            Some(c) => s.push(c),
            None => {},
        }
        assert(s@ =~= symbol_of(*self));
        s
    }

    /// The symbol of an operator or bracket; a numeric kind has none.
    pub fn to_text(&self) -> (r: Result<String, Error>)
        ensures
            match r {
                Ok(s) => !(*self is Value) && s@ == symbol_of(*self),
                Err(e) => *self is Value && e is ParseValueToStr,
            },
    {
        match self {
            TokenKind::Value(_) => Err(Error::ParseValueToStr),
            _ => Ok(self.symbol()),
        }
    }

    pub fn is_value(&self) -> (r: bool)
        ensures
            r == (*self is Value),
    {
        match self {
            TokenKind::Value(_) => true,
            _ => false,
        }
    }
}

/// A classified unit of input: its kind, and its text (the symbol of an operator
/// or bracket, the canonical decimal text of a number).
#[derive(Debug)]
pub struct Token {
    kind: TokenKind,
    text: String,
}

impl View for Token {
    type V = (TokenKind, Seq<char>);

    closed spec fn view(&self) -> (TokenKind, Seq<char>) {
        (self.kind, self.text@)
    }
}

impl PartialEq for Token {
    fn eq(&self, o: &Token) -> (r: bool) {
        self.kind == o.kind && self.text == o.text
    }
}

impl vstd::std_specs::cmp::PartialEqSpecImpl for Token {
    open spec fn obeys_eq_spec() -> bool {
        true
    }

    open spec fn eq_spec(&self, o: &Token) -> bool {
        self@ == o@
    }
}

/// The token of a numeric literal, or the failure that its run gives.
pub open spec fn value_token(negative: bool, run: Seq<char>) -> Result<(TokenKind, Seq<char>), ErrorModel> {
    match number_text(negative, run) {
        Ok(t) => Ok((TokenKind::Value(0), t)),
        Err(e) => Err(e),
    }
}

/// The view of a result that holds a token.
pub open spec fn token_result(r: Result<Token, Error>) -> Result<(TokenKind, Seq<char>), ErrorModel> {
    match r {
        Ok(t) => Ok(t@),
        Err(e) => Err(e@),
    }
}

impl Token {
    /// The token of an operator or bracket, with its symbol as text.
    pub fn new(kind: TokenKind) -> (r: Token)
        requires
            !(kind is Value),
        ensures
            r@ == (kind, symbol_of(kind)),
    {
        Token { kind, text: kind.symbol() }
    }

    /// The token of the numeric literal whose sign is `negative` and whose
    /// digits and point are `magnitude`.
    pub fn new_val(negative: bool, magnitude: &str) -> (r: Result<Token, Error>)
        ensures
            token_result(r) == value_token(negative, magnitude@),
    {
        let run = chars_of(magnitude);
        Token::from_run(negative, &run)
    }

    pub(crate) fn from_run(negative: bool, run: &Vec<char>) -> (r: Result<Token, Error>)
        ensures
            token_result(r) == value_token(negative, run@),
    {
        match validate_value(negative, run) {
            Ok(text) => Ok(Token { kind: TokenKind::Value(0), text }),
            Err(e) => Err(e),
        }
    }

    /// The token whose symbol is `text`; an error where no operator or bracket has it.
    pub fn from_text(text: &str) -> (r: Result<Token, Error>)
        ensures
            match r {
                Ok(t) => kind_of_symbol(text@) is Some && t@ == (kind_of_symbol(text@)->0, text@),
                Err(e) => kind_of_symbol(text@) is None && e is ParseStrToToken,
            },
    {
        let cs = chars_of(text);
        let k = if cs.len() == 1 {
            kind_for(cs[0], None)
        } else if cs.len() == 2 {
            kind_for(cs[0], Some(cs[1]))
        } else {
            Err(Error::ParseStrToToken)
        };
        match k {
            Ok(kind) => {
                proof {
                    lemma_kind_round_trip(text@);
                }
                Ok(Token::new(kind))
            },
            Err(e) => Err(e),
        }
    }

    pub fn kind(&self) -> (r: TokenKind)
        ensures
            r == self@.0,
    {
        self.kind
    }

    pub fn text(&self) -> (r: &str)
        ensures
            r@ == self@.1,
    {
        self.text.as_str()
    }

    pub fn is_value(&self) -> (r: bool)
        ensures
            r == (self@.0 is Value),
    {
        self.kind.is_value()
    }
}

} // verus!
