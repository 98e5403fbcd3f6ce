use vstd::prelude::*;

use crate::error::{Error, ErrorModel};
use crate::number::{dot_count, is_digit, is_number_char, is_number_char_exec, is_number_run, render_value};
use crate::stream::chars_of;
use crate::token::{
    double_kind, kind_for, single_kind, symbol_of, token_result, value_token, Token, TokenKind,
};

verus! {

/// A token as a mathematical value: its kind and its text.
pub type TokenModel = (TokenKind, Seq<char>);

/// Length of the run of digits and `.` at the start of `s`.
pub open spec fn run_len(s: Seq<char>) -> nat
    decreases s.len(),
{
    if s.len() > 0 && is_number_char(s[0]) {
        1 + run_len(s.drop_first())
    } else {
        0
    }
}

/// The run is a prefix of `s`, made of digits and `.`, and what follows it is not.
pub proof fn lemma_run_len(s: Seq<char>)
    ensures
        run_len(s) <= s.len(),
        forall|k: int| 0 <= k < run_len(s) ==> is_number_char(#[trigger] s[k]),
        run_len(s) < s.len() ==> !is_number_char(s[run_len(s) as int]),
    decreases s.len(),
{
    if s.len() > 0 && is_number_char(s[0]) {
        lemma_run_len(s.drop_first());
        assert forall|k: int| 0 <= k < run_len(s) implies is_number_char(#[trigger] s[k]) by {
            if k > 0 {
                assert(s[k] == s.drop_first()[k - 1]);
            }
        }
    }
}

/// `t` before the tokens of `r`, with the same failure.
pub open spec fn cons(t: TokenModel, r: (Seq<TokenModel>, Option<ErrorModel>)) -> (Seq<TokenModel>, Option<ErrorModel>) {
    (seq![t] + r.0, r.1)
}

/// The token of an operator or bracket kind.
pub open spec fn op_token(k: TokenKind) -> TokenModel {
    (k, symbol_of(k))
}

/// What the character at `i` starts: a token or nothing (a space), with the index
/// after it; or the failure there.
pub open spec fn step(s: Seq<char>, i: int) -> Result<(Option<TokenModel>, int), ErrorModel> {
    let c = s[i];
    if is_digit(c) {
        let end = i + 1 + run_len(s.skip(i + 1));
        match value_token(false, s.subrange(i, end)) {
            Ok(t) => Ok((Some(t), end)),
            Err(e) => Err(e),
        }
    } else if c == '-' {
        let n = run_len(s.skip(i + 1));
        if n == 0 {
            Ok((Some(op_token(TokenKind::Minus(0))), i + 1))
        } else {
            match value_token(true, s.subrange(i + 1, i + 1 + n)) {
                Ok(t) => Ok((Some(t), i + 1 + n)),
                Err(e) => Err(e),
            }
        }
    } else if c == '!' || c == '>' || c == '<' {
        if i + 1 < s.len() && s[i + 1] == '=' {
            Ok((Some(op_token(double_kind(c)->0)), i + 2))
        } else {
            Ok((Some(op_token(single_kind(c)->0)), i + 1))
        }
    } else if single_kind(c) is Some {
        Ok((Some(op_token(single_kind(c)->0)), i + 1))
    } else if c == ' ' {
        Ok((None, i + 1))
    } else {
        Err(ErrorModel::UnknownSymbol(c, i as usize))
    }
}

/// Each step moves forward, and stays within the input.
pub proof fn lemma_step_advances(s: Seq<char>, i: int)
    requires
        0 <= i < s.len(),
    ensures
        step(s, i) is Ok ==> i < step(s, i)->Ok_0.1 <= s.len(),
{
    lemma_run_len(s.skip(i + 1));
}

/// The tokens of `s` from index `i` on, up to the first failure, and that failure
/// (`None` where the whole rest is read).
pub open spec fn scan(s: Seq<char>, i: int) -> (Seq<TokenModel>, Option<ErrorModel>)
    decreases s.len() - i,
{
    if i < 0 || i >= s.len() {
        (Seq::empty(), None)
    } else {
        proof {
            lemma_step_advances(s, i);
        }
        match step(s, i) {
            Err(e) => (Seq::empty(), Some(e)),
            Ok((None, j)) => scan(s, j),
            Ok((Some(t), j)) => cons(t, scan(s, j)),
        }
    }
}

pub open spec fn opt_view(o: Option<Token>) -> Option<TokenModel> {
    match o {
        Some(t) => Some(t@),
        None => None,
    }
}

/// The tokens of a whole text, and the failure that stopped them, if any.
pub open spec fn lex_text(s: Seq<char>) -> (Seq<TokenModel>, Option<ErrorModel>) {
    scan(s, 0)
}

/// A run of digits and `.` is read whole.
pub proof fn lemma_run_len_of_number_run(s: Seq<char>)
    requires
        is_number_run(s),
    ensures
        run_len(s) == s.len(),
{
    lemma_run_len(s);
}

/// A text of digits with at most one `.`, that starts with a digit, lexes to exactly
/// one numeric token, whose text is that of the number it spells.
pub proof fn lemma_number_alone(s: Seq<char>)
    requires
        s.len() > 0,
        is_digit(s[0]),
        is_number_run(s),
        dot_count(s) <= 1,
    ensures
        lex_text(s) == (seq![(TokenKind::Value(0), render_value(false, s))], None::<ErrorModel>),
{
    let rest = s.skip(1);
    assert(is_number_run(rest)) by {
        assert forall|k: int| 0 <= k < rest.len() implies is_number_char(#[trigger] rest[k]) by {
            assert(rest[k] == s[k + 1]);
        }
    }
    lemma_run_len_of_number_run(rest);
    assert(s.subrange(0, s.len() as int) =~= s);
    assert(is_digit(s[0]));
    lemma_step_advances(s, 0);
    assert(scan(s, s.len() as int) == (Seq::<TokenModel>::empty(), None::<ErrorModel>));
    assert(seq![(TokenKind::Value(0), render_value(false, s))] + Seq::<TokenModel>::empty()
        =~= seq![(TokenKind::Value(0), render_value(false, s))]);
}

/// From any index on, a text of spaces yields no token and no failure.
proof fn lemma_spaces_from(s: Seq<char>, i: int)
    requires
        0 <= i <= s.len(),
        forall|k: int| 0 <= k < s.len() ==> s[k] == ' ',
    ensures
        scan(s, i) == (Seq::<TokenModel>::empty(), None::<ErrorModel>),
    decreases s.len() - i,
{
    if i < s.len() {
        lemma_spaces_from(s, i + 1);
    }
}

/// An empty text, or one of spaces only, yields no token and no failure.
pub proof fn lemma_spaces_only(s: Seq<char>)
    requires
        forall|k: int| 0 <= k < s.len() ==> s[k] == ' ',
    ensures
        lex_text(s) == (Seq::<TokenModel>::empty(), None::<ErrorModel>),
{
    lemma_spaces_from(s, 0);
}

/// Lexing depends on the text alone: equal texts give equal tokens and the same failure.
pub proof fn lemma_lex_deterministic(a: Seq<char>, b: Seq<char>)
    requires
        a == b,
    ensures
        lex_text(a) == lex_text(b),
{
}

pub open spec fn token_views(ts: Seq<Token>) -> Seq<TokenModel> {
    ts.map_values(|t: Token| t@)
}

/// A cursor over the characters of an input, with one character of lookahead.
pub struct LexIter {
    chars: Vec<char>,
    pos: usize,
}

impl LexIter {
    #[verifier::type_invariant]
    spec fn inv(&self) -> bool {
        self.pos <= self.chars@.len()
    }

    /// The characters of the input.
    pub closed spec fn input(&self) -> Seq<char> {
        self.chars@
    }

    /// How many characters have been consumed.
    pub closed spec fn pos(&self) -> nat {
        self.pos as nat
    }

    pub fn new(input: &String) -> (r: LexIter)
        ensures
            r.input() == input@,
            r.pos() == 0,
    {
        LexIter { chars: chars_of(input.as_str()), pos: 0 }
    }

    /// The next character, without consuming it.
    pub fn peek(&self) -> (r: Option<char>)
        ensures
            r == if self.pos() < self.input().len() {
                Some(self.input()[self.pos() as int])
            } else {
                None
            },
    {
        proof {
            use_type_invariant(self);
        }
        if self.pos < self.chars.len() {
            Some(self.chars[self.pos])
        } else {
            None
        }
    }

    /// Consumes and returns the next character.
    pub fn next(&mut self) -> (r: Option<char>)
        ensures
            final(self).input() == old(self).input(),
            r == if old(self).pos() < old(self).input().len() {
                Some(old(self).input()[old(self).pos() as int])
            } else {
                None
            },
            final(self).pos() == if old(self).pos() < old(self).input().len() {
                old(self).pos() + 1
            } else {
                old(self).pos()
            },
    {
        proof {
            use_type_invariant(&*self);
        }
        if self.pos < self.chars.len() {
            let c = self.chars[self.pos];
            self.pos = self.pos + 1;
            Some(c)
        } else {
            None
        }
    }

    /// The offset of the next character, counted in characters.
    pub fn position(&self) -> (r: usize)
        ensures
            r == self.pos(),
    {
        self.pos
    }

    /// Whether the next character is `=`.
    fn next_is_eq(&self) -> (r: bool)
        ensures
            r == (self.pos() < self.input().len() && self.input()[self.pos() as int] == '='),
    {
        proof {
            use_type_invariant(self);
        }
        self.pos < self.chars.len() && self.chars[self.pos] == '='
    }

    /// Consumes the longest run of digits and `.` and returns it.
    fn take_run(&mut self) -> (r: Vec<char>)
        ensures
            final(self).input() == old(self).input(),
            final(self).pos() == old(self).pos() + run_len(old(self).input().skip(old(self).pos() as int)),
            r@ == old(self).input().subrange(old(self).pos() as int, final(self).pos() as int),
    {
        proof {
            use_type_invariant(&*self);
            lemma_run_len(self.chars@.skip(self.pos as int));
        }
        let ghost s = self.chars@;
        let start = self.pos;
        let mut p = self.pos;
        let mut run: Vec<char> = Vec::new();
        while p < self.chars.len() && is_number_char_exec(self.chars[p])
            invariant
                self.chars@ == s,
                start <= p <= s.len(),
                start + run_len(s.skip(start as int)) == p + run_len(s.skip(p as int)),
                run@ == s.subrange(start as int, p as int),
            decreases s.len() - p,
        {
            assert(s.skip(p as int).drop_first() =~= s.skip(p + 1));
            run.push(self.chars[p]);
            p = p + 1;
            assert(run@ =~= s.subrange(start as int, p as int));
        }
        assert(run_len(s.skip(p as int)) == 0);
        self.pos = p;
        run
    }

    /// Reads an unsigned numeric literal at the cursor.
    fn get_value(&mut self) -> (r: Result<Token, Error>)
        ensures
            final(self).input() == old(self).input(),
            ({
                let s = old(self).input();
                let p = old(self).pos() as int;
                let end = p + run_len(s.skip(p));
                &&& final(self).pos() == end
                &&& token_result(r) == value_token(false, s.subrange(p, end))
            }),
    {
        let run = self.take_run();
        Token::from_run(false, &run)
    }

    /// Consumes a `-` and reads the literal after it, if digits or a point follow.
    fn get_negative_value(&mut self) -> (r: Result<Option<Token>, Error>)
        requires
            old(self).pos() < old(self).input().len(),
        ensures
            final(self).input() == old(self).input(),
            ({
                let s = old(self).input();
                let p = old(self).pos() as int;
                let n = run_len(s.skip(p + 1));
                let lit = value_token(true, s.subrange(p + 1, p + 1 + n));
                match r {
                    Ok(None) => n == 0 && final(self).pos() == p + 1,
                    Ok(Some(t)) => n > 0 && lit == Ok::<TokenModel, ErrorModel>(t@)
                        && final(self).pos() == p + 1 + n,
                    Err(e) => n > 0 && lit == Err::<TokenModel, ErrorModel>(e@),
                }
            }),
    {
        let ghost s = self.input();
        let ghost p = self.pos() as int;
        self.next();
        let run = self.take_run();
        proof {
            lemma_run_len(s.skip(p + 1));
        }
        assert(run@.len() == run_len(s.skip(p + 1)));
        if run.len() == 0 {
            return Ok(None);
        }
        match Token::from_run(true, &run) {
            Ok(t) => Ok(Some(t)),
            Err(e) => Err(e),
        }
    }
}

/// The one whitespace character that the lexer skips: the space.
pub fn is_whitespace(c: char) -> (r: bool)
    ensures
        r == (c == ' '),
{
    c == ' '
}

/// Reads what the next character starts: a token, or nothing for a space.
fn read_token(iter: &mut LexIter) -> (r: Result<Option<Token>, Error>)
    requires
        old(iter).pos() < old(iter).input().len(),
    ensures
        final(iter).input() == old(iter).input(),
        match r {
            Ok(o) => step(old(iter).input(), old(iter).pos() as int) == Ok::<(Option<TokenModel>, int), ErrorModel>(
                (opt_view(o), final(iter).pos() as int),
            ),
            Err(e) => step(old(iter).input(), old(iter).pos() as int) == Err::<(Option<TokenModel>, int), ErrorModel>(e@),
        },
{
    let ghost s = iter.input();
    let ghost p = iter.pos() as int;
    let c = match iter.peek() {
        Some(c) => c,
        None => {
            return Ok(None);
        },
    };
    if '0' <= c && c <= '9' {
        proof {
            lemma_run_len(s.skip(p));
            lemma_run_len(s.skip(p + 1));
        }
        assert(s.skip(p).drop_first() =~= s.skip(p + 1));
        match iter.get_value() {
            Ok(t) => Ok(Some(t)),
            Err(e) => Err(e),
        }
    } else if c == '-' {
        match iter.get_negative_value() {
            Ok(Some(t)) => Ok(Some(t)),
            Ok(None) => Ok(Some(Token::new(TokenKind::Minus(0)))),
            Err(e) => Err(e),
        }
    } else if c == '!' || c == '>' || c == '<' {
        iter.next();
        let k = if iter.next_is_eq() {
            iter.next();
            kind_for(c, Some('='))
        } else {
            kind_for(c, None)
        };
        match k {
            Ok(kind) => Ok(Some(Token::new(kind))),
            Err(e) => Err(e),
        }
    } else if c == '+' || c == '*' || c == '/' || c == '%' || c == '|' || c == '=' || c == '&'
        || c == '(' || c == ')' {
        iter.next();
        match kind_for(c, None) {
            Ok(kind) => Ok(Some(Token::new(kind))),
            Err(e) => Err(e),
        }
    } else if is_whitespace(c) {
        iter.next();
        Ok(None)
    } else {
        Err(Error::UnknownSymbol(c, iter.position()))
    }
}

/// Lexes one input: the stream over it, and the tokens read so far.
pub struct Lexer {
    pub iter: LexIter,
    pub tokens: Vec<Token>,
}

impl Lexer {
    pub fn new(input: &String) -> (r: Lexer)
        ensures
            r.iter.input() == input@,
            r.iter.pos() == 0,
            r.tokens@.len() == 0,
    {
        Lexer { iter: LexIter::new(input), tokens: Vec::new() }
    }

    /// Reads the rest of the input into tokens, appended to `tokens` in input order.
    /// It stops at the first failure and returns it; the tokens read before the
    /// failure stay in `tokens`.
    pub fn lex(&mut self) -> (r: Result<(), Error>)
        ensures
            final(self).iter.input() == old(self).iter.input(),
            ({
                let res = scan(old(self).iter.input(), old(self).iter.pos() as int);
                &&& token_views(final(self).tokens@) == token_views(old(self).tokens@) + res.0
                &&& match r {
                    Ok(_) => res.1 is None && final(self).iter.pos() == old(self).iter.input().len(),
                    Err(e) => res.1 == Some(e@),
                }
            }),
    {
        let ghost s = self.iter.input();
        let ghost start = self.iter.pos() as int;
        let ghost before = token_views(self.tokens@);
        let ghost mut done: Seq<TokenModel> = Seq::empty();
        proof {
            use_type_invariant(&self.iter);
            assert(before + done =~= before);
            assert(scan(s, start).0 =~= done + scan(s, start).0);
        }
        loop
            invariant
                s == old(self).iter.input(),
                start == old(self).iter.pos(),
                before == token_views(old(self).tokens@),
                self.iter.input() == s,
                start <= self.iter.pos() <= s.len(),
                token_views(self.tokens@) == before + done,
                scan(s, start) == (done + scan(s, self.iter.pos() as int).0, scan(s, self.iter.pos() as int).1),
            ensures
                self.iter.input() == s,
                self.iter.pos() == s.len(),
                token_views(self.tokens@) == before + scan(s, start).0,
                scan(s, start).1 is None,
            decreases s.len() - self.iter.pos(),
        {
            let ghost p = self.iter.pos() as int;
            if self.iter.peek().is_none() {
                assert(done + scan(s, p).0 =~= done);
                break;
            }
            proof {
                lemma_step_advances(s, p);
            }
            match read_token(&mut self.iter) {
                Ok(Some(t)) => {
                    self.push_token(t);
                    proof {
                        assert(done + scan(s, p).0 =~= done.push(t@) + scan(s, self.iter.pos() as int).0);
                        done = done.push(t@);
                    }
                },
                Ok(None) => {},
                Err(e) => {
                    assert(done + scan(s, p).0 =~= done);
                    return Err(e);
                },
            }
        }
        Ok(())
    }

    fn push_token(&mut self, t: Token)
        ensures
            final(self).iter == old(self).iter,
            final(self).tokens@ == old(self).tokens@.push(t),
            token_views(final(self).tokens@) == token_views(old(self).tokens@).push(t@),
    {
        self.tokens.push(t);
        assert(token_views(self.tokens@) =~= token_views(old(self).tokens@).push(t@));
    }
}

} // verus!
