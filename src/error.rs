use vstd::prelude::*;

verus! {

/// Everything that can go wrong while turning text into tokens.
#[derive(Debug, Clone)]
pub enum Error {
    /// A text is not the symbol of any operator or bracket.
    ParseStrToToken,
    /// An operator or bracket has no symbol.
    ParseTokenToStr,
    /// A numeric token has no fixed symbol.
    ParseValueToStr,
    /// A character outside the recognised set, with its character offset.
    UnknownSymbol(char, usize),
    /// A bracket has no partner.
    UnmatchedBracket,
    /// A numeric run that is not a number, with the run as it was read.
    ParsingNumber(String),
}

/// The mathematical value of an [`Error`]: its text fields become sequences.
pub enum ErrorModel {
    ParseStrToToken,
    ParseTokenToStr,
    ParseValueToStr,
    UnknownSymbol(char, usize),
    UnmatchedBracket,
    ParsingNumber(Seq<char>),
}

impl View for Error {
    type V = ErrorModel;

    open spec fn view(&self) -> ErrorModel {
        match self {
            Error::ParseStrToToken => ErrorModel::ParseStrToToken,
            Error::ParseTokenToStr => ErrorModel::ParseTokenToStr,
            Error::ParseValueToStr => ErrorModel::ParseValueToStr,
            Error::UnknownSymbol(c, p) => ErrorModel::UnknownSymbol(*c, *p),
            Error::UnmatchedBracket => ErrorModel::UnmatchedBracket,
            Error::ParsingNumber(s) => ErrorModel::ParsingNumber(s@),
        }
    }
}

impl PartialEq for Error {
    fn eq(&self, o: &Error) -> (r: bool) {
        match self {
            Error::ParseStrToToken => match o {
                Error::ParseStrToToken => true,
                _ => false,
            },
            Error::ParseTokenToStr => match o {
                Error::ParseTokenToStr => true,
                _ => false,
            },
            Error::ParseValueToStr => match o {
                Error::ParseValueToStr => true,
                _ => false,
            },
            Error::UnknownSymbol(c, p) => match o {
                Error::UnknownSymbol(d, q) => *c == *d && *p == *q,
                _ => false,
            },
            Error::UnmatchedBracket => match o {
                Error::UnmatchedBracket => true,
                _ => false,
            },
            Error::ParsingNumber(s) => match o {
                Error::ParsingNumber(t) => *s == *t,
                _ => false,
            },
        }
    }
}

impl vstd::std_specs::cmp::PartialEqSpecImpl for Error {
    open spec fn obeys_eq_spec() -> bool {
        true
    }

    open spec fn eq_spec(&self, o: &Error) -> bool {
        self@ == o@
    }
}

} // verus!
