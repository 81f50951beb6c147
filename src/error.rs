use vstd::prelude::*;

verus! {

/// The precise reason a token stream could not be folded into a document.
#[derive(Clone, Copy, Debug, PartialEq, Eq, Structural)]
pub enum TokenContext {
    EofWhileParsingKey,
    EofWhileParsingVal,
    EofWhileParsingSeq,
    EofWhileParsingObj,
    ExpectedSomeVal,
    ExpectedNonSeqVal,
    TrailingTokens,
}

/// The human-readable description of each structural error.
pub open spec fn context_message(c: TokenContext) -> Seq<char> {
    match c {
        TokenContext::EofWhileParsingKey => "Token stream ended when needed key"@,
        TokenContext::EofWhileParsingVal => "Token stream ended when needed value"@,
        TokenContext::EofWhileParsingSeq => "Token stream ended when parsing sequence"@,
        TokenContext::EofWhileParsingObj => "Token stream ended when parsing object"@,
        TokenContext::ExpectedSomeVal => "Found invalid token when expecting value"@,
        TokenContext::ExpectedNonSeqVal => "Found invalid token when expecing non sequence value"@,
        TokenContext::TrailingTokens => "Trailing tokens after finishing conversion"@,
    }
}

impl TokenContext {
    /// Describes the error in words.
    pub fn message(&self) -> (r: &'static str)
        ensures
            r@ == context_message(*self),
    {
        match self {
            TokenContext::EofWhileParsingKey => "Token stream ended when needed key",
            TokenContext::EofWhileParsingVal => "Token stream ended when needed value",
            TokenContext::EofWhileParsingSeq => "Token stream ended when parsing sequence",
            TokenContext::EofWhileParsingObj => "Token stream ended when parsing object",
            TokenContext::ExpectedSomeVal => "Found invalid token when expecting value",
            TokenContext::ExpectedNonSeqVal => "Found invalid token when expecing non sequence value",
            TokenContext::TrailingTokens => "Trailing tokens after finishing conversion",
        }
    }
}

/// A host value shape that has no representation in the format.
#[derive(Clone, Copy, Debug, PartialEq, Eq, Structural)]
pub enum Shape {
    Bytes,
    UnitType,
    UnitStruct,
    EnumNewtypeVariant,
    EnumTupleVariant,
    EnumStructVariant,
}

/// Every way encoding or decoding can fail.
#[derive(Debug)]
pub enum Error {
    /// Text that the grammar could not read, with its diagnostic.
    ParseError(String),
    /// A token stream that breaks the structural grammar.
    InvalidTokenStream(TokenContext),
    /// A float that is infinite or not a number.
    NonFiniteFloat,
    /// A host value shape with no legal representation.
    Unsupported(Shape),
}

impl From<TokenContext> for Error {
    fn from(context: TokenContext) -> (r: Error)
        ensures
            r == Error::InvalidTokenStream(context),
    {
        Error::InvalidTokenStream(context)
    }
}

impl vstd::std_specs::convert::FromSpecImpl<TokenContext> for Error {
    open spec fn obeys_from_spec() -> bool {
        true
    }

    open spec fn from_spec(context: TokenContext) -> Error {
        Error::InvalidTokenStream(context)
    }
}

} // verus!
