use vstd::prelude::*;

verus! {

/// Model of one structural event.
pub enum TokenModel {
    Str(Seq<char>),
    ObjBegin,
    ObjEnd,
    SeqBegin,
    SeqEnd,
    Null,
}

/// One structural event of a flat token stream.
#[derive(Debug)]
pub enum Token {
    Str(String),
    ObjBegin,
    ObjEnd,
    SeqBegin,
    SeqEnd,
    Null,
}

impl View for Token {
    type V = TokenModel;

    open spec fn view(&self) -> TokenModel {
        match self {
            Token::Str(s) => TokenModel::Str(s@),
            Token::ObjBegin => TokenModel::ObjBegin,
            Token::ObjEnd => TokenModel::ObjEnd,
            Token::SeqBegin => TokenModel::SeqBegin,
            Token::SeqEnd => TokenModel::SeqEnd,
            Token::Null => TokenModel::Null,
        }
    }
}

/// The model of a whole stream: the model of each token, in order.
pub open spec fn stream_model(ts: Seq<Token>) -> Seq<TokenModel> {
    ts.map_values(|t: Token| t@)
}

impl Token {
    /// A string token holding a copy of `s`.
    pub fn str(s: &str) -> (r: Token)
        ensures
            r@ == TokenModel::Str(s@),
    {
        Token::Str(s.to_owned())
    }
}

} // verus!
