//! The serializer's rules: how each host value shape becomes tokens, and
//! how a finished token stream becomes a document and then text.
use vstd::prelude::*;

use crate::builder::{build, build_model};
use crate::error::{Error, Shape};
use crate::render::{render, render_model};
use crate::text::{decimal, push_char, signed_decimal, signed_text, unsigned_text};
use crate::token::{stream_model, Token, TokenModel};
use vstd::utf8::encode_utf8;

verus! {

/// Collects the tokens of one host value as its shape is walked.
pub struct Serializer {
    tokens: Vec<Token>,
}

impl View for Serializer {
    type V = Seq<TokenModel>;

    closed spec fn view(&self) -> Seq<TokenModel> {
        stream_model(self.tokens@)
    }
}

/// The stream with the root key replaced or supplied.
///
/// A stream that starts with a string followed by more tokens already names
/// its root key (a struct's name): that key is replaced. Any other stream
/// (a bare scalar, a sequence, a map) gets the key in front.
pub open spec fn keyed(t: Seq<TokenModel>, key: Option<Seq<char>>) -> Seq<TokenModel> {
    match key {
        None => t,
        Some(k) => if t.len() >= 2 && t[0] is Str {
            t.update(0, TokenModel::Str(k))
        } else {
            seq![TokenModel::Str(k)] + t
        },
    }
}

pub open spec fn opt_str(key: Option<&str>) -> Option<Seq<char>> {
    match key {
        Some(k) => Some(k@),
        None => None,
    }
}

impl Serializer {
    /// A serializer that has emitted nothing yet.
    pub fn new() -> (r: Self)
        ensures
            r@ == Seq::<TokenModel>::empty(),
    {
        let r = Serializer { tokens: Vec::new() };
        assert(r@ =~= Seq::<TokenModel>::empty());
        r
    }

    /// The tokens emitted so far.
    pub fn tokens(&self) -> (r: &Vec<Token>)
        ensures
            stream_model(r@) == self@,
    {
        &self.tokens
    }

    fn emit(&mut self, t: Token)
        ensures
            final(self)@ == old(self)@.push(t@),
    {
        self.tokens.push(t);
        assert(self@ =~= old(self)@.push(t@));
    }

    /// A string is one string token.
    pub fn serialize_str(&mut self, v: &str)
        ensures
            final(self)@ == old(self)@.push(TokenModel::Str(v@)),
    {
        self.emit(Token::str(v));
    }

    /// A boolean is the string `1` or `0`.
    pub fn serialize_bool(&mut self, v: bool)
        ensures
            final(self)@ == old(self)@.push(TokenModel::Str(if v { seq!['1'] } else { seq!['0'] })),
    {
        let t = if v { signed_text(1) } else { signed_text(0) };
        assert(signed_decimal(1) =~= seq!['1']);
        assert(signed_decimal(0) =~= seq!['0']);
        self.emit(Token::Str(t));
    }

    /// A signed integer of any width is its decimal text.
    pub fn serialize_i128(&mut self, v: i128)
        ensures
            final(self)@ == old(self)@.push(TokenModel::Str(signed_decimal(v as int))),
    {
        self.emit(Token::Str(signed_text(v)));
    }

    /// An unsigned integer of any width is its decimal text.
    pub fn serialize_u128(&mut self, v: u128)
        ensures
            final(self)@ == old(self)@.push(TokenModel::Str(decimal(v as nat))),
    {
        self.emit(Token::Str(unsigned_text(v)));
    }

    /// A character is the one-character string.
    pub fn serialize_char(&mut self, v: char)
        ensures
            final(self)@ == old(self)@.push(TokenModel::Str(seq![v])),
    {
        let mut s = String::new();
        push_char(&mut s, v);
        assert(s@ =~= seq![v]);
        self.emit(Token::Str(s));
    }

    /// A float, given as whether it is finite and its decimal text: a
    /// finite one is that text, any other fails and emits nothing.
    pub fn serialize_float(&mut self, finite: bool, text: &str) -> (r: Result<(), Error>)
        ensures
            finite ==> r is Ok && final(self)@ == old(self)@.push(TokenModel::Str(text@)),
            !finite ==> r == Err::<(), Error>(Error::NonFiniteFloat) && final(self)@ == old(self)@,
    {
        if finite {
            self.serialize_str(text);
            Ok(())
        } else {
            Err(Error::NonFiniteFloat)
        }
    }

    /// An absent optional value is a null token.
    pub fn serialize_none(&mut self)
        ensures
            final(self)@ == old(self)@.push(TokenModel::Null),
    {
        self.emit(Token::Null);
    }

    /// A unit enum variant is its name.
    pub fn serialize_unit_variant(&mut self, variant: &str)
        ensures
            final(self)@ == old(self)@.push(TokenModel::Str(variant@)),
    {
        self.serialize_str(variant);
    }

    /// Byte strings have no representation.
    pub fn serialize_bytes(&mut self) -> (r: Result<(), Error>)
        ensures
            r == Err::<(), Error>(Error::Unsupported(Shape::Bytes)),
            final(self)@ == old(self)@,
    {
        Err(Error::Unsupported(Shape::Bytes))
    }

    /// The unit value has no representation.
    pub fn serialize_unit(&mut self) -> (r: Result<(), Error>)
        ensures
            r == Err::<(), Error>(Error::Unsupported(Shape::UnitType)),
            final(self)@ == old(self)@,
    {
        Err(Error::Unsupported(Shape::UnitType))
    }

    /// A unit struct has no representation.
    pub fn serialize_unit_struct(&mut self) -> (r: Result<(), Error>)
        ensures
            r == Err::<(), Error>(Error::Unsupported(Shape::UnitStruct)),
            final(self)@ == old(self)@,
    {
        Err(Error::Unsupported(Shape::UnitStruct))
    }

    /// An enum variant with one payload value has no representation.
    pub fn serialize_newtype_variant(&mut self) -> (r: Result<(), Error>)
        ensures
            r == Err::<(), Error>(Error::Unsupported(Shape::EnumNewtypeVariant)),
            final(self)@ == old(self)@,
    {
        Err(Error::Unsupported(Shape::EnumNewtypeVariant))
    }

    /// An enum variant with a tuple payload has no representation.
    pub fn serialize_tuple_variant(&mut self) -> (r: Result<(), Error>)
        ensures
            r == Err::<(), Error>(Error::Unsupported(Shape::EnumTupleVariant)),
            final(self)@ == old(self)@,
    {
        Err(Error::Unsupported(Shape::EnumTupleVariant))
    }

    /// An enum variant with named fields has no representation.
    pub fn serialize_struct_variant(&mut self) -> (r: Result<(), Error>)
        ensures
            r == Err::<(), Error>(Error::Unsupported(Shape::EnumStructVariant)),
            final(self)@ == old(self)@,
    {
        Err(Error::Unsupported(Shape::EnumStructVariant))
    }

    /// A sequence, tuple or tuple struct opens with a sequence token.
    pub fn serialize_seq(&mut self)
        ensures
            final(self)@ == old(self)@.push(TokenModel::SeqBegin),
    {
        self.emit(Token::SeqBegin);
    }

    /// The end of a sequence, tuple or tuple struct.
    pub fn end_seq(&mut self)
        ensures
            final(self)@ == old(self)@.push(TokenModel::SeqEnd),
    {
        self.emit(Token::SeqEnd);
    }

    /// A map opens a group; its keys and values follow in turn.
    pub fn serialize_map(&mut self)
        ensures
            final(self)@ == old(self)@.push(TokenModel::ObjBegin),
    {
        self.emit(Token::ObjBegin);
    }

    /// The end of a map or struct.
    pub fn end_map(&mut self)
        ensures
            final(self)@ == old(self)@.push(TokenModel::ObjEnd),
    {
        self.emit(Token::ObjEnd);
    }

    /// A struct opens a group; when it is the first thing emitted, its name
    /// comes first as the implicit root key.
    pub fn serialize_struct(&mut self, name: &str)
        ensures
            old(self)@.len() == 0 ==> final(self)@ == seq![TokenModel::Str(name@), TokenModel::ObjBegin],
            old(self)@.len() > 0 ==> final(self)@ == old(self)@.push(TokenModel::ObjBegin),
    {
        if self.tokens.len() == 0 {
            self.serialize_str(name);
            assert(self@ =~= seq![TokenModel::Str(name@)]);
        }
        self.serialize_map();
    }

    /// One named field of a struct: the name as a key, then the value.
    pub fn serialize_field_key(&mut self, key: &str)
        ensures
            final(self)@ == old(self)@.push(TokenModel::Str(key@)),
    {
        self.serialize_str(key);
    }

    /// Replaces or supplies the root key as `keyed` describes.
    pub fn set_root_key(&mut self, key: &str)
        ensures
            final(self)@ == keyed(old(self)@, Some(key@)),
    {
        let has_key = self.tokens.len() >= 2 && match &self.tokens[0] {
            Token::Str(_) => true,
            _ => false,
        };
        if has_key {
            self.tokens.set(0, Token::str(key));
            assert(self@ =~= keyed(old(self)@, Some(key@)));
        } else {
            self.tokens.insert(0, Token::str(key));
            assert(self@ =~= keyed(old(self)@, Some(key@)));
        }
    }
}

/// The text of the document that a token stream, keyed as asked, folds
/// into; or the structural error.
pub open spec fn encoded(t: Seq<TokenModel>, key: Option<Seq<char>>) -> Result<Seq<char>, Error> {
    match build_model(keyed(t, key)) {
        Ok(d) => Ok(render_model(d)),
        Err(e) => Err(Error::InvalidTokenStream(e)),
    }
}

pub open spec fn text_result_model(r: Result<String, Error>) -> Result<Seq<char>, Error> {
    match r {
        Ok(s) => Ok(s@),
        Err(e) => Err(e),
    }
}

fn encode(serializer: Serializer, maybe_key: Option<&str>) -> (r: Result<String, Error>)
    ensures
        text_result_model(r) == encoded(serializer@, opt_str(maybe_key)),
{
    let mut serializer = serializer;
    if let Some(key) = maybe_key {
        serializer.set_root_key(key);
    }
    match build(serializer.tokens()) {
        Ok(vdf) => Ok(render(&vdf)),
        Err(e) => Err(e),
    }
}

/// The text of everything the serializer collected; a struct's name is the
/// root key.
pub fn to_string(serializer: Serializer) -> (r: Result<String, Error>)
    ensures
        text_result_model(r) == encoded(serializer@, None),
{
    encode(serializer, None)
}

/// The text of everything the serializer collected, under the root key
/// `key`.
pub fn to_string_with_key(serializer: Serializer, key: &str) -> (r: Result<String, Error>)
    ensures
        text_result_model(r) == encoded(serializer@, Some(key@)),
{
    encode(serializer, Some(key))
}

fn write_text(writer: &mut Vec<u8>, serializer: Serializer, maybe_key: Option<&str>) -> (r: Result<(), Error>)
    ensures
        match encoded(serializer@, opt_str(maybe_key)) {
            Ok(text) => r is Ok && final(writer)@ == old(writer)@ + encode_utf8(text),
            Err(e) => r == Err::<(), Error>(e) && final(writer)@ == old(writer)@,
        },
{
    match encode(serializer, maybe_key) {
        Ok(text) => {
            let bytes = text.as_str().as_bytes();
            let mut i: usize = 0;
            while i < bytes.len()
                invariant
                    i <= bytes@.len(),
                    bytes@ == encode_utf8(text@),
                    writer@ == old(writer)@ + bytes@.subrange(0, i as int),
                decreases bytes.len() - i,
            {
                writer.push(bytes[i]);
                i = i + 1;
                assert(writer@ =~= old(writer)@ + bytes@.subrange(0, i as int));
            }
            assert(bytes@.subrange(0, bytes@.len() as int) =~= bytes@);
            Ok(())
        },
        Err(e) => Err(e),
    }
}

/// Appends the UTF-8 text of everything the serializer collected to
/// `writer`; on failure nothing is written.
pub fn to_writer(writer: &mut Vec<u8>, serializer: Serializer) -> (r: Result<(), Error>)
    ensures
        match encoded(serializer@, None) {
            Ok(text) => r is Ok && final(writer)@ == old(writer)@ + encode_utf8(text),
            Err(e) => r == Err::<(), Error>(e) && final(writer)@ == old(writer)@,
        },
{
    write_text(writer, serializer, None)
}

/// Appends the UTF-8 text of everything the serializer collected, under the
/// root key `key`, to `writer`; on failure nothing is written.
pub fn to_writer_with_key(writer: &mut Vec<u8>, serializer: Serializer, key: &str) -> (r: Result<(), Error>)
    ensures
        match encoded(serializer@, Some(key@)) {
            Ok(text) => r is Ok && final(writer)@ == old(writer)@ + encode_utf8(text),
            Err(e) => r == Err::<(), Error>(e) && final(writer)@ == old(writer)@,
        },
{
    write_text(writer, serializer, Some(key))
}

} // verus!
