//! Folding a flat token stream into a document with an explicit stack of
//! open groups. The builder never recurses, so deep nesting costs heap
//! space for the stack rather than call depth.
use vstd::prelude::*;

use crate::error::{Error, TokenContext};
use crate::token::{stream_model, Token, TokenModel};
use crate::value::{entries_model, value_model, Value, ValueModel, Vdf, VdfModel};

verus! {

/// Model of one open group on the builder's stack.
///
/// `key` is the key the group will be bound to once it closes, `entries`
/// what it holds so far. `list` is the key of a sequence open directly
/// inside the group: its elements become entries under that key. A frame
/// with `bare_list` stands for a sequence at the top of the document, which
/// becomes a group of its own when the sequence ends.
pub struct FrameModel {
    pub key: Seq<char>,
    pub entries: Seq<(Seq<char>, ValueModel)>,
    pub list: Option<Seq<char>>,
    pub bare_list: bool,
}

/// What one token does to the builder's state.
pub enum StepModel {
    Continue(Seq<FrameModel>, Option<Seq<char>>),
    Finished(VdfModel),
    Fail(TokenContext),
}

/// A value for `key` is complete: it becomes the document when no group is
/// open, else the next entry of the innermost group.
pub open spec fn complete_model(stack: Seq<FrameModel>, key: Seq<char>, v: ValueModel) -> StepModel {
    if stack.len() == 0 {
        StepModel::Finished(VdfModel { key, value: v })
    } else {
        let f = stack.last();
        StepModel::Continue(
            stack.update(stack.len() - 1, FrameModel { entries: f.entries.push((key, v)), ..f }),
            None,
        )
    }
}

/// The state change for one token. `pending` holds the key whose value is
/// expected next; without it the builder expects a key (or the end of the
/// innermost group), or, inside a sequence, an element. Where a key is
/// expected, any token but a string (a map key that is itself a group, a
/// sequence or absent) is `ExpectedSomeVal`.
pub open spec fn step_model(
    stack: Seq<FrameModel>,
    pending: Option<Seq<char>>,
    tok: TokenModel,
) -> StepModel {
    match pending {
        Some(k) => match tok {
            TokenModel::Str(s) => complete_model(stack, k, ValueModel::Str(s)),
            TokenModel::ObjBegin => StepModel::Continue(
                stack.push(FrameModel { key: k, entries: Seq::empty(), list: None, bare_list: false }),
                None,
            ),
            TokenModel::SeqBegin => if stack.len() == 0 {
                StepModel::Continue(
                    seq![FrameModel { key: k, entries: Seq::empty(), list: Some(k), bare_list: true }],
                    None,
                )
            } else {
                StepModel::Continue(
                    stack.update(stack.len() - 1, FrameModel { list: Some(k), ..stack.last() }),
                    None,
                )
            },
            TokenModel::Null => if stack.len() == 0 {
                StepModel::Fail(TokenContext::ExpectedSomeVal)
            } else {
                StepModel::Continue(stack, None)
            },
            _ => StepModel::Fail(TokenContext::ExpectedSomeVal),
        },
        None => if stack.len() == 0 {
            match tok {
                TokenModel::Str(k) => StepModel::Continue(stack, Some(k)),
                _ => StepModel::Fail(TokenContext::ExpectedSomeVal),
            }
        } else {
            let f = stack.last();
            match f.list {
                Some(lk) => match tok {
                    TokenModel::Str(s) => complete_model(stack, lk, ValueModel::Str(s)),
                    TokenModel::ObjBegin => StepModel::Continue(
                        stack.push(FrameModel { key: lk, entries: Seq::empty(), list: None, bare_list: false }),
                        None,
                    ),
                    TokenModel::Null => StepModel::Continue(stack, None),
                    TokenModel::SeqEnd => if f.bare_list {
                        StepModel::Finished(VdfModel { key: f.key, value: ValueModel::Obj(f.entries) })
                    } else {
                        StepModel::Continue(
                            stack.update(stack.len() - 1, FrameModel { list: None, ..f }),
                            None,
                        )
                    },
                    TokenModel::SeqBegin => StepModel::Fail(TokenContext::ExpectedNonSeqVal),
                    _ => StepModel::Fail(TokenContext::ExpectedSomeVal),
                },
                None => match tok {
                    TokenModel::Str(k) => StepModel::Continue(stack, Some(k)),
                    TokenModel::ObjEnd => complete_model(
                        stack.drop_last(),
                        f.key,
                        ValueModel::Obj(f.entries),
                    ),
                    _ => StepModel::Fail(TokenContext::ExpectedSomeVal),
                },
            }
        },
    }
}

/// The error for a stream that ends in the given state.
pub open spec fn eof_model(stack: Seq<FrameModel>, pending: Option<Seq<char>>) -> TokenContext {
    if pending is Some {
        TokenContext::EofWhileParsingVal
    } else if stack.len() == 0 {
        TokenContext::EofWhileParsingKey
    } else if stack.last().list is Some {
        TokenContext::EofWhileParsingSeq
    } else {
        TokenContext::EofWhileParsingObj
    }
}

/// Runs the builder over `t` from position `pos` in the given state.
pub open spec fn run_model(
    t: Seq<TokenModel>,
    pos: int,
    stack: Seq<FrameModel>,
    pending: Option<Seq<char>>,
) -> Result<VdfModel, TokenContext>
    decreases t.len() - pos,
{
    if pos >= t.len() {
        Err(eof_model(stack, pending))
    } else {
        match step_model(stack, pending, t[pos]) {
            StepModel::Continue(s, p) => run_model(t, pos + 1, s, p),
            StepModel::Finished(d) => if pos + 1 < t.len() {
                Err(TokenContext::TrailingTokens)
            } else {
                Ok(d)
            },
            StepModel::Fail(e) => Err(e),
        }
    }
}

/// The document a token stream folds into, or the structural error.
pub open spec fn build_model(t: Seq<TokenModel>) -> Result<VdfModel, TokenContext> {
    run_model(t, 0, Seq::empty(), None)
}

/// The model of a builder result, errors wrapped as the library's error.
pub open spec fn built(r: Result<VdfModel, TokenContext>) -> Result<VdfModel, Error> {
    match r {
        Ok(d) => Ok(d),
        Err(e) => Err(Error::InvalidTokenStream(e)),
    }
}

pub open spec fn vdf_result_model(r: Result<Vdf, Error>) -> Result<VdfModel, Error> {
    match r {
        Ok(d) => Ok(d.model()),
        Err(e) => Err(e),
    }
}

struct Frame {
    key: String,
    entries: Vec<(String, Value)>,
    list: Option<String>,
    bare_list: bool,
}

enum Outcome {
    Continue(Option<String>),
    Finished(Vdf),
    Fail(TokenContext),
}

spec fn opt_model(o: Option<String>) -> Option<Seq<char>> {
    match o {
        Some(s) => Some(s@),
        None => None,
    }
}

spec fn frame_model(f: Frame) -> FrameModel {
    FrameModel {
        key: f.key@,
        entries: entries_model(f.entries@),
        list: opt_model(f.list),
        bare_list: f.bare_list,
    }
}

spec fn stack_model(s: Seq<Frame>) -> Seq<FrameModel> {
    s.map_values(|f: Frame| frame_model(f))
}

spec fn outcome_matches(stack: Seq<Frame>, o: Outcome, m: StepModel) -> bool {
    match m {
        StepModel::Continue(s, p) => o matches Outcome::Continue(q) && stack_model(stack) == s
            && opt_model(q) == p,
        StepModel::Finished(d) => o matches Outcome::Finished(v) && v.model() == d,
        StepModel::Fail(e) => o == Outcome::Fail(e),
    }
}

proof fn lemma_entries_push(es: Seq<(String, Value)>, e: (String, Value))
    ensures
        entries_model(es.push(e)) == entries_model(es).push((e.0@, value_model(e.1))),
{
    assert(es.push(e).drop_last() =~= es);
}

fn complete(stack: &mut Vec<Frame>, key: String, v: Value) -> (r: Outcome)
    ensures
        outcome_matches(final(stack)@, r, complete_model(stack_model(old(stack)@), key@, value_model(v))),
{
    let ghost old_model = stack_model(stack@);
    match stack.pop() {
        None => Outcome::Finished(Vdf { key, value: v }),
        Some(f) => {
            let mut f = f;
            let ghost e = (key, v);
            proof {
                lemma_entries_push(f.entries@, e);
            }
            f.entries.push((key, v));
            stack.push(f);
            assert(stack_model(stack@) =~= old_model.update(
                old_model.len() - 1,
                FrameModel { entries: old_model.last().entries.push((key@, value_model(v))), ..old_model.last() },
            ));
            Outcome::Continue(None)
        },
    }
}

fn push_frame(stack: &mut Vec<Frame>, f: Frame)
    ensures
        stack_model(final(stack)@) == stack_model(old(stack)@).push(frame_model(f)),
{
    stack.push(f);
    assert(stack_model(stack@) =~= stack_model(old(stack)@).push(frame_model(f)));
}

fn step(stack: &mut Vec<Frame>, pending: Option<String>, tok: &Token) -> (r: Outcome)
    ensures
        outcome_matches(final(stack)@, r, step_model(stack_model(old(stack)@), opt_model(pending), tok@)),
{
    let ghost s0 = stack_model(stack@);
    match pending {
        Some(k) => match tok {
            Token::Str(s) => complete(stack, k, Value::Str(s.clone())),
            Token::ObjBegin => {
                push_frame(stack, Frame { key: k, entries: Vec::new(), list: None, bare_list: false });
                Outcome::Continue(None)
            },
            Token::SeqBegin => {
                match stack.pop() {
                    None => {
                        push_frame(stack, Frame { key: k.clone(), entries: Vec::new(), list: Some(k), bare_list: true });
                        assert(stack_model(stack@) =~= seq![
                            FrameModel { key: k@, entries: Seq::empty(), list: Some(k@), bare_list: true },
                        ]);
                    },
                    Some(f) => {
                        assert(s0.last() == frame_model(f));
                        let Frame { key, entries, list: _, bare_list } = f;
                        push_frame(stack, Frame { key, entries, list: Some(k), bare_list });
                        assert(stack_model(stack@) =~= s0.update(s0.len() - 1, FrameModel { list: Some(k@), ..s0.last() }));
                    },
                }
                Outcome::Continue(None)
            },
            Token::Null => {
                if stack.len() == 0 {
                    Outcome::Fail(TokenContext::ExpectedSomeVal)
                } else {
                    Outcome::Continue(None)
                }
            },
            _ => Outcome::Fail(TokenContext::ExpectedSomeVal),
        },
        None => match stack.pop() {
            None => match tok {
                Token::Str(s) => Outcome::Continue(Some(s.clone())),
                _ => Outcome::Fail(TokenContext::ExpectedSomeVal),
            },
            Some(f) => {
                assert(s0.last() == frame_model(f));
                let Frame { key, entries, list, bare_list } = f;
                assert(stack_model(stack@) =~= s0.drop_last());
                match list {
                    Some(lk) => match tok {
                        Token::Str(s) => {
                            push_frame(stack, Frame { key, entries, list: Some(lk.clone()), bare_list });
                            assert(stack_model(stack@) =~= s0);
                            complete(stack, lk, Value::Str(s.clone()))
                        },
                        Token::ObjBegin => {
                            push_frame(stack, Frame { key, entries, list: Some(lk.clone()), bare_list });
                            assert(stack_model(stack@) =~= s0);
                            push_frame(stack, Frame { key: lk, entries: Vec::new(), list: None, bare_list: false });
                            Outcome::Continue(None)
                        },
                        Token::Null => {
                            push_frame(stack, Frame { key, entries, list: Some(lk), bare_list });
                            assert(stack_model(stack@) =~= s0);
                            Outcome::Continue(None)
                        },
                        Token::SeqEnd => {
                            if bare_list {
                                Outcome::Finished(Vdf { key, value: Value::Obj(entries) })
                            } else {
                                push_frame(stack, Frame { key, entries, list: None, bare_list });
                                assert(stack_model(stack@) =~= s0.update(s0.len() - 1, FrameModel { list: None, ..s0.last() }));
                                Outcome::Continue(None)
                            }
                        },
                        Token::SeqBegin => Outcome::Fail(TokenContext::ExpectedNonSeqVal),
                        _ => Outcome::Fail(TokenContext::ExpectedSomeVal),
                    },
                    None => match tok {
                        Token::Str(s) => {
                            push_frame(stack, Frame { key, entries, list: None, bare_list });
                            assert(stack_model(stack@) =~= s0);
                            Outcome::Continue(Some(s.clone()))
                        },
                        Token::ObjEnd => complete(stack, key, Value::Obj(entries)),
                        _ => Outcome::Fail(TokenContext::ExpectedSomeVal),
                    },
                }
            },
        },
    }
}

/// Folds a token stream into a document.
///
/// The result is exactly what the structural grammar gives for the stream:
/// a document, or the one structural error it breaks first. No other error
/// can come out.
pub fn build(tokens: &Vec<Token>) -> (r: Result<Vdf, Error>)
    ensures
        vdf_result_model(r) == built(build_model(stream_model(tokens@))),
        r is Err ==> r->Err_0 is InvalidTokenStream,
{
    let ghost t = stream_model(tokens@);
    let mut stack: Vec<Frame> = Vec::new();
    let mut pending: Option<String> = None;
    let mut i: usize = 0;
    assert(stack_model(stack@) =~= Seq::<FrameModel>::empty());
    while i < tokens.len()
        invariant
            0 <= i <= tokens.len(),
            t == stream_model(tokens@),
            run_model(t, i as int, stack_model(stack@), opt_model(pending)) == build_model(t),
        decreases tokens.len() - i,
    {
        let p = pending.take();
        match step(&mut stack, p, &tokens[i]) {
            Outcome::Continue(q) => {
                pending = q;
                i = i + 1;
            },
            Outcome::Finished(d) => {
                if i + 1 < tokens.len() {
                    return Err(Error::InvalidTokenStream(TokenContext::TrailingTokens));
                }
                return Ok(d);
            },
            Outcome::Fail(e) => {
                return Err(Error::InvalidTokenStream(e));
            },
        }
    }
    let e = if pending.is_some() {
        TokenContext::EofWhileParsingVal
    } else if stack.len() == 0 {
        TokenContext::EofWhileParsingKey
    } else if stack[stack.len() - 1].list.is_some() {
        TokenContext::EofWhileParsingSeq
    } else {
        TokenContext::EofWhileParsingObj
    };
    Err(Error::InvalidTokenStream(e))
}

} // verus!
