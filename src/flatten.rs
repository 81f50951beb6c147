//! Walking a document back into a flat token stream.
use vstd::prelude::*;

use crate::builder::{build_model, complete_model, run_model, FrameModel, StepModel};
use crate::error::TokenContext;
use crate::token::{stream_model, Token, TokenModel};
use crate::value::{entries_model, value_model, Value, ValueModel, Vdf, VdfModel};

verus! {

/// The tokens of a value: a scalar is one string token, a group is its
/// entries, each a key token and the value's tokens, between the group's
/// begin and end tokens.
pub open spec fn flat_value(v: ValueModel) -> Seq<TokenModel>
    decreases v, 1nat,
{
    match v {
        ValueModel::Str(s) => seq![TokenModel::Str(s)],
        ValueModel::Obj(es) => seq![TokenModel::ObjBegin] + flat_entries(es) + seq![TokenModel::ObjEnd],
    }
}

/// The tokens of a group's entries, in stored order.
pub open spec fn flat_entries(es: Seq<(Seq<char>, ValueModel)>) -> Seq<TokenModel>
    decreases es, 0nat,
{
    if es.len() == 0 {
        Seq::empty()
    } else {
        flat_entries(es.drop_last()) + seq![TokenModel::Str(es.last().0)] + flat_value(es.last().1)
    }
}

/// The tokens of a document: its root key, then its value.
pub open spec fn flatten_model(d: VdfModel) -> Seq<TokenModel> {
    seq![TokenModel::Str(d.key)] + flat_value(d.value)
}

fn flatten_value_into(v: &Value, out: &mut Vec<Token>)
    ensures
        stream_model(final(out)@) == stream_model(old(out)@) + flat_value(value_model(*v)),
    decreases v,
{
    let ghost start = stream_model(out@);
    match v {
        Value::Str(s) => {
            out.push(Token::Str(s.clone()));
            assert(stream_model(out@) =~= start + flat_value(value_model(*v)));
        },
        Value::Obj(es) => {
            out.push(Token::ObjBegin);
            assert(stream_model(out@) =~= start + seq![TokenModel::ObjBegin]);
            let mut i: usize = 0;
            while i < es.len()
                invariant
                    i <= es.len(),
                    *v == Value::Obj(*es),
                    stream_model(out@) == start + seq![TokenModel::ObjBegin] + flat_entries(
                        entries_model(es@.subrange(0, i as int)),
                    ),
                decreases es.len() - i,
            {
                let ghost before = stream_model(out@);
                let ghost m = entries_model(es@.subrange(0, i as int));
                out.push(Token::Str(es[i].0.clone()));
                proof {
                    vstd::std_specs::vec::axiom_vec_index_decreases(*es, i as int);
                    assert(decreases_to!(*v => v->Obj_0));
                    assert(decreases_to!(*v => es[i as int].1));
                }
                flatten_value_into(&es[i].1, out);
                proof {
                    let e = es@[i as int];
                    assert(es@.subrange(0, i + 1).drop_last() =~= es@.subrange(0, i as int));
                    let m2 = entries_model(es@.subrange(0, i + 1));
                    assert(m2 == m.push((e.0@, value_model(e.1))));
                    assert(m2.drop_last() =~= m);
                    assert(stream_model(out@) =~= before + seq![TokenModel::Str(e.0@)] + flat_value(
                        value_model(e.1),
                    ));
                }
                i = i + 1;
            }
            let ghost inner = stream_model(out@);
            out.push(Token::ObjEnd);
            assert(stream_model(out@) =~= inner + seq![TokenModel::ObjEnd]);
            assert(es@.subrange(0, es@.len() as int) =~= es@);
            assert(flat_value(value_model(*v)) == seq![TokenModel::ObjBegin] + flat_entries(entries_model(es@))
                + seq![TokenModel::ObjEnd]);
            assert(stream_model(out@) =~= start + flat_value(value_model(*v)));
        },
    }
}

/// Turns a document into the token stream that names its root key and then
/// walks its value, entries in stored order, repeated keys as repeated
/// entries. No sequence or null token is ever produced.
pub fn flatten(vdf: &Vdf) -> (r: Vec<Token>)
    ensures
        stream_model(r@) == flatten_model(vdf.model()),
{
    let mut out: Vec<Token> = Vec::new();
    out.push(Token::Str(vdf.key.clone()));
    assert(stream_model(out@) =~= seq![TokenModel::Str(vdf.key@)]);
    flatten_value_into(&vdf.value, &mut out);
    out
}

/// What a run of the builder does from position `next` once a step has
/// given `m`.
spec fn resume(t: Seq<TokenModel>, next: int, m: StepModel) -> Result<VdfModel, TokenContext> {
    match m {
        StepModel::Continue(s, p) => run_model(t, next, s, p),
        StepModel::Finished(d) => if next < t.len() {
            Err(TokenContext::TrailingTokens)
        } else {
            Ok(d)
        },
        StepModel::Fail(e) => Err(e),
    }
}

proof fn lemma_slice(t: Seq<TokenModel>, pos: int, whole: Seq<TokenModel>, off: int, len: int)
    requires
        0 <= pos,
        pos + whole.len() <= t.len(),
        t.subrange(pos, pos + whole.len()) == whole,
        0 <= off,
        0 <= len,
        off + len <= whole.len(),
    ensures
        t.subrange(pos + off, pos + off + len) == whole.subrange(off, off + len),
{
    assert forall|j: int| 0 <= j < len implies #[trigger] t.subrange(pos + off, pos + off + len)[j]
        == whole.subrange(off, off + len)[j] by {
        assert(t.subrange(pos, pos + whole.len())[off + j] == t[pos + off + j]);
    }
    assert(t.subrange(pos + off, pos + off + len) =~= whole.subrange(off, off + len));
}

proof fn lemma_at(t: Seq<TokenModel>, pos: int, whole: Seq<TokenModel>, off: int)
    requires
        0 <= pos,
        pos + whole.len() <= t.len(),
        t.subrange(pos, pos + whole.len()) == whole,
        0 <= off < whole.len(),
    ensures
        t[pos + off] == whole[off],
{
    assert(t.subrange(pos, pos + whole.len())[off] == t[pos + off]);
}

proof fn lemma_run_value(
    t: Seq<TokenModel>,
    pos: int,
    stack: Seq<FrameModel>,
    k: Seq<char>,
    v: ValueModel,
)
    requires
        0 <= pos,
        pos + flat_value(v).len() <= t.len(),
        t.subrange(pos, pos + flat_value(v).len()) == flat_value(v),
        stack.len() == 0 || stack.last().list is None,
    ensures
        run_model(t, pos, stack, Some(k)) == resume(t, pos + flat_value(v).len(), complete_model(stack, k, v)),
    decreases v, 1nat,
{
    let f = flat_value(v);
    lemma_at(t, pos, f, 0);
    match v {
        ValueModel::Str(s) => {},
        ValueModel::Obj(es) => {
            let n = flat_entries(es).len() as int;
            let fr = FrameModel { key: k, entries: Seq::empty(), list: None, bare_list: false };
            let s1 = stack.push(fr);
            assert(run_model(t, pos, stack, Some(k)) == run_model(t, pos + 1, s1, None));
            lemma_slice(t, pos, f, 1, n);
            assert(f.subrange(1, 1 + n) =~= flat_entries(es));
            lemma_run_entries(t, pos + 1, s1, es);
            let s2 = s1.update(s1.len() - 1, FrameModel { entries: s1.last().entries + es, ..s1.last() });
            lemma_at(t, pos, f, 1 + n);
            assert(s2.last().entries =~= es);
            assert(s2.drop_last() =~= stack);
            assert(run_model(t, pos + 1 + n, s2, None) == resume(t, pos + 2 + n, complete_model(stack, k, v)));
        },
    }
}

proof fn lemma_run_entries(
    t: Seq<TokenModel>,
    pos: int,
    stack: Seq<FrameModel>,
    es: Seq<(Seq<char>, ValueModel)>,
)
    requires
        stack.len() > 0,
        stack.last().list is None,
        0 <= pos,
        pos + flat_entries(es).len() <= t.len(),
        t.subrange(pos, pos + flat_entries(es).len()) == flat_entries(es),
    ensures
        run_model(t, pos, stack, None) == run_model(
            t,
            pos + flat_entries(es).len(),
            stack.update(stack.len() - 1, FrameModel { entries: stack.last().entries + es, ..stack.last() }),
            None,
        ),
    decreases es, 0nat,
{
    let last = stack.last();
    if es.len() == 0 {
        assert(last.entries + es =~= last.entries);
        assert(stack.update(stack.len() - 1, FrameModel { entries: last.entries + es, ..last }) =~= stack);
    } else {
        let f = flat_entries(es);
        let es0 = es.drop_last();
        let (k, v) = es.last();
        let m0 = flat_entries(es0).len() as int;
        let nv = flat_value(v).len() as int;
        lemma_slice(t, pos, f, 0, m0);
        assert(f.subrange(0, m0) =~= flat_entries(es0));
        lemma_run_entries(t, pos, stack, es0);
        let s1 = stack.update(stack.len() - 1, FrameModel { entries: last.entries + es0, ..last });
        lemma_at(t, pos, f, m0);
        assert(run_model(t, pos + m0, s1, None) == run_model(t, pos + m0 + 1, s1, Some(k)));
        lemma_slice(t, pos, f, m0 + 1, nv);
        assert(f.subrange(m0 + 1, m0 + 1 + nv) =~= flat_value(v));
        lemma_run_value(t, pos + m0 + 1, s1, k, v);
        assert((last.entries + es0).push((k, v)) =~= last.entries + es);
        assert(s1.update(s1.len() - 1, FrameModel { entries: s1.last().entries.push((k, v)), ..s1.last() })
            =~= stack.update(stack.len() - 1, FrameModel { entries: last.entries + es, ..last }));
    }
}

/// Flattening a document and building the result gives the document back:
/// same root key, same entries in the same order, repeated keys kept.
pub proof fn lemma_build_flatten(d: VdfModel)
    ensures
        build_model(flatten_model(d)) == Ok::<VdfModel, TokenContext>(d),
{
    let t = flatten_model(d);
    let f = flat_value(d.value);
    assert(t.subrange(1, 1 + f.len() as int) =~= f);
    assert(run_model(t, 0, Seq::empty(), None) == run_model(t, 1, Seq::empty(), Some(d.key)));
    lemma_run_value(t, 1, Seq::empty(), d.key, d.value);
}

} // verus!
