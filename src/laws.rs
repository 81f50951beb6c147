//! Properties that relate several calls of the builder and flattener.
use vstd::prelude::*;

use crate::builder::{build_model, run_model, FrameModel};
use crate::error::TokenContext;
use crate::flatten::{flatten_model, lemma_build_flatten};
use crate::token::{stream_model, Token, TokenModel};
use crate::value::{lookup, values_for, ValueModel, VdfModel};

verus! {

/// The string tokens of a list of scalars.
pub open spec fn str_tokens(xs: Seq<Seq<char>>) -> Seq<TokenModel> {
    xs.map_values(|x: Seq<char>| TokenModel::Str(x))
}

/// The entries that a list of scalars bound to one key becomes.
pub open spec fn keyed_entries(k: Seq<char>, xs: Seq<Seq<char>>) -> Seq<(Seq<char>, ValueModel)> {
    xs.map_values(|x: Seq<char>| (k, ValueModel::Str(x)))
}

/// A document whose root group binds field `f` to a sequence of scalars.
pub open spec fn list_document(root: Seq<char>, f: Seq<char>, xs: Seq<Seq<char>>) -> Seq<TokenModel> {
    seq![TokenModel::Str(root), TokenModel::ObjBegin, TokenModel::Str(f), TokenModel::SeqBegin]
        + str_tokens(xs) + seq![TokenModel::SeqEnd, TokenModel::ObjEnd]
}

/// Two builds of streams with the same tokens give the same result.
pub proof fn lemma_build_deterministic(a: Seq<Token>, b: Seq<Token>)
    requires
        stream_model(a) == stream_model(b),
    ensures
        build_model(stream_model(a)) == build_model(stream_model(b)),
{
}

proof fn lemma_run_list(t: Seq<TokenModel>, pos: int, stack: Seq<FrameModel>, xs: Seq<Seq<char>>)
    requires
        stack.len() > 0,
        stack.last().list is Some,
        0 <= pos,
        pos + xs.len() <= t.len(),
        t.subrange(pos, pos + xs.len()) == str_tokens(xs),
    ensures
        run_model(t, pos, stack, None) == run_model(
            t,
            pos + xs.len(),
            stack.update(
                stack.len() - 1,
                FrameModel {
                    entries: stack.last().entries + keyed_entries(stack.last().list->Some_0, xs),
                    ..stack.last()
                },
            ),
            None,
        ),
    decreases xs.len(),
{
    let last = stack.last();
    let k = last.list->Some_0;
    if xs.len() == 0 {
        assert(last.entries + keyed_entries(k, xs) =~= last.entries);
        assert(stack.update(stack.len() - 1, FrameModel { entries: last.entries, ..last }) =~= stack);
    } else {
        let n = xs.len() - 1;
        let xs0 = xs.drop_last();
        assert(t.subrange(pos, pos + n) =~= str_tokens(xs0)) by {
            assert forall|j: int| 0 <= j < n implies #[trigger] t.subrange(pos, pos + n)[j]
                == str_tokens(xs0)[j] by {
                assert(t.subrange(pos, pos + xs.len())[j] == t[pos + j]);
            }
        }
        lemma_run_list(t, pos, stack, xs0);
        let s1 = stack.update(stack.len() - 1, FrameModel { entries: last.entries + keyed_entries(k, xs0), ..last });
        assert(t.subrange(pos, pos + xs.len())[n] == t[pos + n]);
        assert(t[pos + n] == TokenModel::Str(xs[n]));
        assert((last.entries + keyed_entries(k, xs0)).push((k, ValueModel::Str(xs[n]))) =~= last.entries
            + keyed_entries(k, xs));
        assert(s1.update(s1.len() - 1, FrameModel { entries: s1.last().entries.push((k, ValueModel::Str(xs[n]))), ..s1.last() })
            =~= stack.update(stack.len() - 1, FrameModel { entries: last.entries + keyed_entries(k, xs), ..last }));
    }
}

proof fn lemma_values_for_keyed(f: Seq<char>, xs: Seq<Seq<char>>)
    ensures
        values_for(keyed_entries(f, xs), f) == xs.map_values(|x: Seq<char>| ValueModel::Str(x)),
    decreases xs.len(),
{
    if xs.len() == 0 {
        assert(xs.map_values(|x: Seq<char>| ValueModel::Str(x)) =~= Seq::<ValueModel>::empty());
    } else {
        let xs0 = xs.drop_last();
        lemma_values_for_keyed(f, xs0);
        assert(keyed_entries(f, xs).drop_last() =~= keyed_entries(f, xs0));
        assert(xs.map_values(|x: Seq<char>| ValueModel::Str(x)) =~= xs0.map_values(
            |x: Seq<char>| ValueModel::Str(x),
        ).push(ValueModel::Str(xs.last())));
    }
}

/// A field bound to a sequence of scalars becomes one entry per element,
/// each under the field's name, in the sequence's order; flattening that
/// document and building it again keeps every entry, in order; and reading
/// the field back as a sequence yields the scalars in their order.
pub proof fn lemma_repeated_keys_kept(root: Seq<char>, f: Seq<char>, xs: Seq<Seq<char>>)
    ensures
        build_model(list_document(root, f, xs)) == Ok::<VdfModel, TokenContext>(
            VdfModel { key: root, value: ValueModel::Obj(keyed_entries(f, xs)) },
        ),
        build_model(flatten_model(VdfModel { key: root, value: ValueModel::Obj(keyed_entries(f, xs)) }))
            == Ok::<VdfModel, TokenContext>(
            VdfModel { key: root, value: ValueModel::Obj(keyed_entries(f, xs)) },
        ),
        lookup(ValueModel::Obj(keyed_entries(f, xs)), f) == xs.map_values(|x: Seq<char>| ValueModel::Str(x)),
{
    lemma_values_for_keyed(f, xs);
    let t = list_document(root, f, xs);
    let n = xs.len() as int;
    let g = FrameModel { key: root, entries: Seq::empty(), list: None, bare_list: false };
    let s0 = seq![g];
    let s1 = seq![FrameModel { list: Some(f), ..g }];
    assert(t[0] == TokenModel::Str(root));
    assert(t[1] == TokenModel::ObjBegin);
    assert(t[2] == TokenModel::Str(f));
    assert(t[3] == TokenModel::SeqBegin);
    assert(Seq::<FrameModel>::empty().push(g) =~= s0);
    assert(s0.update(0, FrameModel { list: Some(f), ..s0.last() }) =~= s1);
    assert(run_model(t, 0, Seq::empty(), None) == run_model(t, 1, Seq::empty(), Some(root)));
    assert(run_model(t, 1, Seq::empty(), Some(root)) == run_model(t, 2, s0, None));
    assert(run_model(t, 2, s0, None) == run_model(t, 3, s0, Some(f)));
    assert(run_model(t, 3, s0, Some(f)) == run_model(t, 4, s1, None));
    assert(t.subrange(4, 4 + n) =~= str_tokens(xs));
    lemma_run_list(t, 4, s1, xs);
    let s2 = seq![FrameModel { entries: keyed_entries(f, xs), list: Some(f), ..g }];
    assert(s1.update(0, FrameModel { entries: s1.last().entries + keyed_entries(f, xs), ..s1.last() }) =~= s2);
    assert(t[4 + n] == TokenModel::SeqEnd);
    assert(t[5 + n] == TokenModel::ObjEnd);
    let s3 = s2.update(0, FrameModel { list: None, ..s2.last() });
    assert(run_model(t, 4 + n, s2, None) == run_model(t, 5 + n, s3, None));
    assert(s3.drop_last() =~= Seq::<FrameModel>::empty());
    assert(run_model(t, 5 + n, s3, None) == Ok::<VdfModel, TokenContext>(
        VdfModel { key: root, value: ValueModel::Obj(keyed_entries(f, xs)) },
    ));
    lemma_build_flatten(VdfModel { key: root, value: ValueModel::Obj(keyed_entries(f, xs)) });
}

} // verus!
