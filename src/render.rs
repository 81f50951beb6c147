//! Rendering a document as KeyValues text.
use vstd::prelude::*;
use vstd::std_specs::iter::IteratorSpec;

use crate::text::{push_char, push_str};
use crate::value::{entries_model, value_model, Value, ValueModel, Vdf, VdfModel};

verus! {

/// The escaped form of one character: backslash, quote, newline, carriage
/// return and tab become two-character escapes.
pub open spec fn escape_char(c: char) -> Seq<char> {
    if c == '\\' {
        seq!['\\', '\\']
    } else if c == '"' {
        seq!['\\', '"']
    } else if c == '\n' {
        seq!['\\', 'n']
    } else if c == '\r' {
        seq!['\\', 'r']
    } else if c == '\t' {
        seq!['\\', 't']
    } else {
        seq![c]
    }
}

pub open spec fn escape(s: Seq<char>) -> Seq<char>
    decreases s.len(),
{
    if s.len() == 0 {
        Seq::empty()
    } else {
        escape(s.drop_last()) + escape_char(s.last())
    }
}

pub open spec fn quoted(s: Seq<char>) -> Seq<char> {
    seq!['"'] + escape(s) + seq!['"']
}

/// A value under the given indentation: a quoted scalar, or a
/// brace-delimited group whose entries are indented by one more tab.
pub open spec fn render_value(v: ValueModel, indent: Seq<char>) -> Seq<char>
    decreases v, 1nat,
{
    match v {
        ValueModel::Str(s) => quoted(s),
        ValueModel::Obj(es) => indent + seq!['{', '\n'] + render_entries(es, indent.push('\t')) + indent
            + seq!['}'],
    }
}

/// The entries of a group, one pair after another in stored order.
pub open spec fn render_entries(es: Seq<(Seq<char>, ValueModel)>, indent: Seq<char>) -> Seq<char>
    decreases es, 0nat,
{
    if es.len() == 0 {
        Seq::empty()
    } else {
        render_entries(es.drop_last(), indent) + render_pair(es.last().0, es.last().1, indent)
    }
}

/// One key and its value on their own line: a tab separates a scalar from
/// its key, a newline a group.
pub open spec fn render_pair(k: Seq<char>, v: ValueModel, indent: Seq<char>) -> Seq<char>
    decreases v, 2nat,
{
    indent + quoted(k) + (if v is Str {
        seq!['\t']
    } else {
        seq!['\n']
    }) + render_value(v, indent) + seq!['\n']
}

/// The text of a whole document.
pub open spec fn render_model(d: VdfModel) -> Seq<char> {
    render_pair(d.key, d.value, Seq::empty())
}

fn push_escaped(out: &mut String, s: &str)
    ensures
        final(out)@ == old(out)@ + escape(s@),
{
    broadcast use vstd::string::axiom_spec_iter, vstd::string::next_postcondition;

    let mut it = s.chars();
    let ghost mut n: int = 0;
    loop
        invariant
            0 <= n <= s@.len(),
            it.remaining() == s@.subrange(n, s@.len() as int),
            it.obeys_prophetic_iter_laws(),
            out@ == old(out)@ + escape(s@.subrange(0, n)),
        ensures
            out@ == old(out)@ + escape(s@),
        decreases s@.len() - n,
    {
        match it.next() {
            Some(c) => {
                let ghost before = out@;
                if c == '\\' {
                    push_str(out, "\\\\");
                } else if c == '"' {
                    push_str(out, "\\\"");
                } else if c == '\n' {
                    push_str(out, "\\n");
                } else if c == '\r' {
                    push_str(out, "\\r");
                } else if c == '\t' {
                    push_str(out, "\\t");
                } else {
                    push_char(out, c);
                }
                proof {
                    reveal_strlit("\\\\");
                    reveal_strlit("\\\"");
                    reveal_strlit("\\n");
                    reveal_strlit("\\r");
                    reveal_strlit("\\t");
                    assert(c == s@[n]);
                    assert(s@.subrange(0, n + 1).drop_last() =~= s@.subrange(0, n));
                    assert(out@ =~= before + escape_char(c));
                    n = n + 1;
                }
            },
            None => {
                assert(s@.subrange(0, n) =~= s@);
                break;
            },
        }
    }
}

fn push_quoted(out: &mut String, s: &str)
    ensures
        final(out)@ == old(out)@ + quoted(s@),
{
    push_char(out, '"');
    push_escaped(out, s);
    push_char(out, '"');
    assert(out@ =~= old(out)@ + quoted(s@));
}

fn push_value(out: &mut String, v: &Value, indent: &String)
    ensures
        final(out)@ == old(out)@ + render_value(value_model(*v), indent@),
    decreases v, 1nat,
{
    match v {
        Value::Str(s) => push_quoted(out, s.as_str()),
        Value::Obj(es) => {
            push_str(out, indent.as_str());
            push_char(out, '{');
            push_char(out, '\n');
            let mut inner = indent.clone();
            push_char(&mut inner, '\t');
            let ghost start = out@;
            let mut i: usize = 0;
            while i < es.len()
                invariant
                    i <= es.len(),
                    *v == Value::Obj(*es),
                    inner@ == indent@.push('\t'),
                    out@ == start + render_entries(entries_model(es@.subrange(0, i as int)), inner@),
                decreases es.len() - i,
            {
                let ghost before = out@;
                let ghost m = entries_model(es@.subrange(0, i as int));
                proof {
                    vstd::std_specs::vec::axiom_vec_index_decreases(*es, i as int);
                    assert(decreases_to!(*v => v->Obj_0));
                    assert(decreases_to!(*v => es[i as int].1));
                }
                push_pair(out, es[i].0.as_str(), &es[i].1, &inner);
                proof {
                    let e = es@[i as int];
                    assert(es@.subrange(0, i + 1).drop_last() =~= es@.subrange(0, i as int));
                    let m2 = entries_model(es@.subrange(0, i + 1));
                    assert(m2 == m.push((e.0@, value_model(e.1))));
                    assert(m2.drop_last() =~= m);
                }
                i = i + 1;
            }
            assert(es@.subrange(0, es@.len() as int) =~= es@);
            push_str(out, indent.as_str());
            push_char(out, '}');
            assert(out@ =~= old(out)@ + render_value(value_model(*v), indent@));
        },
    }
}

fn push_pair(out: &mut String, k: &str, v: &Value, indent: &String)
    ensures
        final(out)@ == old(out)@ + render_pair(k@, value_model(*v), indent@),
    decreases v, 2nat,
{
    push_str(out, indent.as_str());
    push_quoted(out, k);
    let ghost mid = out@;
    if let Value::Str(_) = v {
        push_char(out, '\t');
    } else {
        push_char(out, '\n');
    }
    push_value(out, v, indent);
    push_char(out, '\n');
    assert(out@ =~= old(out)@ + render_pair(k@, value_model(*v), indent@));
}

/// Renders a document as text: the root key and its value, groups in
/// braces with one tab of indentation per level, every key and scalar
/// quoted and escaped, entries in stored order.
pub fn render(vdf: &Vdf) -> (r: String)
    ensures
        r@ == render_model(vdf.model()),
{
    let mut out = String::new();
    let indent = String::new();
    push_pair(&mut out, vdf.key.as_str(), &vdf.value, &indent);
    assert(out@ =~= render_model(vdf.model()));
    out
}

} // verus!
