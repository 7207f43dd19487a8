//! Indented, deterministic text for runtime values.

use vstd::prelude::*;
use crate::value::{
    keys_strictly_increasing, lemma_keys_strictly_increasing, lemma_sorted_entries_unique, Attrs,
    Value,
};

verus! {

/// Two spaces per level.
pub open spec fn pad(level: nat) -> Seq<char>
    decreases level,
{
    if level == 0 {
        seq![]
    } else {
        pad((level - 1) as nat) + seq![' ', ' ']
    }
}

/// The text of `v` rendered at depth `level`. An attribute set opens with
/// `{` and a line break, gives one line per entry at the next depth, and
/// closes with `}` at its own depth; a list does the same with `[` and `]`;
/// any other value is its own text.
pub open spec fn render(v: Value, level: nat) -> Seq<char>
    decreases v,
{
    match v {
        Value::Attrs(a) => seq!['{', '\n'] + attr_lines(a.entries@, level) + pad(level) + seq!['}'],
        Value::List(l) => seq!['[', '\n'] + list_lines(l@, level) + pad(level) + seq![']'],
        Value::Other(s) => s@,
    }
}

/// One line per entry, in the entries' order: the key, ` = `, and the value
/// rendered one level deeper.
pub open spec fn attr_lines(es: Seq<(String, Value)>, level: nat) -> Seq<char>
    decreases es,
{
    if es.len() == 0 {
        seq![]
    } else {
        attr_lines(es.drop_last(), level) + attr_line(es.last().0@, render(
            es.last().1,
            level + 1,
        ), level)
    }
}

pub open spec fn attr_line(key: Seq<char>, text: Seq<char>, level: nat) -> Seq<char> {
    pad(level + 1) + key + seq![' ', '=', ' '] + text + seq!['\n']
}

/// One line per element, in the list's order.
pub open spec fn list_lines(xs: Seq<Value>, level: nat) -> Seq<char>
    decreases xs,
{
    if xs.len() == 0 {
        seq![]
    } else {
        list_lines(xs.drop_last(), level) + list_line(render(xs.last(), level + 1), level)
    }
}

pub open spec fn list_line(text: Seq<char>, level: nat) -> Seq<char> {
    pad(level + 1) + text + seq!['\n']
}

/// A list's lines are its elements' lines in the list's own order: the
/// lines of a concatenation are the lines of its parts, one after the other.
pub proof fn lemma_list_lines_append(xs: Seq<Value>, ys: Seq<Value>, level: nat)
    ensures
        list_lines(xs + ys, level) == list_lines(xs, level) + list_lines(ys, level),
    decreases ys.len(),
{
    if ys.len() == 0 {
        assert(xs + ys =~= xs);
        assert(list_lines(xs, level) + list_lines(ys, level) =~= list_lines(xs, level));
    } else {
        lemma_list_lines_append(xs, ys.drop_last(), level);
        assert((xs + ys).drop_last() =~= xs + ys.drop_last());
        assert((xs + ys).last() == ys.last());
        assert(list_lines(xs + ys, level) =~= list_lines(xs, level) + list_lines(ys, level));
    }
}

/// The text of a well-formed attribute set gives one line per key, keys in
/// strictly increasing order; so two such sets holding the same bindings,
/// whatever order they were inserted in, render to the same text.
pub proof fn lemma_attrs_text_in_key_order(a: Attrs, b: Attrs, level: nat)
    requires
        a.wf(),
        b.wf(),
        forall|e: (String, Value)| a.entries@.contains(e) <==> b.entries@.contains(e),
    ensures
        keys_strictly_increasing(a.entries@),
        render(Value::Attrs(a), level) == seq!['{', '\n'] + attr_lines(a.entries@, level) + pad(
            level,
        ) + seq!['}'],
        render(Value::Attrs(a), level) == render(Value::Attrs(b), level),
{
    lemma_keys_strictly_increasing(a);
    lemma_keys_strictly_increasing(b);
    lemma_sorted_entries_unique(a.entries@, b.entries@);
}

/// The indentation of depth `level`.
pub fn indent(level: usize) -> (r: String)
    ensures
        r@ == pad(level as nat),
{
    let mut s = String::new();
    let mut i: usize = 0;
    while i < level
        invariant
            i <= level,
            s@ == pad(i as nat),
        decreases level - i,
    {
        proof {
            reveal_strlit("  ");
        }
        s.append("  ");
        i = i + 1;
    }
    s
}

/// Appends the text of `v` at depth `level` to `out`; `ind` is that
/// depth's indentation.
fn render_into(out: &mut String, v: &Value, ind: &String, Ghost(level): Ghost<nat>)
    requires
        ind@ == pad(level),
    ensures
        final(out)@ == old(out)@ + render(*v, level),
    decreases v,
{
    let mut inner = ind.clone();
    proof {
        reveal_strlit("  ");
    }
    inner.append("  ");
    let ghost start = out@;
    match v {
        Value::Attrs(a) => {
            proof {
                reveal_strlit("{\n");
            }
            out.append("{\n");
            let es = &a.entries;
            let mut i: usize = 0;
            proof {
                assert(es@.take(0) =~= Seq::<(String, Value)>::empty());
                assert forall|j: int| 0 <= j < es@.len() implies decreases_to!(*v => (#[trigger] es@[j]).1) by {
                    assert(decreases_to!(a.entries => a.entries@));
                    assert(decreases_to!(a.entries@ => a.entries@[j]));
                }
            }
            while i < es.len()
                invariant
                    i <= es@.len(),
                    inner@ == pad(level + 1),
                    forall|j: int| 0 <= j < es@.len() ==> decreases_to!(*v => (#[trigger] es@[j]).1),
                    out@ == start + seq!['{', '\n'] + attr_lines(es@.take(i as int), level),
                decreases es@.len() - i,
            {
                let ghost before = out@;
                let entry = &es[i];
                proof {
                    reveal_strlit(" = ");
                    reveal_strlit("\n");
                }
                out.append(inner.as_str());
                out.append(entry.0.as_str());
                out.append(" = ");
                render_into(out, &entry.1, &inner, Ghost(level + 1));
                out.append("\n");
                proof {
                    let t = es@.take(i + 1);
                    assert(t.drop_last() =~= es@.take(i as int));
                    assert(t.last() == es@[i as int]);
                    assert(out@ =~= before + attr_line(entry.0@, render(entry.1, level + 1), level));
                }
                i = i + 1;
            }
            proof {
                assert(es@.take(es@.len() as int) =~= es@);
                reveal_strlit("}");
            }
            out.append(ind.as_str());
            out.append("}");
        },
        Value::List(l) => {
            proof {
                reveal_strlit("[\n");
            }
            out.append("[\n");
            let mut i: usize = 0;
            proof {
                assert(l@.take(0) =~= Seq::<Value>::empty());
                assert forall|j: int| 0 <= j < l@.len() implies decreases_to!(*v => #[trigger] l@[j]) by {
                    assert(decreases_to!(*l => l@));
                    assert(decreases_to!(l@ => l@[j]));
                }
            }
            while i < l.len()
                invariant
                    i <= l@.len(),
                    inner@ == pad(level + 1),
                    forall|j: int| 0 <= j < l@.len() ==> decreases_to!(*v => #[trigger] l@[j]),
                    out@ == start + seq!['[', '\n'] + list_lines(l@.take(i as int), level),
                decreases l@.len() - i,
            {
                let ghost before = out@;
                proof {
                    reveal_strlit("\n");
                }
                out.append(inner.as_str());
                render_into(out, &l[i], &inner, Ghost(level + 1));
                out.append("\n");
                proof {
                    let t = l@.take(i + 1);
                    assert(t.drop_last() =~= l@.take(i as int));
                    assert(t.last() == l@[i as int]);
                    assert(out@ =~= before + list_line(render(l@[i as int], level + 1), level));
                }
                i = i + 1;
            }
            proof {
                assert(l@.take(l@.len() as int) =~= l@);
                reveal_strlit("]");
            }
            out.append(ind.as_str());
            out.append("]");
        },
        Value::Other(s) => {
            out.append(s.as_str());
        },
    }
}

/// Renders `value` at depth `indent_level`.
pub fn pretty_print_value(value: &Value, indent_level: usize) -> (r: String)
    ensures
        r@ == render(*value, indent_level as nat),
{
    let ind = indent(indent_level);
    let mut out = String::new();
    render_into(&mut out, value, &ind, Ghost(indent_level as nat));
    proof {
        assert(out@ =~= render(*value, indent_level as nat));
    }
    out
}

} // verus!
