//! Flattening chains of evaluation diagnostics into lines of text.

use vstd::prelude::*;

verus! {

/// An evaluation diagnostic: a description of its kind, one of its source
/// span, and, exactly when its kind is the wrapping kind, the diagnostic it
/// wraps.
pub struct Diagnostic {
    pub kind: String,
    pub span: String,
    pub cause: Option<Box<Diagnostic>>,
}

/// The line that describes one diagnostic.
pub open spec fn describe(d: Diagnostic) -> Seq<char> {
    seq!['K', 'i', 'n', 'd', ':', ' '] + d.kind@ + seq![',', ' ', 'S', 'p', 'a', 'n', ':', ' ']
        + d.span@
}

/// The lines of a chain, from the outermost diagnostic inwards.
pub open spec fn chain_lines(d: Diagnostic) -> Seq<Seq<char>>
    decreases d,
{
    match d.cause {
        Some(c) => seq![describe(d)] + chain_lines(*c),
        None => seq![describe(d)],
    }
}

/// The number of diagnostics in a chain.
pub open spec fn chain_depth(d: Diagnostic) -> nat
    decreases d,
{
    match d.cause {
        Some(c) => 1 + chain_depth(*c),
        None => 1,
    }
}

/// The `i`-th diagnostic of a chain, counting the outermost as 0.
pub open spec fn nth_in_chain(d: Diagnostic, i: nat) -> Diagnostic
    decreases d,
{
    if i == 0 {
        d
    } else {
        match d.cause {
            Some(c) => nth_in_chain(*c, (i - 1) as nat),
            None => d,
        }
    }
}

/// Texts joined with line breaks between them.
pub open spec fn join_lines(xs: Seq<Seq<char>>) -> Seq<char>
    decreases xs.len(),
{
    if xs.len() == 0 {
        seq![]
    } else if xs.len() == 1 {
        xs[0]
    } else {
        join_lines(xs.drop_last()) + seq!['\n'] + xs.last()
    }
}

/// The text of one chain: its lines joined.
pub open spec fn flatten_spec(d: Diagnostic) -> Seq<char> {
    join_lines(chain_lines(d))
}

/// The text of several chains, in the order given, joined by line breaks.
pub open spec fn flatten_all_spec(ds: Seq<Diagnostic>) -> Seq<char> {
    join_lines(ds.map_values(|d: Diagnostic| flatten_spec(d)))
}

/// Flattening a chain of depth `d` gives exactly `d` lines, the `i`-th of
/// them describing the `i`-th diagnostic from the outermost inwards.
pub proof fn lemma_chain_lines(d: Diagnostic)
    ensures
        chain_lines(d).len() == chain_depth(d),
        forall|i: nat| i < chain_depth(d) ==> #[trigger] chain_lines(d)[i as int] == describe(
            nth_in_chain(d, i),
        ),
    decreases d,
{
    match d.cause {
        Some(c) => {
            lemma_chain_lines(*c);
            assert forall|i: nat| i < chain_depth(d) implies #[trigger] chain_lines(d)[i as int]
                == describe(nth_in_chain(d, i)) by {
                if i > 0 {
                    assert(chain_lines(d)[i as int] == chain_lines(*c)[i - 1]);
                }
            }
        },
        None => {},
    }
}

/// The line that describes `d`.
pub fn describe_diagnostic(d: &Diagnostic) -> (r: String)
    ensures
        r@ == describe(*d),
{
    proof {
        reveal_strlit("Kind: ");
        reveal_strlit(", Span: ");
    }
    let mut s = String::from_str("Kind: ");
    s.append(d.kind.as_str());
    s.append(", Span: ");
    s.append(d.span.as_str());
    proof {
        assert(s@ =~= describe(*d));
    }
    s
}

/// Appends the lines of the chain that starts at `d` to `out`.
fn collect_chain(d: &Diagnostic, out: &mut Vec<String>)
    ensures
        final(out)@.map_values(|s: String| s@) == old(out)@.map_values(|s: String| s@)
            + chain_lines(*d),
    decreases d,
{
    let line = describe_diagnostic(d);
    let ghost before = out@.map_values(|s: String| s@);
    let ghost text = line@;
    out.push(line);
    proof {
        assert(out@.map_values(|s: String| s@) =~= before + seq![text]);
    }
    match &d.cause {
        Some(c) => {
            let ghost mid = out@.map_values(|s: String| s@);
            collect_chain(c, out);
            proof {
                assert(mid + chain_lines(**c) =~= before + (seq![text] + chain_lines(**c)));
            }
        },
        None => {},
    }
}

/// Joins `xs` with line breaks between them.
pub fn join_with_newlines(xs: &Vec<String>) -> (r: String)
    ensures
        r@ == join_lines(xs@.map_values(|s: String| s@)),
{
    let ghost all = xs@.map_values(|s: String| s@);
    let mut out = String::new();
    let mut i: usize = 0;
    proof {
        assert(all.take(0) =~= Seq::<Seq<char>>::empty());
        reveal_strlit("\n");
    }
    while i < xs.len()
        invariant
            i <= xs@.len(),
            all == xs@.map_values(|s: String| s@),
            out@ == join_lines(all.take(i as int)),
        decreases xs@.len() - i,
    {
        let ghost before = out@;
        proof {
            reveal_strlit("\n");
        }
        if i > 0 {
            out.append("\n");
        }
        out.append(xs[i].as_str());
        proof {
            let t = all.take(i + 1);
            assert(t.drop_last() =~= all.take(i as int));
            assert(t.last() == xs@[i as int]@);
            if i == 0 {
                assert(out@ =~= t[0]);
            } else {
                assert(out@ =~= before + seq!['\n'] + t.last());
            }
        }
        i = i + 1;
    }
    proof {
        assert(all.take(xs@.len() as int) =~= all);
    }
    out
}

/// The text of the chain that starts at `d`: one line per diagnostic, from
/// the outermost inwards.
pub fn flatten_diagnostic(d: &Diagnostic) -> (r: String)
    ensures
        r@ == flatten_spec(*d),
{
    let mut lines: Vec<String> = Vec::new();
    collect_chain(d, &mut lines);
    proof {
        assert(lines@.map_values(|s: String| s@) =~= chain_lines(*d));
    }
    join_with_newlines(&lines)
}

/// The text of all chains in `ds`, in order, joined by line breaks.
pub fn flatten_diagnostics(ds: &Vec<Diagnostic>) -> (r: String)
    ensures
        r@ == flatten_all_spec(ds@),
{
    let mut texts: Vec<String> = Vec::new();
    let mut i: usize = 0;
    while i < ds.len()
        invariant
            i <= ds@.len(),
            texts@.map_values(|s: String| s@) == ds@.take(i as int).map_values(
                |d: Diagnostic| flatten_spec(d),
            ),
        decreases ds@.len() - i,
    {
        let t = flatten_diagnostic(&ds[i]);
        let ghost before = texts@;
        texts.push(t);
        proof {
            assert(texts@.map_values(|s: String| s@) =~= before.map_values(|s: String| s@).push(
                t@,
            ));
            assert(ds@.take(i + 1).map_values(|d: Diagnostic| flatten_spec(d)) =~= ds@.take(
                i as int,
            ).map_values(|d: Diagnostic| flatten_spec(d)).push(flatten_spec(ds@[i as int])));
        }
        i = i + 1;
    }
    proof {
        assert(ds@.take(ds@.len() as int) =~= ds@);
    }
    join_with_newlines(&texts)
}

} // verus!
