//! Splitting slash-separated paths into their segments.

use vstd::prelude::*;

verus! {

/// The segments of `p` that follow position `i`, where `cur` holds the
/// characters of the segment under construction. Separators split the path;
/// empty segments (a leading, trailing or doubled `/`) are dropped.
pub open spec fn split_from(p: Seq<char>, i: int, cur: Seq<char>) -> Seq<Seq<char>>
    decreases p.len() - i,
{
    if i >= p.len() {
        if cur.len() == 0 { seq![] } else { seq![cur] }
    } else if p[i] == '/' {
        if cur.len() == 0 {
            split_from(p, i + 1, seq![])
        } else {
            seq![cur] + split_from(p, i + 1, seq![])
        }
    } else {
        split_from(p, i + 1, cur.push(p[i]))
    }
}

/// The non-empty segments of a path, in order. A path relative to the root
/// and the same path with leading separators name the same segments.
pub open spec fn segments(p: Seq<char>) -> Seq<Seq<char>> {
    split_from(p, 0, seq![])
}

/// Splits `p` at every `/`, keeping the non-empty segments.
pub fn split_path(p: &str) -> (r: Vec<String>)
    ensures
        r@.map_values(|s: String| s@) == segments(p@),
{
    let n = p.unicode_len();
    let mut out: Vec<String> = Vec::new();
    let mut start: usize = 0;
    let mut i: usize = 0;
    proof {
        assert(p@.subrange(0, 0) =~= Seq::<char>::empty());
        assert(out@.map_values(|s: String| s@) + segments(p@) =~= segments(p@));
    }
    while i < n
        invariant
            n == p@.len(),
            start <= i <= n,
            out@.map_values(|s: String| s@) + split_from(p@, i as int, p@.subrange(
                start as int,
                i as int,
            )) == segments(p@),
        decreases n - i,
    {
        let c = p.get_char(i);
        let ghost before = out@.map_values(|s: String| s@);
        let ghost cur = p@.subrange(start as int, i as int);
        if c == '/' {
            if start < i {
                let done = String::from_str(p.substring_char(start, i));
                proof {
                    assert(out@.push(done).map_values(|s: String| s@) =~= before.push(done@));
                    assert(before + (seq![cur] + split_from(p@, i + 1, seq![])) =~= before.push(
                        done@,
                    ) + split_from(p@, i + 1, seq![]));
                }
                out.push(done);
            }
            start = i + 1;
            proof {
                assert(p@.subrange(start as int, start as int) =~= Seq::<char>::empty());
            }
        } else {
            proof {
                assert(cur.push(c) =~= p@.subrange(start as int, i + 1));
            }
        }
        i = i + 1;
    }
    let ghost before = out@.map_values(|s: String| s@);
    if start < n {
        let last = String::from_str(p.substring_char(start, n));
        proof {
            assert(out@.push(last).map_values(|s: String| s@) =~= before + seq![last@]);
        }
        out.push(last);
    } else {
        proof {
            assert(before =~= before + seq![]);
        }
    }
    out
}

} // verus!
