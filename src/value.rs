//! The evaluator's runtime values, as far as rendering reads them: attribute
//! sets kept in key order, lists, and other values with their own text.

use vstd::prelude::*;

verus! {

/// A runtime value.
pub enum Value {
    /// A mapping from names to values.
    Attrs(Attrs),
    /// An ordered sequence of values.
    List(Vec<Value>),
    /// Any other value, by its built-in textual representation.
    Other(String),
}

/// An attribute set: its entries, each key once, in strictly increasing key
/// order (see `wf`).
pub struct Attrs {
    pub entries: Vec<(String, Value)>,
}

/// Whether `a` sorts before `b`, comparing from position `i` on, character
/// by character by code point; a proper prefix sorts first.
pub open spec fn lt_from(a: Seq<char>, b: Seq<char>, i: int) -> bool
    decreases a.len() - i,
{
    if i >= a.len() {
        i < b.len()
    } else if i >= b.len() {
        false
    } else if a[i] != b[i] {
        (a[i] as int) < (b[i] as int)
    } else {
        lt_from(a, b, i + 1)
    }
}

/// The order of keys: lexicographic by code point.
pub open spec fn key_lt(a: Seq<char>, b: Seq<char>) -> bool {
    lt_from(a, b, 0)
}

/// Each key strictly precedes the next one.
pub open spec fn keys_sorted(entries: Seq<(String, Value)>) -> bool {
    forall|i: int| 0 <= i < entries.len() - 1 ==> key_lt(#[trigger] entries[i].0@, entries[i + 1].0@)
}

/// Two different keys are ordered one way or the other.
pub proof fn lemma_key_total(a: Seq<char>, b: Seq<char>, i: int)
    requires
        0 <= i <= a.len(),
        i <= b.len(),
        forall|j: int| 0 <= j < i ==> a[j] == b[j],
        a != b,
    ensures
        lt_from(a, b, i) || lt_from(b, a, i),
    decreases a.len() - i,
{
    if i >= a.len() {
        if i >= b.len() {
            assert(a =~= b);
        }
    } else if i >= b.len() {
        assert(lt_from(b, a, i));
    } else if a[i] == b[i] {
        lemma_key_total(a, b, i + 1);
    } else {
        assert((a[i] as int) != (b[i] as int));
    }
}

/// No key sorts before itself.
pub proof fn lemma_key_irreflexive(a: Seq<char>, i: int)
    requires
        0 <= i,
    ensures
        !lt_from(a, a, i),
    decreases a.len() - i,
{
    if i < a.len() {
        lemma_key_irreflexive(a, i + 1);
    }
}

/// The order of keys is transitive.
pub proof fn lemma_key_transitive(a: Seq<char>, b: Seq<char>, c: Seq<char>, i: int)
    requires
        0 <= i,
        lt_from(a, b, i),
        lt_from(b, c, i),
    ensures
        lt_from(a, c, i),
    decreases a.len() - i,
{
    if i < a.len() && i < b.len() && i < c.len() && a[i] == b[i] && b[i] == c[i] {
        lemma_key_transitive(a, b, c, i + 1);
    }
}

/// Every key strictly precedes every later one.
pub open spec fn keys_strictly_increasing(entries: Seq<(String, Value)>) -> bool {
    forall|i: int, j: int|
        0 <= i < j < entries.len() ==> key_lt(#[trigger] entries[i].0@, #[trigger] entries[j].0@)
}

proof fn lemma_sorted_between(entries: Seq<(String, Value)>, i: int, j: int)
    requires
        keys_sorted(entries),
        0 <= i < j < entries.len(),
    ensures
        key_lt(entries[i].0@, entries[j].0@),
    decreases j - i,
{
    if j > i + 1 {
        lemma_sorted_between(entries, i, j - 1);
        assert(key_lt(entries[j - 1].0@, entries[j].0@));
        lemma_key_transitive(entries[i].0@, entries[j - 1].0@, entries[j].0@, 0);
    }
}

/// Keys in a well-formed attribute set are strictly increasing, so each key
/// occurs once and the entries come in key order, however the set was built.
pub proof fn lemma_keys_strictly_increasing(a: Attrs)
    requires
        a.wf(),
    ensures
        keys_strictly_increasing(a.entries@),
{
    assert forall|i: int, j: int| 0 <= i < j < a.entries@.len() implies key_lt(
        #[trigger] a.entries@[i].0@,
        #[trigger] a.entries@[j].0@,
    ) by {
        lemma_sorted_between(a.entries@, i, j);
    }
}

/// Two key-ordered sequences of entries that hold the same entries are the
/// same sequence.
pub proof fn lemma_sorted_entries_unique(s: Seq<(String, Value)>, t: Seq<(String, Value)>)
    requires
        keys_strictly_increasing(s),
        keys_strictly_increasing(t),
        forall|e: (String, Value)| s.contains(e) <==> t.contains(e),
    ensures
        s == t,
    decreases s.len(),
{
    if s.len() == 0 {
        if t.len() > 0 {
            assert(t.contains(t[0]));
        }
        assert(s =~= t);
    } else {
        assert(s.contains(s[0]));
        let k = choose|k: int| 0 <= k < t.len() && t[k] == s[0];
        assert(t.contains(t[0]));
        let m = choose|m: int| 0 <= m < s.len() && s[m] == t[0];
        if k > 0 {
            assert(key_lt(t[0].0@, t[k].0@));
            lemma_key_irreflexive(t[0].0@, 0);
            if m > 0 {
                assert(key_lt(s[0].0@, s[m].0@));
                lemma_key_transitive(t[0].0@, s[0].0@, s[m].0@, 0);
            }
            assert(false);
        }
        let s1 = s.drop_first();
        let t1 = t.drop_first();
        assert forall|e: (String, Value)| s1.contains(e) implies t1.contains(e) by {
            let j = choose|j: int| 0 <= j < s1.len() && s1[j] == e;
            assert(key_lt(s[0].0@, s[j + 1].0@));
            lemma_key_irreflexive(s[0].0@, 0);
            assert(t.contains(e));
            let q = choose|q: int| 0 <= q < t.len() && t[q] == e;
            assert(q != 0);
            assert(t1[q - 1] == e);
        }
        assert forall|e: (String, Value)| t1.contains(e) implies s1.contains(e) by {
            let j = choose|j: int| 0 <= j < t1.len() && t1[j] == e;
            assert(key_lt(t[0].0@, t[j + 1].0@));
            lemma_key_irreflexive(t[0].0@, 0);
            assert(s.contains(e));
            let q = choose|q: int| 0 <= q < s.len() && s[q] == e;
            assert(q != 0);
            assert(s1[q - 1] == e);
        }
        assert(keys_strictly_increasing(s1)) by {
            assert forall|i: int, j: int| 0 <= i < j < s1.len() implies key_lt(
                #[trigger] s1[i].0@,
                #[trigger] s1[j].0@,
            ) by {
                assert(key_lt(s[i + 1].0@, s[j + 1].0@));
            }
        }
        assert(keys_strictly_increasing(t1)) by {
            assert forall|i: int, j: int| 0 <= i < j < t1.len() implies key_lt(
                #[trigger] t1[i].0@,
                #[trigger] t1[j].0@,
            ) by {
                assert(key_lt(t[i + 1].0@, t[j + 1].0@));
            }
        }
        lemma_sorted_entries_unique(s1, t1);
        assert(s =~= seq![s[0]] + s1);
        assert(t =~= seq![t[0]] + t1);
    }
}

/// Compares two keys in the order of `key_lt`.
pub fn key_less(a: &String, b: &String) -> (r: bool)
    ensures
        r == key_lt(a@, b@),
{
    let n = a.unicode_len();
    let m = b.unicode_len();
    let mut i: usize = 0;
    while i < n && i < m
        invariant
            n == a@.len(),
            m == b@.len(),
            i <= n,
            i <= m,
            lt_from(a@, b@, i as int) == key_lt(a@, b@),
        decreases n - i,
    {
        let x = a.get_char(i);
        let y = b.get_char(i);
        if x != y {
            return (x as u32) < (y as u32);
        }
        i = i + 1;
    }
    i == n && i < m
}

impl Attrs {
    /// The set's invariant: keys strictly increasing.
    pub open spec fn wf(&self) -> bool {
        keys_sorted(self.entries@)
    }

    /// The empty attribute set.
    pub fn new() -> (r: Attrs)
        ensures
            r.wf(),
            r.entries@.len() == 0,
    {
        Attrs { entries: Vec::new() }
    }

    /// The number of keys.
    pub fn len(&self) -> (r: usize)
        ensures
            r == self.entries@.len(),
    {
        self.entries.len()
    }

    /// Binds `key` to `value`: an entry with an equal key has its value
    /// replaced; otherwise the entry goes where its key keeps the order.
    pub fn insert(&mut self, key: String, value: Value)
        requires
            old(self).wf(),
        ensures
            final(self).wf(),
            exists|p: int|
                0 <= p <= old(self).entries@.len() && (forall|i: int|
                    0 <= i < p ==> key_lt(#[trigger] old(self).entries@[i].0@, key@)) && if p
                    < old(self).entries@.len() && old(self).entries@[p].0@ == key@ {
                    final(self).entries@ == old(self).entries@.update(p, (key, value))
                } else {
                    (p < old(self).entries@.len() ==> key_lt(key@, old(self).entries@[p].0@))
                        && final(self).entries@ == old(self).entries@.insert(p, (key, value))
                },
    {
        let n = self.entries.len();
        let mut p: usize = 0;
        while p < n && key_less(&self.entries[p].0, &key)
            invariant
                n == self.entries@.len(),
                p <= n,
                forall|i: int| 0 <= i < p ==> key_lt(#[trigger] self.entries@[i].0@, key@),
            decreases n - p,
        {
            p = p + 1;
        }
        let ghost before = self.entries@;
        if p < n && self.entries[p].0.eq(&key) {
            let ghost k = key;
            let ghost v = value;
            self.entries.set(p, (key, value));
            proof {
                assert forall|i: int| 0 <= i < before.len() - 1 implies key_lt(
                    #[trigger] self.entries@[i].0@,
                    self.entries@[i + 1].0@,
                ) by {
                    assert(before[i].0@ == self.entries@[i].0@);
                    assert(before[i + 1].0@ == self.entries@[i + 1].0@);
                }
                assert(self.entries@ == before.update(p as int, (k, v)));
            }
        } else {
            let ghost k = key;
            let ghost v = value;
            proof {
                if p < n {
                    lemma_key_total(before[p as int].0@, k@, 0);
                }
            }
            self.entries.insert(p, (key, value));
            proof {
                let e = self.entries@;
                assert(e == before.insert(p as int, (k, v)));
                assert forall|i: int| 0 <= i < e.len() - 1 implies key_lt(
                    #[trigger] e[i].0@,
                    e[i + 1].0@,
                ) by {
                    if i < p - 1 {
                        assert(e[i] == before[i] && e[i + 1] == before[i + 1]);
                    } else if i == p - 1 {
                        assert(e[i] == before[i]);
                    } else if i == p {
                        assert(e[i + 1] == before[i]);
                    } else {
                        assert(e[i] == before[i - 1] && e[i + 1] == before[i]);
                    }
                }
            }
        }
    }
}

} // verus!
