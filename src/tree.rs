//! The embedded tree: files with byte payloads and directories with ordered
//! children, addressed by name segments.

use vstd::prelude::*;

verus! {

/// A node of the embedded tree.
pub enum Entry {
    File { name: String, contents: Vec<u8> },
    Dir { name: String, children: Vec<Entry> },
}

/// What a path resolves to.
#[derive(Clone, Copy, Debug, PartialEq, Eq, Structural)]
pub enum FileType {
    Regular,
    Directory,
}

impl Entry {
    pub open spec fn spec_name(self) -> Seq<char> {
        match self {
            Entry::File { name, .. } => name@,
            Entry::Dir { name, .. } => name@,
        }
    }

    pub open spec fn spec_kind(self) -> FileType {
        match self {
            Entry::File { .. } => FileType::Regular,
            Entry::Dir { .. } => FileType::Directory,
        }
    }

    /// A file named `name` holding `contents`.
    pub fn file(name: String, contents: Vec<u8>) -> (r: Entry)
        ensures
            r == (Entry::File { name, contents }),
    {
        Entry::File { name, contents }
    }

    /// A directory named `name` holding `children`, in that order.
    pub fn dir(name: String, children: Vec<Entry>) -> (r: Entry)
        ensures
            r == (Entry::Dir { name, children }),
    {
        Entry::Dir { name, children }
    }

    /// The entry's own name (not its full path).
    pub fn name(&self) -> (r: &String)
        ensures
            r@ == self.spec_name(),
    {
        match self {
            Entry::File { name, .. } => name,
            Entry::Dir { name, .. } => name,
        }
    }

    /// Whether the entry is a file or a directory.
    pub fn kind(&self) -> (r: FileType)
        ensures
            r == self.spec_kind(),
    {
        match self {
            Entry::File { .. } => FileType::Regular,
            Entry::Dir { .. } => FileType::Directory,
        }
    }
}

/// `k` is the first position among `children` whose entry is called `name`.
pub open spec fn named_at(children: Seq<Entry>, name: Seq<char>, k: int) -> bool {
    0 <= k < children.len() && children[k].spec_name() == name && forall|j: int|
        0 <= j < k ==> #[trigger] children[j].spec_name() != name
}

/// The first child called `name`, if there is one.
pub open spec fn child_named(children: Seq<Entry>, name: Seq<char>) -> Option<Entry> {
    if exists|k: int| named_at(children, name, k) {
        Some(children[choose|k: int| named_at(children, name, k)])
    } else {
        None
    }
}

/// The entry reached from a directory holding `children` by following the
/// name segments `segs` one level at a time. No entry is reached by zero
/// segments, and none through a file.
pub open spec fn lookup(children: Seq<Entry>, segs: Seq<Seq<char>>) -> Option<Entry>
    decreases segs.len(),
{
    if segs.len() == 0 {
        None
    } else {
        match child_named(children, segs[0]) {
            None => None,
            Some(e) => if segs.len() == 1 {
                Some(e)
            } else {
                match e {
                    Entry::Dir { children: c, .. } => lookup(c@, segs.drop_first()),
                    Entry::File { .. } => None,
                }
            },
        }
    }
}

pub proof fn lemma_child_named(children: Seq<Entry>, name: Seq<char>, k: int)
    requires
        named_at(children, name, k),
    ensures
        child_named(children, name) == Some(children[k]),
{
    let c = choose|c: int| named_at(children, name, c);
    if c < k {
        assert(children[c].spec_name() != name);
    } else if k < c {
        assert(children[k].spec_name() != name);
    }
}

/// The position of the first child called `name`.
pub fn find_child(children: &Vec<Entry>, name: &String) -> (r: Option<usize>)
    ensures
        match r {
            Some(k) => named_at(children@, name@, k as int),
            None => forall|j: int| 0 <= j < children@.len() ==> #[trigger] children@[j].spec_name() != name@,
        },
{
    let mut k: usize = 0;
    while k < children.len()
        invariant
            k <= children@.len(),
            forall|j: int| 0 <= j < k ==> #[trigger] children@[j].spec_name() != name@,
        decreases children@.len() - k,
    {
        if children[k].name().eq(name) {
            return Some(k);
        }
        k = k + 1;
    }
    None
}

} // verus!
