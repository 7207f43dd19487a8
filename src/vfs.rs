//! The filesystem provider: existence, type, open, listing and import-path
//! queries answered from the embedded tree alone.

use vstd::prelude::*;
use crate::path::{segments, split_path};
use crate::payload::{bytes_content, bytes_from_vec};
use crate::tree::{child_named, find_child, lemma_child_named, lookup, Entry, FileType};

verus! {

/// The one way a query can fail: nothing of the asked kind at that path.
#[derive(Clone, Copy, Debug, PartialEq, Eq, Structural)]
pub enum IoError {
    NotFound,
}

/// A read-only filesystem over the entries of the tree's root directory.
pub struct EmbeddedIO {
    pub entries: Vec<Entry>,
}

/// The UTF-8 encoding of a name.
pub open spec fn name_bytes(name: Seq<char>) -> Seq<u8> {
    vstd::utf8::encode_utf8(name)
}

/// Each child's name, as UTF-8 bytes, and kind, in order.
fn list_entries(children: &Vec<Entry>) -> (r: Vec<(bytes::Bytes, FileType)>)
    ensures
        r@.len() == children@.len(),
        forall|i: int|
            0 <= i < r@.len() ==> #[trigger] bytes_content(r@[i].0) == name_bytes(
                children@[i].spec_name(),
            ),
        forall|i: int| 0 <= i < r@.len() ==> #[trigger] r@[i].1 == children@[i].spec_kind(),
{
    let mut out: Vec<(bytes::Bytes, FileType)> = Vec::new();
    let mut i: usize = 0;
    while i < children.len()
        invariant
            i <= children@.len(),
            out@.len() == i,
            forall|j: int|
                0 <= j < i ==> #[trigger] bytes_content(out@[j].0) == name_bytes(
                    children@[j].spec_name(),
                ),
            forall|j: int| 0 <= j < i ==> #[trigger] out@[j].1 == children@[j].spec_kind(),
        decreases children@.len() - i,
    {
        let child = &children[i];
        let text = child.name().as_str();
        let raw = text.as_bytes_vec();
        proof {
            assert(raw@ == name_bytes(text@));
        }
        let name = bytes_from_vec(raw);
        out.push((name, child.kind()));
        i = i + 1;
    }
    out
}

impl EmbeddedIO {
    /// The entry that `path` names, if any.
    pub open spec fn resolve(&self, path: Seq<char>) -> Option<Entry> {
        lookup(self.entries@, segments(path))
    }

    pub fn new(entries: Vec<Entry>) -> (r: EmbeddedIO)
        ensures
            r.entries == entries,
    {
        EmbeddedIO { entries }
    }

    /// Finds the entry that `path` names.
    pub fn locate(&self, path: &str) -> (r: Option<&Entry>)
        ensures
            match r {
                Some(e) => self.resolve(path@) == Some(*e),
                None => self.resolve(path@) is None,
            },
    {
        let segs = split_path(path);
        let ghost s = segments(path@);
        proof {
            assert(segs@.map_values(|x: String| x@).len() == segs@.len());
        }
        if segs.len() == 0 {
            return None;
        }
        let mut cur: &Vec<Entry> = &self.entries;
        let mut i: usize = 0;
        proof {
            assert(s.skip(0) =~= s);
        }
        loop
            invariant
                s == segs@.map_values(|x: String| x@),
                s.len() == segs@.len(),
                i < segs@.len(),
                lookup(cur@, s.skip(i as int)) == self.resolve(path@),
            decreases segs@.len() - i,
        {
            let ghost rest = s.skip(i as int);
            proof {
                assert(rest[0] == segs@[i as int]@);
                assert(rest.drop_first() =~= s.skip(i + 1));
            }
            match find_child(cur, &segs[i]) {
                None => {
                    proof {
                        if exists|k: int| crate::tree::named_at(cur@, rest[0], k) {
                            let k = choose|k: int| crate::tree::named_at(cur@, rest[0], k);
                            assert(cur@[k].spec_name() != rest[0]);
                        }
                        assert(child_named(cur@, rest[0]) is None);
                    }
                    return None;
                },
                Some(k) => {
                    proof {
                        lemma_child_named(cur@, rest[0], k as int);
                    }
                    let e = &cur[k];
                    if i == segs.len() - 1 {
                        return Some(e);
                    }
                    match e {
                        Entry::Dir { children, .. } => {
                            cur = children;
                            i = i + 1;
                        },
                        Entry::File { .. } => {
                            return None;
                        },
                    }
                },
            }
        }
    }

    /// Whether a file or a directory stands at `path`.
    pub fn path_exists(&self, path: &str) -> (r: bool)
        ensures
            r == self.resolve(path@) is Some,
    {
        self.locate(path).is_some()
    }

    /// The kind of the entry at `path`.
    pub fn file_type(&self, path: &str) -> (r: Result<FileType, IoError>)
        ensures
            r == match self.resolve(path@) {
                Some(e) => Ok(e.spec_kind()),
                None => Err(IoError::NotFound),
            },
    {
        match self.locate(path) {
            Some(e) => Ok(e.kind()),
            None => Err(IoError::NotFound),
        }
    }

    /// The payload of the file at `path`. A directory there is not found.
    pub fn open(&self, path: &str) -> (r: Result<bytes::Bytes, IoError>)
        ensures
            match self.resolve(path@) {
                Some(Entry::File { contents, .. }) => r matches Ok(b) && bytes_content(b)
                    == contents@,
                _ => r == Err::<bytes::Bytes, IoError>(IoError::NotFound),
            },
    {
        match self.locate(path) {
            Some(Entry::File { contents, .. }) => {
                let copy = contents.clone();
                proof {
                    assert(copy@ =~= contents@);
                }
                Ok(bytes_from_vec(copy))
            },
            _ => Err(IoError::NotFound),
        }
    }

    /// The immediate children of the directory at `path`, each by its own
    /// name and kind, in the tree's order. A file there is not found.
    pub fn read_dir(&self, path: &str) -> (r: Result<Vec<(bytes::Bytes, FileType)>, IoError>)
        ensures
            match self.resolve(path@) {
                Some(Entry::Dir { children, .. }) => r matches Ok(v) && v@.len()
                    == children@.len() && (forall|i: int|
                    0 <= i < v@.len() ==> #[trigger] bytes_content(v@[i].0) == name_bytes(
                        children@[i].spec_name(),
                    )) && (forall|i: int|
                    0 <= i < v@.len() ==> #[trigger] v@[i].1 == children@[i].spec_kind()),
                _ => r == Err::<Vec<(bytes::Bytes, FileType)>, IoError>(IoError::NotFound),
            },
    {
        match self.locate(path) {
            Some(Entry::Dir { children, .. }) => Ok(list_entries(children)),
            _ => Err(IoError::NotFound),
        }
    }

    /// The path under which the evaluator imports `path`: the path itself,
    /// as there is no store to copy it into.
    pub fn import_path(&self, path: &str) -> (r: Result<String, IoError>)
        ensures
            r matches Ok(q) && q@ == path@,
    {
        Ok(String::from_str(path))
    }

    /// The store directory: there is none.
    pub fn store_dir(&self) -> (r: Option<String>)
        ensures
            r is None,
    {
        None
    }
}

} // verus!
