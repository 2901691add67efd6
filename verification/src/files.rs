//! A model of a directory tree: relative paths mapped to file contents.
//!
//! Staging directories, deployment bundles, target trees and backup
//! snapshots are all values of this shape; the apply protocol is specified
//! and verified over it.

use vstd::prelude::*;
use crate::strutil::str_eq;
use crate::assoc::{map_of, unique_keys, lemma_map_of_contains, lemma_map_of_at, lemma_map_of_push,
    lemma_map_of_update, lemma_map_of_remove, lemma_unique_keys_update, lemma_unique_keys_push};

verus! {

/// Spec-level file record.
pub struct FileEntryV {
    pub path: Seq<char>,
    pub data: Seq<u8>,
}

/// One file: a relative path and its bytes.
#[derive(Debug)]
pub struct FileEntry {
    pub path: String,
    pub data: Vec<u8>,
}

impl View for FileEntry {
    type V = FileEntryV;

    open spec fn view(&self) -> FileEntryV {
        FileEntryV { path: self.path@, data: self.data@ }
    }
}

impl DeepView for FileEntry {
    type V = FileEntryV;

    open spec fn deep_view(&self) -> FileEntryV {
        self@
    }
}

/// Copies a byte vector.
pub fn clone_bytes(v: &Vec<u8>) -> (r: Vec<u8>)
    ensures
        r@ == v@,
{
    let mut r: Vec<u8> = Vec::new();
    let n = v.len();
    let mut i: usize = 0;
    while i < n
        invariant
            i <= n,
            n == v@.len(),
            r@ == v@.take(i as int),
        decreases n - i,
    {
        r.push(v[i]);
        proof {
            assert(v@.take(i + 1) =~= v@.take(i as int).push(v@[i as int]));
        }
        i = i + 1;
    }
    proof {
        assert(v@.take(n as int) =~= v@);
    }
    r
}

impl Clone for FileEntry {
    fn clone(&self) -> (r: Self)
        ensures
            r@ == self@,
    {
        FileEntry { path: self.path.clone(), data: clone_bytes(&self.data) }
    }
}

/// The entries' (path, data) pairs.
pub open spec fn file_pairs(s: Seq<FileEntryV>) -> Seq<(Seq<char>, Seq<u8>)> {
    s.map_values(|e: FileEntryV| (e.path, e.data))
}

/// A set of files keyed by relative path, each path held once.
#[derive(Debug)]
pub struct FileSet {
    entries: Vec<FileEntry>,
}

impl View for FileSet {
    type V = Map<Seq<char>, Seq<u8>>;

    closed spec fn view(&self) -> Map<Seq<char>, Seq<u8>> {
        map_of(file_pairs(self.entries.deep_view()))
    }
}

impl FileSet {
    /// Each path is held by at most one entry.
    pub closed spec fn wf(&self) -> bool {
        unique_keys(file_pairs(self.entries.deep_view()))
    }

    pub fn new() -> (r: FileSet)
        ensures
            r@ =~= Map::<Seq<char>, Seq<u8>>::empty(),
            r.wf(),
    {
        let r = FileSet { entries: Vec::new() };
        proof {
            assert(file_pairs(r.entries.deep_view()) =~= Seq::<(Seq<char>, Seq<u8>)>::empty());
        }
        r
    }

    /// The entries, for walking the set; their paths are unique and they
    /// carry exactly the map this set denotes.
    pub fn list(&self) -> (r: &Vec<FileEntry>)
        requires
            self.wf(),
        ensures
            unique_keys(file_pairs(r.deep_view())),
            map_of(file_pairs(r.deep_view())) == self@,
            forall|i: int| 0 <= i < r.deep_view().len() ==> #[trigger] self@.contains_key(
                r.deep_view()[i].path,
            ) && self@[r.deep_view()[i].path] == r.deep_view()[i].data,
    {
        proof {
            assert forall|i: int| 0 <= i < self.entries.deep_view().len() implies
                #[trigger] self@.contains_key(self.entries.deep_view()[i].path)
                && self@[self.entries.deep_view()[i].path] == self.entries.deep_view()[i].data by {
                lemma_map_of_at(file_pairs(self.entries.deep_view()), i);
            }
        }
        &self.entries
    }

    pub fn contains(&self, path: &str) -> (r: bool)
        ensures
            r == self@.contains_key(path@),
    {
        let n = self.entries.len();
        let mut i: usize = 0;
        while i < n
            invariant
                i <= n,
                n == self.entries.deep_view().len(),
                forall|j: int| 0 <= j < i ==> self.entries.deep_view()[j].path != path@,
            decreases n - i,
        {
            if str_eq(self.entries[i].path.as_str(), path) {
                proof {
                    assert(file_pairs(self.entries.deep_view())[i as int].0 == path@);
                    lemma_map_of_contains(file_pairs(self.entries.deep_view()), path@);
                }
                return true;
            }
            i = i + 1;
        }
        proof {
            lemma_map_of_contains(file_pairs(self.entries.deep_view()), path@);
        }
        false
    }

    /// Looks a path's bytes up.
    pub fn get(&self, path: &str) -> (r: Option<&Vec<u8>>)
        requires
            self.wf(),
        ensures
            match r {
                Some(d) => self@.contains_key(path@) && d@ == self@[path@],
                None => !self@.contains_key(path@),
            },
    {
        let n = self.entries.len();
        let mut i: usize = 0;
        while i < n
            invariant
                i <= n,
                n == self.entries.deep_view().len(),
                self.wf(),
                forall|j: int| 0 <= j < i ==> self.entries.deep_view()[j].path != path@,
            decreases n - i,
        {
            if str_eq(self.entries[i].path.as_str(), path) {
                proof {
                    assert(file_pairs(self.entries.deep_view())[i as int].0 == path@);
                    lemma_map_of_at(file_pairs(self.entries.deep_view()), i as int);
                }
                return Some(&self.entries[i].data);
            }
            i = i + 1;
        }
        proof {
            lemma_map_of_contains(file_pairs(self.entries.deep_view()), path@);
        }
        None
    }

    /// Binds a path to fresh bytes, replacing any old binding.
    pub fn insert_file(&mut self, path: String, data: Vec<u8>)
        requires
            old(self).wf(),
        ensures
            final(self).wf(),
            final(self)@ == old(self)@.insert(path@, data@),
    {
        let ghost pairs0 = file_pairs(self.entries.deep_view());
        let n = self.entries.len();
        let mut i: usize = 0;
        while i < n
            invariant
                i <= n,
                n == self.entries.deep_view().len(),
                self.wf(),
                self.entries.deep_view() == old(self).entries.deep_view(),
                forall|j: int| 0 <= j < i ==> self.entries.deep_view()[j].path != path@,
            decreases n - i,
        {
            if str_eq(self.entries[i].path.as_str(), path.as_str()) {
                let ghost pairs = file_pairs(self.entries.deep_view());
                let e = FileEntry { path, data };
                proof {
                    assert(pairs[i as int].0 == e.path@);
                }
                self.entries.set(i, e);
                proof {
                    assert(file_pairs(self.entries.deep_view()) =~= pairs.update(
                        i as int,
                        (e.path@, e.data@),
                    ));
                    lemma_map_of_update(pairs, i as int, (e.path@, e.data@));
                    lemma_unique_keys_update(pairs, i as int, (e.path@, e.data@));
                }
                return ;
            }
            i = i + 1;
        }
        let ghost pairs = file_pairs(self.entries.deep_view());
        let e = FileEntry { path, data };
        self.entries.push(e);
        proof {
            assert(file_pairs(self.entries.deep_view()) =~= pairs.push((e.path@, e.data@)));
            assert forall|j: int| 0 <= j < pairs.len() implies pairs[j].0 != e.path@ by {
                assert(old(self).entries.deep_view()[j].path != e.path@);
            }
            lemma_map_of_push(pairs, (e.path@, e.data@));
            lemma_unique_keys_push(pairs, (e.path@, e.data@));
        }
    }

    /// Unbinds a path; absence is not an error.
    pub fn remove_file(&mut self, path: &str)
        requires
            old(self).wf(),
        ensures
            final(self).wf(),
            final(self)@ == old(self)@.remove(path@),
    {
        let n = self.entries.len();
        let mut i: usize = 0;
        while i < n
            invariant
                i <= n,
                n == self.entries.deep_view().len(),
                self.wf(),
                self.entries.deep_view() == old(self).entries.deep_view(),
                forall|j: int| 0 <= j < i ==> self.entries.deep_view()[j].path != path@,
            decreases n - i,
        {
            if str_eq(self.entries[i].path.as_str(), path) {
                let ghost pairs = file_pairs(self.entries.deep_view());
                proof {
                    assert(pairs[i as int].0 == path@);
                }
                self.entries.remove(i);
                proof {
                    assert(file_pairs(self.entries.deep_view()) =~= pairs.remove(i as int));
                    lemma_map_of_remove(pairs, i as int);
                }
                return ;
            }
            i = i + 1;
        }
        proof {
            let pairs = file_pairs(self.entries.deep_view());
            lemma_map_of_contains(pairs, path@);
            assert(!old(self)@.contains_key(path@));
            assert(old(self)@ =~= old(self)@.remove(path@));
        }
    }

    /// Copies the whole set.
    pub fn duplicate(&self) -> (r: FileSet)
        ensures
            r@ == self@,
            r.wf() == self.wf(),
    {
        let mut entries: Vec<FileEntry> = Vec::new();
        let n = self.entries.len();
        let mut i: usize = 0;
        while i < n
            invariant
                i <= n,
                n == self.entries.deep_view().len(),
                entries.deep_view() == self.entries.deep_view().take(i as int),
            decreases n - i,
        {
            let e = self.entries[i].clone();
            entries.push(e);
            proof {
                assert(entries.deep_view() =~= self.entries.deep_view().take(i as int).push(
                    self.entries.deep_view()[i as int],
                ));
                assert(self.entries.deep_view().take(i + 1) =~= self.entries.deep_view().take(
                    i as int,
                ).push(self.entries.deep_view()[i as int]));
            }
            i = i + 1;
        }
        proof {
            assert(self.entries.deep_view().take(n as int) =~= self.entries.deep_view());
        }
        let r = FileSet { entries };
        r
    }
}

/// Whether some element of `v` reads `s`.
pub fn contains_str(v: &Vec<String>, s: &str) -> (r: bool)
    ensures
        r == v.deep_view().contains(s@),
{
    let n = v.len();
    let mut i: usize = 0;
    while i < n
        invariant
            i <= n,
            n == v.deep_view().len(),
            forall|j: int| 0 <= j < i ==> v.deep_view()[j] != s@,
        decreases n - i,
    {
        if str_eq(v[i].as_str(), s) {
            proof {
                assert(v.deep_view()[i as int] == s@);
            }
            return true;
        }
        i = i + 1;
    }
    proof {
        assert(forall|j: int| 0 <= j < v.deep_view().len() ==> v.deep_view()[j] != s@);
    }
    false
}

} // verus!
