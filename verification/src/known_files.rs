//! The files whose next change on disk is already known about.

use crate::path::{parts, same_path, PartView};
use vstd::prelude::*;

verus! {

/// A set of paths; no two of its entries are the same path.
#[derive(Debug)]
pub struct KnownFiles {
    files: Vec<Vec<u8>>,
}

impl View for KnownFiles {
    type V = Set<Seq<PartView>>;

    closed spec fn view(&self) -> Set<Seq<PartView>> {
        self.entries().to_set()
    }
}

/// Where no two items are equal, taking one out of the row takes it out of the set.
proof fn lemma_remove_from_set<T>(row: Seq<T>, i: int)
    requires
        row.no_duplicates(),
        0 <= i < row.len(),
    ensures
        row.remove(i).to_set() == row.to_set().remove(row[i]),
{
    let left = row.remove(i);
    assert forall|x: T| left.to_set().contains(x) <==> row.to_set().remove(row[i]).contains(x) by {
        if left.contains(x) {
            let k = choose|k: int| 0 <= k < left.len() && left[k] == x;
            if k < i {
                assert(row[k] == x);
            } else {
                assert(row[k + 1] == x);
            }
        }
        if row.contains(x) && x != row[i] {
            let k = choose|k: int| 0 <= k < row.len() && row[k] == x;
            if k < i {
                assert(left[k] == x);
            } else {
                assert(left[k - 1] == x);
            }
        }
    }
    assert(left.to_set() =~= row.to_set().remove(row[i]));
}

impl KnownFiles {
    /// The parts of each entry.
    closed spec fn entries(&self) -> Seq<Seq<PartView>> {
        Seq::new(self.files@.len(), |i: int| parts(self.files@[i]@))
    }

    /// No two entries are the same path.
    #[verifier::type_invariant]
    closed spec fn distinct(&self) -> bool {
        self.entries().no_duplicates()
    }

    /// The set without entries.
    pub fn new() -> (known: KnownFiles)
        ensures
            known@ == Set::<Seq<PartView>>::empty(),
    {
        let known = KnownFiles { files: Vec::new() };
        assert(known.entries().to_set() =~= Set::empty());
        known
    }

    /// Where `path` stands among the entries, if it does.
    fn position(&self, path: &[u8]) -> (position: Option<usize>)
        ensures
            match position {
                Some(i) => i < self.files@.len() && self.entries()[i as int] == parts(path@),
                None => !self.entries().contains(parts(path@)),
            },
    {
        let mut i: usize = 0;
        while i < self.files.len()
            invariant
                i <= self.files@.len(),
                forall|j: int| 0 <= j < i ==> self.entries()[j] != parts(path@),
            decreases self.files@.len() - i,
        {
            if same_path(self.files[i].as_slice(), path) {
                return Some(i);
            }
            i += 1;
        }
        None
    }

    /// Whether `path` is an entry.
    pub fn contains(&self, path: &[u8]) -> (yes: bool)
        ensures
            yes == self@.contains(parts(path@)),
    {
        match self.position(path) {
            Some(i) => {
                assert(self.entries().contains(self.entries()[i as int]));
                true
            },
            None => false,
        }
    }

    /// Makes `path` an entry.
    pub fn insert(&mut self, path: Vec<u8>)
        ensures
            final(self)@ == old(self)@.insert(parts(path@)),
    {
        proof {
            use_type_invariant(&*self);
        }
        if !self.contains(path.as_slice()) {
            let ghost before = self.entries();
            let ghost added = parts(path@);
            let mut files: Vec<Vec<u8>> = Vec::new();
            std::mem::swap(&mut self.files, &mut files);
            files.push(path);
            assert(Seq::new(files@.len(), |i: int| parts(files@[i]@)) =~= before.push(added));
            self.files = files;
            proof {
                assert(self.entries() =~= before.push(added));
                before.lemma_push_to_set_commute(added);
            }
        } else {
            assert(self@ =~= old(self)@.insert(parts(path@)));
        }
    }

    /// Takes `path` out, and tells whether it was an entry.
    pub fn remove(&mut self, path: &[u8]) -> (was_entry: bool)
        ensures
            was_entry == old(self)@.contains(parts(path@)),
            final(self)@ == old(self)@.remove(parts(path@)),
    {
        proof {
            use_type_invariant(&*self);
        }
        match self.position(path) {
            Some(i) => {
                let ghost before = self.entries();
                let mut files: Vec<Vec<u8>> = Vec::new();
                std::mem::swap(&mut self.files, &mut files);
                let _ = files.remove(i);
                assert(Seq::new(files@.len(), |i: int| parts(files@[i]@)) =~= before.remove(i as int));
                self.files = files;
                proof {
                    assert(self.entries() =~= before.remove(i as int));
                    assert(before.contains(before[i as int]));
                    lemma_remove_from_set(before, i as int);
                }
                true
            },
            None => {
                assert(self@ =~= old(self)@.remove(parts(path@)));
                false
            },
        }
    }

    /// Takes every entry out.
    pub fn clear(&mut self)
        ensures
            final(self)@ == Set::<Seq<PartView>>::empty(),
    {
        self.files = Vec::new();
        assert(self.entries().to_set() =~= Set::empty());
    }
}

} // verus!
