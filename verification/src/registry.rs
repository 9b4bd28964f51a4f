//! The transfer registry: destination path to in-flight transfer, each path
//! present at most once.

use vstd::prelude::*;
use crate::error::Error;
use crate::transfer::File;

verus! {

/// Whether some transfer in `s` is keyed by `p`.
pub open spec fn has_path(s: Seq<File>, p: Seq<char>) -> bool {
    exists|i: int| 0 <= i < s.len() && s[i]@.path == p
}

/// The in-flight transfers, keyed by destination path.
pub struct Registry {
    entries: Vec<File>,
}

impl View for Registry {
    type V = Seq<File>;

    closed spec fn view(&self) -> Seq<File> {
        self.entries@
    }
}

impl Registry {
    /// Paths are unique and every transfer is structurally sound.
    pub open spec fn wf(&self) -> bool {
        &&& (forall|i: int, j: int| 0 <= i < j < self@.len() ==> self@[i]@.path
            != self@[j]@.path)
        &&& (forall|i: int| 0 <= i < self@.len() ==> (#[trigger] self@[i]).wf())
    }

    pub fn new() -> (r: Registry)
        ensures
            r@ =~= Seq::<File>::empty(),
            r.wf(),
    {
        Registry { entries: Vec::new() }
    }

    pub fn len(&self) -> (r: usize)
        ensures
            r == self@.len(),
    {
        self.entries.len()
    }

    /// Whether a transfer toward `path` is in flight.
    pub fn contains(&self, path: &String) -> (r: bool)
        ensures
            r == has_path(self@, path@),
    {
        let mut i: usize = 0;
        while i < self.entries.len()
            invariant
                i <= self@.len(),
                forall|j: int| 0 <= j < i ==> self@[j]@.path != path@,
            decreases self@.len() - i,
        {
            if self.entries[i].path().eq(path) {
                return true;
            }
            i = i + 1;
        }
        false
    }

    /// Admit a new transfer. A path already mid-transfer is rejected rather
    /// than silently overwritten: the existing transfer keeps its staging
    /// file and buffered chunks.
    pub fn insert(&mut self, t: File) -> (r: Result<(), Error>)
        requires
            old(self).wf(),
            t.wf(),
        ensures
            final(self).wf(),
            match r {
                Ok(()) => !has_path(old(self)@, t@.path) && final(self)@ == old(self)@.push(t),
                Err(e) => e == Error::DuplicateTransfer && has_path(old(self)@, t@.path)
                    && final(self)@ == old(self)@,
            },
    {
        if self.contains(t.path()) {
            return Err(Error::DuplicateTransfer);
        }
        self.entries.push(t);
        Ok(())
    }

    /// Remove and return the transfer keyed by `path`, if any.
    pub fn take(&mut self, path: &String) -> (r: Option<File>)
        requires
            old(self).wf(),
        ensures
            final(self).wf(),
            match r {
                Some(f) => f@.path == path@ && f.wf() && exists|i: int|
                    0 <= i < old(self)@.len() && old(self)@[i] == f && final(self)@ == old(
                    self)@.remove(i),
                None => !has_path(old(self)@, path@) && final(self)@ == old(self)@,
            },
    {
        let mut i: usize = 0;
        while i < self.entries.len()
            invariant
                i <= self@.len(),
                forall|j: int| 0 <= j < i ==> self@[j]@.path != path@,
                self.wf(),
                self@ == old(self)@,
            decreases self@.len() - i,
        {
            if self.entries[i].path().eq(path) {
                let ghost before = self@;
                let f = self.entries.remove(i);
                proof {
                    assert(f == before[i as int]);
                    assert(self@ =~= before.remove(i as int));
                    assert(before == old(self)@ && before[i as int] == f && self@
                        == before.remove(i as int));
                    assert forall|a: int, b: int| 0 <= a < b < self@.len() implies self@[a]@
                        .path != self@[b]@.path by {
                        let a0: int = if a < i { a } else { a + 1 };
                        let b0: int = if b < i { b } else { b + 1 };
                        assert(self@[a] == before[a0] && self@[b] == before[b0]);
                    }
                    assert forall|a: int| 0 <= a < self@.len() implies (#[trigger] self@[a])
                        .wf() by {
                        let a0: int = if a < i { a } else { a + 1 };
                        assert(self@[a] == before[a0]);
                    }
                }
                return Some(f);
            }
            i = i + 1;
        }
        proof {
            assert(!has_path(self@, path@));
        }
        None
    }
}

} // verus!
