//! The record store: a mapping from canonical URL to pull-request
//! record, kept in insertion order, with last-write-wins on duplicate
//! keys.

use vstd::prelude::*;
use crate::record::PullRequestRecord;

verus! {

/// Records keyed by canonical URL. The keys are unique, and the records
/// keep their insertion order.
#[derive(Debug)]
pub struct Store {
    pub records: Vec<PullRequestRecord>,
}

impl Store {
    /// The store's invariant: canonical URLs are unique across records,
    /// and every record is well formed.
    pub open spec fn wf(self) -> bool {
        &&& forall|i: int, j: int|
            0 <= i < j < self.records@.len() ==> self.records@[i].canonical_url@
                != self.records@[j].canonical_url@
        &&& forall|i: int| 0 <= i < self.records@.len() ==> self.records@[i].wf()
    }

    /// Whether some record carries the given canonical URL.
    pub open spec fn spec_has_key(self, key: Seq<char>) -> bool {
        exists|i: int| 0 <= i < self.records@.len() && self.records@[i].canonical_url@ == key
    }

    /// An empty store.
    pub fn new() -> (r: Self)
        ensures
            r.records@.len() == 0,
            r.wf(),
    {
        Store { records: Vec::new() }
    }

    pub fn len(&self) -> (n: usize)
        ensures
            n == self.records@.len(),
    {
        self.records.len()
    }

    /// The record at the given position, in insertion order.
    pub fn index(&self, i: usize) -> (r: &PullRequestRecord)
        requires
            i < self.records@.len(),
        ensures
            *r == self.records@[i as int],
    {
        &self.records[i]
    }

    /// Inserts a record under its canonical URL, last-write-wins: a
    /// record already stored under the same URL is overwritten in place,
    /// keeping its position; a new URL is appended at the end.
    pub fn insert(&mut self, rec: PullRequestRecord)
        requires
            old(self).wf(),
            rec.wf(),
        ensures
            final(self).wf(),
            final(self).spec_has_key(rec.canonical_url@),
            old(self).spec_has_key(rec.canonical_url@) ==> {
                &&& final(self).records@.len() == old(self).records@.len()
                &&& forall|i: int|
                    0 <= i < old(self).records@.len() && old(self).records@[i].canonical_url@
                        != rec.canonical_url@ ==> final(self).records@[i] == old(
                        self,
                    ).records@[i]
                &&& forall|i: int|
                    0 <= i < old(self).records@.len() && old(self).records@[i].canonical_url@
                        == rec.canonical_url@ ==> final(self).records@[i] == rec
            },
            !old(self).spec_has_key(rec.canonical_url@) ==> final(self).records@ == old(
                self,
            ).records@.push(rec),
    {
        let n = self.records.len();
        let mut i: usize = 0;
        while i < n
            invariant
                self == old(self),
                old(self).wf(),
                rec.wf(),
                n == self.records@.len(),
                i <= n,
                forall|j: int| 0 <= j < i ==> self.records@[j].canonical_url@ != rec.canonical_url@,
            decreases n - i,
        {
            if self.records[i].canonical_url == rec.canonical_url {
                proof {
                    assert(old(self).records@[i as int].canonical_url@ == rec.canonical_url@);
                }
                self.records.set(i, rec);
                proof {
                    assert(self.records@[i as int].canonical_url@ == rec.canonical_url@);
                    assert(self.spec_has_key(rec.canonical_url@));
                    assert(old(self).spec_has_key(rec.canonical_url@));
                    assert forall|p: int, q: int|
                        0 <= p < q < self.records@.len() implies self.records@[p].canonical_url@
                        != self.records@[q].canonical_url@ by {
                        assert(old(self).records@[p].canonical_url@ != old(
                            self,
                        ).records@[q].canonical_url@);
                        if p == i {
                            assert(old(self).records@[p].canonical_url@ == rec.canonical_url@);
                        }
                        if q == i {
                            assert(old(self).records@[q].canonical_url@ == rec.canonical_url@);
                        }
                    }
                    assert forall|j: int|
                        0 <= j < old(self).records@.len() && old(self).records@[j].canonical_url@
                            == rec.canonical_url@ implies self.records@[j] == rec by {
                        if j != i {
                            assert(old(self).records@[i as int].canonical_url@ == old(
                                self,
                            ).records@[j].canonical_url@);
                            assert(false);
                        }
                    }
                }
                return ;
            }
            i = i + 1;
        }
        self.records.push(rec);
        proof {
            assert(self.records@[old(self).records@.len() as int].canonical_url@
                == rec.canonical_url@);
            assert(self.spec_has_key(rec.canonical_url@));
            assert forall|p: int, q: int|
                0 <= p < q < self.records@.len() implies self.records@[p].canonical_url@
                != self.records@[q].canonical_url@ by {
                if q < old(self).records@.len() {
                    assert(old(self).records@[p].canonical_url@ != old(
                        self,
                    ).records@[q].canonical_url@);
                } else {
                    assert(self.records@[p] == old(self).records@[p]);
                    assert(self.records@[q] == rec);
                }
            }
        }
    }
}

} // verus!
