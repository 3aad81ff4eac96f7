//! An in-memory project store: the test-composition variant of the
//! persistent collaborator, enforcing the per-identifier uniqueness
//! invariant. A record is created exactly once per distinct canonical id;
//! an attempt to create a duplicate is rejected and classified as an
//! infrastructure fault rather than silently swallowed.

use vstd::prelude::*;

use crate::canon::canon_spec;
use crate::entities::ProjectEntity;
use crate::error::Error;
use crate::strutil::str_eq;

verus! {

/// A store of project records held in memory, keyed by canonical id.
pub struct MemoryStore {
    records: Vec<ProjectEntity>,
}

impl MemoryStore {
    /// The canonical identifiers currently stored, in insertion order.
    pub closed spec fn ids(&self) -> Seq<Seq<char>> {
        self.records@.map(|i: int, p: ProjectEntity| p.id())
    }

    /// The store invariant: identifiers are pairwise distinct and each is
    /// in canonical form.
    pub open spec fn wf(&self) -> bool {
        &&& forall|i: int, j: int|
            0 <= i < j < self.ids().len() ==> self.ids()[i] != self.ids()[j]
        &&& forall|i: int|
            0 <= i < self.ids().len() ==> canon_spec(#[trigger] self.ids()[i]) == Some(
                self.ids()[i],
            )
    }

    /// Creates an empty store.
    pub fn new() -> (s: Self)
        ensures
            s.ids().len() == 0,
            s.wf(),
    {
        MemoryStore { records: Vec::new() }
    }

    /// Looks up the record holding the given canonical URL. Returns a
    /// record only where a completed create put one there.
    pub fn find_by_canonical_github_url(&self, url: &str) -> (r: Option<ProjectEntity>)
        requires
            self.wf(),
        ensures
            r is Some <==> self.ids().contains(url@),
            r matches Some(p) ==> p.id() == url@ && p.wf(),
    {
        let n = self.records.len();
        let mut i: usize = 0;
        while i < n
            invariant
                i <= n,
                n == self.records@.len(),
                self.wf(),
                forall|j: int| 0 <= j < i ==> self.ids()[j] != url@,
            decreases n - i,
        {
            if str_eq(self.records[i].github_url().as_str(), url) {
                proof {
                    assert(self.ids()[i as int] == url@);
                }
                let found = ProjectEntity::from_canonical(self.records[i].github_url().clone());
                return Some(found);
            }
            proof {
                assert(self.ids()[i as int] == self.records@[i as int].id());
            }
            i += 1;
        }
        proof {
            if self.ids().contains(url@) {
                let j = choose|j: int| 0 <= j < self.ids().len() && self.ids()[j] == url@;
                assert(self.ids()[j] != url@);
            }
        }
        None
    }

    /// Inserts a record. A duplicate canonical id is rejected: the store
    /// enforces uniqueness and surfaces the conflict as an infrastructure
    /// fault.
    pub fn create(&mut self, project: &ProjectEntity) -> (r: Result<(), Error>)
        requires
            old(self).wf(),
            project.wf(),
        ensures
            final(self).wf(),
            old(self).ids().contains(project.id()) ==> (r matches Err(e) && e matches
                Error::InfrastructureFault(_) && final(self).ids() == old(self).ids()),
            !old(self).ids().contains(project.id()) ==> (r is Ok && final(self).ids() == old(
                self,
            ).ids().push(project.id())),
    {
        if self.find_by_canonical_github_url(project.github_url().as_str()).is_some() {
            return Err(
                Error::InfrastructureFault(
                    String::from_str("store uniqueness violated: canonical id already present"),
                ),
            );
        }
        let record = ProjectEntity::from_canonical(project.github_url().clone());
        self.records.push(record);
        proof {
            assert(self.ids() =~= old(self).ids().push(project.id()));
            let ids = self.ids();
            assert forall|i: int, j: int| 0 <= i < j < ids.len() implies ids[i] != ids[j] by {
                if j == ids.len() - 1 {
                    assert(ids[i] == old(self).ids()[i]);
                    if old(self).ids()[i] == project.id() {
                        assert(old(self).ids().contains(project.id()));
                    }
                } else {
                    assert(ids[i] == old(self).ids()[i]);
                    assert(ids[j] == old(self).ids()[j]);
                }
            }
        }
        Ok(())
    }

    /// The number of records held.
    pub fn len(&self) -> (r: usize)
        ensures
            r == self.ids().len(),
    {
        self.records.len()
    }
}

} // verus!
