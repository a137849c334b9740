//! The registry: the externally visible projection of the instance table,
//! published to a key-value store with time-boxed expiry. The store itself
//! is outside the library; here live the record layout, the key schema,
//! and the read/write contract the supervisor relies on, with a verified
//! reference model of that contract. A registry outage never blocks or
//! crashes supervision: every caller tolerates and logs failure.

use vstd::prelude::*;

use vstd::string::StringExecFns;

use crate::clock::now_rfc3339;
use crate::ids::uuid_seq;
use crate::ids::uuid_string;
use crate::status::InstanceStatus;
use crate::status::status_label;
use crate::status::status_seq;
use crate::supervisor::InstanceSpec;
use crate::text::ascii_view;

verus! {

/// How long an expired record stays readable, in seconds.
pub const EXPIRE_SEC: u64 = 60;

/// A registry write or read failed; the caller logs it and carries on.
#[derive(Debug, Clone, Copy, PartialEq, Eq, Structural)]
pub struct RegistryError {}

/// One published record: the instance's module identity, path, identifier,
/// status and creation time.
#[derive(Debug, Clone)]
pub struct InstanceRegisterEntry {
    pub module_id: String,
    pub path: String,
    pub instance_id: String,
    pub status: InstanceStatus,
    pub created_at: String,
}

impl InstanceRegisterEntry {
    pub fn new(
        module_id: String,
        path: String,
        instance_id: String,
        status: InstanceStatus,
        created_at: String,
    ) -> (r: Self)
        ensures
            r.module_id == module_id,
            r.path == path,
            r.instance_id == instance_id,
            r.status == status,
            r.created_at == created_at,
    {
        InstanceRegisterEntry { module_id, path, instance_id, status, created_at }
    }

    /// The record of a freshly requested instance, created at the given
    /// time: its module digest and path, its rendered identifier, and the
    /// `Starting` status.
    pub fn from_spec_at(spec: &InstanceSpec, created_at: String) -> (r: Self)
        ensures
            r.module_id == spec.module.digest,
            r.path == spec.module.path,
            r.instance_id@ == ascii_view(uuid_seq(spec.uid)),
            r.status == InstanceStatus::Starting,
            r.created_at == created_at,
    {
        InstanceRegisterEntry {
            module_id: spec.module.digest.clone(),
            path: spec.module.path.clone(),
            instance_id: uuid_string(spec.uid),
            status: InstanceStatus::Starting,
            created_at,
        }
    }

    /// As `from_spec_at`, timestamped from the clock.
    pub fn from_spec(spec: &InstanceSpec) -> (r: Self)
        ensures
            r.module_id == spec.module.digest,
            r.path == spec.module.path,
            r.instance_id@ == ascii_view(uuid_seq(spec.uid)),
            r.status == InstanceStatus::Starting,
    {
        let now = now_rfc3339();
        Self::from_spec_at(spec, now)
    }

    /// The record as field/value pairs, in the order the store writes
    /// them.
    pub fn into_vec_tup(&self) -> (r: Vec<(String, String)>)
        ensures
            r@.len() == 5,
            r@[0].0@ == "module_id"@ && r@[0].1 == self.module_id,
            r@[1].0@ == "module_path"@ && r@[1].1 == self.path,
            r@[2].0@ == "instance_id"@ && r@[2].1 == self.instance_id,
            r@[3].0@ == "status"@ && r@[3].1@ == ascii_view(status_seq(self.status)),
            r@[4].0@ == "created_at"@ && r@[4].1 == self.created_at,
    {
        let mut v: Vec<(String, String)> = Vec::new();
        v.push((String::from_str("module_id"), self.module_id.clone()));
        v.push((String::from_str("module_path"), self.path.clone()));
        v.push((String::from_str("instance_id"), self.instance_id.clone()));
        v.push((String::from_str("status"), status_label(self.status)));
        v.push((String::from_str("created_at"), self.created_at.clone()));
        v
    }
}

/// The store key of one instance's record: a fixed prefix and the
/// rendered identifier.
pub fn to_key(uid: u128) -> (r: String)
    ensures
        r@ == "instance:"@ + ascii_view(uuid_seq(uid)),
{
    let mut s = String::from_str("instance:");
    let id = uuid_string(uid);
    s.append(id.as_str());
    s
}

/// The registry operations the coordinator uses. The store's own
/// persistence engine implements them outside the library; every failure
/// is reported, never hidden.
pub trait InstanceRegister {
    fn exists_at(&self, spec: &InstanceSpec) -> Result<bool, RegistryError>;

    fn register(&self, spec: &InstanceSpec) -> Result<(), RegistryError>;

    fn update(&self, uid: u128, status: InstanceStatus) -> Result<(), RegistryError>;

    fn expire(&self, uid: u128) -> Result<(), RegistryError>;
}

/// The reference model of the store contract: one row per key, each an
/// entry with an optional expiry deadline. Time enters as an argument;
/// a row is visible until its deadline passes.
#[derive(Debug)]
pub struct RegistryModel {
    rows: Vec<(u128, InstanceRegisterEntry, Option<u64>)>,
}

impl RegistryModel {
    pub closed spec fn rows(self) -> Seq<(u128, InstanceRegisterEntry, Option<u64>)> {
        self.rows@
    }

    pub open spec fn wf(self) -> bool {
        forall|i: int, j: int|
            0 <= i < j < self.rows().len() ==> (#[trigger] self.rows()[i]).0 != (
            #[trigger] self.rows()[j]).0
    }

    pub open spec fn has(self, id: u128) -> bool {
        exists|i: int| 0 <= i < self.rows().len() && (#[trigger] self.rows()[i]).0 == id
    }

    pub open spec fn idx_of(self, id: u128) -> int {
        choose|i: int| 0 <= i < self.rows().len() && (#[trigger] self.rows()[i]).0 == id
    }

    pub open spec fn entry_of(self, id: u128) -> InstanceRegisterEntry {
        self.rows()[self.idx_of(id)].1
    }

    pub open spec fn deadline_of(self, id: u128) -> Option<u64> {
        self.rows()[self.idx_of(id)].2
    }

    /// A record is retrievable while it exists and its expiry window, if
    /// one was started, has not elapsed.
    pub open spec fn visible(self, id: u128, now: u64) -> bool {
        self.has(id) && match self.deadline_of(id) {
            None => true,
            Some(d) => now < d,
        }
    }

    pub fn new() -> (r: Self)
        ensures
            r.rows() =~= Seq::<(u128, InstanceRegisterEntry, Option<u64>)>::empty(),
            r.wf(),
    {
        RegistryModel { rows: Vec::new() }
    }

    fn find(&self, id: u128) -> (r: Option<usize>)
        ensures
            match r {
                Some(i) => i < self.rows().len() && self.rows()[i as int].0 == id,
                None => !self.has(id),
            },
    {
        let mut i: usize = 0;
        while i < self.rows.len()
            invariant
                0 <= i <= self.rows().len(),
                forall|m: int| 0 <= m < i ==> (#[trigger] self.rows()[m]).0 != id,
            decreases self.rows().len() - i,
        {
            if self.rows[i].0 == id {
                return Some(i);
            }
            i = i + 1;
        }
        None
    }

    pub proof fn lemma_idx_of(self, i: int, id: u128)
        requires
            self.wf(),
            0 <= i < self.rows().len(),
            self.rows()[i].0 == id,
        ensures
            self.idx_of(id) == i,
            self.has(id),
    {
        assert(self.has(id));
        let j = self.idx_of(id);
        if j != i {
            if j < i {
                assert(self.rows()[j].0 != self.rows()[i].0);
            } else {
                assert(self.rows()[i].0 != self.rows()[j].0);
            }
        }
    }

    /// Whether the record is retrievable at the given time.
    pub fn exists_at(&self, id: u128, now: u64) -> (r: bool)
        requires
            self.wf(),
        ensures
            r == self.visible(id, now),
    {
        match self.find(id) {
            None => false,
            Some(i) => {
                proof {
                    self.lemma_idx_of(i as int, id);
                }
                match self.rows[i].2 {
                    None => true,
                    Some(d) => now < d,
                }
            },
        }
    }

    /// Writes a record. A fresh key gets a new row without an expiry
    /// deadline; writing an existing key replaces the record and leaves
    /// the deadline as it was.
    pub fn register(&mut self, id: u128, entry: InstanceRegisterEntry)
        requires
            old(self).wf(),
        ensures
            final(self).wf(),
            !old(self).has(id) ==> final(self).rows() == old(self).rows().push(
                (id, entry, None::<u64>),
            ),
            old(self).has(id) ==> final(self).rows() == old(self).rows().update(
                old(self).idx_of(id),
                (id, entry, old(self).deadline_of(id)),
            ),
    {
        match self.find(id) {
            None => {
                self.rows.push((id, entry, None));
                proof {
                    assert forall|i: int, j: int|
                        0 <= i < j < self.rows().len() implies (#[trigger] self.rows()[i]).0 != (
                    #[trigger] self.rows()[j]).0 by {
                        if j < self.rows().len() - 1 {
                            assert(old(self).rows()[i].0 != old(self).rows()[j].0);
                        } else {
                            assert(self.rows()[i] == old(self).rows()[i]);
                            if old(self).rows()[i].0 == id {
                                assert(old(self).has(id));
                            }
                        }
                    }
                }
            },
            Some(i) => {
                proof {
                    old(self).lemma_idx_of(i as int, id);
                }
                let (_, _, dl) = self.rows.remove(i);
                self.rows.insert(i, (id, entry, dl));
                proof {
                    assert(self.rows() =~= old(self).rows().update(
                        i as int,
                        (id, entry, old(self).deadline_of(id)),
                    ));
                    assert forall|a: int, b: int|
                        0 <= a < b < self.rows().len() implies (#[trigger] self.rows()[a]).0 != (
                    #[trigger] self.rows()[b]).0 by {
                        assert(old(self).rows()[a].0 != old(self).rows()[b].0);
                    }
                }
            },
        }
    }

    /// Rewrites the status field of a record. Reports whether the key was
    /// found; a missing key changes nothing.
    pub fn update_status(&mut self, id: u128, status: InstanceStatus) -> (found: bool)
        requires
            old(self).wf(),
        ensures
            final(self).wf(),
            found == old(self).has(id),
            !old(self).has(id) ==> final(self).rows() == old(self).rows(),
            old(self).has(id) ==> final(self).rows() == old(self).rows().update(
                old(self).idx_of(id),
                (
                    id,
                    (InstanceRegisterEntry {
                        module_id: old(self).entry_of(id).module_id,
                        path: old(self).entry_of(id).path,
                        instance_id: old(self).entry_of(id).instance_id,
                        status: status,
                        created_at: old(self).entry_of(id).created_at,
                    }),
                    old(self).deadline_of(id),
                ),
            ),
    {
        match self.find(id) {
            None => false,
            Some(i) => {
                proof {
                    old(self).lemma_idx_of(i as int, id);
                }
                let (id0, mut e, dl) = self.rows.remove(i);
                e.status = status;
                self.rows.insert(i, (id0, e, dl));
                proof {
                    assert(self.rows() =~= old(self).rows().update(
                        i as int,
                        (
                            id,
                            (InstanceRegisterEntry {
                                module_id: old(self).entry_of(id).module_id,
                                path: old(self).entry_of(id).path,
                                instance_id: old(self).entry_of(id).instance_id,
                                status: status,
                                created_at: old(self).entry_of(id).created_at,
                            }),
                            old(self).deadline_of(id),
                        ),
                    ));
                    assert forall|a: int, b: int|
                        0 <= a < b < self.rows().len() implies (#[trigger] self.rows()[a]).0 != (
                    #[trigger] self.rows()[b]).0 by {
                        assert(old(self).rows()[a].0 != old(self).rows()[b].0);
                    }
                }
                true
            },
        }
    }

    /// Starts the expiry window of a record at the given time: it stays
    /// retrievable until `now + EXPIRE_SEC` and is gone from then on.
    /// Reports whether the key was found.
    pub fn expire(&mut self, id: u128, now: u64) -> (found: bool)
        requires
            old(self).wf(),
            now <= u64::MAX - EXPIRE_SEC,
        ensures
            final(self).wf(),
            found == old(self).has(id),
            !old(self).has(id) ==> final(self).rows() == old(self).rows(),
            old(self).has(id) ==> final(self).rows() == old(self).rows().update(
                old(self).idx_of(id),
                (id, old(self).entry_of(id), Some((now + EXPIRE_SEC) as u64)),
            ),
    {
        match self.find(id) {
            None => false,
            Some(i) => {
                proof {
                    old(self).lemma_idx_of(i as int, id);
                }
                let (id0, e, _) = self.rows.remove(i);
                self.rows.insert(i, (id0, e, Some(now + EXPIRE_SEC)));
                proof {
                    assert(self.rows() =~= old(self).rows().update(
                        i as int,
                        (id, old(self).entry_of(id), Some((now + EXPIRE_SEC) as u64)),
                    ));
                    assert forall|a: int, b: int|
                        0 <= a < b < self.rows().len() implies (#[trigger] self.rows()[a]).0 != (
                    #[trigger] self.rows()[b]).0 by {
                        assert(old(self).rows()[a].0 != old(self).rows()[b].0);
                    }
                }
                true
            },
        }
    }

    /// Reads a record's status at the given time, when it is retrievable.
    pub fn get_status(&self, id: u128, now: u64) -> (r: Option<InstanceStatus>)
        requires
            self.wf(),
        ensures
            self.visible(id, now) ==> r == Some(self.entry_of(id).status),
            !self.visible(id, now) ==> r is None,
    {
        match self.find(id) {
            None => None,
            Some(i) => {
                proof {
                    self.lemma_idx_of(i as int, id);
                }
                let live = match self.rows[i].2 {
                    None => true,
                    Some(d) => now < d,
                };
                if live {
                    Some(self.rows[i].1.status)
                } else {
                    None
                }
            },
        }
    }
}

/// A record registered under a fresh key is retrievable at once, at any
/// time before an expiry is issued.
pub proof fn lemma_register_then_exists(
    m: RegistryModel,
    m2: RegistryModel,
    id: u128,
    entry: InstanceRegisterEntry,
    now: u64,
)
    requires
        m.wf(),
        !m.has(id),
        m2.rows() == m.rows().push((id, entry, None::<u64>)),
    ensures
        m2.visible(id, now),
{
    let i = m.rows().len() as int;
    assert(m2.rows()[i].0 == id);
    assert(m2.has(id));
    let j = m2.idx_of(id);
    if j != i {
        assert(m2.rows()[j] == m.rows()[j]);
        assert(m.has(id));
    }
    assert(m2.deadline_of(id) is None);
}

/// After an expiry issued at time `t`, the record stays retrievable at
/// every time inside the window and is gone at every time from the
/// window's end on.
pub proof fn lemma_expiry_window(m: RegistryModel, m2: RegistryModel, id: u128, t: u64, tp: u64)
    requires
        m.wf(),
        m.has(id),
        t <= u64::MAX - EXPIRE_SEC,
        m2.rows() == m.rows().update(
            m.idx_of(id),
            (id, m.entry_of(id), Some((t + EXPIRE_SEC) as u64)),
        ),
    ensures
        tp < t + EXPIRE_SEC ==> m2.visible(id, tp),
        tp >= t + EXPIRE_SEC ==> !m2.visible(id, tp),
{
    let i = m.idx_of(id);
    assert(0 <= i < m.rows().len());
    assert(m2.rows()[i].0 == id);
    assert(m2.has(id));
    let j = m2.idx_of(id);
    if j != i {
        assert(m2.rows()[j] == m.rows()[j]);
        assert(m.rows()[j].0 == id);
        m.lemma_idx_of(j, id);
    }
    assert(m2.deadline_of(id) == Some((t + EXPIRE_SEC) as u64));
}

} // verus!
