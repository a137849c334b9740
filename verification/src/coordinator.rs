//! The status coordinator: the single writer of the authoritative table of
//! instance states. Every other component only sends it messages; the
//! table is mutated along exactly one control-flow path, so no lock guards
//! it. The coordinator also decides which registry writes and which
//! process operations each event calls for; performing them is left to the
//! surrounding runtime.

use vstd::prelude::*;

use crate::status::InstanceStatus;
use crate::status::step_allowed;
use crate::supervisor::InstanceSpec;

verus! {

/// Why the coordinator refused an operation.
#[derive(Debug, Clone, Copy, PartialEq, Eq, Structural)]
pub enum CoordError {
    /// No instance with this identifier is in the table.
    UnknownInstance,
    /// An instance with this identifier is already in the table:
    /// identifiers are never reused.
    DuplicateInstance,
    /// The requested status move does not go forward.
    RefusedTransition,
}

/// The authoritative table: one row per instance, in registration order,
/// each identifier at most once.
#[derive(Debug)]
pub struct StatusTable {
    entries: Vec<(u128, InstanceStatus)>,
}

/// The identifiers of the rows not yet at `Quit`, in table order.
pub open spec fn live_ids(rows: Seq<(u128, InstanceStatus)>) -> Seq<u128>
    decreases rows.len(),
{
    if rows.len() == 0 {
        Seq::empty()
    } else {
        live_ids(rows.drop_last()) + (if rows.last().1 != InstanceStatus::Quit {
            seq![rows.last().0]
        } else {
            Seq::empty()
        })
    }
}

/// Every identifier in the live list belongs to a row that is not at
/// `Quit`.
pub proof fn lemma_live_ids_members(rows: Seq<(u128, InstanceStatus)>)
    ensures
        forall|i: int|
            0 <= i < live_ids(rows).len() ==> exists|k: int|
                0 <= k < rows.len() && (#[trigger] rows[k]).0 == #[trigger] live_ids(rows)[i]
                    && rows[k].1 != InstanceStatus::Quit,
    decreases rows.len(),
{
    if rows.len() > 0 {
        lemma_live_ids_members(rows.drop_last());
        let front = live_ids(rows.drop_last());
        assert forall|i: int|
            0 <= i < live_ids(rows).len() implies exists|k: int|
            0 <= k < rows.len() && (#[trigger] rows[k]).0 == #[trigger] live_ids(rows)[i]
                && rows[k].1 != InstanceStatus::Quit by {
            if i < front.len() {
                let k = choose|k: int|
                    0 <= k < rows.drop_last().len() && (#[trigger] rows.drop_last()[k]).0
                        == front[i] && rows.drop_last()[k].1 != InstanceStatus::Quit;
                assert(rows[k] == rows.drop_last()[k]);
            } else {
                assert(rows.last().1 != InstanceStatus::Quit);
                assert(live_ids(rows)[i] == rows.last().0);
                assert(rows[rows.len() - 1] == rows.last());
            }
        }
    }
}

/// With distinct row identifiers, the live list names each instance at
/// most once: the drain issues exactly one stop per live instance.
pub proof fn lemma_live_ids_distinct(rows: Seq<(u128, InstanceStatus)>)
    requires
        forall|i: int, j: int| 0 <= i < j < rows.len() ==> (#[trigger] rows[i]).0 != (
        #[trigger] rows[j]).0,
    ensures
        forall|i: int, j: int|
            0 <= i < j < live_ids(rows).len() ==> live_ids(rows)[i] != live_ids(rows)[j],
    decreases rows.len(),
{
    if rows.len() > 0 {
        let front_rows = rows.drop_last();
        assert forall|i: int, j: int|
            0 <= i < j < front_rows.len() implies (#[trigger] front_rows[i]).0 != (
        #[trigger] front_rows[j]).0 by {
            assert(front_rows[i] == rows[i] && front_rows[j] == rows[j]);
        }
        lemma_live_ids_distinct(front_rows);
        lemma_live_ids_members(front_rows);
        let front = live_ids(front_rows);
        assert forall|i: int, j: int|
            0 <= i < j < live_ids(rows).len() implies live_ids(rows)[i] != live_ids(rows)[j] by {
            if j < front.len() {
            } else {
                assert(live_ids(rows)[j] == rows.last().0);
                let k = choose|k: int|
                    0 <= k < front_rows.len() && (#[trigger] front_rows[k]).0 == front[i]
                        && front_rows[k].1 != InstanceStatus::Quit;
                assert(rows[k] == front_rows[k]);
                assert(rows[k].0 != rows[rows.len() - 1].0);
                assert(rows[rows.len() - 1] == rows.last());
            }
        }
    }
}

impl StatusTable {
    pub closed spec fn rows(self) -> Seq<(u128, InstanceStatus)> {
        self.entries@
    }

    /// Each identifier occurs at most once.
    pub open spec fn wf(self) -> bool {
        forall|i: int, j: int|
            0 <= i < j < self.rows().len() ==> (#[trigger] self.rows()[i]).0 != (
            #[trigger] self.rows()[j]).0
    }

    pub open spec fn has(self, id: u128) -> bool {
        exists|i: int| 0 <= i < self.rows().len() && (#[trigger] self.rows()[i]).0 == id
    }

    pub open spec fn idx_of(self, id: u128) -> int {
        choose|i: int| 0 <= i < self.rows().len() && (#[trigger] self.rows()[i]).0 == id
    }

    pub open spec fn status_of(self, id: u128) -> InstanceStatus {
        self.rows()[self.idx_of(id)].1
    }

    pub open spec fn live(self) -> Seq<u128> {
        live_ids(self.rows())
    }

    pub fn new() -> (r: Self)
        ensures
            r.rows() =~= Seq::<(u128, InstanceStatus)>::empty(),
            r.wf(),
    {
        StatusTable { entries: Vec::new() }
    }

    /// Index of the row holding `id`, when there is one.
    fn find(&self, id: u128) -> (r: Option<usize>)
        ensures
            match r {
                Some(i) => i < self.rows().len() && self.rows()[i as int].0 == id,
                None => !self.has(id),
            },
    {
        let mut i: usize = 0;
        while i < self.entries.len()
            invariant
                0 <= i <= self.rows().len(),
                forall|m: int| 0 <= m < i ==> (#[trigger] self.rows()[m]).0 != id,
            decreases self.rows().len() - i,
        {
            if self.entries[i].0 == id {
                return Some(i);
            }
            i = i + 1;
        }
        None
    }

    /// With distinct identifiers, a row holding `id` is the row
    /// `idx_of(id)` points at.
    pub proof fn lemma_idx_of(self, i: int, id: u128)
        requires
            self.wf(),
            0 <= i < self.rows().len(),
            self.rows()[i].0 == id,
        ensures
            self.idx_of(id) == i,
            self.has(id),
            self.status_of(id) == self.rows()[i].1,
    {
        assert(self.has(id));
        let j = self.idx_of(id);
        if j != i {
            if j < i {
                assert(self.rows()[j].0 != self.rows()[i].0);
            } else {
                assert(self.rows()[i].0 != self.rows()[j].0);
            }
        }
    }

    /// Adds a new instance at `Starting`. An identifier already present is
    /// refused: identifiers are never reused, and a restart registers a
    /// fresh instance instead of resurrecting the old row.
    pub fn register(&mut self, id: u128) -> (r: Result<(), CoordError>)
        requires
            old(self).wf(),
        ensures
            final(self).wf(),
            old(self).has(id) ==> (r == Err::<(), CoordError>(CoordError::DuplicateInstance)
                && final(self).rows() == old(self).rows()),
            !old(self).has(id) ==> (r == Ok::<(), CoordError>(()) && final(self).rows() == old(
                self,
            ).rows().push((id, InstanceStatus::Starting))),
    {
        match self.find(id) {
            Some(_) => Err(CoordError::DuplicateInstance),
            None => {
                self.entries.push((id, InstanceStatus::Starting));
                proof {
                    assert forall|i: int, j: int|
                        0 <= i < j < self.rows().len() implies (#[trigger] self.rows()[i]).0 != (
                    #[trigger] self.rows()[j]).0 by {
                        if j < self.rows().len() - 1 {
                            assert(old(self).rows()[i].0 != old(self).rows()[j].0);
                        } else {
                            assert(self.rows()[i] == old(self).rows()[i]);
                            if old(self).rows()[i].0 == id {
                                assert(old(self).has(id));
                            }
                        }
                    }
                }
                Ok(())
            },
        }
    }

    /// Moves an instance's status forward. A missing row or a move that
    /// does not go forward is refused and changes nothing.
    pub fn update(&mut self, id: u128, to: InstanceStatus) -> (r: Result<(), CoordError>)
        requires
            old(self).wf(),
        ensures
            final(self).wf(),
            !old(self).has(id) ==> (r == Err::<(), CoordError>(CoordError::UnknownInstance)
                && final(self).rows() == old(self).rows()),
            old(self).has(id) && !step_allowed(old(self).status_of(id), to) ==> (r == Err::<
                (),
                CoordError,
            >(CoordError::RefusedTransition) && final(self).rows() == old(self).rows()),
            old(self).has(id) && step_allowed(old(self).status_of(id), to) ==> (r == Ok::<
                (),
                CoordError,
            >(()) && final(self).rows() == old(self).rows().update(
                old(self).idx_of(id),
                (id, to),
            )),
    {
        match self.find(id) {
            None => Err(CoordError::UnknownInstance),
            Some(i) => {
                proof {
                    old(self).lemma_idx_of(i as int, id);
                }
                let from = self.entries[i].1;
                match crate::status::advance_status(from, to) {
                    Err(_) => Err(CoordError::RefusedTransition),
                    Ok(st) => {
                        self.entries.set(i, (id, st));
                        proof {
                            assert forall|a: int, b: int|
                                0 <= a < b < self.rows().len() implies (
                            #[trigger] self.rows()[a]).0 != (#[trigger] self.rows()[b]).0 by {
                                assert(old(self).rows()[a].0 != old(self).rows()[b].0);
                            }
                        }
                        Ok(())
                    },
                }
            },
        }
    }

    /// Drops an instance's row, as when a spawn fails after registration:
    /// the instance never ran, so it leaves the table entirely.
    pub fn discard(&mut self, id: u128) -> (r: Result<(), CoordError>)
        requires
            old(self).wf(),
        ensures
            final(self).wf(),
            !old(self).has(id) ==> (r == Err::<(), CoordError>(CoordError::UnknownInstance)
                && final(self).rows() == old(self).rows()),
            old(self).has(id) ==> (r == Ok::<(), CoordError>(()) && final(self).rows() == old(
                self,
            ).rows().remove(old(self).idx_of(id))),
    {
        match self.find(id) {
            None => Err(CoordError::UnknownInstance),
            Some(i) => {
                proof {
                    old(self).lemma_idx_of(i as int, id);
                }
                self.entries.remove(i);
                proof {
                    assert forall|a: int, b: int|
                        0 <= a < b < self.rows().len() implies (#[trigger] self.rows()[a]).0 != (
                    #[trigger] self.rows()[b]).0 by {
                        let oa: int = if a < i { a } else { a + 1 };
                        let ob: int = if b < i { b } else { b + 1 };
                        assert(self.rows()[a] == old(self).rows()[oa]);
                        assert(self.rows()[b] == old(self).rows()[ob]);
                        assert(old(self).rows()[oa].0 != old(self).rows()[ob].0);
                    }
                }
                Ok(())
            },
        }
    }

    /// The number of rows.
    pub fn len(&self) -> (r: usize)
        ensures
            r == self.rows().len(),
    {
        self.entries.len()
    }

    /// The status of one instance.
    pub fn status(&self, id: u128) -> (r: Option<InstanceStatus>)
        requires
            self.wf(),
        ensures
            match r {
                Some(st) => self.has(id) && st == self.status_of(id),
                None => !self.has(id),
            },
    {
        match self.find(id) {
            None => None,
            Some(i) => {
                proof {
                    self.lemma_idx_of(i as int, id);
                }
                Some(self.entries[i].1)
            },
        }
    }

    /// The drain barrier: marks every live row `Quit` and hands back the
    /// identifiers that were still live, in table order — exactly one stop
    /// per live instance, and none for the already-quit ones.
    pub fn shutdown_all(&mut self) -> (stopped: Vec<u128>)
        requires
            old(self).wf(),
        ensures
            final(self).wf(),
            stopped@ == live_ids(old(self).rows()),
            final(self).rows().len() == old(self).rows().len(),
            forall|i: int|
                0 <= i < final(self).rows().len() ==> #[trigger] final(self).rows()[i] == (
                old(self).rows()[i].0,
                InstanceStatus::Quit,
            ),
            live_ids(final(self).rows()).len() == 0,
    {
        let mut stopped: Vec<u128> = Vec::new();
        let mut i: usize = 0;
        let n = self.entries.len();
        while i < n
            invariant
                0 <= i <= n,
                n == self.rows().len(),
                self.rows().len() == old(self).rows().len(),
                forall|m: int| i <= m < n ==> #[trigger] self.rows()[m] == old(self).rows()[m],
                forall|m: int|
                    0 <= m < i ==> #[trigger] self.rows()[m] == (
                    old(self).rows()[m].0,
                    InstanceStatus::Quit,
                ),
                stopped@ == live_ids(old(self).rows().take(i as int)),
            decreases n - i,
        {
            let (id, st) = self.entries[i];
            if !matches!(st, InstanceStatus::Quit) {
                stopped.push(id);
            }
            self.entries.set(i, (id, InstanceStatus::Quit));
            proof {
                assert(old(self).rows().take(i + 1).drop_last() =~= old(self).rows().take(i as int));
                assert(old(self).rows().take(i + 1).last() == old(self).rows()[i as int]);
            }
            i = i + 1;
        }
        proof {
            assert(old(self).rows().take(old(self).rows().len() as int) =~= old(self).rows());
            lemma_live_ids_all_quit(self.rows());
            assert forall|a: int, b: int|
                0 <= a < b < self.rows().len() implies (#[trigger] self.rows()[a]).0 != (
            #[trigger] self.rows()[b]).0 by {
                assert(old(self).rows()[a].0 != old(self).rows()[b].0);
            }
        }
        stopped
    }
}

/// Registering touches no other row: the new instance appears at
/// `Starting`, and every other instance keeps its presence and status.
pub proof fn lemma_register_touches_one_row(t: StatusTable, t2: StatusTable, id: u128)
    requires
        t.wf(),
        !t.has(id),
        t2.rows() == t.rows().push((id, InstanceStatus::Starting)),
    ensures
        t2.has(id),
        t2.status_of(id) == InstanceStatus::Starting,
        forall|x: u128|
            x != id ==> (t2.has(x) == t.has(x) && (t.has(x) ==> t2.status_of(x) == t.status_of(
                x,
            ))),
{
    let n = t.rows().len() as int;
    assert(t2.rows()[n].0 == id);
    assert(t2.has(id));
    let j = t2.idx_of(id);
    if j != n {
        assert(t2.rows()[j] == t.rows()[j]);
        assert(t.has(id));
    }
    assert forall|x: u128|
        x != id implies (t2.has(x) == t.has(x) && (t.has(x) ==> t2.status_of(x) == t.status_of(
        x,
    ))) by {
        if t.has(x) {
            let i = t.idx_of(x);
            assert(t2.rows()[i] == t.rows()[i]);
            assert(t2.has(x));
            let j2 = t2.idx_of(x);
            if j2 == n {
                assert(t2.rows()[j2].0 == id);
            } else {
                assert(t2.rows()[j2] == t.rows()[j2]);
                let i2 = t.idx_of(x);
                if i2 != j2 {
                    assert(t.rows()[i2].0 == x && t.rows()[j2].0 == x);
                    if i2 < j2 {
                        assert(t.rows()[i2].0 != t.rows()[j2].0);
                    } else {
                        assert(t.rows()[j2].0 != t.rows()[i2].0);
                    }
                }
            }
        } else {
            if t2.has(x) {
                let j2 = t2.idx_of(x);
                if j2 < n {
                    assert(t.rows()[j2].0 == x);
                    assert(t.has(x));
                } else {
                    assert(t2.rows()[j2].0 == id);
                }
            }
        }
    }
}

/// An accepted status message moves exactly one row, and moves it
/// forward: every other instance keeps its presence and status. Together
/// with the history lemma this pins the observable per-instance
/// status sequences.
pub proof fn lemma_update_touches_one_row(
    t: StatusTable,
    t2: StatusTable,
    id: u128,
    st: InstanceStatus,
)
    requires
        t.wf(),
        t.has(id),
        step_allowed(t.status_of(id), st),
        t2.rows() == t.rows().update(t.idx_of(id), (id, st)),
    ensures
        t2.wf(),
        t2.has(id),
        t2.status_of(id) == st,
        forall|x: u128|
            x != id ==> (t2.has(x) == t.has(x) && (t.has(x) ==> t2.status_of(x) == t.status_of(
                x,
            ))),
{
    let k = t.idx_of(id);
    assert(0 <= k < t.rows().len());
    assert forall|a: int, b: int|
        0 <= a < b < t2.rows().len() implies (#[trigger] t2.rows()[a]).0 != (
    #[trigger] t2.rows()[b]).0 by {
        assert(t.rows()[a].0 != t.rows()[b].0);
    }
    assert(t2.rows()[k].0 == id);
    assert(t2.has(id));
    t2.lemma_idx_of(k, id);
    assert forall|x: u128|
        x != id implies (t2.has(x) == t.has(x) && (t.has(x) ==> t2.status_of(x) == t.status_of(
        x,
    ))) by {
        if t.has(x) {
            let i = t.idx_of(x);
            assert(0 <= i < t.rows().len() && t.rows()[i].0 == x);
            if i == k {
                assert(t.rows()[k].0 == id);
            }
            assert(t2.rows()[i] == t.rows()[i]);
            assert(t2.has(x));
            t2.lemma_idx_of(i, x);
        } else {
            if t2.has(x) {
                let j = t2.idx_of(x);
                if j == k {
                    assert(t2.rows()[j].0 == id);
                } else {
                    assert(t2.rows()[j] == t.rows()[j]);
                    assert(t.has(x));
                }
            }
        }
    }
}

/// Discarding a failed spawn touches no other row: the discarded
/// instance leaves the table, and every other instance keeps its presence
/// and status.
pub proof fn lemma_discard_touches_one_row(t: StatusTable, t2: StatusTable, id: u128)
    requires
        t.wf(),
        t.has(id),
        t2.rows() == t.rows().remove(t.idx_of(id)),
    ensures
        t2.wf(),
        !t2.has(id),
        forall|x: u128|
            x != id ==> (t2.has(x) == t.has(x) && (t.has(x) ==> t2.status_of(x) == t.status_of(
                x,
            ))),
{
    let k = t.idx_of(id);
    assert(0 <= k < t.rows().len());
    assert forall|a: int, b: int|
        0 <= a < b < t2.rows().len() implies (#[trigger] t2.rows()[a]).0 != (
    #[trigger] t2.rows()[b]).0 by {
        let oa: int = if a < k {
            a
        } else {
            a + 1
        };
        let ob: int = if b < k {
            b
        } else {
            b + 1
        };
        assert(t2.rows()[a] == t.rows()[oa]);
        assert(t2.rows()[b] == t.rows()[ob]);
        assert(t.rows()[oa].0 != t.rows()[ob].0);
    }
    assert forall|j: int| 0 <= j < t2.rows().len() implies (#[trigger] t2.rows()[j]).0 != id by {
        let oj: int = if j < k {
            j
        } else {
            j + 1
        };
        assert(t2.rows()[j] == t.rows()[oj]);
        if t.rows()[oj].0 == id {
            t.lemma_idx_of(oj, id);
        }
    }
    assert forall|x: u128|
        x != id implies (t2.has(x) == t.has(x) && (t.has(x) ==> t2.status_of(x) == t.status_of(
        x,
    ))) by {
        if t.has(x) {
            let i = t.idx_of(x);
            assert(0 <= i < t.rows().len() && t.rows()[i].0 == x);
            if i == k {
                assert(t.rows()[k].0 == id);
            }
            let i2: int = if i < k {
                i
            } else {
                i - 1
            };
            assert(t2.rows()[i2] == t.rows()[i]);
            assert(t2.has(x));
            t2.lemma_idx_of(i2, x);
        } else {
            if t2.has(x) {
                let j = t2.idx_of(x);
                let oj: int = if j < k {
                    j
                } else {
                    j + 1
                };
                assert(t2.rows()[j] == t.rows()[oj]);
                assert(t.has(x));
            }
        }
    }
}

/// A table whose rows are all `Quit` has no live instance.
proof fn lemma_live_ids_all_quit(rows: Seq<(u128, InstanceStatus)>)
    requires
        forall|i: int| 0 <= i < rows.len() ==> (#[trigger] rows[i]).1 == InstanceStatus::Quit,
    ensures
        live_ids(rows).len() == 0,
    decreases rows.len(),
{
    if rows.len() > 0 {
        lemma_live_ids_all_quit(rows.drop_last());
    }
}

/// A command sent to the coordinator.
pub enum InstanceOps {
    /// Run one new instance as this request says.
    Start(InstanceSpec),
    /// Stop the instance with this identifier.
    Stop(u128),
}

/// One event arriving at the coordinator loop: a command, a status message
/// from an instance's lifecycle task, a spawn-failure report, or the
/// operator's interrupt.
pub enum CoordEvent {
    Cmd(InstanceOps),
    StatusMsg(u128, InstanceStatus),
    SpawnFailed(u128),
    Interrupt,
}

/// An action the coordinator asks the surrounding runtime to perform.
/// Registry failures are reported and logged there; they never feed back
/// into the table.
pub enum CoordEffect {
    /// Write the registry record for a new instance, then launch its OS
    /// process, in that order.
    StartInstance(InstanceSpec),
    /// Deliver the one-shot stop signal of this instance.
    SignalStop(u128),
    /// Write this instance's new status to the registry.
    RegistryUpdate(u128, InstanceStatus),
    /// Start the registry record's expiry window for this instance.
    RegistryExpire(u128),
}

/// One turn of the coordinator loop: takes the next event, moves the
/// table, and says which outside actions to perform. Every mutation of
/// the table flows through here.
pub fn coordinator_step(table: &mut StatusTable, ev: CoordEvent) -> (effects: Vec<CoordEffect>)
    requires
        old(table).wf(),
    ensures
        final(table).wf(),
        ev matches CoordEvent::Cmd(InstanceOps::Start(spec)) ==> (if !old(table).has(spec.uid) {
            final(table).rows() == old(table).rows().push((spec.uid, InstanceStatus::Starting))
                && effects@ =~= seq![CoordEffect::StartInstance(spec)]
        } else {
            final(table).rows() == old(table).rows() && effects@.len() == 0
        }),
        ev matches CoordEvent::Cmd(InstanceOps::Stop(id)) ==> (final(table).rows() == old(
            table,
        ).rows() && if old(table).has(id) && old(table).status_of(id) != InstanceStatus::Quit {
            effects@ =~= seq![CoordEffect::SignalStop(id)]
        } else {
            effects@.len() == 0
        }),
        ev matches CoordEvent::StatusMsg(id, st) ==> (if old(table).has(id) && step_allowed(
            old(table).status_of(id),
            st,
        ) {
            final(table).rows() == old(table).rows().update(old(table).idx_of(id), (id, st))
                && if st == InstanceStatus::Quit {
                effects@ =~= seq![
                    CoordEffect::RegistryExpire(id),
                    CoordEffect::RegistryUpdate(id, st),
                ]
            } else {
                effects@ =~= seq![CoordEffect::RegistryUpdate(id, st)]
            }
        } else {
            final(table).rows() == old(table).rows() && effects@.len() == 0
        }),
        ev matches CoordEvent::SpawnFailed(id) ==> (effects@.len() == 0 && if old(table).has(id)
            && old(table).status_of(id) == InstanceStatus::Starting {
            final(table).rows() == old(table).rows().remove(old(table).idx_of(id))
        } else {
            final(table).rows() == old(table).rows()
        }),
        ev matches CoordEvent::Interrupt ==> (final(table).rows().len() == old(
            table,
        ).rows().len() && (forall|i: int|
            0 <= i < final(table).rows().len() ==> #[trigger] final(table).rows()[i] == (
            old(table).rows()[i].0,
            InstanceStatus::Quit,
        )) && effects@ =~= live_ids(old(table).rows()).map_values(
            |id: u128| CoordEffect::SignalStop(id),
        )),
{
    let mut effects: Vec<CoordEffect> = Vec::new();
    match ev {
        CoordEvent::Cmd(InstanceOps::Start(spec)) => {
            let uid = spec.uid;
            match table.register(uid) {
                Ok(_) => {
                    effects.push(CoordEffect::StartInstance(spec));
                },
                Err(_) => {},
            }
        },
        CoordEvent::Cmd(InstanceOps::Stop(id)) => {
            match table.status(id) {
                Some(st) => {
                    if !matches!(st, InstanceStatus::Quit) {
                        effects.push(CoordEffect::SignalStop(id));
                    }
                },
                None => {},
            }
        },
        CoordEvent::StatusMsg(id, st) => {
            match table.update(id, st) {
                Ok(_) => {
                    if matches!(st, InstanceStatus::Quit) {
                        effects.push(CoordEffect::RegistryExpire(id));
                        effects.push(CoordEffect::RegistryUpdate(id, st));
                    } else {
                        effects.push(CoordEffect::RegistryUpdate(id, st));
                    }
                },
                Err(_) => {},
            }
        },
        CoordEvent::SpawnFailed(id) => {
            match table.status(id) {
                Some(st) => {
                    if matches!(st, InstanceStatus::Starting) {
                        let _ = table.discard(id);
                    }
                },
                None => {},
            }
        },
        CoordEvent::Interrupt => {
            let stopped = table.shutdown_all();
            let mut i: usize = 0;
            while i < stopped.len()
                invariant
                    0 <= i <= stopped@.len(),
                    effects@ =~= stopped@.take(i as int).map_values(
                        |id: u128| CoordEffect::SignalStop(id),
                    ),
                decreases stopped@.len() - i,
            {
                effects.push(CoordEffect::SignalStop(stopped[i]));
                proof {
                    assert(effects@ =~= stopped@.take(i + 1).map_values(
                        |id: u128| CoordEffect::SignalStop(id),
                    ));
                }
                i = i + 1;
            }
            proof {
                assert(stopped@.take(stopped@.len() as int) =~= stopped@);
            }
        },
    }
    effects
}

} // verus!
