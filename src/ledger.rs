use vstd::prelude::*;

use crate::lease::{Lease, LeaseBook, LeaseError, LeaseStatus};

verus! {

/// The ledger's whole content as a mathematical value: the counter slot,
/// the status slot, and the records in order of creation.
pub struct LedgerView {
    pub counter: u64,
    pub status: LeaseStatus,
    pub records: Seq<Lease>,
}

/// The arguments of one creation, including the ledger time at which it ran.
pub struct LeaseRequest {
    pub now: u64,
    pub asset_name: String,
    pub asset_type: String,
    pub owner: String,
    pub lessee: String,
    pub duration_secs: u64,
    pub amount_paid: i128,
}

/// Number of records in the Active state.
pub open spec fn count_active(records: Seq<Lease>) -> nat
    decreases records.len(),
{
    if records.len() == 0 {
        0
    } else {
        count_active(records.drop_last()) + if records.last().is_active_state() {
            1nat
        } else {
            0nat
        }
    }
}

/// The consistency rules that bind the records to the counter and the
/// summary: record `i` carries id `i + 1`, every record is Active or
/// Completed, and the summary counts them exactly.
pub open spec fn ledger_wf(l: LedgerView) -> bool {
    &&& l.records.len() == l.counter
    &&& forall|i: int| 0 <= i < l.records.len() ==> (#[trigger] l.records[i]).lease_id == i + 1
    &&& forall|i: int| 0 <= i < l.records.len() ==> (#[trigger] l.records[i]).well_formed()
    &&& l.status.total_leases == l.counter
    &&& l.status.active_leases == count_active(l.records)
    &&& l.status.balanced()
    &&& l.status.pending_leases == 0
}

/// The ledger before anything was written to it.
pub open spec fn empty_ledger() -> LedgerView {
    LedgerView { counter: 0, status: LeaseStatus::zero(), records: Seq::empty() }
}

/// The record stored under `id`, if any.
pub open spec fn find(l: LedgerView, id: u64) -> Option<Lease> {
    if 1 <= id <= l.records.len() {
        Some(l.records[id - 1])
    } else {
        None
    }
}

/// The lease that `req` creates as the next record of `l`.
pub open spec fn requested_lease(l: LedgerView, req: LeaseRequest) -> Lease {
    Lease::opened_spec(
        (l.counter + 1) as u64,
        req.now,
        req.asset_name,
        req.asset_type,
        req.owner,
        req.lessee,
        req.duration_secs,
        req.amount_paid,
    )
}

/// The ledger after a creation.
pub open spec fn created(l: LedgerView, req: LeaseRequest) -> LedgerView {
    LedgerView {
        counter: (l.counter + 1) as u64,
        status: l.status.after_creation_spec(),
        records: l.records.push(requested_lease(l, req)),
    }
}

/// The ledger after completing `id`, or the error that refuses it.
pub open spec fn completed(l: LedgerView, id: u64) -> Result<LedgerView, LeaseError> {
    match find(l, id) {
        None => Err(LeaseError::NotFound),
        Some(x) => if x.is_active_state() {
            Ok(
                LedgerView {
                    status: l.status.after_completion_spec(),
                    records: l.records.update(id - 1, x.completed_spec()),
                    ..l
                },
            )
        } else {
            Err(LeaseError::InvalidTransition)
        },
    }
}

/// What a lookup of `id` returns.
pub open spec fn looked_up(l: LedgerView, id: u64) -> Result<Lease, LeaseError> {
    match find(l, id) {
        Some(x) => Ok(x),
        None => Err(LeaseError::NotFound),
    }
}

/// The ledger after running `reqs` in order, each one a creation.
pub open spec fn after_creations(l: LedgerView, reqs: Seq<LeaseRequest>) -> LedgerView
    decreases reqs.len(),
{
    if reqs.len() == 0 {
        l
    } else {
        created(after_creations(l, reqs.drop_last()), reqs.last())
    }
}

proof fn lemma_count_active_bound(records: Seq<Lease>)
    ensures
        count_active(records) <= records.len(),
    decreases records.len(),
{
    if records.len() > 0 {
        lemma_count_active_bound(records.drop_last());
    }
}

proof fn lemma_count_active_push(records: Seq<Lease>, x: Lease)
    ensures
        count_active(records.push(x)) == count_active(records) + if x.is_active_state() {
            1nat
        } else {
            0nat
        },
{
    assert(records.push(x).drop_last() =~= records);
}

proof fn lemma_count_active_complete(records: Seq<Lease>, i: int)
    requires
        0 <= i < records.len(),
        records[i].is_active_state(),
    ensures
        count_active(records) >= 1,
        count_active(records.update(i, records[i].completed_spec())) + 1 == count_active(records),
    decreases records.len(),
{
    let updated = records.update(i, records[i].completed_spec());
    if i == records.len() - 1 {
        assert(updated.drop_last() =~= records.drop_last());
    } else {
        lemma_count_active_complete(records.drop_last(), i);
        assert(updated.drop_last() =~= records.drop_last().update(
            i,
            records[i].completed_spec(),
        ));
    }
}

/// A creation keeps the ledger consistent: the new record is Active and
/// carries the next id, and the summary counts one more lease, active.
pub proof fn lemma_create_keeps_consistency(l: LedgerView, req: LeaseRequest)
    requires
        ledger_wf(l),
        l.counter < u64::MAX,
    ensures
        ledger_wf(created(l, req)),
        created(l, req).records.last().lease_id == l.counter + 1,
        created(l, req).records.last().is_active_state(),
        created(l, req).status.total_leases == l.status.total_leases + 1,
        created(l, req).status.active_leases == l.status.active_leases + 1,
        created(l, req).status.completed_leases == l.status.completed_leases,
{
    let post = created(l, req);
    lemma_count_active_bound(l.records);
    lemma_count_active_push(l.records, requested_lease(l, req));
    assert forall|i: int| 0 <= i < post.records.len() implies (#[trigger] post.records[i]).lease_id
        == i + 1 && post.records[i].well_formed() by {
        if i < l.records.len() {
            assert(post.records[i] == l.records[i]);
        }
    }
}

/// A completion that succeeds keeps the ledger consistent: one lease moves
/// from active to completed, the total stays, and the record is Completed.
pub proof fn lemma_complete_keeps_consistency(l: LedgerView, id: u64)
    requires
        ledger_wf(l),
        completed(l, id) is Ok,
    ensures
        ledger_wf(completed(l, id)->Ok_0),
        completed(l, id)->Ok_0.status.total_leases == l.status.total_leases,
        completed(l, id)->Ok_0.status.active_leases + 1 == l.status.active_leases,
        completed(l, id)->Ok_0.status.completed_leases == l.status.completed_leases + 1,
        find(completed(l, id)->Ok_0, id) == Some(find(l, id)->0.completed_spec()),
        find(completed(l, id)->Ok_0, id)->0.is_completed_state(),
{
    let post = completed(l, id)->Ok_0;
    let i = id - 1;
    lemma_count_active_complete(l.records, i);
    assert forall|j: int| 0 <= j < post.records.len() implies (#[trigger] post.records[j]).lease_id
        == j + 1 && post.records[j].well_formed() by {
        if j != i {
            assert(post.records[j] == l.records[j]);
        }
    }
}

/// Creations return the ids 1, 2, 3, ... in call order, with no reuse and
/// no gaps: the call at position `k` of any sequence of creations on a
/// fresh ledger returns `k + 1`, and the record stored at position `k`
/// carries that id.
pub proof fn lemma_ids_follow_call_order(reqs: Seq<LeaseRequest>)
    requires
        reqs.len() < u64::MAX,
    ensures
        ledger_wf(after_creations(empty_ledger(), reqs)),
        after_creations(empty_ledger(), reqs).counter == reqs.len(),
        forall|k: int|
            0 <= k < reqs.len() ==> #[trigger] after_creations(empty_ledger(), reqs.take(k + 1)).counter
                == k + 1,
        forall|k: int|
            0 <= k < reqs.len() ==> (#[trigger] after_creations(empty_ledger(), reqs).records[k]).lease_id
                == k + 1,
    decreases reqs.len(),
{
    let l = after_creations(empty_ledger(), reqs);
    if reqs.len() > 0 {
        let prefix = reqs.drop_last();
        lemma_ids_follow_call_order(prefix);
        lemma_create_keeps_consistency(after_creations(empty_ledger(), prefix), reqs.last());
        assert forall|k: int| 0 <= k < reqs.len() implies #[trigger] after_creations(
            empty_ledger(),
            reqs.take(k + 1),
        ).counter == k + 1 by {
            if k == reqs.len() - 1 {
                assert(reqs.take(k + 1) =~= reqs);
            } else {
                assert(reqs.take(k + 1) =~= prefix.take(k + 1));
            }
        }
    } else {
        assert forall|k: int| 0 <= k < reqs.len() implies #[trigger] after_creations(
            empty_ledger(),
            reqs.take(k + 1),
        ).counter == k + 1 by {}
    }
    assert forall|k: int| 0 <= k < reqs.len() implies (#[trigger] l.records[k]).lease_id == k
        + 1 by {}
}

/// Completing the same lease twice: the first completion succeeds and the
/// second is refused as an invalid transition.
pub proof fn lemma_complete_twice(l: LedgerView, id: u64)
    requires
        ledger_wf(l),
        find(l, id) is Some,
        find(l, id)->0.is_active_state(),
    ensures
        completed(l, id) is Ok,
        completed(completed(l, id)->Ok_0, id) == Err::<LedgerView, LeaseError>(
            LeaseError::InvalidTransition,
        ),
{
    lemma_complete_keeps_consistency(l, id);
}

/// An id that no creation returned (0, or above the counter) is not found,
/// neither by a lookup nor by a completion.
pub proof fn lemma_unknown_id_not_found(l: LedgerView, id: u64)
    requires
        ledger_wf(l),
        id == 0 || id > l.counter,
    ensures
        looked_up(l, id) == Err::<Lease, LeaseError>(LeaseError::NotFound),
        completed(l, id) == Err::<LedgerView, LeaseError>(LeaseError::NotFound),
{
}

/// The lease ledger: a counter of assigned ids, the records by id, and the
/// running summary, kept mutually consistent by every operation.
pub struct AssetLeaseContract {
    counter: u64,
    status: LeaseStatus,
    records: Vec<Lease>,
}

impl View for AssetLeaseContract {
    type V = LedgerView;

    closed spec fn view(&self) -> LedgerView {
        LedgerView { counter: self.counter, status: self.status, records: self.records@ }
    }
}

impl AssetLeaseContract {
    pub open spec fn wf(&self) -> bool {
        ledger_wf(self@)
    }

    /// A ledger with no leases and the all-zero summary.
    pub fn new() -> (r: AssetLeaseContract)
        ensures
            r.wf(),
            r@ == empty_ledger(),
    {
        let r = AssetLeaseContract { counter: 0, status: LeaseStatus::empty(), records: Vec::new() };
        assert(r@.records =~= Seq::<Lease>::empty());
        r
    }

    /// Index in `records` of the record stored under `key`, if any.
    fn slot(&self, key: &LeaseBook) -> (r: Option<usize>)
        requires
            self.wf(),
        ensures
            find(self@, key.id_spec()) is Some <==> r is Some,
            r is Some ==> r->0 < self@.records.len() && r->0 == key.id_spec() - 1,
    {
        let id = key.id();
        let n = self.records.len();
        if id == 0 || id - 1 >= n as u64 {
            None
        } else {
            Some((id - 1) as usize)
        }
    }

    /// Records a new Active lease whose window starts at ledger time `now`,
    /// and returns its id: one more than the last id assigned.
    pub fn create_lease(
        &mut self,
        now: u64,
        asset_name: String,
        asset_type: String,
        owner: String,
        lessee: String,
        duration_secs: u64,
        amount_paid: i128,
    ) -> (lease_id: u64)
        requires
            old(self).wf(),
            old(self)@.counter < u64::MAX,
        ensures
            final(self).wf(),
            lease_id == old(self)@.counter + 1,
            final(self)@ == created(
                old(self)@,
                (LeaseRequest {
                    now,
                    asset_name,
                    asset_type,
                    owner,
                    lessee,
                    duration_secs,
                    amount_paid,
                }),
            ),
            final(self)@.status.balanced(),
            final(self)@.status.total_leases == old(self)@.status.total_leases + 1,
            final(self)@.status.active_leases == old(self)@.status.active_leases + 1,
            final(self)@.status.completed_leases == old(self)@.status.completed_leases,
            find(final(self)@, lease_id) is Some,
            find(final(self)@, lease_id)->0.is_active_state(),
    {
        let ghost pre = self@;
        let ghost req = LeaseRequest {
            now,
            asset_name,
            asset_type,
            owner,
            lessee,
            duration_secs,
            amount_paid,
        };
        proof {
            lemma_create_keeps_consistency(pre, req);
            lemma_count_active_bound(pre.records);
        }
        let lease_id = self.counter + 1;
        let lease = Lease::open(
            lease_id,
            now,
            asset_name,
            asset_type,
            owner,
            lessee,
            duration_secs,
            amount_paid,
        );
        self.records.push(lease);
        self.counter = lease_id;
        self.status = self.status.record_creation();
        lease_id
    }

    /// Moves the lease `lease_id` from Active to Completed. Fails with
    /// `NotFound` where no such lease exists and with `InvalidTransition`
    /// where it is already completed; on failure nothing changes.
    pub fn complete_lease(&mut self, lease_id: u64) -> (r: Result<(), LeaseError>)
        requires
            old(self).wf(),
        ensures
            final(self).wf(),
            r is Ok <==> completed(old(self)@, lease_id) is Ok,
            r is Ok ==> final(self)@ == completed(old(self)@, lease_id)->Ok_0,
            r is Ok ==> final(self)@.status.balanced() && final(self)@.status.total_leases
                == old(self)@.status.total_leases && final(self)@.status.active_leases + 1
                == old(self)@.status.active_leases && final(self)@.status.completed_leases
                == old(self)@.status.completed_leases + 1,
            r is Ok ==> find(final(self)@, lease_id) is Some && find(
                final(self)@,
                lease_id,
            )->0.is_completed_state(),
            r is Err ==> final(self)@ == old(self)@ && r == Err::<(), LeaseError>(
                completed(old(self)@, lease_id)->Err_0,
            ),
    {
        let ghost pre = self@;
        let i = match self.slot(&LeaseBook::LeaseById(lease_id)) {
            None => return Err(LeaseError::NotFound),
            Some(i) => i,
        };
        if !self.records[i].is_active || self.records[i].is_returned {
            return Err(LeaseError::InvalidTransition);
        }
        proof {
            lemma_complete_keeps_consistency(pre, lease_id);
            lemma_count_active_complete(pre.records, i as int);
            lemma_count_active_bound(pre.records);
        }
        let mut lease = self.records[i].duplicate();
        let closed = lease.close();
        self.records.set(i, lease);
        self.status = self.status.record_completion();
        assert(self@.records =~= completed(pre, lease_id)->Ok_0.records);
        closed
    }

    /// The record of lease `lease_id`, or `NotFound`.
    pub fn get_lease(&self, lease_id: u64) -> (r: Result<Lease, LeaseError>)
        requires
            self.wf(),
        ensures
            r == looked_up(self@, lease_id),
    {
        match self.slot(&LeaseBook::LeaseById(lease_id)) {
            None => Err(LeaseError::NotFound),
            Some(i) => Ok(self.records[i].duplicate()),
        }
    }

    /// The running summary of lease counts.
    pub fn get_status(&self) -> (r: LeaseStatus)
        requires
            self.wf(),
        ensures
            r == self@.status,
            r.balanced(),
    {
        self.status
    }
}

} // verus!
