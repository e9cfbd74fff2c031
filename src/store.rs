use vstd::prelude::*;

use crate::gates::{check_facility, check_worker};
use crate::selection::{
    eligible_summaries, is_strictly_ordered, record_ids_distinct,
    select_eligible_shifts, ShiftQuery,
};
use crate::types::{
    FacilityId, IneligibilityReason, Shift, ShiftEndTime, ShiftListError, ShiftRecord, ShiftStartTime, Worker,
    WorkerId,
};

verus! {

broadcast use vstd::seq_lib::group_seq_properties;

/// The value most recently recorded for `key`, if any: a later entry replaces
/// an earlier one.
pub open spec fn latest<K, V>(entries: Seq<(K, V)>, key: K) -> Option<V>
    decreases entries.len(),
{
    if entries.len() == 0 {
        None
    } else if entries.last().0 == key {
        Some(entries.last().1)
    } else {
        latest(entries.drop_last(), key)
    }
}

/// The map from each recorded key to its latest value.
pub open spec fn latest_map<K, V>(entries: Seq<(K, V)>) -> Map<K, V> {
    Map::new(|k: K| latest(entries, k) is Some, |k: K| latest(entries, k)->Some_0)
}

/// The shifts that `worker` has claimed.
pub open spec fn held_by(shifts: Seq<ShiftRecord>, worker: WorkerId) -> Seq<ShiftRecord> {
    shifts.filter(|s: ShiftRecord| s.claimed_by == Some(worker))
}

/// What a store holds: the standing of each facility, each worker, and every
/// shift.
pub struct StoreView {
    pub facilities: Map<FacilityId, bool>,
    pub workers: Map<WorkerId, Worker>,
    pub shifts: Seq<ShiftRecord>,
}

/// An in-memory lookup gateway: facilities, workers and shifts, with the
/// lookups that the eligibility pipeline needs.
pub struct ShiftStore {
    facilities: Vec<(FacilityId, bool)>,
    workers: Vec<(WorkerId, Worker)>,
    shifts: Vec<ShiftRecord>,
}

impl View for ShiftStore {
    type V = StoreView;

    closed spec fn view(&self) -> StoreView {
        StoreView {
            facilities: latest_map(self.facilities@),
            workers: latest_map(self.workers@),
            shifts: self.shifts@,
        }
    }
}

/// Every shift ends no earlier than it starts.
pub open spec fn shifts_in_order(shifts: Seq<ShiftRecord>) -> bool {
    forall|k: int| 0 <= k < shifts.len() ==> (#[trigger] shifts[k]).start.0 <= shifts[k].end.0
}

/// The facility is on record and active.
pub open spec fn facility_is_active(s: StoreView, id: FacilityId) -> bool {
    s.facilities.contains_key(id) && s.facilities[id]
}

/// The worker is on record and active.
pub open spec fn worker_is_active(s: StoreView, id: WorkerId) -> bool {
    s.workers.contains_key(id) && s.workers[id].is_active
}

/// The request failed for want of data.
pub open spec fn is_database_error<T>(r: Result<T, ShiftListError>) -> bool {
    r matches Err(ShiftListError::DatabaseError(_))
}

/// `v` lists, strictly ascending by start and then id, exactly the shifts of
/// `s` that match `q` and overlap none of the shifts that `worker` holds.
pub open spec fn answers(v: Seq<Shift>, s: StoreView, q: ShiftQuery, worker: WorkerId) -> bool {
    &&& is_strictly_ordered(v)
    &&& v.to_multiset() == eligible_summaries(s.shifts, q, held_by(s.shifts, worker)).to_multiset()
}

/// The answer to a request against `s`, gate by gate: the facility must be on
/// record and active, then the worker; past both gates the answer lists the
/// eligible shifts of the facility inside the window.
pub open spec fn lists_eligible(
    s: StoreView,
    worker_id: WorkerId,
    facility_id: FacilityId,
    start: ShiftStartTime,
    end: ShiftEndTime,
    r: Result<Vec<Shift>, ShiftListError>,
) -> bool {
    if !s.facilities.contains_key(facility_id) {
        is_database_error(r)
    } else if !s.facilities[facility_id] {
        r == Err::<Vec<Shift>, ShiftListError>(
            ShiftListError::EligibilityError(IneligibilityReason::InactiveFacility),
        )
    } else if !s.workers.contains_key(worker_id) {
        is_database_error(r)
    } else if !s.workers[worker_id].is_active {
        r == Err::<Vec<Shift>, ShiftListError>(
            ShiftListError::EligibilityError(IneligibilityReason::InactiveWorker),
        )
    } else {
        r is Ok && answers(
            r->Ok_0@,
            s,
            ShiftQuery { facility_id, profession: s.workers[worker_id].profession, start, end },
            worker_id,
        )
    }
}

impl StoreView {
    /// Shift ids are unique and every shift ends no earlier than it starts.
    pub open spec fn well_formed(self) -> bool {
        &&& record_ids_distinct(self.shifts)
        &&& shifts_in_order(self.shifts)
    }
}

impl ShiftStore {
    pub open spec fn well_formed(&self) -> bool {
        self@.well_formed()
    }

    /// An empty store.
    pub fn new() -> (r: ShiftStore)
        ensures
            r.well_formed(),
            r@.facilities == Map::<FacilityId, bool>::empty(),
            r@.workers == Map::<WorkerId, Worker>::empty(),
            r@.shifts == Seq::<ShiftRecord>::empty(),
    {
        let r = ShiftStore { facilities: Vec::new(), workers: Vec::new(), shifts: Vec::new() };
        proof {
            assert(r@.facilities =~= Map::<FacilityId, bool>::empty());
            assert(r@.workers =~= Map::<WorkerId, Worker>::empty());
        }
        r
    }

    /// Records the standing of a facility, replacing any earlier one.
    pub fn add_facility(&mut self, id: FacilityId, is_active: bool)
        requires
            old(self).well_formed(),
        ensures
            final(self).well_formed(),
            final(self)@.facilities == old(self)@.facilities.insert(id, is_active),
            final(self)@.workers == old(self)@.workers,
            final(self)@.shifts == old(self)@.shifts,
    {
        let ghost before = self.facilities@;
        self.facilities.push((id, is_active));
        proof {
            assert(self.facilities@.drop_last() == before);
            assert(self@.facilities =~= old(self)@.facilities.insert(id, is_active));
        }
    }

    /// Records a worker, replacing any earlier record under the same id.
    pub fn add_worker(&mut self, id: WorkerId, worker: Worker)
        requires
            old(self).well_formed(),
        ensures
            final(self).well_formed(),
            final(self)@.workers == old(self)@.workers.insert(id, worker),
            final(self)@.facilities == old(self)@.facilities,
            final(self)@.shifts == old(self)@.shifts,
    {
        let ghost before = self.workers@;
        self.workers.push((id, worker));
        proof {
            assert(self.workers@.drop_last() == before);
            assert(self@.workers =~= old(self)@.workers.insert(id, worker));
        }
    }

    /// Adds a shift. A shift that ends before it starts, or whose id is
    /// already taken, is refused and the store is left as it was.
    pub fn add_shift(&mut self, shift: ShiftRecord) -> (added: bool)
        requires
            old(self).well_formed(),
        ensures
            final(self).well_formed(),
            added == (shift.start.0 <= shift.end.0 && forall|k: int|
                0 <= k < old(self)@.shifts.len() ==> (#[trigger] old(self)@.shifts[k]).id
                    != shift.id),
            added ==> final(self)@.shifts == old(self)@.shifts.push(shift),
            !added ==> final(self)@.shifts == old(self)@.shifts,
            final(self)@.facilities == old(self)@.facilities,
            final(self)@.workers == old(self)@.workers,
    {
        if shift.start.0 > shift.end.0 {
            return false;
        }
        let mut k: usize = 0;
        while k < self.shifts.len()
            invariant
                k <= self.shifts@.len(),
                old(self).well_formed(),
                self.shifts@ == old(self).shifts@,
                self.facilities@ == old(self).facilities@,
                self.workers@ == old(self).workers@,
                forall|m: int| 0 <= m < k ==> (#[trigger] self.shifts@[m]).id != shift.id,
            decreases self.shifts.len() - k,
        {
            if self.shifts[k].id == shift.id {
                return false;
            }
            k += 1;
        }
        self.shifts.push(shift);
        true
    }

    /// Whether the facility is active; an error where no facility has that id.
    pub fn is_facility_active(&self, facility_id: &FacilityId) -> (r: Result<bool, String>)
        ensures
            self@.facilities.contains_key(*facility_id) ==> r == Ok::<bool, String>(
                self@.facilities[*facility_id],
            ),
            !self@.facilities.contains_key(*facility_id) ==> r is Err,
    {
        let mut k: usize = self.facilities.len();
        proof {
            assert(self.facilities@.take(k as int) =~= self.facilities@);
        }
        while k > 0
            invariant
                k <= self.facilities@.len(),
                latest(self.facilities@, *facility_id) == latest(
                    self.facilities@.take(k as int),
                    *facility_id,
                ),
            decreases k,
        {
            proof {
                assert(self.facilities@.take(k as int).drop_last() == self.facilities@.take(
                    k - 1,
                ));
            }
            if self.facilities[k - 1].0 == *facility_id {
                return Ok(self.facilities[k - 1].1);
            }
            k -= 1;
        }
        Err("no facility with this id".to_owned())
    }

    /// The worker recorded under `worker_id`; an error where there is none.
    pub fn get_worker(&self, worker_id: WorkerId) -> (r: Result<Worker, String>)
        ensures
            self@.workers.contains_key(worker_id) ==> r == Ok::<Worker, String>(
                self@.workers[worker_id],
            ),
            !self@.workers.contains_key(worker_id) ==> r is Err,
    {
        let mut k: usize = self.workers.len();
        proof {
            assert(self.workers@.take(k as int) =~= self.workers@);
        }
        while k > 0
            invariant
                k <= self.workers@.len(),
                latest(self.workers@, worker_id) == latest(
                    self.workers@.take(k as int),
                    worker_id,
                ),
            decreases k,
        {
            proof {
                assert(self.workers@.take(k as int).drop_last() == self.workers@.take(k - 1));
            }
            if self.workers[k - 1].0 == worker_id {
                return Ok(self.workers[k - 1].1);
            }
            k -= 1;
        }
        Err("no worker with this id".to_owned())
    }

    /// The shifts that `worker_id` has claimed, in the store's order.
    pub fn shifts_held_by(&self, worker_id: WorkerId) -> (r: Vec<ShiftRecord>)
        ensures
            r@ == held_by(self@.shifts, worker_id),
    {
        let ghost pred = |s: ShiftRecord| s.claimed_by == Some(worker_id);
        let mut r: Vec<ShiftRecord> = Vec::new();
        let mut k: usize = 0;
        proof {
            assert(self.shifts@.take(0) =~= Seq::<ShiftRecord>::empty());
            assert(Seq::<ShiftRecord>::empty().filter(pred) =~= Seq::<ShiftRecord>::empty());
        }
        while k < self.shifts.len()
            invariant
                k <= self.shifts@.len(),
                pred == (|s: ShiftRecord| s.claimed_by == Some(worker_id)),
                r@ == self.shifts@.take(k as int).filter(pred),
            decreases self.shifts.len() - k,
        {
            proof {
                assert(self.shifts@.take(k + 1) =~= self.shifts@.take(k as int).push(
                    self.shifts@[k as int],
                ));
                self.shifts@.take(k as int).lemma_filter_push(self.shifts@[k as int], pred);
            }
            if self.shifts[k].claimed_by == Some(worker_id) {
                r.push(self.shifts[k]);
            }
            k += 1;
        }
        proof {
            assert(self.shifts@.take(k as int) =~= self.shifts@);
        }
        r
    }

    /// The shifts that match `query` and overlap none of the shifts that
    /// `worker_id` holds, ascending by start, ties by id.
    pub fn query_eligible_shifts(&self, query: &ShiftQuery, worker_id: WorkerId) -> (r: Vec<
        Shift,
    >)
        requires
            self.well_formed(),
        ensures
            answers(r@, self@, *query, worker_id),
    {
        let held = self.shifts_held_by(worker_id);
        select_eligible_shifts(&self.shifts, query, &held)
    }
}

/// The shifts of `facility_id` inside `[start, end]` that `worker_id` may
/// claim, ascending by start with ties broken by id; or why there are none.
///
/// The facility is checked first, then the worker, each stopping the request
/// on failure: a missing record is a `DatabaseError`, an inactive one an
/// `EligibilityError` naming it.
pub fn list_eligible_shifts(
    store: &ShiftStore,
    worker_id: WorkerId,
    facility_id: FacilityId,
    start: ShiftStartTime,
    end: ShiftEndTime,
) -> (r: Result<Vec<Shift>, ShiftListError>)
    requires
        store.well_formed(),
        start.0 <= end.0,
    ensures
        lists_eligible(store@, worker_id, facility_id, start, end, r),
{
    match check_facility(store.is_facility_active(&facility_id)) {
        Err(e) => {
            return Err(e);
        },
        Ok(()) => {},
    }
    let profession = match check_worker(store.get_worker(worker_id)) {
        Err(e) => {
            return Err(e);
        },
        Ok(p) => p,
    };
    let query = ShiftQuery { facility_id, profession, start, end };
    Ok(store.query_eligible_shifts(&query, worker_id))
}

} // verus!
