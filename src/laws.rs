use vstd::prelude::*;

use crate::selection::{
    is_eligible, is_strictly_ordered, lemma_listed_shift_is_eligible, shifts_overlap, ShiftQuery,
};
use crate::store::{
    facility_is_active, held_by, is_database_error, lists_eligible, worker_is_active, ShiftStore,
};
use crate::types::{
    FacilityId, IneligibilityReason, Shift, ShiftEndTime, ShiftListError, ShiftRecord,
    ShiftStartTime, WorkerId,
};

verus! {

broadcast use vstd::seq_lib::group_seq_properties;

/// An inactive facility refuses every request with `InactiveFacility`,
/// whatever the worker and the window.
pub proof fn inactive_facility_is_refused(
    store: ShiftStore,
    worker_id: WorkerId,
    facility_id: FacilityId,
    start: ShiftStartTime,
    end: ShiftEndTime,
    r: Result<Vec<Shift>, ShiftListError>,
)
    requires
        store@.facilities.contains_key(facility_id),
        !store@.facilities[facility_id],
        lists_eligible(store@, worker_id, facility_id, start, end, r),
    ensures
        r == Err::<Vec<Shift>, ShiftListError>(
            ShiftListError::EligibilityError(IneligibilityReason::InactiveFacility),
        ),
{
}

/// At an active facility, an inactive worker is refused with
/// `InactiveWorker`.
pub proof fn inactive_worker_is_refused(
    store: ShiftStore,
    worker_id: WorkerId,
    facility_id: FacilityId,
    start: ShiftStartTime,
    end: ShiftEndTime,
    r: Result<Vec<Shift>, ShiftListError>,
)
    requires
        facility_is_active(store@, facility_id),
        store@.workers.contains_key(worker_id),
        !store@.workers[worker_id].is_active,
        lists_eligible(store@, worker_id, facility_id, start, end, r),
    ensures
        r == Err::<Vec<Shift>, ShiftListError>(
            ShiftListError::EligibilityError(IneligibilityReason::InactiveWorker),
        ),
{
}

/// When facility and worker are both inactive, the facility is the reason
/// given, never the worker.
pub proof fn facility_gate_comes_first(
    store: ShiftStore,
    worker_id: WorkerId,
    facility_id: FacilityId,
    start: ShiftStartTime,
    end: ShiftEndTime,
    r: Result<Vec<Shift>, ShiftListError>,
)
    requires
        store@.facilities.contains_key(facility_id),
        !store@.facilities[facility_id],
        store@.workers.contains_key(worker_id),
        !store@.workers[worker_id].is_active,
        lists_eligible(store@, worker_id, facility_id, start, end, r),
    ensures
        r == Err::<Vec<Shift>, ShiftListError>(
            ShiftListError::EligibilityError(IneligibilityReason::InactiveFacility),
        ),
        r != Err::<Vec<Shift>, ShiftListError>(
            ShiftListError::EligibilityError(IneligibilityReason::InactiveWorker),
        ),
{
}

/// A stored shift that an answer past both gates lists is eligible.
proof fn lemma_listed_record_is_eligible(
    store: ShiftStore,
    worker_id: WorkerId,
    facility_id: FacilityId,
    start: ShiftStartTime,
    end: ShiftEndTime,
    r: Result<Vec<Shift>, ShiftListError>,
    x: ShiftRecord,
)
    requires
        store.well_formed(),
        facility_is_active(store@, facility_id),
        worker_is_active(store@, worker_id),
        lists_eligible(store@, worker_id, facility_id, start, end, r),
        store@.shifts.contains(x),
        r->Ok_0@.contains(x.summary()),
    ensures
        is_eligible(
            x,
            ShiftQuery {
                facility_id,
                profession: store@.workers[worker_id].profession,
                start,
                end,
            },
            held_by(store@.shifts, worker_id),
        ),
{
    let q = ShiftQuery {
        facility_id,
        profession: store@.workers[worker_id].profession,
        start,
        end,
    };
    let held = held_by(store@.shifts, worker_id);
    lemma_listed_shift_is_eligible(r->Ok_0@, store@.shifts, q, held, x.summary());
    let z = choose|z: ShiftRecord|
        store@.shifts.contains(z) && is_eligible(z, q, held) && #[trigger] z.summary()
            == x.summary();
    let i = choose|i: int| 0 <= i < store@.shifts.len() && store@.shifts[i] == x;
    let j = choose|j: int| 0 <= j < store@.shifts.len() && store@.shifts[j] == z;
    if i < j {
        assert(store@.shifts[i].id != store@.shifts[j].id);
    } else if j < i {
        assert(store@.shifts[j].id != store@.shifts[i].id);
    }
}

/// Shifts that meet back to back, one ending when the other starts, do not
/// overlap.
pub proof fn back_to_back_shifts_do_not_overlap(a: ShiftRecord, b: ShiftRecord)
    requires
        a.end.0 == b.start.0,
    ensures
        !shifts_overlap(a, b),
        !shifts_overlap(b, a),
{
}

/// Past both gates, no listed shift requires another profession than the
/// worker's, whatever its times and claim status.
pub proof fn other_profession_is_never_listed(
    store: ShiftStore,
    worker_id: WorkerId,
    facility_id: FacilityId,
    start: ShiftStartTime,
    end: ShiftEndTime,
    r: Result<Vec<Shift>, ShiftListError>,
    x: ShiftRecord,
)
    requires
        store.well_formed(),
        facility_is_active(store@, facility_id),
        worker_is_active(store@, worker_id),
        lists_eligible(store@, worker_id, facility_id, start, end, r),
        store@.shifts.contains(x),
        x.profession != store@.workers[worker_id].profession,
    ensures
        r is Ok,
        !r->Ok_0@.contains(x.summary()),
{
    if r->Ok_0@.contains(x.summary()) {
        lemma_listed_record_is_eligible(store, worker_id, facility_id, start, end, r, x);
    }
}

/// A deleted shift, or one that someone has claimed, is never listed.
pub proof fn deleted_or_claimed_is_never_listed(
    store: ShiftStore,
    worker_id: WorkerId,
    facility_id: FacilityId,
    start: ShiftStartTime,
    end: ShiftEndTime,
    r: Result<Vec<Shift>, ShiftListError>,
    x: ShiftRecord,
)
    requires
        store.well_formed(),
        lists_eligible(store@, worker_id, facility_id, start, end, r),
        store@.shifts.contains(x),
        x.is_deleted || x.claimed_by is Some,
    ensures
        r is Ok ==> !r->Ok_0@.contains(x.summary()),
{
    if r is Ok && r->Ok_0@.contains(x.summary()) {
        lemma_listed_record_is_eligible(store, worker_id, facility_id, start, end, r, x);
    }
}

/// A shift that overlaps one the worker already holds is never listed, even
/// where it meets every other condition.
pub proof fn overlap_with_held_shift_is_never_listed(
    store: ShiftStore,
    worker_id: WorkerId,
    facility_id: FacilityId,
    start: ShiftStartTime,
    end: ShiftEndTime,
    r: Result<Vec<Shift>, ShiftListError>,
    x: ShiftRecord,
    h: ShiftRecord,
)
    requires
        store.well_formed(),
        lists_eligible(store@, worker_id, facility_id, start, end, r),
        store@.shifts.contains(x),
        store@.shifts.contains(h),
        h.claimed_by == Some(worker_id),
        shifts_overlap(x, h),
    ensures
        r is Ok ==> !r->Ok_0@.contains(x.summary()),
{
    if r is Ok && r->Ok_0@.contains(x.summary()) {
        lemma_listed_record_is_eligible(store, worker_id, facility_id, start, end, r, x);
        let held = held_by(store@.shifts, worker_id);
        let pred = |s: ShiftRecord| s.claimed_by == Some(worker_id);
        let k = choose|k: int| 0 <= k < store@.shifts.len() && store@.shifts[k] == h;
        store@.shifts.lemma_filter_contains(pred, k);
        let m = choose|m: int| 0 <= m < held.len() && held[m] == h;
        assert(shifts_overlap(x, held[m]));
    }
}

/// Every answer past both gates is strictly ascending by start, ties broken
/// by id.
pub proof fn listing_is_strictly_ordered(
    store: ShiftStore,
    worker_id: WorkerId,
    facility_id: FacilityId,
    start: ShiftStartTime,
    end: ShiftEndTime,
    r: Result<Vec<Shift>, ShiftListError>,
)
    requires
        facility_is_active(store@, facility_id),
        worker_is_active(store@, worker_id),
        lists_eligible(store@, worker_id, facility_id, start, end, r),
    ensures
        r is Ok,
        is_strictly_ordered(r->Ok_0@),
{
}

/// An unknown facility, or an unknown worker at an active facility, is a
/// data-access failure and never an eligibility refusal.
pub proof fn unknown_ids_are_database_errors(
    store: ShiftStore,
    worker_id: WorkerId,
    facility_id: FacilityId,
    start: ShiftStartTime,
    end: ShiftEndTime,
    r: Result<Vec<Shift>, ShiftListError>,
)
    requires
        !store@.facilities.contains_key(facility_id) || (facility_is_active(store@, facility_id)
            && !store@.workers.contains_key(worker_id)),
        lists_eligible(store@, worker_id, facility_id, start, end, r),
    ensures
        is_database_error(r),
        !(r matches Err(ShiftListError::EligibilityError(_))),
{
}

} // verus!
