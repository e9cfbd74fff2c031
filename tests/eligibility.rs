use shift_eligibility::{
    check_facility, check_worker, conflicts_with_held, list_eligible_shifts, overlaps,
    parse_time, select_eligible_shifts, shift_is_eligible, FacilityId, IneligibilityReason,
    Shift, ShiftEndTime, ShiftId, ShiftListError, ShiftQuery, ShiftRecord, ShiftStartTime,
    ShiftStore, TimeParseError, Worker, WorkerId, WorkerProfession,
};

fn start_at(text: &str) -> ShiftStartTime {
    ShiftStartTime::try_from(text).unwrap()
}

fn end_at(text: &str) -> ShiftEndTime {
    ShiftEndTime::try_from(text).unwrap()
}

fn open_shift(id: i32, facility: i32, start: &str, end: &str, profession: WorkerProfession) -> ShiftRecord {
    ShiftRecord {
        id: ShiftId(id),
        facility_id: FacilityId(facility),
        start: start_at(start),
        end: end_at(end),
        profession,
        is_deleted: false,
        claimed_by: None,
    }
}

/// Facility 4 inactive, facility 5 active; worker 4 an active RN, worker 5
/// an inactive RN.
fn fixture() -> ShiftStore {
    let mut store = ShiftStore::new();
    store.add_facility(FacilityId(4), false);
    store.add_facility(FacilityId(5), true);
    store.add_worker(WorkerId(4), Worker { profession: WorkerProfession::RN, is_active: true });
    store.add_worker(WorkerId(5), Worker { profession: WorkerProfession::RN, is_active: false });
    store
}

fn january() -> (ShiftStartTime, ShiftEndTime) {
    (start_at("2023-01-01 00:00"), end_at("2023-01-31 23:59"))
}

#[test]
fn test_is_facility_active() {
    let store = fixture();

    let active_facility_id = FacilityId(5);
    let result = store.is_facility_active(&active_facility_id);
    assert_eq!(result.unwrap(), true);

    let inactive_facility_id = FacilityId(4);
    let result = store.is_facility_active(&inactive_facility_id);
    assert_eq!(result.unwrap(), false);

    let invalid_facility_id = FacilityId(5000);
    let result = store.is_facility_active(&invalid_facility_id);
    assert!(result.is_err());
}

#[test]
fn test_get_worker() {
    let store = fixture();

    let active_worker_id = WorkerId(4);
    let result = store.get_worker(active_worker_id);
    assert_eq!(result.unwrap().is_active, true);

    let inactive_worker_id = WorkerId(5);
    let result = store.get_worker(inactive_worker_id);
    assert_eq!(result.unwrap().is_active, false);

    let invalid_worker_id = WorkerId(4000);
    let result = store.get_worker(invalid_worker_id);
    assert!(result.is_err());
}

#[test]
fn test_shifts_of_inactive_facility() {
    let store = fixture();
    let worker_id = WorkerId(4);
    let inactive_facility_id = FacilityId(4);
    let start = ShiftStartTime::try_from("2023-01-01 00:00").unwrap();
    let end = ShiftEndTime::try_from("2023-01-31 23:59").unwrap();
    let result = list_eligible_shifts(&store, worker_id, inactive_facility_id, start, end);
    assert_eq!(
        result,
        Err(ShiftListError::EligibilityError(IneligibilityReason::InactiveFacility))
    );
}

#[test]
fn test_shifts_of_inactive_worker() {
    let store = fixture();
    let inactive_worker_id = WorkerId(5);
    let facility_id = FacilityId(5);
    let start = ShiftStartTime::try_from("2023-01-01 00:00").unwrap();
    let end = ShiftEndTime::try_from("2023-01-31 23:59").unwrap();
    let result = list_eligible_shifts(&store, inactive_worker_id, facility_id, start, end);
    assert_eq!(
        result,
        Err(ShiftListError::EligibilityError(IneligibilityReason::InactiveWorker))
    );
}

#[test]
fn test_shifts_of_invalid_worker() {
    let store = fixture();
    let invalid_worker_id = WorkerId(5000);
    let facility_id = FacilityId(5);
    let start = ShiftStartTime::try_from("2023-01-01 00:00").unwrap();
    let end = ShiftEndTime::try_from("2023-01-31 23:59").unwrap();
    let result = list_eligible_shifts(&store, invalid_worker_id, facility_id, start, end);
    assert!(matches!(result, Err(ShiftListError::DatabaseError(_))));
}

#[test]
fn test_shifts_of_invalid_facility() {
    let store = fixture();
    let worker_id = WorkerId(4);
    let invalid_facility_id = FacilityId(5000);
    let start = ShiftStartTime::try_from("2023-01-01 00:00").unwrap();
    let end = ShiftEndTime::try_from("2023-01-31 23:59").unwrap();
    let result = list_eligible_shifts(&store, worker_id, invalid_facility_id, start, end);
    assert!(matches!(result, Err(ShiftListError::DatabaseError(_))));
}

#[test]
fn parses_times_to_exact_seconds() {
    assert_eq!(ShiftStartTime::try_from("2023-01-01 00:00"), Ok(ShiftStartTime(1_672_531_200)));
    assert_eq!(ShiftEndTime::try_from("2023-01-31 23:59"), Ok(ShiftEndTime(1_675_209_540)));
    assert_eq!(parse_time("1970-01-01 00:01"), Ok(60));
}

#[test]
fn rejects_malformed_times() {
    assert_eq!(ShiftStartTime::try_from("2023-01-01"), Err(TimeParseError));
    assert_eq!(ShiftEndTime::try_from("2023-01-01 24:00"), Err(TimeParseError));
    assert_eq!(parse_time(""), Err(TimeParseError));
}

#[test]
fn scenario_one_open_shift_is_listed() {
    let mut store = fixture();
    assert!(store.add_shift(open_shift(1, 5, "2023-01-10 08:00", "2023-01-10 16:00", WorkerProfession::RN)));
    let (start, end) = january();

    assert_eq!(
        list_eligible_shifts(&store, WorkerId(4), FacilityId(4), start, end),
        Err(ShiftListError::EligibilityError(IneligibilityReason::InactiveFacility))
    );
    assert_eq!(
        list_eligible_shifts(&store, WorkerId(5), FacilityId(5), start, end),
        Err(ShiftListError::EligibilityError(IneligibilityReason::InactiveWorker))
    );
    assert_eq!(
        list_eligible_shifts(&store, WorkerId(4), FacilityId(5), start, end),
        Ok(vec![Shift {
            id: ShiftId(1),
            start: start_at("2023-01-10 08:00"),
            end: end_at("2023-01-10 16:00"),
        }])
    );
}

#[test]
fn scenario_overlap_excluded_back_to_back_included() {
    let mut store = fixture();
    let mut held = open_shift(1, 5, "2023-01-05 10:00", "2023-01-05 14:00", WorkerProfession::RN);
    held.claimed_by = Some(WorkerId(4));
    assert!(store.add_shift(held));
    assert!(store.add_shift(open_shift(2, 5, "2023-01-05 13:00", "2023-01-05 17:00", WorkerProfession::RN)));
    assert!(store.add_shift(open_shift(3, 5, "2023-01-05 14:00", "2023-01-05 18:00", WorkerProfession::RN)));
    let (start, end) = january();
    assert_eq!(
        list_eligible_shifts(&store, WorkerId(4), FacilityId(5), start, end),
        Ok(vec![Shift {
            id: ShiftId(3),
            start: start_at("2023-01-05 14:00"),
            end: end_at("2023-01-05 18:00"),
        }])
    );
}

#[test]
fn both_inactive_reports_facility() {
    let store = fixture();
    let (start, end) = january();
    assert_eq!(
        list_eligible_shifts(&store, WorkerId(5), FacilityId(4), start, end),
        Err(ShiftListError::EligibilityError(IneligibilityReason::InactiveFacility))
    );
}

#[test]
fn unknown_worker_at_active_facility_is_database_error() {
    let store = fixture();
    let (start, end) = january();
    let result = list_eligible_shifts(&store, WorkerId(4000), FacilityId(5), start, end);
    assert!(matches!(result, Err(ShiftListError::DatabaseError(_))));
}

#[test]
fn other_profession_deleted_claimed_and_outside_window_are_dropped() {
    let mut store = fixture();
    assert!(store.add_shift(open_shift(1, 5, "2023-01-10 08:00", "2023-01-10 16:00", WorkerProfession::LVN)));
    let mut deleted = open_shift(2, 5, "2023-01-11 08:00", "2023-01-11 16:00", WorkerProfession::RN);
    deleted.is_deleted = true;
    assert!(store.add_shift(deleted));
    let mut claimed = open_shift(3, 5, "2023-01-12 08:00", "2023-01-12 16:00", WorkerProfession::RN);
    claimed.claimed_by = Some(WorkerId(9));
    assert!(store.add_shift(claimed));
    assert!(store.add_shift(open_shift(4, 5, "2023-01-31 20:00", "2023-02-01 04:00", WorkerProfession::RN)));
    assert!(store.add_shift(open_shift(5, 4, "2023-01-13 08:00", "2023-01-13 16:00", WorkerProfession::RN)));
    assert!(store.add_shift(open_shift(6, 5, "2022-12-31 20:00", "2023-01-01 04:00", WorkerProfession::RN)));
    let (start, end) = january();
    assert_eq!(list_eligible_shifts(&store, WorkerId(4), FacilityId(5), start, end), Ok(vec![]));
}

#[test]
fn shift_on_window_edges_is_listed() {
    let mut store = fixture();
    assert!(store.add_shift(open_shift(1, 5, "2023-01-01 00:00", "2023-01-31 23:59", WorkerProfession::RN)));
    let (start, end) = january();
    let listed = list_eligible_shifts(&store, WorkerId(4), FacilityId(5), start, end).unwrap();
    assert_eq!(listed.len(), 1);
    assert_eq!(listed[0].id, ShiftId(1));
}

#[test]
fn listing_is_ordered_by_start_then_id() {
    let mut store = fixture();
    assert!(store.add_shift(open_shift(7, 5, "2023-01-20 08:00", "2023-01-20 09:00", WorkerProfession::RN)));
    assert!(store.add_shift(open_shift(9, 5, "2023-01-03 08:00", "2023-01-03 09:00", WorkerProfession::RN)));
    assert!(store.add_shift(open_shift(2, 5, "2023-01-20 08:00", "2023-01-20 10:00", WorkerProfession::RN)));
    assert!(store.add_shift(open_shift(5, 5, "2023-01-03 08:00", "2023-01-03 12:00", WorkerProfession::RN)));
    let (start, end) = january();
    let ids: Vec<i32> = list_eligible_shifts(&store, WorkerId(4), FacilityId(5), start, end)
        .unwrap()
        .iter()
        .map(|s| s.id.0)
        .collect();
    assert_eq!(ids, vec![5, 9, 2, 7]);
}

#[test]
fn no_matching_shift_is_an_empty_success() {
    let store = fixture();
    let (start, end) = january();
    assert_eq!(list_eligible_shifts(&store, WorkerId(4), FacilityId(5), start, end), Ok(vec![]));
}

#[test]
fn store_refuses_duplicate_id_and_reversed_shift() {
    let mut store = fixture();
    assert!(store.add_shift(open_shift(1, 5, "2023-01-10 08:00", "2023-01-10 16:00", WorkerProfession::RN)));
    assert!(!store.add_shift(open_shift(1, 5, "2023-01-11 08:00", "2023-01-11 16:00", WorkerProfession::RN)));
    assert!(!store.add_shift(open_shift(2, 5, "2023-01-11 16:00", "2023-01-11 08:00", WorkerProfession::RN)));
    let (start, end) = january();
    let listed = list_eligible_shifts(&store, WorkerId(4), FacilityId(5), start, end).unwrap();
    assert_eq!(listed.len(), 1);
    assert_eq!(listed[0].start, start_at("2023-01-10 08:00"));
}

#[test]
fn later_record_replaces_earlier_standing() {
    let mut store = fixture();
    store.add_facility(FacilityId(4), true);
    store.add_worker(WorkerId(5), Worker { profession: WorkerProfession::CNA, is_active: true });
    assert_eq!(store.is_facility_active(&FacilityId(4)), Ok(true));
    assert_eq!(
        store.get_worker(WorkerId(5)),
        Ok(Worker { profession: WorkerProfession::CNA, is_active: true })
    );
}

#[test]
fn gates_map_lookups() {
    assert_eq!(check_facility(Ok(true)), Ok(()));
    assert_eq!(
        check_facility(Ok(false)),
        Err(ShiftListError::EligibilityError(IneligibilityReason::InactiveFacility))
    );
    assert_eq!(
        check_facility(Err("gone".to_string())),
        Err(ShiftListError::DatabaseError("gone".to_string()))
    );
    assert_eq!(
        check_worker(Ok(Worker { profession: WorkerProfession::LVN, is_active: true })),
        Ok(WorkerProfession::LVN)
    );
    assert_eq!(
        check_worker(Ok(Worker { profession: WorkerProfession::LVN, is_active: false })),
        Err(ShiftListError::EligibilityError(IneligibilityReason::InactiveWorker))
    );
    assert_eq!(
        check_worker(Err("down".to_string())),
        Err(ShiftListError::DatabaseError("down".to_string()))
    );
}

#[test]
fn half_open_overlap() {
    let a = open_shift(1, 5, "2023-01-05 10:00", "2023-01-05 14:00", WorkerProfession::RN);
    let b = open_shift(2, 5, "2023-01-05 13:00", "2023-01-05 17:00", WorkerProfession::RN);
    let c = open_shift(3, 5, "2023-01-05 14:00", "2023-01-05 18:00", WorkerProfession::RN);
    assert!(overlaps(&a, &b));
    assert!(overlaps(&b, &a));
    assert!(!overlaps(&a, &c));
    assert!(!overlaps(&c, &a));
    assert!(conflicts_with_held(&b, &vec![c, a]));
    assert!(!conflicts_with_held(&c, &vec![a]));
    assert!(!conflicts_with_held(&c, &vec![]));
}

#[test]
fn predicate_and_selection_on_fixture() {
    let query = ShiftQuery {
        facility_id: FacilityId(5),
        profession: WorkerProfession::CNA,
        start: start_at("2023-01-01 00:00"),
        end: end_at("2023-01-02 00:00"),
    };
    let fits = open_shift(8, 5, "2023-01-01 06:00", "2023-01-01 10:00", WorkerProfession::CNA);
    let early = open_shift(3, 5, "2023-01-01 02:00", "2023-01-01 04:00", WorkerProfession::CNA);
    let wrong = open_shift(4, 5, "2023-01-01 06:00", "2023-01-01 10:00", WorkerProfession::RN);
    let mut held = open_shift(6, 7, "2023-01-01 09:00", "2023-01-01 11:00", WorkerProfession::CNA);
    held.claimed_by = Some(WorkerId(1));
    assert!(shift_is_eligible(&fits, &query, &vec![]));
    assert!(!shift_is_eligible(&fits, &query, &vec![held]));
    assert!(!shift_is_eligible(&wrong, &query, &vec![]));
    let listed = select_eligible_shifts(&vec![fits, wrong, early], &query, &vec![]);
    assert_eq!(listed, vec![early.to_shift(), fits.to_shift()]);
    let listed = select_eligible_shifts(&vec![fits, wrong, early], &query, &vec![held]);
    assert_eq!(listed, vec![early.to_shift()]);
}
