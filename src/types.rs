use vstd::prelude::*;

verus! {

/// Identifies a facility. Compared for equality only.
#[derive(Clone, Copy, Debug, PartialEq, Eq, Structural)]
pub struct FacilityId(pub i32);

/// Identifies a worker. Compared for equality only.
#[derive(Clone, Copy, Debug, PartialEq, Eq, Structural)]
pub struct WorkerId(pub i32);

/// Identifies a shift. Used as the tie-breaker when ordering shifts.
#[derive(Clone, Copy, Debug, PartialEq, Eq, Structural)]
pub struct ShiftId(pub i32);

/// Start of a shift or of a requested window, in seconds since
/// 1970-01-01 00:00 (naive, no time zone).
#[derive(Clone, Copy, Debug, PartialEq, Eq, Structural)]
pub struct ShiftStartTime(pub i64);

/// End of a shift or of a requested window, in seconds since
/// 1970-01-01 00:00 (naive, no time zone).
#[derive(Clone, Copy, Debug, PartialEq, Eq, Structural)]
pub struct ShiftEndTime(pub i64);

/// The qualification a worker holds and a shift requires.
#[derive(Clone, Copy, Debug, PartialEq, Eq, Structural)]
pub enum WorkerProfession {
    CNA,
    LVN,
    RN,
}

/// Standing and qualification of a worker.
#[derive(Clone, Copy, Debug, PartialEq, Eq, Structural)]
pub struct Worker {
    pub profession: WorkerProfession,
    pub is_active: bool,
}

/// A shift as the caller sees it: the fields used to filter it are left out.
#[derive(Clone, Copy, Debug, PartialEq, Eq, Structural)]
pub struct Shift {
    pub id: ShiftId,
    pub start: ShiftStartTime,
    pub end: ShiftEndTime,
}

/// A stored shift with every field that eligibility depends on.
#[derive(Clone, Copy, Debug, PartialEq, Eq, Structural)]
pub struct ShiftRecord {
    pub id: ShiftId,
    pub facility_id: FacilityId,
    pub start: ShiftStartTime,
    pub end: ShiftEndTime,
    pub profession: WorkerProfession,
    pub is_deleted: bool,
    pub claimed_by: Option<WorkerId>,
}

impl ShiftRecord {
    /// The part of the record that is handed to callers.
    pub open spec fn summary(self) -> Shift {
        Shift { id: self.id, start: self.start, end: self.end }
    }

    pub fn to_shift(&self) -> (r: Shift)
        ensures
            r == self.summary(),
    {
        Shift { id: self.id, start: self.start, end: self.end }
    }
}

/// A text that does not spell a date and time in the accepted form.
#[derive(Clone, Copy, Debug, PartialEq, Eq, Structural)]
pub struct TimeParseError;

/// Why a well-formed request yields no shifts.
#[derive(Clone, Copy, Debug, PartialEq, Eq, Structural)]
pub enum IneligibilityReason {
    InactiveFacility,
    InactiveWorker,
}

/// Failure of a shift listing: the data could not be read, or a standing
/// gate refused the request.
#[derive(Debug, PartialEq, Eq)]
pub enum ShiftListError {
    DatabaseError(String),
    EligibilityError(IneligibilityReason),
}

} // verus!
