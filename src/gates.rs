use vstd::prelude::*;

use crate::types::{IneligibilityReason, ShiftListError, Worker, WorkerProfession};

verus! {

/// Outcome of the facility gate on the facility lookup: a failed lookup is a
/// data-access failure, an inactive facility refuses the request.
pub open spec fn facility_gate(lookup: Result<bool, String>) -> Result<(), ShiftListError> {
    match lookup {
        Err(message) => Err(ShiftListError::DatabaseError(message)),
        Ok(false) => Err(ShiftListError::EligibilityError(IneligibilityReason::InactiveFacility)),
        Ok(true) => Ok(()),
    }
}

/// Outcome of the worker gate on the worker lookup: a failed lookup is a
/// data-access failure, an inactive worker refuses the request, an active one
/// passes on the profession that shifts must require.
pub open spec fn worker_gate(lookup: Result<Worker, String>) -> Result<
    WorkerProfession,
    ShiftListError,
> {
    match lookup {
        Err(message) => Err(ShiftListError::DatabaseError(message)),
        Ok(w) => if w.is_active {
            Ok(w.profession)
        } else {
            Err(ShiftListError::EligibilityError(IneligibilityReason::InactiveWorker))
        },
    }
}

/// The facility gate.
pub fn check_facility(lookup: Result<bool, String>) -> (r: Result<(), ShiftListError>)
    ensures
        r == facility_gate(lookup),
{
    match lookup {
        Err(message) => Err(ShiftListError::DatabaseError(message)),
        Ok(false) => Err(ShiftListError::EligibilityError(IneligibilityReason::InactiveFacility)),
        Ok(true) => Ok(()),
    }
}

/// The worker gate.
pub fn check_worker(lookup: Result<Worker, String>) -> (r: Result<
    WorkerProfession,
    ShiftListError,
>)
    ensures
        r == worker_gate(lookup),
{
    match lookup {
        Err(message) => Err(ShiftListError::DatabaseError(message)),
        Ok(w) => if w.is_active {
            Ok(w.profession)
        } else {
            Err(ShiftListError::EligibilityError(IneligibilityReason::InactiveWorker))
        },
    }
}

} // verus!
