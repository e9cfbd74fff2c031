//! Read-side shift eligibility: decides which open shifts a worker may claim
//! at a facility within a time window.

pub mod gates;
pub mod laws;
pub mod selection;
pub mod store;
pub mod time;
pub mod types;

pub use types::{
    FacilityId, IneligibilityReason, Shift, ShiftEndTime, ShiftId, ShiftListError, ShiftRecord,
    ShiftStartTime, TimeParseError, Worker, WorkerId, WorkerProfession,
};
pub use selection::{
    conflicts_with_held, overlaps, select_eligible_shifts, shift_is_eligible, ShiftQuery,
};
pub use gates::{check_facility, check_worker};
pub use time::parse_time;
pub use store::{list_eligible_shifts, ShiftStore, StoreView};
