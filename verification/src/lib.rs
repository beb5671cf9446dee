//! Verified model of the TulongScholar scholarship-disbursement contract:
//! the scholar registry, the enrollment rules, the per-cycle payment guard
//! and the cumulative stipend ledger.
mod contract;
pub mod history;
pub mod laws;
mod model;
mod types;

pub use contract::TulongScholarContract;
pub use model::ContractModel;
pub use types::{
    error_text, guard_slot, guard_slot_of, lemma_guard_slot, lemma_guard_slot_injective, Address,
    ContractError, DataKey, EnrollmentStatus, ScholarRecord, Transfer, CYCLE_SPAN,
};
