//! The backend's target-independent part: the errors lowering reports.
pub mod lowering;
