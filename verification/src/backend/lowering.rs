//! Lowering of typed programs.
pub mod error;
pub mod types;
