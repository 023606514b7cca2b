//! Frontend of the Fib compiler: lexing, parsing, semantic analysis,
//! diagnostics and the driver decisions around them, with the backend's
//! target-independent layout rules.

pub mod text;
pub mod diagnostics;
pub mod frontend;
pub mod backend;
pub mod driver;
pub mod cli;
