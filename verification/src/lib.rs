//! Building blocks of a benchmark for deterministic call execution: scenario
//! assembly from fixture data, and a timing harness that validates every
//! outcome it measures.

pub mod driver;
pub mod error;
pub mod harness;
pub mod scenario;
pub mod state;
pub mod text;
pub mod word;
