//! The parts of an instruction.
pub mod callable;

pub use callable::{CallableRef, CallableRefDe, parse_call_shorthand};
pub mod interpolation;
pub mod invocation;
pub mod condition;
pub mod step;
pub mod instruction;
pub mod execution;
