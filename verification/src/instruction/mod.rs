//! Instructions: pipelines of capability invocations, checked against a host and run
//! step by step.
pub mod model;
pub mod types;

pub use model::{CallableRef, CallableRefDe, parse_call_shorthand};
pub use model::condition::{Condition, ConditionDe};
pub use model::execution::{Action, Execution};
pub use model::instruction::{Instruction, InstructionDe};
pub use model::interpolation::{
    interpolate_json, interpolate_string, json_from_bytes, json_to_bytes, json_value_to_string,
    lookup_variable, validate_variable_name,
};
pub use model::invocation::{Invocation, InvocationDe, Request};
pub use model::step::{Step, StepDe};
pub use types::{Invalid, Valid};
