//! Native functions compiled into the host.
pub mod logical;
pub mod registry;

pub use registry::{
    NativeCapabilityBuilder, NativeCapabilitySchema, NativeFunction, NativeFunctionInfo,
    NativeFunctionInfoBuilder, NativeFunctionRegistry, NativeInvokeResult, dispatch_native_capability,
    native_capability,
    native_function_info,
};
