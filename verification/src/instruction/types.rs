//! Markers for whether an instruction has been checked against a host.
use vstd::prelude::*;

verus! {

/// Marks values whose invocation targets have been checked against a host.
#[derive(Debug, Clone, Copy, PartialEq, Eq, Default)]
pub struct Valid;

/// Marks values whose invocation targets have not been checked yet.
#[derive(Debug, Clone, Copy, PartialEq, Eq, Default)]
pub struct Invalid;

} // verus!
