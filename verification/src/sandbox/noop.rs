//! The policy that forbids nothing.
use vstd::prelude::*;

verus! {

/// A sandbox that does nothing.
#[derive(Clone, Copy, Debug, PartialEq, Eq, Structural)]
pub struct NoopSandbox;

} // verus!
