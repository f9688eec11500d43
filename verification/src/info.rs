//! The routing identity of one call.

use vstd::prelude::*;

verus! {

/// Service and method that a call was addressed to.
#[derive(Debug, Clone, PartialEq, Eq)]
pub struct Info {
    /// Name of the addressed service.
    pub service: String,
    /// Name of the addressed method; empty where the path names none.
    pub method: String,
}

} // verus!
