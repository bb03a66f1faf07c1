use vstd::prelude::*;

verus! {

/// The ways in which a request to the registry can be refused.
#[derive(Debug, PartialEq, Eq, Structural, Clone, Copy)]
pub enum TradeError {
    /// The request is not allowed in the trade's current state, or the details are invalid.
    NotValid,
    /// No trade or history entry exists for the given identifier.
    NotFound,
    /// The caller is not permitted to perform this action.
    NotAuthorized,
}

} // verus!
