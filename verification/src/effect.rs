//! The two effects a statement can declare, and the three outcomes an
//! evaluation can have.

use vstd::prelude::*;

verus! {

/// What a statement declares for the requests it covers.
#[derive(Debug, PartialEq, Eq, Clone, Copy, Structural)]
pub enum Effect {
    /// The covered requests are permitted.
    Allow,
    /// The covered requests are refused.
    Deny,
}

impl View for Effect {
    type V = Effect;

    open spec fn view(&self) -> Effect {
        *self
    }
}

/// The outcome of evaluating a statement or a policy for one request.
#[derive(Debug, PartialEq, Eq, Clone, Copy, Structural)]
pub enum MaybeEffect {
    /// Some rule permits the request and none refuses it.
    Allow,
    /// Some rule refuses the request.
    Deny,
    /// No rule covers the request.
    NotSpecified,
}

} // verus!
