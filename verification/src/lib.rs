//! Attribute-based access control in the manner of cloud identity policies.
//!
//! A request is one action on one resource address. A collection of
//! policies authorizes it if some statement permits it and none refuses it:
//! nothing is permitted by default, and an explicit refusal wins over every
//! permission. What an action or a field of an address is, and how a
//! declared one is held against a requested one, is for the domain to say;
//! the identifiers of AWS come with the library.

use vstd::prelude::*;

pub mod aws;
pub mod document;
pub mod effect;
pub mod engine;
pub mod pattern;
pub mod policy;
pub mod policy_collection;
pub mod resource;
pub mod schema;
pub mod statement;
pub mod text;
pub mod traits;

pub use document::{Document, SchemaError, Structured};
pub use effect::{Effect, MaybeEffect};
pub use engine::{EngineTrait, Identifier};
pub use policy::Policy;
pub use policy_collection::PolicyCollection;
pub use resource::{ParseError, ResourceAbstract};
pub use statement::Statement;
pub use traits::MatchesTrait;

verus! {

/// The sum of two numbers whose sum fits in a `u64`.
pub fn add(left: u64, right: u64) -> (sum: u64)
    requires
        left + right <= u64::MAX,
    ensures
        sum == left + right,
{
    left + right
}

} // verus!
