//! The identifiers of Amazon Web Services as one domain.

use crate::engine::{EngineTrait, Identifier};
use crate::pattern::{glob_outcome, wildcard_matches};
use crate::resource::reads_back;
use crate::traits::MatchesTrait;
use vstd::prelude::*;
use vstd::string::StringExecFns;

pub mod aws_partitions;
pub mod aws_regions;

pub use aws_partitions::AwsPartition;
pub use aws_regions::AwsRegion;

verus! {

/// The domain of AWS: partitions and regions are names out of a fixed list;
/// every other identifier is free text that may hold wildcards.
#[derive(Debug, Copy, Default, Clone, PartialEq, Eq)]
pub struct AwsEngine {}

/// Free text that is read as a wildcard pattern where a policy declares it.
#[derive(Debug, PartialEq, Eq, Clone)]
pub struct WildString(pub String);

impl View for WildString {
    type V = Seq<char>;

    open spec fn view(&self) -> Seq<char> {
        self.0@
    }
}

impl MatchesTrait<bool> for WildString {
    /// The declared text is compiled as a pattern and the requested text is
    /// matched against it as it stands.
    open spec fn matches_spec(declared: Seq<char>, requested: Seq<char>) -> Result<
        bool,
        &'static str,
    > {
        glob_outcome(declared, requested)
    }

    fn matches(&self, value: &Self) -> (r: Result<bool, &'static str>) {
        wildcard_matches(self.0.as_str(), value.0.as_str())
    }
}

impl Identifier for WildString {
    /// Every text is accepted as it is.
    open spec fn parsed(text: Seq<char>) -> Result<Seq<char>, &'static str> {
        Ok(text)
    }

    fn from_str(s: &str) -> (r: Result<Self, &'static str>) {
        Ok(WildString(String::from_str(s)))
    }

    open spec fn rendered(value: Seq<char>) -> Seq<char> {
        value
    }

    fn to_string(&self) -> (s: String) {
        self.0.clone()
    }
}

impl EngineTrait for AwsEngine {
    type Action = WildString;

    type Partition = AwsPartition;

    type Service = WildString;

    type Region = AwsRegion;

    type AccountID = WildString;

    type ResourceType = WildString;

    type ResourceID = WildString;
}

/// Free text survives being written into an address and read again exactly
/// if it is not empty and holds no colon.
pub proof fn lemma_wild_string_reads_back(text: Seq<char>)
    ensures
        reads_back::<WildString>(Some(text)) <==> text.len() > 0 && !text.contains(':'),
{
}

} // verus!
