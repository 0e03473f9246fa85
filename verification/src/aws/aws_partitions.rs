//! The partitions of AWS.

use crate::engine::Identifier;
use crate::text::{chars_of, normalize, normalized, occurs, occurs_in, same_text};
use crate::traits::MatchesTrait;
use vstd::prelude::*;
use vstd::string::StringExecFns;

verus! {

/// A partition: a group of regions that share accounts.
#[derive(Debug, PartialEq, Eq, Clone, Copy, Structural)]
pub enum AwsPartition {
    /// The standard regions, `aws`.
    Aws,
    /// The regions in China, `aws-cn`.
    AwsChina,
    /// The GovCloud regions, `aws-us-gov`.
    AwsUsGov,
}

impl View for AwsPartition {
    type V = AwsPartition;

    open spec fn view(&self) -> AwsPartition {
        *self
    }
}

/// The code of a partition.
pub open spec fn partition_code(partition: AwsPartition) -> Seq<char> {
    match partition {
        AwsPartition::Aws => "aws"@,
        AwsPartition::AwsChina => "aws-cn"@,
        AwsPartition::AwsUsGov => "aws-us-gov"@,
    }
}

/// Some partition has the code `x`.
pub open spec fn is_partition_code(x: Seq<char>) -> bool {
    exists|partition: AwsPartition| partition_code(partition) == x
}

/// The partition that a text names by the marks it holds. The text is
/// searched in this order: for `ch` or `cn`, the marks of China; for `us`,
/// the mark of GovCloud; for `aws`, the mark of the standard partition.
pub open spec fn partition_marked(x: Seq<char>) -> Result<AwsPartition, &'static str> {
    if occurs_in(x, "ch"@) || occurs_in(x, "cn"@) {
        Ok(AwsPartition::AwsChina)
    } else if occurs_in(x, "us"@) {
        Ok(AwsPartition::AwsUsGov)
    } else if occurs_in(x, "aws"@) {
        Ok(AwsPartition::Aws)
    } else {
        Err("no match")
    }
}

/// The partition that a trimmed, lower-case text names: the partition with
/// that code, or else the partition whose mark the text holds.
pub open spec fn partition_named(x: Seq<char>) -> Result<AwsPartition, &'static str> {
    if is_partition_code(x) {
        Ok(choose|partition: AwsPartition| partition_code(partition) == x)
    } else {
        partition_marked(x)
    }
}

impl AwsPartition {
    /// The code of the partition.
    pub fn code(&self) -> (code: &'static str)
        ensures
            code@ == partition_code(*self),
    {
        match self {
            AwsPartition::Aws => "aws",
            AwsPartition::AwsChina => "aws-cn",
            AwsPartition::AwsUsGov => "aws-us-gov",
        }
    }

    /// The partition with the code `x`, if there is one.
    pub fn with_code(x: &str) -> (found: Option<AwsPartition>)
        ensures
            found is Some <==> is_partition_code(x@),
            found matches Some(partition) ==> partition_code(partition) == x@,
    {
        if same_text(x, AwsPartition::Aws.code()) {
            Some(AwsPartition::Aws)
        } else if same_text(x, AwsPartition::AwsChina.code()) {
            Some(AwsPartition::AwsChina)
        } else if same_text(x, AwsPartition::AwsUsGov.code()) {
            Some(AwsPartition::AwsUsGov)
        } else {
            proof {
                assert forall|partition: AwsPartition| partition_code(partition) != x@ by {
                    match partition {
                        AwsPartition::Aws => {},
                        AwsPartition::AwsChina => {},
                        AwsPartition::AwsUsGov => {},
                    }
                }
            }
            None
        }
    }

    /// The partition that a text names by the marks it holds.
    pub fn from_marks(x: &str) -> (r: Result<AwsPartition, &'static str>)
        ensures
            r == partition_marked(x@),
    {
        let hay = chars_of(x);
        if occurs(&hay, "ch") || occurs(&hay, "cn") {
            Ok(AwsPartition::AwsChina)
        } else if occurs(&hay, "us") {
            Ok(AwsPartition::AwsUsGov)
        } else if occurs(&hay, "aws") {
            Ok(AwsPartition::Aws)
        } else {
            Err("no match")
        }
    }

    /// The partition that a text names once it is trimmed and in lower case.
    pub fn from_normalized(x: &str) -> (r: Result<AwsPartition, &'static str>)
        ensures
            r == partition_named(x@),
    {
        match AwsPartition::with_code(x) {
            Some(partition) => {
                proof {
                    lemma_partition_codes_differ(
                        partition,
                        choose|other: AwsPartition| partition_code(other) == x@,
                    );
                }
                Ok(partition)
            },
            None => AwsPartition::from_marks(x),
        }
    }
}

/// Partitions match by equality.
impl MatchesTrait<bool> for AwsPartition {
    open spec fn matches_spec(declared: AwsPartition, requested: AwsPartition) -> Result<
        bool,
        &'static str,
    > {
        Ok(declared == requested)
    }

    fn matches(&self, value: &Self) -> (r: Result<bool, &'static str>) {
        Ok(*self == *value)
    }
}

impl Identifier for AwsPartition {
    /// The text is trimmed and put in lower case; then it is a code, or it
    /// is searched for the marks of the partitions.
    open spec fn parsed(text: Seq<char>) -> Result<AwsPartition, &'static str> {
        partition_named(normalized(text))
    }

    fn from_str(s: &str) -> (r: Result<Self, &'static str>) {
        let x = normalize(s);
        AwsPartition::from_normalized(x.as_str())
    }

    open spec fn rendered(value: AwsPartition) -> Seq<char> {
        partition_code(value)
    }

    fn to_string(&self) -> (s: String) {
        String::from_str(self.code())
    }
}

/// No two partitions share a code.
pub proof fn lemma_partition_codes_differ(first: AwsPartition, second: AwsPartition)
    ensures
        partition_code(first) == partition_code(second) ==> first == second,
{
    reveal_strlit("aws");
    reveal_strlit("aws-cn");
    reveal_strlit("aws-us-gov");
    if partition_code(first) == partition_code(second) {
        // The codes differ in length.
        assert(partition_code(first).len() == partition_code(second).len());
    }
}

/// The code of each partition names that partition.
pub proof fn lemma_partition_codes_name_themselves(partition: AwsPartition)
    ensures
        partition_named(partition_code(partition)) == Ok::<AwsPartition, &'static str>(partition),
{
    let found = choose|other: AwsPartition| partition_code(other) == partition_code(partition);
    lemma_partition_codes_differ(found, partition);
}

} // verus!
