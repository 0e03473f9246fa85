//! What a domain supplies to plug into the evaluation: one identifier type
//! for each slot of a request.

use crate::traits::MatchesTrait;
use std::fmt::Debug;
use vstd::prelude::*;

verus! {

/// A result with the view of its value in place of the value.
pub open spec fn view_of_result<T: View, E>(r: Result<T, E>) -> Result<T::V, E> {
    match r {
        Ok(value) => Ok(value@),
        Err(e) => Err(e),
    }
}

/// The views of a list of values, in order.
pub open spec fn views_of<T: View>(items: Seq<T>) -> Seq<T::V> {
    Seq::new(items.len(), |i: int| items[i]@)
}

/// The capabilities of an identifier: it is read from text, written back as
/// text, compared, and held against another identifier of its type.
///
/// Reading may be lenient, so writing a value and reading the text back need
/// not give the value again; writing is a function of the value alone.
pub trait Identifier:
    MatchesTrait<bool> + Debug + PartialEq + Eq + Clone + Sync + Send + Sized + 'static
{
    /// The identifier that `text` stands for, or why it stands for none.
    spec fn parsed(text: Seq<char>) -> Result<Self::V, &'static str>;

    /// Reads an identifier. A failure means that `s` names no identifier of
    /// this type; it never means that the identifier is absent.
    fn from_str(s: &str) -> (r: Result<Self, &'static str>)
        ensures
            view_of_result(r) == Self::parsed(s@),
    ;

    /// The text of an identifier.
    spec fn rendered(value: Self::V) -> Seq<char>;

    /// Writes the identifier as text.
    fn to_string(&self) -> (s: String)
        ensures
            s@ == Self::rendered(self@),
    ;
}

/// A domain: the identifier types of its actions and of the six fields of
/// its resource addresses. Keeping one type per slot means that a partition
/// is never compared with a region.
pub trait EngineTrait: Debug + Default + Copy + Clone + Sync + Send + 'static {
    /// An operation that can be requested.
    type Action: Identifier;

    /// A group of regions; an account belongs to one partition.
    type Partition: Identifier;

    /// The product or service that owns the resource.
    type Service: Identifier;

    /// Where the resource lives.
    type Region: Identifier;

    /// The account that owns the resource.
    type AccountID: Identifier;

    /// The kind of the resource.
    type ResourceType: Identifier;

    /// The name or path of the resource.
    type ResourceID: Identifier;
}

} // verus!
