//! The match predicate that every value taking part in an evaluation offers.

use vstd::prelude::*;

verus! {

/// A value that can be held against another value of its own type.
///
/// The receiver is the declared side, the one a policy wrote down, and may be
/// read as a pattern; the argument is the requested side and is always taken
/// literally. The two sides are not interchangeable.
pub trait MatchesTrait<T>: View {
    /// What `matches` returns for a declared and a requested value: a
    /// function of what the two values hold and of nothing else.
    spec fn matches_spec(declared: Self::V, requested: Self::V) -> Result<T, &'static str>;

    /// Holds `value` against `self`. An error says that `self` cannot be read
    /// as a pattern at all.
    fn matches(&self, value: &Self) -> (r: Result<T, &'static str>)
        ensures
            r == Self::matches_spec(self@, value@),
    ;
}

/// Numbers match by equality.
impl MatchesTrait<bool> for usize {
    open spec fn matches_spec(declared: usize, requested: usize) -> Result<bool, &'static str> {
        Ok(declared == requested)
    }

    fn matches(&self, value: &Self) -> (r: Result<bool, &'static str>) {
        Ok(*self == *value)
    }
}

/// Plain strings match by equality of their characters.
impl MatchesTrait<bool> for String {
    open spec fn matches_spec(declared: Seq<char>, requested: Seq<char>) -> Result<
        bool,
        &'static str,
    > {
        Ok(declared == requested)
    }

    fn matches(&self, value: &Self) -> (r: Result<bool, &'static str>) {
        Ok(*self == *value)
    }
}

} // verus!
