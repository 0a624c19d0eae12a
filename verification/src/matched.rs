//! The four ways the next byte can relate to the ranked bytes of its context.

use vstd::prelude::*;

verus! {

/// How the next byte compared against the three ranked bytes of the
/// current primary-context cell.
#[derive(Copy, Clone, PartialEq, Eq, Structural, Debug)]
pub enum ByteMatched {
    /// Equal to the most recently ranked byte.
    MatchFirst,
    /// Equal to the second ranked byte.
    MatchSecond,
    /// Equal to the third ranked byte.
    MatchThird,
    /// Equal to none of the three; coded as a literal.
    NoMatch,
}

} // verus!
