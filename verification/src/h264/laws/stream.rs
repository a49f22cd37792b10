//! What stands in a bit stream, one value behind the other.

use vstd::prelude::*;

use crate::h264::bits::Cursor;

verus! {

/// An unsigned Exp-Golomb code of `value` stands between two places.
pub open spec fn unsigned(before: Cursor, value: int, behind: Cursor) -> bool {
    &&& before.error is None
    &&& behind.error is None
    &&& before.ue().0 == value
    &&& before.ue().1 == behind
}

/// A signed Exp-Golomb code of `value` stands between two places.
pub open spec fn signed(before: Cursor, value: int, behind: Cursor) -> bool {
    &&& before.error is None
    &&& behind.error is None
    &&& before.se().0 == value
    &&& before.se().1 == behind
}

/// A bit that says `value` stands between two places.
pub open spec fn flag(before: Cursor, value: bool, behind: Cursor) -> bool {
    &&& before.error is None
    &&& behind.error is None
    &&& before.flag() == (value, behind)
}

/// A number of `count` bits stands between two places.
pub open spec fn number(before: Cursor, count: nat, value: int, behind: Cursor) -> bool {
    &&& before.error is None
    &&& behind.error is None
    &&& before.bits(count).0 == value
    &&& before.bits(count).1 == behind
}

} // verus!
