//! Numbers in the bytes of a file.

use vstd::prelude::*;

use crate::mp4::reader::ByteCursor;

verus! {

/// The 32-bit number at a place, its highest byte first.
pub open spec fn word(content: Seq<u8>, at: int) -> int {
    content[at] * 0x100_0000 + content[at + 1] * 0x1_0000 + content[at + 2] * 0x100 + content[at
        + 3]
}

/// The 64-bit number at a place.
pub open spec fn long(content: Seq<u8>, at: int) -> int {
    word(content, at) * 0x1_0000_0000 + word(content, at + 4)
}

/// The 24-bit number at a place.
pub open spec fn flags_at(content: Seq<u8>, at: int) -> int {
    content[at] * 0x1_0000 + content[at + 1] * 0x100 + content[at + 2]
}

/// A 32-bit number in two's complement.
pub open spec fn two_complement(number: int) -> int {
    if number < 0x8000_0000 {
        number
    } else {
        number - 0x1_0000_0000
    }
}

/// A flag of a number, by its value.
#[verifier::opaque]
pub open spec fn flagged(flags: int, flag: int) -> bool {
    flags / flag % 2 == 1
}

/// Four bytes where a flag is set.
pub open spec fn four_if(flags: int, flag: int) -> int {
    if flagged(flags, flag) {
        4
    } else {
        0
    }
}

/// A cursor stands at a place of a box and has met no error.
pub open spec fn stands(cursor: ByteCursor, content: Seq<u8>, at: int, end: int) -> bool {
    cursor == (ByteCursor { content, position: at, end, error: None })
}

/// A 32-bit number is read.
pub proof fn law_word_is_read(cursor: ByteCursor)
    requires
        cursor.error is None,
        0 <= cursor.position,
        cursor.u32().1.error is None,
    ensures
        cursor.u32().0 == word(cursor.content, cursor.position),
        cursor.i32().0 == two_complement(word(cursor.content, cursor.position)),
        cursor.i32().1 == cursor.u32().1,
        stands(cursor.u32().1, cursor.content, cursor.position + 4, cursor.end),
        cursor.position + 4 <= cursor.end,
        cursor.position + 4 <= cursor.content.len(),
        0 <= word(cursor.content, cursor.position) < 0x1_0000_0000,
{
    let bytes = cursor.content.subrange(cursor.position, cursor.position + 4);
    assert(cursor.bytes(4).0 == bytes);
    assert(bytes[0] == cursor.content[cursor.position]);
}

/// A 64-bit number is read.
pub proof fn law_long_is_read(cursor: ByteCursor)
    requires
        cursor.error is None,
        0 <= cursor.position,
        cursor.u64().1.error is None,
    ensures
        cursor.u64().0 == long(cursor.content, cursor.position),
        stands(cursor.u64().1, cursor.content, cursor.position + 8, cursor.end),
        0 <= long(cursor.content, cursor.position) < 0x1_0000_0000_0000_0000,
{
    let bytes = cursor.content.subrange(cursor.position, cursor.position + 8);
    assert(cursor.bytes(8).0 == bytes);
    assert(bytes[0] == cursor.content[cursor.position]);
    assert(bytes.skip(4)[0] == cursor.content[cursor.position + 4]);
}

/// The version and the flags of a box are read.
pub proof fn law_version_and_flags_are_read(cursor: ByteCursor)
    requires
        cursor.error is None,
        0 <= cursor.position,
        cursor.full_box().1.error is None,
    ensures
        cursor.full_box().0.0 == cursor.content[cursor.position],
        cursor.full_box().0.1 == flags_at(cursor.content, cursor.position + 1),
        stands(cursor.full_box().1, cursor.content, cursor.position + 4, cursor.end),
        0 <= flags_at(cursor.content, cursor.position + 1) < 0x100_0000,
{
    let first = cursor.u8().1;
    assert(cursor.bytes(1).0 == cursor.content.subrange(cursor.position, cursor.position + 1));
    assert(stands(first, cursor.content, cursor.position + 1, cursor.end));
    assert(first.bytes(3).0 == cursor.content.subrange(cursor.position + 1, cursor.position + 4));
}

} // verus!
