//! Laws of edit lists.

use vstd::arithmetic::div_mod::lemma_fundamental_div_mod;
use vstd::prelude::*;

use super::bytes::{
    law_long_is_read, law_version_and_flags_are_read, law_word_is_read, long, stands,
    two_complement, word,
};
use crate::mp4::boxes::{payload_of, BoxHeader, FileView};
use crate::mp4::edit::{edit_list, edit_syntax, edits_syntax, timeline_offset, timeline_scan, Edit};
use crate::mp4::error::Mp4Error;
use crate::mp4::reader::ByteCursor;

verus! {

/// The durations of the first edits.
pub open spec fn lasting(edits: Seq<Edit>, count: int) -> int
    decreases count,
{
    if count <= 0 {
        0
    } else {
        lasting(edits, count - 1) + edits[count - 1].segment_duration
    }
}

/// Edits without media come first, and one with media at most behind them.
proof fn lemma_scan(edits: Seq<Edit>, count: int)
    requires
        0 <= count <= edits.len(),
        timeline_scan(edits, count).error is None,
    ensures
        ({
            let scan = timeline_scan(edits, count);
            &&& scan.start is None ==> scan.empty == lasting(edits, count) && forall|i: int|
                0 <= i < count ==> (#[trigger] edits[i]).media_time is None
            &&& scan.start is Some ==> {
                &&& count > 0
                &&& edits[count - 1].media_time == Some(scan.start->0)
                &&& edits[count - 1].media_rate_integer == 1
                &&& edits[count - 1].media_rate_fraction == 0
                &&& scan.empty == lasting(edits, count - 1)
                &&& forall|i: int| 0 <= i < count - 1 ==> (#[trigger] edits[i]).media_time is None
            }
        }),
    decreases count,
{
    if count > 0 {
        lemma_scan(edits, count - 1);
    }
}

/// An edit list presents its media behind its empty edits: the time at which the media
/// edit starts, moved by the offset, is how long the edits before it last, in ticks of
/// both scales. Only the last edit has media, which it presents at its own rate.
pub proof fn law_media_is_presented_behind_the_empty_edits(
    edits: Seq<Edit>,
    movie: nat,
    media: nat,
    offset: i64,
)
    requires
        movie > 0,
        edits.len() > 0,
        timeline_offset(edits, movie, media) == Ok::<i64, Mp4Error>(offset),
    ensures
        edits.last().media_time is Some,
        edits.last().media_rate_integer == 1,
        edits.last().media_rate_fraction == 0,
        forall|i: int| 0 <= i < edits.len() - 1 ==> (#[trigger] edits[i]).media_time is None,
        (edits.last().media_time->0 + offset) * movie == lasting(edits, edits.len() - 1) * media,
{
    let scan = timeline_scan(edits, edits.len() as int);
    lemma_scan(edits, edits.len() as int);
    let scaled = scan.empty * media;
    let start = scan.start->0;
    lemma_fundamental_div_mod(scaled, movie as int);
    let whole = scaled / movie as int;
    assert(whole * movie == movie * whole) by (nonlinear_arith);
    assert(start + offset == whole);
}

/// One edit of a list: a duration and a media time of 4 bytes each in version 0 and of 8
/// in version 1, where -1 stands for no media, and a rate of two numbers.
pub open spec fn edit_is_at(edit: Edit, content: Seq<u8>, at: int, version: int) -> bool {
    let rate = at + if version == 0 {
        8int
    } else {
        16
    };
    let time = if version == 0 {
        two_complement(word(content, at + 4))
    } else if long(content, at + 8) < 0x8000_0000_0000_0000 {
        long(content, at + 8)
    } else {
        long(content, at + 8) - 0x1_0000_0000_0000_0000
    };
    let integer = content[rate] * 0x100 + content[rate + 1];
    let fraction = content[rate + 2] * 0x100 + content[rate + 3];
    &&& edit.segment_duration == if version == 0 {
        word(content, at)
    } else {
        long(content, at)
    }
    &&& time == -1 ==> edit.media_time is None
    &&& time != -1 ==> edit.media_time is Some && edit.media_time->0 == time
    &&& edit.media_rate_integer == if integer < 0x8000 {
        integer
    } else {
        integer - 0x1_0000
    }
    &&& edit.media_rate_fraction == if fraction < 0x8000 {
        fraction
    } else {
        fraction - 0x1_0000
    }
}

/// A signed 16-bit number is read.
proof fn lemma_short(cursor: ByteCursor)
    requires
        cursor.error is None,
        0 <= cursor.position,
        cursor.i16().1.error is None,
    ensures
        ({
            let value = cursor.content[cursor.position] * 0x100 + cursor.content[cursor.position
                + 1];
            cursor.i16().0 == if value < 0x8000 {
                value
            } else {
                value - 0x1_0000
            }
        }),
        stands(cursor.i16().1, cursor.content, cursor.position + 2, cursor.end),
{
    assert(cursor.bytes(2).0 == cursor.content.subrange(cursor.position, cursor.position + 2));
}

/// One edit is read.
proof fn lemma_edit(cursor: ByteCursor, version: u8)
    requires
        cursor.error is None,
        0 <= cursor.position,
        version <= 1,
        edit_syntax(cursor, version).1.error is None,
    ensures
        edit_is_at(
            edit_syntax(cursor, version).0,
            cursor.content,
            cursor.position,
            version as int,
        ),
        stands(
            edit_syntax(cursor, version).1,
            cursor.content,
            cursor.position + if version == 0 {
                12int
            } else {
                20
            },
            cursor.end,
        ),
{
    if version == 0 {
        let second = cursor.u32().1;
        assert(second.error is None);
        law_word_is_read(cursor);
        let third = second.i32().1;
        assert(third.error is None);
        law_word_is_read(second);
        assert(third.i16().1.error is None);
        lemma_short(third);
        lemma_short(third.i16().1);
    } else {
        let second = cursor.u64().1;
        assert(second.error is None);
        law_long_is_read(cursor);
        let third = second.i64().1;
        assert(third.error is None);
        law_long_is_read(second);
        assert(third.i16().1.error is None);
        lemma_short(third);
        lemma_short(third.i16().1);
    }
}

/// Edits are read one after the other.
proof fn lemma_edits(cursor: ByteCursor, version: u8, remaining: int, edits: Seq<Edit>)
    requires
        cursor.error is None,
        0 <= cursor.position,
        0 <= remaining,
        version <= 1,
        edits_syntax(cursor, version, remaining, edits).1.error is None,
    ensures
        ({
            let read = edits_syntax(cursor, version, remaining, edits).0;
            &&& read.len() == edits.len() + remaining
            &&& forall|i: int| 0 <= i < edits.len() ==> #[trigger] read[i] == edits[i]
            &&& forall|i: int|
                edits.len() <= i < read.len() ==> edit_is_at(
                    #[trigger] read[i],
                    cursor.content,
                    cursor.position + if version == 0 {
                        12 * (i - edits.len())
                    } else {
                        20 * (i - edits.len())
                    },
                    version as int,
                )
        }),
    decreases remaining,
{
    if remaining > 0 {
        let (edit, next) = edit_syntax(cursor, version);
        if next.error is Some {
            reveal_with_fuel(edits_syntax, 2);
        }
        assert(next.error is None);
        lemma_edit(cursor, version);
        let more = edits.push(edit);
        lemma_edits(next, version, remaining - 1, more);
        let read = edits_syntax(cursor, version, remaining, edits).0;
        assert(read[edits.len() as int] == more[edits.len() as int]);
        assert forall|i: int| 0 <= i < edits.len() implies #[trigger] read[i] == edits[i] by {
            assert(read[i] == more[i]);
        }
        assert forall|i: int| edits.len() <= i < read.len() implies edit_is_at(
            #[trigger] read[i],
            cursor.content,
            cursor.position + if version == 0 {
                12 * (i - edits.len())
            } else {
                20 * (i - edits.len())
            },
            version as int,
        ) by {
            if i > edits.len() {
                assert(edit_is_at(
                    read[i],
                    next.content,
                    next.position + if version == 0 {
                        12 * (i - more.len())
                    } else {
                        20 * (i - more.len())
                    },
                    version as int,
                ));
            }
        }
    }
}

/// An edit list has as many edits as it counts, one after the other.
pub proof fn law_edits_are_listed(file: FileView, header: BoxHeader, edits: Seq<Edit>, index: int)
    requires
        payload_of(header) is Ok,
        0 <= payload_of(header)->Ok_0.0,
        edit_list(file, header) == Ok::<Seq<Edit>, Mp4Error>(edits),
        0 <= index < edits.len(),
    ensures
        ({
            let start = payload_of(header)->Ok_0.0;
            let version = file.content[start] as int;
            &&& edits.len() == word(file.content, start + 4)
            &&& edit_is_at(
                edits[index],
                file.content,
                start + 8 + if version == 0 {
                    12 * index
                } else {
                    20 * index
                },
                version,
            )
        }),
{
    let start = payload_of(header)->Ok_0.0;
    let cursor = ByteCursor::at(file.content, start, payload_of(header)->Ok_0.1);
    assert(cursor.error is None);
    law_version_and_flags_are_read(cursor);
    let version = cursor.full_box().0.0;
    let first = cursor.full_box().1;
    law_word_is_read(first);
    let second = first.u32().1;
    lemma_edits(second, version, first.u32().0 as int, Seq::empty());
}

} // verus!
