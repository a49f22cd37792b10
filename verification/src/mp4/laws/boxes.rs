//! Laws of boxes.

use vstd::prelude::*;

use super::bytes::{law_long_is_read, law_word_is_read, long, word};
use crate::mp4::boxes::{boxes_from, header_at, lemma_header_at, slot_from, sorted, BoxHeader, Slot};
use crate::mp4::error::Mp4Error;
use crate::mp4::reader::ByteCursor;

verus! {

/// A box begins with its size and its kind. A size of one stands for a 64-bit size
/// behind the kind, and a size of zero for all that is left of the parent. Boxes of the
/// kind `uuid` have a user type behind that.
pub proof fn law_box_headers_are_read(
    content: Seq<u8>,
    offset: int,
    end: int,
    header: BoxHeader,
)
    requires
        0 <= offset,
        end <= u64::MAX,
        header_at(content, offset, end) == Ok::<BoxHeader, Mp4Error>(header),
    ensures
        ({
            let short = word(content, offset);
            &&& header.offset == offset
            &&& header.kind.code == word(content, offset + 4)
            &&& header.size == if short == 0 {
                end - offset
            } else if short == 1 {
                long(content, offset + 8)
            } else {
                short
            }
            &&& header.header_size == 8 + (if short == 1 {
                8int
            } else {
                0
            }) + (if header.kind.code == 0x7575_6964 {
                16int
            } else {
                0
            })
            &&& header.header_size <= header.size <= end - offset
        }),
{
    let cursor = ByteCursor::at(content, offset, end);
    assert(cursor.u32().1.error is None);
    law_word_is_read(cursor);
    let second = cursor.u32().1;
    law_word_is_read(second);
    let third = second.u32().1;
    if cursor.u32().0 == 1 {
        law_long_is_read(third);
    }
}

/// The boxes of a range follow each other from its beginning on, and reach its end
/// unless there is an error.
pub proof fn law_boxes_follow_each_other(content: Seq<u8>, start: int, end: int, index: int)
    requires
        0 <= start,
        end <= u64::MAX,
        0 <= index < boxes_from(content, start, end).boxes.len(),
    ensures
        ({
            let boxes = boxes_from(content, start, end).boxes;
            &&& index == 0 ==> boxes[index].offset == start
            &&& index > 0 ==> boxes[index].offset == boxes[index - 1].offset + boxes[index - 1].size
            &&& header_at(content, boxes[index].offset as int, end) == Ok::<BoxHeader, Mp4Error>(
                boxes[index],
            )
            &&& index == boxes.len() - 1 && boxes_from(content, start, end).error is None
                ==> boxes[index].offset + boxes[index].size == end
        }),
    decreases end - start,
{
    lemma_header_at(content, start, end);
    if let Ok(header) = header_at(content, start, end) {
        let rest = boxes_from(content, start + header.size, end).boxes;
        let boxes = boxes_from(content, start, end).boxes;
        assert(boxes =~= seq![header] + rest);
        if index > 0 {
            law_boxes_follow_each_other(content, start + header.size, end, index - 1);
            assert(boxes[index] == rest[index - 1]);
            if index > 1 {
                assert(boxes[index - 1] == rest[index - 2]);
            }
        } else if rest.len() == 0 {
            assert(boxes_from(content, start + header.size, end).boxes.len() == 0);
            lemma_header_at(content, start + header.size, end);
        }
    }
}

/// The boxes that are found for a place are those of its kinds, in the order of the file.
pub proof fn law_found_boxes_are_of_their_kind(
    boxes: Seq<BoxHeader>,
    slots: Seq<Slot>,
    count: int,
    slot: int,
)
    requires
        0 <= count <= boxes.len(),
        0 <= slot < slots.len(),
        sorted(boxes, slots, count).error is None,
        forall|i: int, j: int|
            0 <= i < slots.len() && 0 <= j < slots.len() && i != j ==> (#[trigger] slots[i]).first != (
            #[trigger] slots[j]).first && slots[i].first != slots[j].second && slots[i].second
                != slots[j].second,
    ensures
        sorted(boxes, slots, count).found.len() == slots.len(),
        sorted(boxes, slots, count).found[slot] == boxes.take(count).filter(
            |header: BoxHeader|
                header.kind.code == slots[slot].first || header.kind.code == slots[slot].second,
        ),
    decreases count,
{
    let wanted = |header: BoxHeader|
        header.kind.code == slots[slot].first || header.kind.code == slots[slot].second;
    reveal(Seq::filter);
    if count > 0 {
        law_found_boxes_are_of_their_kind(boxes, slots, count - 1, slot);
        lemma_slot(slots, boxes[count - 1].kind.code, 0);
        assert(boxes.take(count).drop_last() =~= boxes.take(count - 1));
        assert(boxes.take(count).last() == boxes[count - 1]);
    } else {
        assert(boxes.take(0) =~= Seq::<BoxHeader>::empty());
    }
}

/// The place of a kind.
proof fn lemma_slot(slots: Seq<Slot>, code: u32, index: int)
    requires
        0 <= index <= slots.len(),
    ensures
        ({
            let found = slot_from(slots, code, index);
            &&& index <= found <= slots.len()
            &&& found < slots.len() ==> slots[found].first == code || slots[found].second == code
            &&& forall|i: int|
                index <= i < found ==> (#[trigger] slots[i]).first != code && slots[i].second != code
        }),
    decreases slots.len() - index,
{
    if index < slots.len() && slots[index].first != code && slots[index].second != code {
        lemma_slot(slots, code, index + 1);
    }
}

} // verus!
