//! Boxes and their order in a file.

use std::ops::Range;
use vstd::prelude::*;

use super::error::{is_fault, meets, Mp4Error, Result};
use super::fourcc::FourCc;
use super::reader::{BoundedReader, ByteCursor};
use crate::input::MediaInput;

verus! {

const BASE_HEADER_SIZE: u64 = 8;

const EXTENDED_HEADER_SIZE: u64 = 16;

const UUID_USER_TYPE_SIZE: u64 = 16;

/// The code of boxes with a type of their own.
pub const UUID: u32 = 0x7575_6964;

/// One validated ISO BMFF box header and its absolute file range.
#[derive(Debug, Clone, Copy, PartialEq, Eq, Structural)]
pub struct BoxHeader {
    pub kind: FourCc,
    pub offset: u64,
    pub size: u64,
    pub header_size: u64,
}

/// The range of a payload.
pub open spec fn payload_of(header: BoxHeader) -> Result<(int, int)> {
    if header.offset + header.header_size > u64::MAX || header.offset + header.size > u64::MAX {
        Err(Mp4Error::IntegerOverflow)
    } else {
        Ok((header.offset + header.header_size, header.offset + header.size))
    }
}

/// The header of the box at `offset`, in a parent that ends at `parent_end`.
pub open spec fn header_at(content: Seq<u8>, offset: int, parent_end: int) -> Result<BoxHeader> {
    let remaining = parent_end - offset;
    if remaining < 0 {
        Err(Mp4Error::InvalidData("box begins after its parent"))
    } else if remaining < 8 {
        Err(Mp4Error::InvalidData("truncated MP4 box header"))
    } else {
        let (short_size, cursor) = ByteCursor::at(content, offset, parent_end).u32();
        let (kind, cursor) = cursor.fourcc();
        let cursor = cursor.require(
            short_size != 1 || remaining >= 16,
            Mp4Error::InvalidData("truncated extended MP4 box header"),
        );
        let (long_size, extended) = cursor.u64();
        let cursor = if short_size == 1 {
            extended
        } else {
            cursor
        };
        let size = if short_size == 1 {
            long_size as int
        } else if short_size == 0 {
            remaining
        } else {
            short_size as int
        };
        let header_size = (if short_size == 1 {
            16int
        } else {
            8
        }) + (if kind.code == UUID {
            16int
        } else {
            0
        });
        let cursor = cursor.require(
            size >= header_size,
            Mp4Error::InvalidData("MP4 box size is smaller than its header"),
        ).require(size <= remaining, Mp4Error::InvalidData("MP4 box exceeds its parent"));
        cursor.outcome(
            BoxHeader {
                kind,
                offset: offset as u64,
                size: size as u64,
                header_size: header_size as u64,
            },
        )
    }
}

impl BoxHeader {
    /// The header is part of the box.
    pub open spec fn valid(self) -> bool {
        8 <= self.header_size <= self.size && self.offset + self.size <= u64::MAX
    }

    #[inline]
    pub fn kind(self) -> (kind: FourCc)
        ensures
            kind == self.kind,
    {
        self.kind
    }

    #[inline]
    pub fn offset(self) -> (offset: u64)
        ensures
            offset == self.offset,
    {
        self.offset
    }

    #[inline]
    pub fn size(self) -> (size: u64)
        ensures
            size == self.size,
    {
        self.size
    }

    #[inline]
    pub fn header_size(self) -> (size: u64)
        ensures
            size == self.header_size,
    {
        self.header_size
    }

    #[inline]
    pub fn end(self) -> (result: Result<u64>)
        ensures
            match result {
                Ok(end) => end == self.offset + self.size,
                Err(error) => error == Mp4Error::IntegerOverflow && self.offset + self.size
                    > u64::MAX,
            },
    {
        match self.offset.checked_add(self.size) {
            Some(end) => Ok(end),
            None => Err(Mp4Error::IntegerOverflow),
        }
    }

    #[inline]
    pub fn payload_offset(self) -> (result: Result<u64>)
        ensures
            match result {
                Ok(offset) => offset == self.offset + self.header_size,
                Err(error) => error == Mp4Error::IntegerOverflow && self.offset + self.header_size
                    > u64::MAX,
            },
    {
        match self.offset.checked_add(self.header_size) {
            Some(offset) => Ok(offset),
            None => Err(Mp4Error::IntegerOverflow),
        }
    }

    #[inline]
    pub fn payload_size(self) -> (size: u64)
        requires
            self.header_size <= self.size,
        ensures
            size == self.size - self.header_size,
    {
        self.size - self.header_size
    }

    pub fn payload_range(self) -> (result: Result<Range<u64>>)
        ensures
            match payload_of(self) {
                Ok((start, end)) => result matches Ok(range) && range.start == start && range.end
                    == end,
                Err(error) => result == Err::<Range<u64>, Mp4Error>(error),
            },
    {
        let start: u64 = self.payload_offset()?;
        let end: u64 = self.end()?;
        Ok(start..end)
    }

    fn read<I: MediaInput>(input: &I, offset: u64, parent_end: u64) -> (result: Result<Self>)
        ensures
            meets(
                result,
                header_at(input.content(), offset as int, parent_end as int),
                input.dependable(),
            ),
            result matches Ok(header) ==> header.valid() && header.offset == offset
                && header.offset + header.size <= parent_end,
    {
        if offset > parent_end {
            return Err(Mp4Error::InvalidData("box begins after its parent"));
        }
        let remaining: u64 = parent_end - offset;
        if remaining < BASE_HEADER_SIZE {
            return Err(Mp4Error::InvalidData("truncated MP4 box header"));
        }
        let mut reader = BoundedReader::new(input, offset, parent_end)?;
        let short_size: u32 = reader.read_u32()?;
        let kind = reader.read_fourcc()?;
        let (size, base_size): (u64, u64) = if short_size == 1 {
            if remaining < EXTENDED_HEADER_SIZE {
                return Err(Mp4Error::InvalidData("truncated extended MP4 box header"));
            }
            let long_size: u64 = reader.read_u64()?;
            (long_size, EXTENDED_HEADER_SIZE)
        } else if short_size == 0 {
            (remaining, BASE_HEADER_SIZE)
        } else {
            (short_size as u64, BASE_HEADER_SIZE)
        };
        let header_size: u64 = if kind.code == UUID {
            base_size + UUID_USER_TYPE_SIZE
        } else {
            base_size
        };
        if size < header_size {
            return Err(Mp4Error::InvalidData("MP4 box size is smaller than its header"));
        }
        if size > remaining {
            return Err(Mp4Error::InvalidData("MP4 box exceeds its parent"));
        }
        Ok(BoxHeader { kind, offset, size, header_size })
    }
}

/// A header that was read lies in its parent.
pub proof fn lemma_header_at(content: Seq<u8>, offset: int, parent_end: int)
    requires
        0 <= offset,
        parent_end <= u64::MAX,
    ensures
        header_at(content, offset, parent_end) matches Ok(header) ==> header.valid()
            && header.offset == offset && offset + header.size <= parent_end,
{
}

/// The boxes of a range, and the error that ended them.
pub struct Listing {
    pub boxes: Seq<BoxHeader>,
    pub error: Option<Mp4Error>,
}

/// The boxes that follow each other from `offset` to `end`.
pub open spec fn boxes_from(content: Seq<u8>, offset: int, end: int) -> Listing
    decreases end - offset,
{
    if offset == end {
        Listing { boxes: Seq::empty(), error: None }
    } else {
        match header_at(content, offset, end) {
            Err(error) => Listing { boxes: Seq::empty(), error: Some(error) },
            Ok(header) => if 0 < header.size <= end - offset {
                let rest = boxes_from(content, offset + header.size, end);
                Listing { boxes: seq![header] + rest.boxes, error: rest.error }
            } else {
                Listing { boxes: Seq::empty(), error: None }
            },
        }
    }
}

/// All boxes of a range lie in it, one behind the other.
pub proof fn lemma_boxes_from(content: Seq<u8>, offset: int, end: int)
    requires
        0 <= offset,
        end <= u64::MAX,
    ensures
        forall|i: int|
            #![trigger boxes_from(content, offset, end).boxes[i]]
            0 <= i < boxes_from(content, offset, end).boxes.len() ==> {
                let header = boxes_from(content, offset, end).boxes[i];
                header.valid() && offset <= header.offset && header.offset + header.size <= end
            },
    decreases end - offset,
{
    lemma_header_at(content, offset, end);
    if offset != end {
        if let Ok(header) = header_at(content, offset, end) {
            lemma_boxes_from(content, offset + header.size, end);
        }
    }
}

/// How long the header of a box is: 8 bytes, or 16 with a 64-bit size, and 16 more
/// with the user type of a `uuid` box.
pub open spec fn header_length(content: Seq<u8>, header: BoxHeader) -> int {
    (if ByteCursor::at(content, header.offset as int, content.len() as int).u32().0 == 1 {
        16int
    } else {
        8
    }) + (if header.kind.code == UUID {
        16int
    } else {
        0
    })
}

/// A box of a range is what is read at its place.
proof fn lemma_listed_header(content: Seq<u8>, offset: int, end: int, index: int)
    requires
        0 <= offset,
        end <= u64::MAX,
        0 <= index < boxes_from(content, offset, end).boxes.len(),
    ensures
        ({
            let header = boxes_from(content, offset, end).boxes[index];
            header_at(content, header.offset as int, end) == Ok::<BoxHeader, Mp4Error>(header)
                && offset <= header.offset
        }),
    decreases end - offset,
{
    lemma_header_at(content, offset, end);
    if let Ok(header) = header_at(content, offset, end) {
        if index > 0 {
            lemma_listed_header(content, offset + header.size, end, index - 1);
        }
    }
}

/// The payload of every box of a range lies behind the header of the box, ends with
/// the box, and stays inside the range.
pub proof fn law_payload_lies_behind_its_header(
    content: Seq<u8>,
    start: int,
    end: int,
    index: int,
)
    requires
        0 <= start,
        end <= u64::MAX,
        0 <= index < boxes_from(content, start, end).boxes.len(),
    ensures
        ({
            let header = boxes_from(content, start, end).boxes[index];
            &&& header.header_size == header_length(content, header)
            &&& payload_of(header) == Ok::<(int, int), Mp4Error>(
                (header.offset + header.header_size, header.offset + header.size),
            )
            &&& start <= header.offset < header.offset + header.header_size <= header.offset
                + header.size <= end
        }),
{
    lemma_listed_header(content, start, end, index);
    let header = boxes_from(content, start, end).boxes[index];
    lemma_header_at(content, header.offset as int, end);
}

/// Boxes that were read, and the error that ended them.
pub struct BoxListing {
    pub boxes: Vec<BoxHeader>,
    pub error: Option<Mp4Error>,
}

/// The boxes are those of the range. Where the input is not dependable, they
/// may end early with its fault.
pub open spec fn lists(listing: BoxListing, expected: Listing, dependable: bool) -> bool {
    ||| listing.boxes@ == expected.boxes && listing.error == expected.error
    ||| !dependable && listing.boxes@.len() <= expected.boxes.len() && listing.boxes@
        == expected.boxes.take(listing.boxes@.len() as int) && (listing.error matches Some(error)
        && is_fault(error))
}

/// A file as mathematics.
pub struct FileView {
    pub content: Seq<u8>,
    pub length: int,
    pub dependable: bool,
}

/// A file whose top-level extent is known and can be traversed lazily.
pub struct Mp4File<'input, I: MediaInput> {
    input: &'input I,
    length: u64,
}

impl<'input, I: MediaInput> View for Mp4File<'input, I> {
    type V = FileView;

    closed spec fn view(&self) -> FileView {
        FileView {
            content: self.input.content(),
            length: self.length as int,
            dependable: self.input.dependable(),
        }
    }
}

/// The range of the children of a box.
pub open spec fn children_of(file: FileView, parent: BoxHeader) -> Result<(int, int)> {
    match payload_of(parent) {
        Err(error) => Err(error),
        Ok((start, end)) => if end > file.length {
            Err(Mp4Error::InvalidData("parent box exceeds the input"))
        } else {
            Ok((start, end))
        },
    }
}

/// A range that must lie in the file.
pub open spec fn range_in(file: FileView, start: int, end: int) -> Result<(int, int)> {
    if start > end || end > file.length {
        Err(Mp4Error::InvalidData("box range exceeds the input"))
    } else {
        Ok((start, end))
    }
}

impl<'input, I: MediaInput> Mp4File<'input, I> {
    /// The input of the file.
    pub closed spec fn source(self) -> &'input I {
        self.input
    }

    pub fn open(input: &'input I) -> (result: Result<Self>)
        ensures
            match result {
                Ok(file) => {
                    &&& file.source() == input
                    &&& file@.content == input.content()
                    &&& file@.dependable == input.dependable()
                    &&& 0 <= file@.length <= u64::MAX
                    &&& input.dependable() ==> file@.length == input.content().len()
                },
                Err(error) => error == Mp4Error::UnknownInputLength || !input.dependable() && error
                    is Io,
            },
            input.dependable() ==> (result is Ok <==> input.measured()),
    {
        match input.len() {
            Ok(Some(length)) => Ok(Mp4File { input, length }),
            Ok(None) => Err(Mp4Error::UnknownInputLength),
            Err(error) => Err(Mp4Error::Io(error)),
        }
    }

    #[inline]
    pub fn length(&self) -> (length: u64)
        ensures
            length == self@.length,
    {
        self.length
    }

    /// The input of the file.
    #[inline]
    pub fn input(&self) -> (input: &'input I)
        ensures
            input == self.source(),
            input.content() == self@.content,
            input.dependable() == self@.dependable,
    {
        self.input
    }

    pub fn boxes(&self) -> (iter: BoxIter<'input, I>)
        ensures
            iter@ == (IterView {
                file: self@,
                next_offset: 0,
                end: self@.length,
                failed: false,
            }),
    {
        BoxIter { input: self.input, length: self.length, next_offset: 0, end: self.length, failed: false }
    }

    pub fn children(&self, parent: BoxHeader) -> (result: Result<BoxIter<'input, I>>)
        ensures
            match children_of(self@, parent) {
                Ok((start, end)) => result matches Ok(iter) && iter@ == (IterView {
                    file: self@,
                    next_offset: start,
                    end,
                    failed: false,
                }),
                Err(error) => result == Err::<BoxIter<'input, I>, Mp4Error>(error),
            },
    {
        let range = parent.payload_range()?;
        if range.end > self.length {
            return Err(Mp4Error::InvalidData("parent box exceeds the input"));
        }
        Ok(
            BoxIter {
                input: self.input,
                length: self.length,
                next_offset: range.start,
                end: range.end,
                failed: false,
            },
        )
    }

    /// The boxes of a range of the file.
    pub fn boxes_in(&self, range: Range<u64>) -> (result: Result<BoxIter<'input, I>>)
        ensures
            match range_in(self@, range.start as int, range.end as int) {
                Ok((start, end)) => result matches Ok(iter) && iter@ == (IterView {
                    file: self@,
                    next_offset: start,
                    end,
                    failed: false,
                }),
                Err(error) => result == Err::<BoxIter<'input, I>, Mp4Error>(error),
            },
    {
        if range.start > range.end || range.end > self.length {
            return Err(Mp4Error::InvalidData("box range exceeds the input"));
        }
        Ok(
            BoxIter {
                input: self.input,
                length: self.length,
                next_offset: range.start,
                end: range.end,
                failed: false,
            },
        )
    }
}

/// A traversal as mathematics.
pub struct IterView {
    pub file: FileView,
    pub next_offset: int,
    pub end: int,
    pub failed: bool,
}

/// Lazy sibling-box traversal constrained to one validated parent range.
pub struct BoxIter<'input, I: MediaInput> {
    input: &'input I,
    length: u64,
    next_offset: u64,
    end: u64,
    failed: bool,
}

impl<'input, I: MediaInput> View for BoxIter<'input, I> {
    type V = IterView;

    closed spec fn view(&self) -> IterView {
        IterView {
            file: FileView {
                content: self.input.content(),
                length: self.length as int,
                dependable: self.input.dependable(),
            },
            next_offset: self.next_offset as int,
            end: self.end as int,
            failed: self.failed,
        }
    }
}

impl<'input, I: MediaInput> BoxIter<'input, I> {
    /// The next box, or the error that ends the traversal.
    pub fn next(&mut self) -> (item: Option<Result<BoxHeader>>)
        ensures
            if old(self)@.failed || old(self)@.next_offset == old(self)@.end {
                item is None && final(self)@ == old(self)@
            } else {
                item matches Some(result) && {
                    &&& meets(
                        result,
                        header_at(
                            old(self)@.file.content,
                            old(self)@.next_offset,
                            old(self)@.end,
                        ),
                        old(self)@.file.dependable,
                    )
                    &&& final(self)@ == match result {
                        Ok(header) => IterView {
                            next_offset: header.offset + header.size,
                            ..old(self)@
                        },
                        Err(_) => IterView { failed: true, ..old(self)@ },
                    }
                    &&& result matches Ok(header) ==> header.valid() && header.offset
                        == old(self)@.next_offset && header.offset + header.size
                        <= old(self)@.end
                }
            },
    {
        if self.failed || self.next_offset == self.end {
            return None;
        }
        match BoxHeader::read(self.input, self.next_offset, self.end) {
            Ok(header) => {
                self.next_offset = header.offset + header.size;
                Some(Ok(header))
            },
            Err(error) => {
                self.failed = true;
                Some(Err(error))
            },
        }
    }

    /// The bounds of the number of boxes that are left, as far as they are known.
    pub fn size_hint(&self) -> (hint: (usize, Option<usize>))
        ensures
            hint == if self@.failed || self@.next_offset == self@.end {
                (0usize, Some(0usize))
            } else {
                (0usize, None)
            },
    {
        if self.failed || self.next_offset == self.end {
            (0, Some(0))
        } else {
            (0, None)
        }
    }

    /// The boxes that are left. After a failure there are none.
    pub fn collect(self) -> (listing: BoxListing)
        ensures
            if self@.failed {
                listing.boxes@.len() == 0 && listing.error is None
            } else {
                lists(
                    listing,
                    boxes_from(self@.file.content, self@.next_offset, self@.end),
                    self@.file.dependable,
                )
            },
            forall|i: int|
                0 <= i < listing.boxes@.len() ==> (#[trigger] listing.boxes@[i]).valid()
                    && listing.boxes@[i].offset + listing.boxes@[i].size <= self@.end,
    {
        let ghost content = self@.file.content;
        let ghost dependable = self@.file.dependable;
        let ghost end = self@.end;
        let ghost whole = boxes_from(content, self@.next_offset, end);
        let mut iter = self;
        let mut boxes: Vec<BoxHeader> = Vec::new();
        if iter.failed {
            return BoxListing { boxes, error: None };
        }
        assert(whole.boxes =~= boxes@ + whole.boxes);
        loop
            invariant
                !self@.failed,
                content == self@.file.content,
                dependable == self@.file.dependable,
                end == self@.end,
                iter@.file.content == content,
                iter@.file.dependable == dependable,
                iter@.end == end == iter.end,
                !iter@.failed,
                iter@.next_offset <= end || iter@.next_offset == self@.next_offset,
                whole == boxes_from(content, self@.next_offset, end),
                whole.boxes == boxes@ + boxes_from(content, iter@.next_offset, end).boxes,
                whole.error == boxes_from(content, iter@.next_offset, end).error,
                forall|i: int|
                    0 <= i < boxes@.len() ==> (#[trigger] boxes@[i]).valid() && boxes@[i].offset
                        + boxes@[i].size <= end,
            decreases
                if iter@.next_offset <= end {
                    end - iter@.next_offset
                } else {
                    0
                },
        {
            let ghost before = iter@.next_offset;
            proof {
                lemma_header_at(content, before, end);
            }
            match iter.next() {
                None => {
                    assert(whole.boxes =~= boxes@);
                    return BoxListing { boxes, error: None };
                },
                Some(Ok(header)) => {
                    let ghost earlier = boxes@;
                    boxes.push(header);
                    assert(earlier + (seq![header] + boxes_from(
                        content,
                        before + header.size,
                        end,
                    ).boxes) =~= boxes@ + boxes_from(content, before + header.size, end).boxes);
                },
                Some(Err(error)) => {
                    assert(whole.boxes.take(boxes@.len() as int) =~= boxes@);
                    return BoxListing { boxes, error: Some(error) };
                },
            }
        }
    }
}

/// Which boxes go to one place, and how many at most.
pub struct Slot {
    pub first: u32,
    pub second: u32,
    pub limit: usize,
    /// The error of one box too many.
    pub message: &'static str,
}

/// A place for one box.
pub open spec fn single(code: u32, message: &'static str) -> Slot {
    Slot { first: code, second: code, limit: 1, message }
}

/// The place of a box from `index` on, or the number of places.
pub open spec fn slot_from(slots: Seq<Slot>, code: u32, index: int) -> int
    decreases slots.len() - index,
{
    if index >= slots.len() {
        slots.len() as int
    } else if slots[index].first == code || slots[index].second == code {
        index
    } else {
        slot_from(slots, code, index + 1)
    }
}

/// Boxes by their places, and the error of one too many.
pub struct Sorted {
    pub found: Seq<Seq<BoxHeader>>,
    pub error: Option<Mp4Error>,
}

/// The first `count` boxes by their places.
pub open spec fn sorted(boxes: Seq<BoxHeader>, slots: Seq<Slot>, count: int) -> Sorted
    decreases count,
{
    if count <= 0 {
        Sorted { found: Seq::new(slots.len(), |i: int| Seq::empty()), error: None }
    } else {
        let before = sorted(boxes, slots, count - 1);
        let slot = slot_from(slots, boxes[count - 1].kind.code, 0);
        if before.error is Some || slot >= slots.len() {
            before
        } else if before.found[slot].len() >= slots[slot].limit {
            Sorted { error: Some(Mp4Error::InvalidData(slots[slot].message)), ..before }
        } else {
            Sorted {
                found: before.found.update(slot, before.found[slot].push(boxes[count - 1])),
                error: None,
            }
        }
    }
}

/// The boxes of a range by their places. An error of the order in which they
/// come is met before one of the boxes that follow.
pub open spec fn sorted_range(
    content: Seq<u8>,
    start: int,
    end: int,
    slots: Seq<Slot>,
) -> Result<Seq<Seq<BoxHeader>>> {
    let listing = boxes_from(content, start, end);
    let outcome = sorted(listing.boxes, slots, listing.boxes.len() as int);
    match outcome.error {
        Some(error) => Err(error),
        None => match listing.error {
            Some(error) => Err(error),
            None => Ok(outcome.found),
        },
    }
}

/// The children of a box by their places.
pub open spec fn sorted_children(file: FileView, parent: BoxHeader, slots: Seq<Slot>) -> Result<
    Seq<Seq<BoxHeader>>,
> {
    match children_of(file, parent) {
        Err(error) => Err(error),
        Ok((start, end)) => sorted_range(file.content, start, end, slots),
    }
}

/// The boxes that were found for each place.
pub open spec fn found_boxes(found: Vec<Vec<BoxHeader>>) -> Seq<Seq<BoxHeader>> {
    found@.map_values(|boxes: Vec<BoxHeader>| boxes@)
}

/// A result holds the boxes by their places, or the error, or the fault of an
/// input that is not dependable.
pub open spec fn sorts(
    result: Result<Vec<Vec<BoxHeader>>>,
    expected: Result<Seq<Seq<BoxHeader>>>,
    dependable: bool,
) -> bool {
    match (result, expected) {
        (Ok(found), Ok(wanted)) => found_boxes(found) == wanted,
        (Ok(_), Err(_)) => false,
        (Err(error), Ok(_)) => !dependable && is_fault(error),
        (Err(error), Err(wanted)) => error == wanted || !dependable && is_fault(error),
    }
}

/// Every box that was found is valid and ends by `end`.
pub open spec fn found_valid(found: Vec<Vec<BoxHeader>>, end: int) -> bool {
    forall|i: int, j: int|
        #![trigger found@[i]@[j]]
        0 <= i < found@.len() && 0 <= j < found@[i]@.len() ==> found@[i]@[j].valid()
            && found@[i]@[j].offset + found@[i]@[j].size <= end
}

fn find_slot(slots: &Vec<Slot>, code: u32) -> (slot: usize)
    ensures
        slot == slot_from(slots@, code, 0),
        slot <= slots@.len(),
{
    let mut index: usize = 0;
    while index < slots.len()
        invariant
            index <= slots@.len(),
            slot_from(slots@, code, 0) == slot_from(slots@, code, index as int),
        decreases slots@.len() - index,
    {
        if slots[index].first == code || slots[index].second == code {
            return index;
        }
        index = index + 1;
    }
    index
}

/// An error of the first boxes is the error of all.
proof fn lemma_sorted_error(boxes: Seq<BoxHeader>, slots: Seq<Slot>, part: int, count: int)
    requires
        part <= count,
        sorted(boxes, slots, part).error is Some,
    ensures
        sorted(boxes, slots, count).error == sorted(boxes, slots, part).error,
    decreases count - part,
{
    if part < count {
        lemma_sorted_error(boxes, slots, part, count - 1);
    }
}

/// Only the boxes that are sorted matter.
proof fn lemma_sorted_prefix(
    boxes: Seq<BoxHeader>,
    prefix: Seq<BoxHeader>,
    slots: Seq<Slot>,
    count: int,
)
    requires
        count <= prefix.len() <= boxes.len(),
        prefix == boxes.take(prefix.len() as int),
    ensures
        sorted(prefix, slots, count) == sorted(boxes, slots, count),
    decreases count,
{
    if count > 0 {
        lemma_sorted_prefix(boxes, prefix, slots, count - 1);
        assert(prefix[count - 1] == boxes[count - 1]);
    }
}

/// Sorts the boxes of a traversal by their places.
pub fn sort_boxes<'input, I: MediaInput>(iter: BoxIter<'input, I>, slots: &Vec<Slot>) -> (result:
    Result<Vec<Vec<BoxHeader>>>)
    requires
        !iter@.failed,
    ensures
        sorts(
            result,
            sorted_range(iter@.file.content, iter@.next_offset, iter@.end, slots@),
            iter@.file.dependable,
        ),
        result matches Ok(found) ==> found@.len() == slots@.len() && found_valid(
            found,
            iter@.end,
        ),
{
    let ghost view = iter@;
    let ghost whole = boxes_from(view.file.content, view.next_offset, view.end);
    let listing = iter.collect();
    let boxes = listing.boxes;
    let mut found: Vec<Vec<BoxHeader>> = Vec::with_capacity(slots.len());
    let mut index: usize = 0;
    while index < slots.len()
        invariant
            index <= slots@.len(),
            found@.len() == index,
            forall|i: int| 0 <= i < index ==> (#[trigger] found@[i])@ == Seq::<BoxHeader>::empty(),
        decreases slots@.len() - index,
    {
        found.push(Vec::new());
        index = index + 1;
    }
    assert(found_boxes(found) =~= sorted(boxes@, slots@, 0).found);
    let mut index: usize = 0;
    while index < boxes.len()
        invariant
            index <= boxes@.len(),
            found@.len() == slots@.len(),
            boxes@.len() <= whole.boxes.len(),
            boxes@ == whole.boxes.take(boxes@.len() as int),
            whole == boxes_from(view.file.content, view.next_offset, view.end),
            view == iter@,
            forall|i: int|
                0 <= i < boxes@.len() ==> (#[trigger] boxes@[i]).valid() && boxes@[i].offset
                    + boxes@[i].size <= view.end,
            found_valid(found, view.end),
            sorted(boxes@, slots@, index as int) == (Sorted {
                found: found_boxes(found),
                error: None,
            }),
        decreases boxes@.len() - index,
    {
        let header = boxes[index];
        let slot: usize = find_slot(slots, header.kind.code);
        if slot < slots.len() {
            assert(found_boxes(found)[slot as int] == found@[slot as int]@);
            if found[slot].len() >= slots[slot].limit {
                proof {
                    let count = index + 1;
                    lemma_sorted_prefix(whole.boxes, boxes@, slots@, count);
                    lemma_sorted_error(whole.boxes, slots@, count, whole.boxes.len() as int);
                }
                return Err(Mp4Error::InvalidData(slots[slot].message));
            }
            let ghost before = found;
            found[slot].push(header);
            assert(found_boxes(found) =~= found_boxes(before).update(
                slot as int,
                found_boxes(before)[slot as int].push(header),
            ));
            assert forall|i: int, j: int|
                #![trigger found@[i]@[j]]
                0 <= i < found@.len() && 0 <= j < found@[i]@.len() implies found@[i]@[j].valid()
                && found@[i]@[j].offset + found@[i]@[j].size <= view.end by {
                if i == slot && j == before@[i]@.len() {
                    assert(found@[i]@[j] == header);
                } else {
                    assert(found@[i]@[j] == before@[i]@[j]);
                }
            }
        }
        index = index + 1;
    }
    match listing.error {
        Some(error) => Err(error),
        None => Ok(found),
    }
}

/// Sorts the children of a box by their places.
pub fn sort_children<'input, I: MediaInput>(
    file: &Mp4File<'input, I>,
    parent: BoxHeader,
    slots: &Vec<Slot>,
) -> (result: Result<Vec<Vec<BoxHeader>>>)
    ensures
        sorts(result, sorted_children(file@, parent, slots@), file@.dependable),
        result matches Ok(found) ==> found@.len() == slots@.len() && found_valid(
            found,
            file@.length,
        ),
{
    let iter = file.children(parent)?;
    sort_boxes(iter, slots)
}

fn single_slot(code: u32, message: &'static str) -> (slot: Slot)
    ensures
        slot == single(code, message),
{
    Slot { first: code, second: code, limit: 1, message }
}

/// A place for one box of a kind.
pub fn one_slot(code: u32, message: &'static str) -> (slots: Vec<Slot>)
    ensures
        slots@ == seq![single(code, message)],
{
    let mut slots: Vec<Slot> = Vec::new();
    slots.push(single_slot(code, message));
    assert(slots@ =~= seq![single(code, message)]);
    slots
}

/// Places for one box of each of three kinds.
pub fn three_slots(
    first: u32,
    first_message: &'static str,
    second: u32,
    second_message: &'static str,
    third: u32,
    third_message: &'static str,
) -> (slots: Vec<Slot>)
    ensures
        slots@ == seq![
            single(first, first_message),
            single(second, second_message),
            single(third, third_message),
        ],
{
    let mut slots: Vec<Slot> = Vec::new();
    slots.push(single_slot(first, first_message));
    slots.push(single_slot(second, second_message));
    slots.push(single_slot(third, third_message));
    assert(slots@ =~= seq![
        single(first, first_message),
        single(second, second_message),
        single(third, third_message),
    ]);
    slots
}

/// The first of some boxes.
pub open spec fn first_of(boxes: Seq<BoxHeader>) -> Option<BoxHeader> {
    if boxes.len() > 0 {
        Some(boxes[0])
    } else {
        None
    }
}

/// The first box that was found for a place.
pub fn first_found(found: &Vec<Vec<BoxHeader>>, slot: usize) -> (header: Option<BoxHeader>)
    requires
        slot < found@.len(),
    ensures
        header == first_of(found_boxes(*found)[slot as int]),
        header matches Some(header) ==> header == found@[slot as int]@[0]
            && found@[slot as int]@.len() > 0,
{
    if found[slot].len() > 0 {
        Some(found[slot][0])
    } else {
        None
    }
}

/// The beginning of a payload.
pub open spec fn payload_cursor(file: FileView, header: BoxHeader) -> ByteCursor {
    match payload_of(header) {
        Err(error) => ByteCursor { content: file.content, position: 0, end: 0, error: Some(error) },
        Ok((start, end)) => ByteCursor::at(file.content, start, end),
    }
}

/// A reader of a payload.
pub fn payload_reader<'input, I: MediaInput>(file: &Mp4File<'input, I>, header: BoxHeader) -> (result:
    Result<BoundedReader<'input, I>>)
    ensures
        match payload_cursor(file@, header).error {
            Some(error) => result matches Err(found) && found == error,
            None => result matches Ok(reader) && reader.well_formed() && reader.dependable()
                == file@.dependable && reader@ == payload_cursor(file@, header),
        },
{
    let range = header.payload_range()?;
    BoundedReader::new(file.input(), range.start, range.end)
}

} // verus!
