//! Picture-order derivation and decoded-picture metadata.

use vstd::arithmetic::power2::pow2;
use vstd::prelude::*;

use super::error::{H264Error, Result};
use super::nal::{NalHeader, NalUnitType};
use super::parameter_sets::valid_sequence;
use super::slice::{
    MarkingView, MemoryManagementOperation, ParsedSliceHeader, ReferencePictureMarking,
    SliceHeader, SlicePicture,
};
use super::sps::{PicOrderCount, PicOrderCountView, SequenceView};

verus! {

#[derive(Debug, Clone, Copy, PartialEq, Eq)]
pub struct FieldOrderCount {
    pub top: Option<i32>,
    pub bottom: Option<i32>,
}

impl FieldOrderCount {
    /// The lower of the order counts of the fields that there are.
    pub open spec fn lowest(self) -> int {
        match (self.top, self.bottom) {
            (Some(top), Some(bottom)) => if top <= bottom {
                top as int
            } else {
                bottom as int
            },
            (Some(top), None) => top as int,
            (None, Some(bottom)) => bottom as int,
            (None, None) => 0,
        }
    }

    /// The order count of the picture, which has at least one field.
    pub fn picture_order_count(self) -> (count: i32)
        requires
            self.top is Some || self.bottom is Some,
        ensures
            count == self.lowest(),
    {
        match (self.top, self.bottom) {
            (Some(top), Some(bottom)) => if top <= bottom {
                top
            } else {
                bottom
            },
            (Some(top), None) => top,
            (None, Some(bottom)) => bottom,
            (None, None) => 0,
        }
    }
}

impl Default for FieldOrderCount {
    fn default() -> (count: Self)
        ensures
            count == (FieldOrderCount { top: None, bottom: None }),
    {
        FieldOrderCount { top: None, bottom: None }
    }
}

#[derive(Debug, Clone, Copy, PartialEq, Eq)]
pub struct PictureOrderCount {
    /// Values used while decoding the current picture.
    pub decoding: FieldOrderCount,
    /// Values retained after MMCO 5 normalization for later pictures.
    pub stored: FieldOrderCount,
}

impl Default for PictureOrderCount {
    fn default() -> (count: Self)
        ensures
            count.decoding == (FieldOrderCount { top: None, bottom: None }),
            count.stored == (FieldOrderCount { top: None, bottom: None }),
    {
        PictureOrderCount {
            decoding: FieldOrderCount::default(),
            stored: FieldOrderCount::default(),
        }
    }
}

/// What is remembered of the pictures before.
#[derive(Debug, Clone)]
pub struct PictureOrderCountState {
    prev_pic_order_cnt_msb: i32,
    prev_pic_order_cnt_lsb: u32,
    prev_reference_had_mmco5: bool,
    prev_reference_was_bottom_field: bool,
    prev_reference_top_field_order_cnt: Option<i32>,
    prev_frame_num: u32,
    prev_frame_num_offset: u64,
}

/// The remembered values.
pub struct OrderStateView {
    pub msb: i32,
    pub lsb: u32,
    pub had_mmco5: bool,
    pub was_bottom_field: bool,
    pub top: Option<i32>,
    pub frame_num: u32,
    pub frame_num_offset: u64,
}

impl OrderStateView {
    /// Nothing is remembered.
    pub open spec fn initial() -> OrderStateView {
        OrderStateView {
            msb: 0,
            lsb: 0,
            had_mmco5: false,
            was_bottom_field: false,
            top: None,
            frame_num: 0,
            frame_num_offset: 0,
        }
    }
}

impl View for PictureOrderCountState {
    type V = OrderStateView;

    closed spec fn view(&self) -> OrderStateView {
        OrderStateView {
            msb: self.prev_pic_order_cnt_msb,
            lsb: self.prev_pic_order_cnt_lsb,
            had_mmco5: self.prev_reference_had_mmco5,
            was_bottom_field: self.prev_reference_was_bottom_field,
            top: self.prev_reference_top_field_order_cnt,
            frame_num: self.prev_frame_num,
            frame_num_offset: self.prev_frame_num_offset,
        }
    }
}

/// A picture order count has 32 bits.
pub open spec fn poc_value(value: int) -> Result<i32> {
    if i32::MIN <= value <= i32::MAX {
        Ok(value as i32)
    } else {
        Err(H264Error::InvalidSyntax("picture order count is outside the i32 range"))
    }
}

/// The value of an optional number, zero without one.
pub open spec fn or_zero(value: Option<i32>) -> int {
    match value {
        Some(value) => value as int,
        None => 0,
    }
}

/// The counts of the fields that the picture has.
pub open spec fn field_counts(picture: SlicePicture, top: i32, bottom: i32) -> FieldOrderCount {
    FieldOrderCount {
        top: if picture.field_picture && picture.bottom_field {
            None
        } else {
            Some(top)
        },
        bottom: if picture.field_picture && !picture.bottom_field {
            None
        } else {
            Some(bottom)
        },
    }
}

/// The most and least significant parts that a new count is measured from.
pub open spec fn type0_reference(state: OrderStateView, is_idr: bool) -> (int, int) {
    if is_idr {
        (0, 0)
    } else if state.had_mmco5 {
        (
            0,
            if state.was_bottom_field {
                0
            } else {
                or_zero(state.top)
            },
        )
    } else {
        (state.msb as int, state.lsb as int)
    }
}

/// The most significant part for `lsb`: that of the reference, or one period
/// up or down where that brings the count nearer to the reference.
pub open spec fn type0_msb(reference: (int, int), lsb: int, period: int) -> int {
    let (prev_msb, prev_lsb) = reference;
    if lsb < prev_lsb && prev_lsb - lsb >= period / 2 {
        prev_msb + period
    } else if lsb > prev_lsb && lsb - prev_lsb > period / 2 {
        prev_msb - period
    } else {
        prev_msb
    }
}

/// Order counts of type 0, coded by their least significant bits, with the
/// most significant part.
pub open spec fn type0_counts(
    state: OrderStateView,
    picture: SlicePicture,
    is_idr: bool,
    log2_period: u8,
) -> Result<(FieldOrderCount, i32)> {
    match picture.picture_order.pic_order_cnt_lsb {
        None => Err(H264Error::InvalidSyntax("missing pic_order_cnt_lsb for POC type 0")),
        Some(lsb) => {
            let msb = type0_msb(
                type0_reference(state, is_idr),
                lsb as int,
                pow2(log2_period as nat) as int,
            );
            let bottom = msb + lsb + or_zero(picture.picture_order.delta_pic_order_bottom);
            match (poc_value(msb + lsb), poc_value(msb)) {
                (Err(error), _) => Err(error),
                (Ok(value), msb_value) => {
                    if !picture.field_picture && !(i32::MIN <= bottom <= i32::MAX) {
                        Err(H264Error::IntegerOverflow)
                    } else {
                        match msb_value {
                            Err(error) => Err(error),
                            Ok(msb) => Ok(
                                (
                                    field_counts(
                                        picture,
                                        value,
                                        if picture.field_picture {
                                            value
                                        } else {
                                            bottom as i32
                                        },
                                    ),
                                    msb,
                                ),
                            ),
                        }
                    }
                },
            }
        },
    }
}

/// How far frame numbers have wrapped around.
pub open spec fn frame_offset(
    state: OrderStateView,
    frame_num: u32,
    is_idr: bool,
    log2_max_frame_num: u8,
) -> Result<u64> {
    if is_idr {
        Ok(0)
    } else if state.frame_num <= frame_num {
        Ok(state.frame_num_offset)
    } else if state.frame_num_offset + pow2(log2_max_frame_num as nat) > u64::MAX {
        Err(H264Error::IntegerOverflow)
    } else {
        Ok((state.frame_num_offset + pow2(log2_max_frame_num as nat)) as u64)
    }
}

/// The sum of the first `count` offsets.
pub open spec fn offset_sum(offsets: Seq<i32>, count: nat) -> int
    decreases count,
{
    if count == 0 {
        0
    } else {
        offset_sum(offsets, (count - 1) as nat) + offsets[count - 1]
    }
}

/// `start` plus the first `count` offsets, where no partial sum leaves 64 bits.
pub open spec fn offset_chain(start: int, offsets: Seq<i32>, count: nat) -> Result<int>
    decreases count,
{
    if count == 0 {
        Ok(start)
    } else {
        match offset_chain(start, offsets, (count - 1) as nat) {
            Err(error) => Err(error),
            Ok(sum) => {
                let sum = sum + offsets[count - 1];
                if i64::MIN <= sum <= i64::MAX {
                    Ok(sum)
                } else {
                    Err(H264Error::IntegerOverflow)
                }
            },
        }
    }
}

/// The expected count of type 1 for a frame: whole cycles of offsets, then the
/// offsets up to the frame in its cycle.
#[verifier::opaque]
pub open spec fn type1_expected(frame: int, offsets: Seq<i32>) -> Result<int> {
    if frame == 0 {
        Ok(0)
    } else {
        let cycles = (frame - 1) / offsets.len() as int;
        let within = (frame - 1) % offsets.len() as int;
        let start = cycles * offset_sum(offsets, offsets.len());
        if cycles > i64::MAX || !(i64::MIN <= start <= i64::MAX) {
            Err(H264Error::IntegerOverflow)
        } else {
            offset_chain(start, offsets, (within + 1) as nat)
        }
    }
}

/// The number of the frame in the sequence of type 1, zero where there is no
/// cycle; a picture that is no reference counts as the frame before.
pub open spec fn type1_frame(offset: u64, frame_num: u32, nal_ref_idc: u8, cycle: nat) -> int {
    let frame = if cycle == 0 {
        0
    } else {
        offset + frame_num
    };
    if nal_ref_idc == 0 && frame > 0 {
        frame - 1
    } else {
        frame
    }
}

/// Order counts of type 1 from the expected count.
pub open spec fn type1_fields(
    picture: SlicePicture,
    expected: int,
    top_to_bottom: i32,
) -> Result<FieldOrderCount> {
    let delta0 = or_zero(picture.picture_order.delta_pic_order[0]);
    let delta1 = or_zero(picture.picture_order.delta_pic_order[1]);
    let bottom_field = expected + top_to_bottom;
    if !(i64::MIN <= expected + delta0 <= i64::MAX) {
        Err(H264Error::IntegerOverflow)
    } else {
        match poc_value(expected + delta0) {
            Err(error) => Err(error),
            Ok(top) => {
                if !picture.field_picture {
                    match poc_value(top + top_to_bottom + delta1) {
                        Err(error) => Err(error),
                        Ok(bottom) => Ok(
                            FieldOrderCount { top: Some(top), bottom: Some(bottom) },
                        ),
                    }
                } else if !picture.bottom_field {
                    Ok(FieldOrderCount { top: Some(top), bottom: None })
                } else if !(i64::MIN <= bottom_field <= i64::MAX) || !(i64::MIN <= bottom_field
                    + delta0 <= i64::MAX) {
                    Err(H264Error::IntegerOverflow)
                } else {
                    match poc_value(bottom_field + delta0) {
                        Err(error) => Err(error),
                        Ok(bottom) => Ok(FieldOrderCount { top: None, bottom: Some(bottom) }),
                    }
                }
            },
        }
    }
}

/// Order counts of type 1, coded by a cycle of expected differences.
pub open spec fn type1_counts(
    state: OrderStateView,
    picture: SlicePicture,
    nal_ref_idc: u8,
    is_idr: bool,
    log2_max_frame_num: u8,
    non_ref: i32,
    top_to_bottom: i32,
    offsets: Seq<i32>,
) -> Result<FieldOrderCount> {
    match frame_offset(state, picture.frame_num, is_idr, log2_max_frame_num) {
        Err(error) => Err(error),
        Ok(offset) => {
            if offsets.len() > 0 && offset + picture.frame_num > u64::MAX {
                Err(H264Error::IntegerOverflow)
            } else {
                let frame = type1_frame(offset, picture.frame_num, nal_ref_idc, offsets.len());
                match type1_expected(frame, offsets) {
                    Err(error) => Err(error),
                    Ok(expected) => {
                        let expected = expected + if nal_ref_idc == 0 {
                            non_ref as int
                        } else {
                            0
                        };
                        if i64::MIN <= expected <= i64::MAX {
                            type1_fields(picture, expected, top_to_bottom)
                        } else {
                            Err(H264Error::IntegerOverflow)
                        }
                    },
                }
            }
        },
    }
}

/// Order counts of type 2, which follow the frame numbers: twice the number
/// of the frame, and one less for a picture that is no reference.
pub open spec fn type2_counts(
    state: OrderStateView,
    picture: SlicePicture,
    nal_ref_idc: u8,
    is_idr: bool,
    log2_max_frame_num: u8,
) -> Result<FieldOrderCount> {
    match frame_offset(state, picture.frame_num, is_idr, log2_max_frame_num) {
        Err(error) => Err(error),
        Ok(offset) => {
            let frame = offset + picture.frame_num;
            let value = if is_idr {
                0
            } else if nal_ref_idc == 0 {
                2 * frame - 1
            } else {
                2 * frame
            };
            if frame > u64::MAX || !is_idr && 2 * frame > u64::MAX || value < 0 || value
                > i64::MAX {
                Err(H264Error::IntegerOverflow)
            } else {
                match poc_value(value) {
                    Err(error) => Err(error),
                    Ok(value) => Ok(field_counts(picture, value, value)),
                }
            }
        },
    }
}

/// The counts used while decoding, and the most significant part for type 0.
pub open spec fn decoding_counts(
    state: OrderStateView,
    picture: SlicePicture,
    sps: SequenceView,
    nal: NalHeader,
) -> Result<(FieldOrderCount, i32)> {
    let is_idr = nal.unit_type is IdrSlice;
    match sps.pic_order_count {
        PicOrderCountView::Type0 { log2_max_pic_order_cnt_lsb } => type0_counts(
            state,
            picture,
            is_idr,
            log2_max_pic_order_cnt_lsb,
        ),
        PicOrderCountView::Type1 {
            offset_for_non_ref_pic,
            offset_for_top_to_bottom_field,
            offset_for_ref_frame,
            ..
        } => match type1_counts(
            state,
            picture,
            nal.nal_ref_idc,
            is_idr,
            sps.log2_max_frame_num,
            offset_for_non_ref_pic,
            offset_for_top_to_bottom_field,
            offset_for_ref_frame,
        ) {
            Ok(counts) => Ok((counts, 0)),
            Err(error) => Err(error),
        },
        PicOrderCountView::Type2 => match type2_counts(
            state,
            picture,
            nal.nal_ref_idc,
            is_idr,
            sps.log2_max_frame_num,
        ) {
            Ok(counts) => Ok((counts, 0)),
            Err(error) => Err(error),
        },
    }
}

/// Whether all references are forgotten.
pub open spec fn forgets_all(marking: MarkingView) -> bool {
    marking matches MarkingView::Adaptive(operations) && operations.contains(
        MemoryManagementOperation::ForgetAll,
    )
}

/// An optional count less the lowest count of its picture.
pub open spec fn lowered(value: Option<i32>, by: int) -> Result<Option<i32>> {
    match value {
        None => Ok(None),
        Some(value) => if i32::MIN <= value - by <= i32::MAX {
            Ok(Some((value - by) as i32))
        } else {
            Err(H264Error::IntegerOverflow)
        },
    }
}

/// The counts kept for later pictures. When all references are forgotten they
/// are lowered so that the lowest is zero.
pub open spec fn stored_counts(decoding: FieldOrderCount, mmco5: bool) -> Result<FieldOrderCount> {
    if !mmco5 {
        Ok(decoding)
    } else {
        match (
            lowered(decoding.top, decoding.lowest()),
            lowered(decoding.bottom, decoding.lowest()),
        ) {
            (Err(error), _) => Err(error),
            (_, Err(error)) => Err(error),
            (Ok(top), Ok(bottom)) => Ok(FieldOrderCount { top, bottom }),
        }
    }
}

/// What is remembered after a picture whose counts could be derived.
pub open spec fn next_state(
    state: OrderStateView,
    picture: SlicePicture,
    sps: SequenceView,
    nal: NalHeader,
    mmco5: bool,
    msb: i32,
    stored: FieldOrderCount,
) -> OrderStateView {
    if sps.pic_order_count is Type0 {
        if nal.nal_ref_idc == 0 {
            state
        } else {
            OrderStateView {
                had_mmco5: mmco5,
                was_bottom_field: picture.field_picture && picture.bottom_field,
                top: stored.top,
                msb: if mmco5 {
                    state.msb
                } else {
                    msb
                },
                lsb: if mmco5 {
                    state.lsb
                } else {
                    picture.picture_order.pic_order_cnt_lsb->Some_0
                },
                ..state
            }
        }
    } else if mmco5 {
        OrderStateView { frame_num: 0, frame_num_offset: 0, ..state }
    } else {
        OrderStateView {
            frame_num: picture.frame_num,
            frame_num_offset: frame_offset(
                state,
                picture.frame_num,
                nal.unit_type is IdrSlice,
                sps.log2_max_frame_num,
            )->Ok_0,
            ..state
        }
    }
}

/// A picture of a stream: what its first slice says, and its NAL header.
pub struct CodedPicture {
    pub picture: SlicePicture,
    pub nal: NalHeader,
    /// Whether all references are forgotten after it.
    pub mmco5: bool,
}

impl CodedPicture {
    /// The frame number has the coded number of bits, and an IDR picture is a
    /// reference, as in every slice header that was parsed.
    pub open spec fn valid(self, sps: SequenceView) -> bool {
        &&& self.picture.frame_num < pow2(sps.log2_max_frame_num as nat)
        &&& self.nal.unit_type is IdrSlice ==> self.nal.nal_ref_idc != 0
    }
}

/// The counts of a picture, and what is remembered after it.
pub open spec fn derived_counts(
    state: OrderStateView,
    sps: SequenceView,
    coded: CodedPicture,
) -> Result<(PictureOrderCount, OrderStateView)> {
    match decoding_counts(state, coded.picture, sps, coded.nal) {
        Err(error) => Err(error),
        Ok((decoding, msb)) => match stored_counts(decoding, coded.mmco5) {
            Err(error) => Err(error),
            Ok(stored) => Ok(
                (
                    PictureOrderCount { decoding, stored },
                    next_state(state, coded.picture, sps, coded.nal, coded.mmco5, msb, stored),
                ),
            ),
        },
    }
}

/// The picture of a parsed slice header.
pub open spec fn coded_picture(parsed: ParsedSliceHeader, nal: NalHeader) -> CodedPicture {
    CodedPicture {
        picture: parsed.header@.picture,
        nal,
        mmco5: forgets_all(parsed.header@.references.reference_picture_marking),
    }
}

/// Powers of two as shifts.
fn power_of_two(exponent: u8) -> (power: u64)
    requires
        exponent <= 16,
    ensures
        power == pow2(exponent as nat),
        power <= 65536,
{
    proof {
        vstd::arithmetic::power2::lemma2_to64();
        if exponent < 16 {
            vstd::arithmetic::power2::lemma_pow2_strictly_increases(exponent as nat, 16);
        }
        vstd::bits::lemma_u64_shl_is_mul(1, exponent as u64);
    }
    1u64 << (exponent as u64)
}

fn includes_mmco5(marking: &ReferencePictureMarking) -> (includes: bool)
    ensures
        includes == forgets_all(marking@),
{
    match marking {
        ReferencePictureMarking::Adaptive(operations) => {
            let mut index: usize = 0;
            while index < operations.len()
                invariant
                    index <= operations@.len(),
                    marking@ == MarkingView::Adaptive(operations@),
                    forall|i: int|
                        0 <= i < index ==> operations@[i] != MemoryManagementOperation::ForgetAll,
                decreases operations@.len() - index,
            {
                if operations[index] == MemoryManagementOperation::ForgetAll {
                    assert(operations@.contains(operations@[index as int]));
                    return true;
                }
                index = index + 1;
            }
            false
        },
        _ => false,
    }
}

fn checked_poc(value: i64) -> (result: Result<i32>)
    ensures
        result == poc_value(value as int),
{
    if value < -0x8000_0000 || value > 0x7fff_ffff {
        return Err(H264Error::InvalidSyntax("picture order count is outside the i32 range"));
    }
    Ok(value as i32)
}

fn value_or_zero(value: Option<i32>) -> (number: i64)
    ensures
        number == or_zero(value),
{
    match value {
        Some(value) => value as i64,
        None => 0,
    }
}

/// Partial sums of offsets stay within 31 bits times their number.
proof fn lemma_offset_sum_bound(offsets: Seq<i32>, count: nat)
    requires
        count <= offsets.len(),
    ensures
        -0x8000_0000 * count <= offset_sum(offsets, count) <= 0x7fff_ffff * count,
    decreases count,
{
    if count > 0 {
        lemma_offset_sum_bound(offsets, (count - 1) as nat);
    }
}

/// A chain that fails early fails.
proof fn lemma_chain_fails(start: int, offsets: Seq<i32>, first: nat, count: nat)
    requires
        first <= count,
        offset_chain(start, offsets, first) is Err,
    ensures
        offset_chain(start, offsets, count) == Err::<int, H264Error>(H264Error::IntegerOverflow),
    decreases count,
{
    if first < count {
        lemma_chain_fails(start, offsets, first, (count - 1) as nat);
    } else if offset_chain(start, offsets, (count - 1) as nat) is Err {
        lemma_chain_fails(start, offsets, (count - 1) as nat, (count - 1) as nat);
    }
}

impl PictureOrderCountState {
    pub fn new() -> (state: Self)
        ensures
            state@ == OrderStateView::initial(),
    {
        PictureOrderCountState {
            prev_pic_order_cnt_msb: 0,
            prev_pic_order_cnt_lsb: 0,
            prev_reference_had_mmco5: false,
            prev_reference_was_bottom_field: false,
            prev_reference_top_field_order_cnt: None,
            prev_frame_num: 0,
            prev_frame_num_offset: 0,
        }
    }

    /// Derives and commits POC state for the first slice of one coded picture.
    pub fn derive(
        &mut self,
        parsed: &ParsedSliceHeader,
        nal_header: NalHeader,
    ) -> (result: Result<PictureOrderCount>)
        requires
            valid_sequence(parsed.parameter_sets.sequence@),
        ensures
            match derived_counts(
                old(self)@,
                parsed.parameter_sets.sequence@,
                coded_picture(*parsed, nal_header),
            ) {
                Err(error) => result == Err::<PictureOrderCount, H264Error>(error) && final(self)@
                    == old(self)@,
                Ok((counts, after)) => result == Ok::<PictureOrderCount, H264Error>(counts)
                    && final(self)@ == after,
            },
    {
        let is_idr = nal_header.unit_type == NalUnitType::IdrSlice;
        let has_mmco5 = includes_mmco5(&parsed.header.reference_picture_marking);
        let sps = &parsed.parameter_sets.sequence;
        let header = &parsed.header;
        let (decoding, msb): (FieldOrderCount, i32) = match &sps.pic_order_count {
            PicOrderCount::Type0 { log2_max_pic_order_cnt_lsb } => self.derive_type0(
                header,
                is_idr,
                *log2_max_pic_order_cnt_lsb,
            )?,
            PicOrderCount::Type1 {
                offset_for_non_ref_pic,
                offset_for_top_to_bottom_field,
                offset_for_ref_frame,
                ..
            } => (
                self.derive_type1(
                    header,
                    nal_header.nal_ref_idc,
                    is_idr,
                    sps.log2_max_frame_num,
                    *offset_for_non_ref_pic,
                    *offset_for_top_to_bottom_field,
                    offset_for_ref_frame,
                )?,
                0,
            ),
            PicOrderCount::Type2 => (
                self.derive_type2(
                    header,
                    nal_header.nal_ref_idc,
                    is_idr,
                    sps.log2_max_frame_num,
                )?,
                0,
            ),
        };
        let mut stored = decoding;
        if has_mmco5 {
            let adjustment: i32 = stored.picture_order_count();
            if let Some(value) = decoding.top {
                stored.top = Some(value.checked_sub(adjustment).ok_or(H264Error::IntegerOverflow)?);
            }
            if let Some(value) = decoding.bottom {
                stored.bottom = Some(
                    value.checked_sub(adjustment).ok_or(H264Error::IntegerOverflow)?,
                );
            }
        }
        match &sps.pic_order_count {
            PicOrderCount::Type0 { .. } => {
                if nal_header.nal_ref_idc != 0 {
                    self.prev_reference_had_mmco5 = has_mmco5;
                    self.prev_reference_was_bottom_field = header.field_picture
                        && header.bottom_field;
                    self.prev_reference_top_field_order_cnt = stored.top;
                    if !has_mmco5 {
                        self.prev_pic_order_cnt_msb = msb;
                        if let Some(lsb) = header.picture_order.pic_order_cnt_lsb {
                            self.prev_pic_order_cnt_lsb = lsb;
                        }
                    }
                }
            },
            _ => {
                if has_mmco5 {
                    self.prev_frame_num = 0;
                    self.prev_frame_num_offset = 0;
                } else {
                    let frame_num_offset: u64 = self.frame_num_offset(
                        header.frame_num,
                        is_idr,
                        sps.log2_max_frame_num,
                    )?;
                    self.prev_frame_num = header.frame_num;
                    self.prev_frame_num_offset = frame_num_offset;
                }
            },
        }
        Ok(PictureOrderCount { decoding, stored })
    }

    pub fn reset(&mut self)
        ensures
            final(self)@ == OrderStateView::initial(),
    {
        *self = PictureOrderCountState::new();
    }

    fn derive_type0(
        &self,
        header: &SliceHeader,
        is_idr: bool,
        log2_max_pic_order_cnt_lsb: u8,
    ) -> (result: Result<(FieldOrderCount, i32)>)
        requires
            log2_max_pic_order_cnt_lsb <= 16,
        ensures
            result == type0_counts(
                self@,
                header@.picture,
                is_idr,
                log2_max_pic_order_cnt_lsb,
            ),
            result matches Ok((counts, _)) ==> counts.top is Some || counts.bottom is Some,
            result is Ok ==> header.picture_order.pic_order_cnt_lsb is Some,
    {
        let lsb: u32 = header.picture_order.pic_order_cnt_lsb.ok_or(
            H264Error::InvalidSyntax("missing pic_order_cnt_lsb for POC type 0"),
        )?;
        let max_lsb: i64 = power_of_two(log2_max_pic_order_cnt_lsb) as i64;
        let (prev_msb, prev_lsb): (i64, i64) = if is_idr {
            (0, 0)
        } else if self.prev_reference_had_mmco5 {
            if self.prev_reference_was_bottom_field {
                (0, 0)
            } else {
                (0, value_or_zero(self.prev_reference_top_field_order_cnt))
            }
        } else {
            (self.prev_pic_order_cnt_msb as i64, self.prev_pic_order_cnt_lsb as i64)
        };
        let lsb: i64 = lsb as i64;
        let msb: i64 = if lsb < prev_lsb && prev_lsb - lsb >= max_lsb / 2 {
            prev_msb + max_lsb
        } else if lsb > prev_lsb && lsb - prev_lsb > max_lsb / 2 {
            prev_msb - max_lsb
        } else {
            prev_msb
        };
        let field_value: i32 = checked_poc(msb + lsb)?;
        let order = if !header.field_picture {
            let delta: i32 = match header.picture_order.delta_pic_order_bottom {
                Some(delta) => delta,
                None => 0,
            };
            let bottom: i32 = field_value.checked_add(delta).ok_or(H264Error::IntegerOverflow)?;
            FieldOrderCount { top: Some(field_value), bottom: Some(bottom) }
        } else if header.bottom_field {
            FieldOrderCount { top: None, bottom: Some(field_value) }
        } else {
            FieldOrderCount { top: Some(field_value), bottom: None }
        };
        let msb: i32 = checked_poc(msb)?;
        Ok((order, msb))
    }

    fn frame_num_offset(&self, frame_num: u32, is_idr: bool, log2_max_frame_num: u8) -> (result:
        Result<u64>)
        requires
            log2_max_frame_num <= 16,
        ensures
            result == frame_offset(self@, frame_num, is_idr, log2_max_frame_num),
    {
        if is_idr {
            return Ok(0);
        }
        if self.prev_frame_num > frame_num {
            self.prev_frame_num_offset.checked_add(power_of_two(log2_max_frame_num)).ok_or(
                H264Error::IntegerOverflow,
            )
        } else {
            Ok(self.prev_frame_num_offset)
        }
    }

    fn expected_type1(frame: u64, offsets: &Vec<i32>) -> (result: Result<i64>)
        requires
            offsets@.len() <= 255,
            frame > 0 ==> offsets@.len() > 0,
        ensures
            match result {
                Ok(expected) => type1_expected(frame as int, offsets@) == Ok::<int, H264Error>(
                    expected as int,
                ),
                Err(error) => type1_expected(frame as int, offsets@) == Err::<int, H264Error>(
                    error,
                ),
            },
    {
        proof {
            reveal(type1_expected);
        }
        if frame == 0 {
            return Ok(0);
        }
        let cycle_length: u64 = offsets.len() as u64;
        let cycle_count: u64 = (frame - 1) / cycle_length;
        let frame_in_cycle: usize = ((frame - 1) % cycle_length) as usize;
        let mut delta_per_cycle: i64 = 0;
        let mut index: usize = 0;
        while index < offsets.len()
            invariant
                index <= offsets@.len() <= 255,
                delta_per_cycle == offset_sum(offsets@, index as nat),
            decreases offsets@.len() - index,
        {
            proof {
                lemma_offset_sum_bound(offsets@, index as nat);
                lemma_offset_sum_bound(offsets@, (index + 1) as nat);
            }
            delta_per_cycle = delta_per_cycle + offsets[index] as i64;
            index = index + 1;
        }
        if cycle_count > 0x7fff_ffff_ffff_ffff {
            return Err(H264Error::IntegerOverflow);
        }
        let start: i64 = (cycle_count as i64).checked_mul(delta_per_cycle).ok_or(
            H264Error::IntegerOverflow,
        )?;
        let mut expected: i64 = start;
        let mut position: usize = 0;
        while position <= frame_in_cycle
            invariant
                position <= frame_in_cycle + 1,
                frame_in_cycle < offsets@.len() <= 255,
                offset_chain(start as int, offsets@, position as nat) == Ok::<int, H264Error>(
                    expected as int,
                ),
                type1_expected(frame as int, offsets@) == offset_chain(
                    start as int,
                    offsets@,
                    (frame_in_cycle + 1) as nat,
                ),
            decreases frame_in_cycle + 1 - position,
        {
            proof {
                assert(offset_chain(start as int, offsets@, (position + 1) as nat) is Err
                    ==> expected + offsets@[position as int] > i64::MAX || expected
                    + offsets@[position as int] < i64::MIN);
                if offset_chain(start as int, offsets@, (position + 1) as nat) is Err {
                    lemma_chain_fails(
                        start as int,
                        offsets@,
                        (position + 1) as nat,
                        (frame_in_cycle + 1) as nat,
                    );
                }
            }
            expected = expected.checked_add(offsets[position] as i64).ok_or(
                H264Error::IntegerOverflow,
            )?;
            position = position + 1;
        }
        Ok(expected)
    }

    fn derive_type1(
        &self,
        header: &SliceHeader,
        nal_ref_idc: u8,
        is_idr: bool,
        log2_max_frame_num: u8,
        offset_for_non_ref_pic: i32,
        offset_for_top_to_bottom_field: i32,
        offset_for_ref_frame: &Vec<i32>,
    ) -> (result: Result<FieldOrderCount>)
        requires
            log2_max_frame_num <= 16,
            offset_for_ref_frame@.len() <= 255,
        ensures
            result == type1_counts(
                self@,
                header@.picture,
                nal_ref_idc,
                is_idr,
                log2_max_frame_num,
                offset_for_non_ref_pic,
                offset_for_top_to_bottom_field,
                offset_for_ref_frame@,
            ),
            result matches Ok(counts) ==> counts.top is Some || counts.bottom is Some,
    {
        let frame_num_offset: u64 = self.frame_num_offset(
            header.frame_num,
            is_idr,
            log2_max_frame_num,
        )?;
        let mut abs_frame_num: u64 = if offset_for_ref_frame.len() == 0 {
            0
        } else {
            frame_num_offset.checked_add(header.frame_num as u64).ok_or(
                H264Error::IntegerOverflow,
            )?
        };
        if nal_ref_idc == 0 && abs_frame_num > 0 {
            abs_frame_num = abs_frame_num - 1;
        }
        let mut expected: i64 = Self::expected_type1(abs_frame_num, offset_for_ref_frame)?;
        if nal_ref_idc == 0 {
            expected = expected.checked_add(offset_for_non_ref_pic as i64).ok_or(
                H264Error::IntegerOverflow,
            )?;
        }
        Self::fields_type1(header, expected, offset_for_top_to_bottom_field)
    }

    fn fields_type1(header: &SliceHeader, expected: i64, top_to_bottom: i32) -> (result: Result<
        FieldOrderCount,
    >)
        ensures
            result == type1_fields(header@.picture, expected as int, top_to_bottom),
            result matches Ok(counts) ==> counts.top is Some || counts.bottom is Some,
    {
        let delta0: i64 = value_or_zero(header.picture_order.delta_pic_order[0]);
        let delta1: i64 = value_or_zero(header.picture_order.delta_pic_order[1]);
        let top: i32 = checked_poc(
            expected.checked_add(delta0).ok_or(H264Error::IntegerOverflow)?,
        )?;
        if !header.field_picture {
            let bottom: i64 = top as i64 + top_to_bottom as i64 + delta1;
            Ok(FieldOrderCount { top: Some(top), bottom: Some(checked_poc(bottom)?) })
        } else if header.bottom_field {
            let bottom: i64 = expected.checked_add(top_to_bottom as i64).ok_or(
                H264Error::IntegerOverflow,
            )?;
            let bottom: i64 = bottom.checked_add(delta0).ok_or(H264Error::IntegerOverflow)?;
            Ok(FieldOrderCount { top: None, bottom: Some(checked_poc(bottom)?) })
        } else {
            Ok(FieldOrderCount { top: Some(top), bottom: None })
        }
    }

    fn derive_type2(
        &self,
        header: &SliceHeader,
        nal_ref_idc: u8,
        is_idr: bool,
        log2_max_frame_num: u8,
    ) -> (result: Result<FieldOrderCount>)
        requires
            log2_max_frame_num <= 16,
        ensures
            result == type2_counts(
                self@,
                header@.picture,
                nal_ref_idc,
                is_idr,
                log2_max_frame_num,
            ),
            result matches Ok(counts) ==> counts.top is Some || counts.bottom is Some,
    {
        let frame_num_offset: u64 = self.frame_num_offset(
            header.frame_num,
            is_idr,
            log2_max_frame_num,
        )?;
        let absolute_frame_num: u64 = frame_num_offset.checked_add(header.frame_num as u64).ok_or(
            H264Error::IntegerOverflow,
        )?;
        let value: u64 = if is_idr {
            0
        } else {
            let doubled: u64 = absolute_frame_num.checked_mul(2).ok_or(
                H264Error::IntegerOverflow,
            )?;
            if nal_ref_idc == 0 {
                doubled.checked_sub(1).ok_or(H264Error::IntegerOverflow)?
            } else {
                doubled
            }
        };
        if value > 0x7fff_ffff_ffff_ffff {
            return Err(H264Error::IntegerOverflow);
        }
        let value: i32 = checked_poc(value as i64)?;
        if !header.field_picture {
            Ok(FieldOrderCount { top: Some(value), bottom: Some(value) })
        } else if header.bottom_field {
            Ok(FieldOrderCount { top: None, bottom: Some(value) })
        } else {
            Ok(FieldOrderCount { top: Some(value), bottom: None })
        }
    }
}

impl Default for PictureOrderCountState {
    fn default() -> (state: Self)
        ensures
            state@ == OrderStateView::initial(),
    {
        PictureOrderCountState::new()
    }
}

/// After all references are forgotten, the lowest stored count is zero.
pub proof fn law_forgetting_all_starts_at_zero(decoding: FieldOrderCount)
    requires
        decoding.top is Some || decoding.bottom is Some,
    ensures
        stored_counts(decoding, true) matches Ok(stored) ==> stored.lowest() == 0,
{
}

/// An order count of type 0 lies within half a period of its reference, and its
/// most significant part is whole periods away from that of the reference.
pub proof fn law_type0_is_near_its_reference(reference: (int, int), lsb: int, period: int)
    requires
        0 < period,
        period % 2 == 0,
        0 <= lsb < period,
        0 <= reference.1 < period,
    ensures
        ({
            let distance = type0_msb(reference, lsb, period) + lsb - (reference.0 + reference.1);
            -(period / 2) <= distance <= period / 2
        }),
        (type0_msb(reference, lsb, period) - reference.0) % period == 0,
{
    let msb = type0_msb(reference, lsb, period);
    let difference = msb - reference.0;
    assert(difference == 0 || difference == period || difference == -period);
    assert(0int % period == 0) by (nonlinear_arith)
        requires
            period > 0,
    ;
    assert(period % period == 0) by (nonlinear_arith)
        requires
            period > 0,
    ;
    assert((-period) % period == 0) by (nonlinear_arith)
        requires
            period > 0,
    ;
}

/// The order counts of type 2 increase in decode order: the count of a picture
/// that starts no new sequence is higher than the one kept of the picture before,
/// though frame numbers may have wrapped around between them. A picture has the
/// frame number of the one before only where that is no reference, and it is one
/// itself.
pub proof fn law_type2_counts_increase(
    state: OrderStateView,
    sps: SequenceView,
    first: CodedPicture,
    second: CodedPicture,
)
    requires
        sps.pic_order_count is Type2,
        first.valid(sps),
        second.valid(sps),
        !(second.nal.unit_type is IdrSlice),
        derived_counts(state, sps, first) matches Ok((_, after)) && (after.frame_num
            != second.picture.frame_num || !first.mmco5 && first.nal.nal_ref_idc == 0
            && second.nal.nal_ref_idc != 0),
    ensures
        match derived_counts(state, sps, first) {
            Ok((before, after)) => match derived_counts(after, sps, second) {
                Ok((counts, _)) => counts.decoding.lowest() > before.stored.lowest(),
                Err(_) => true,
            },
            Err(_) => true,
        },
{
}

/// What is remembered after the first `count` pictures of a stream, as far as
/// their counts can be derived.
pub open spec fn state_after(
    state: OrderStateView,
    sps: SequenceView,
    pictures: Seq<CodedPicture>,
    count: int,
) -> OrderStateView
    decreases count,
{
    if count <= 0 {
        state
    } else {
        let before = state_after(state, sps, pictures, count - 1);
        match derived_counts(before, sps, pictures[count - 1]) {
            Ok((_, after)) => after,
            Err(_) => before,
        }
    }
}

/// The counts of one picture of a stream.
pub open spec fn counts_at(
    state: OrderStateView,
    sps: SequenceView,
    pictures: Seq<CodedPicture>,
    index: int,
) -> Result<PictureOrderCount> {
    match derived_counts(state_after(state, sps, pictures, index), sps, pictures[index]) {
        Ok((counts, _)) => Ok(counts),
        Err(error) => Err(error),
    }
}

/// The order counts of type 2 increase over any number of pictures, however often
/// their frame numbers wrap around, until a new sequence starts or all references
/// are forgotten.
pub proof fn law_type2_counts_increase_throughout(
    state: OrderStateView,
    sps: SequenceView,
    pictures: Seq<CodedPicture>,
    first: int,
    second: int,
)
    requires
        sps.pic_order_count is Type2,
        0 <= first < second < pictures.len(),
        forall|i: int|
            first <= i <= second ==> (#[trigger] pictures[i]).valid(sps) && !pictures[i].mmco5
                && counts_at(state, sps, pictures, i) is Ok,
        forall|i: int|
            first < i <= second ==> !((#[trigger] pictures[i]).nal.unit_type is IdrSlice) && (
            pictures[i - 1].picture.frame_num != pictures[i].picture.frame_num
                || pictures[i - 1].nal.nal_ref_idc == 0 && pictures[i].nal.nal_ref_idc != 0),
    ensures
        counts_at(state, sps, pictures, first)->Ok_0.decoding.lowest() < counts_at(
            state,
            sps,
            pictures,
            second,
        )->Ok_0.decoding.lowest(),
    decreases second - first,
{
    let before = state_after(state, sps, pictures, second - 1);
    assert(pictures[second - 1].valid(sps) && counts_at(state, sps, pictures, second - 1) is Ok);
    assert(pictures[second].valid(sps) && counts_at(state, sps, pictures, second) is Ok);
    law_type2_counts_increase(before, sps, pictures[second - 1], pictures[second]);
    if first < second - 1 {
        law_type2_counts_increase_throughout(state, sps, pictures, first, second - 1);
    }
}

} // verus!
