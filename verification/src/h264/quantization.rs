//! Macroblock and chroma quantization-parameter derivation.

use vstd::prelude::*;

use super::error::{H264Error, Result};

verus! {

const CHROMA_QP_30_TO_51: [u8; 22] = [
    29, 30, 31, 32, 32, 33, 34, 34, 35, 35, 36, 36, 37, 37, 37, 38, 38, 38, 39, 39, 39, 39,
];

#[derive(Debug, Clone, Copy, PartialEq, Eq, Structural)]
pub struct MacroblockQuantizer {
    /// QP'Y for the current 8-bit macroblock.
    pub luma: u8,
    /// QP'Cb after offset, clipping, and mapping.
    pub chroma_cb: u8,
    /// QP'Cr after offset, clipping, and mapping.
    pub chroma_cr: u8,
    pub transform_bypass: bool,
}

/// Slice-local QPY,PREV state.
#[derive(Debug, Clone, Copy, PartialEq, Eq, Structural)]
pub struct MacroblockQuantizerState {
    previous_luma: u8,
    chroma_cb_offset: i8,
    chroma_cr_offset: i8,
    qpprime_y_zero_transform_bypass: bool,
}

/// The chroma quantizer for a quantizer index from 0 to 51.
pub open spec fn chroma_table(index: int) -> u8 {
    let tail: Seq<u8> = seq![
        29, 30, 31, 32, 32, 33, 34, 34, 35, 35, 36, 36, 37, 37, 37, 38, 38, 38, 39, 39, 39, 39,
    ];
    if index < 30 {
        index as u8
    } else {
        tail[index - 30]
    }
}

/// The chroma quantizer that belongs to `luma_qp`: the offset is added, the
/// sum is clipped to 0..=51 and looked up.
pub open spec fn chroma_qp(luma_qp: u8, offset: i8) -> u8 {
    let sum = luma_qp + offset;
    chroma_table(if sum < 0 {
        0
    } else if sum > 51 {
        51
    } else {
        sum
    })
}

#[inline]
pub fn derive_chroma_qp(luma_qp: u8, offset: i8) -> (qp: u8)
    ensures
        qp == chroma_qp(luma_qp, offset),
        qp <= 39,
{
    let sum: i16 = luma_qp as i16 + offset as i16;
    let index: usize = if sum < 0 {
        0
    } else if sum > 51 {
        51
    } else {
        sum as usize
    };
    if index < 30 {
        index as u8
    } else {
        CHROMA_QP_30_TO_51[index - 30]
    }
}

impl MacroblockQuantizerState {
    /// The luma quantizer of the macroblock before, at most 51.
    pub closed spec fn previous(self) -> u8 {
        self.previous_luma
    }

    /// The offset of the Cb quantizer.
    pub closed spec fn cb_offset(self) -> i8 {
        self.chroma_cb_offset
    }

    /// The offset of the Cr quantizer.
    pub closed spec fn cr_offset(self) -> i8 {
        self.chroma_cr_offset
    }

    /// Whether a luma quantizer of zero bypasses the transform.
    pub closed spec fn bypass_at_zero(self) -> bool {
        self.qpprime_y_zero_transform_bypass
    }

    /// The state with another previous luma quantizer.
    pub closed spec fn with_previous(self, luma: u8) -> MacroblockQuantizerState {
        MacroblockQuantizerState { previous_luma: luma, ..self }
    }

    /// The quantizers after a change of the luma quantizer by `qp_delta`,
    /// modulo 52.
    pub open spec fn derived(self, qp_delta: i8) -> Result<MacroblockQuantizer> {
        if -26 <= qp_delta <= 25 {
            let luma = ((self.previous() + qp_delta) % 52) as u8;
            Ok(
                MacroblockQuantizer {
                    luma,
                    chroma_cb: chroma_qp(luma, self.cb_offset()),
                    chroma_cr: chroma_qp(luma, self.cr_offset()),
                    transform_bypass: self.bypass_at_zero() && luma == 0,
                },
            )
        } else {
            Err(H264Error::InvalidSyntax("mb_qp_delta is outside the 8-bit range"))
        }
    }

    pub fn new(
        slice_qp_y: u8,
        chroma_cb_offset: i8,
        chroma_cr_offset: i8,
        qpprime_y_zero_transform_bypass: bool,
    ) -> (result: Result<Self>)
        ensures
            slice_qp_y > 51 ==> result == Err::<MacroblockQuantizerState, H264Error>(
                H264Error::InvalidSyntax("SliceQPY exceeds 51"),
            ),
            slice_qp_y <= 51 && !(-12 <= chroma_cb_offset <= 12 && -12 <= chroma_cr_offset <= 12)
                ==> result == Err::<MacroblockQuantizerState, H264Error>(
                H264Error::InvalidSyntax("chroma QP offset is outside -12..=12"),
            ),
            slice_qp_y <= 51 && -12 <= chroma_cb_offset <= 12 && -12 <= chroma_cr_offset <= 12 ==> {
                &&& result matches Ok(state)
                &&& state.previous() == slice_qp_y
                &&& state.cb_offset() == chroma_cb_offset
                &&& state.cr_offset() == chroma_cr_offset
                &&& state.bypass_at_zero() == qpprime_y_zero_transform_bypass
            },
    {
        if slice_qp_y > 51 {
            return Err(H264Error::InvalidSyntax("SliceQPY exceeds 51"));
        }
        if chroma_cb_offset < -12 || chroma_cb_offset > 12 || chroma_cr_offset < -12
            || chroma_cr_offset > 12 {
            return Err(H264Error::InvalidSyntax("chroma QP offset is outside -12..=12"));
        }
        Ok(
            MacroblockQuantizerState {
                previous_luma: slice_qp_y,
                chroma_cb_offset,
                chroma_cr_offset,
                qpprime_y_zero_transform_bypass,
            },
        )
    }

    #[inline]
    pub fn previous_luma(&self) -> (luma: u8)
        ensures
            luma == self.previous(),
    {
        self.previous_luma
    }

    /// Derives a macroblock QP without changing QPY,PREV.
    pub fn derive(&self, qp_delta: i8) -> (result: Result<MacroblockQuantizer>)
        ensures
            result == self.derived(qp_delta),
    {
        if qp_delta < -26 || qp_delta > 25 {
            return Err(H264Error::InvalidSyntax("mb_qp_delta is outside the 8-bit range"));
        }
        let sum: i32 = self.previous_luma as i32 + qp_delta as i32;
        let luma: u8 = ((sum + 52) % 52) as u8;
        assert(luma == (self.previous() + qp_delta) % 52);
        Ok(
            MacroblockQuantizer {
                luma,
                chroma_cb: derive_chroma_qp(luma, self.chroma_cb_offset),
                chroma_cr: derive_chroma_qp(luma, self.chroma_cr_offset),
                transform_bypass: self.qpprime_y_zero_transform_bypass && luma == 0,
            },
        )
    }

    /// Commits QPY only if the complete macroblock operation succeeds.
    pub fn with_macroblock<T, F: FnOnce(MacroblockQuantizer) -> Result<T>>(
        &mut self,
        qp_delta: i8,
        operation: F,
    ) -> (result: Result<T>)
        requires
            old(self).derived(qp_delta) matches Ok(quantizer) ==> operation.requires((quantizer,)),
        ensures
            match old(self).derived(qp_delta) {
                Err(error) => result == Err::<T, H264Error>(error) && *final(self) == *old(self),
                Ok(quantizer) => operation.ensures((quantizer,), result) && *final(self)
                    == if result is Ok {
                    old(self).with_previous(quantizer.luma)
                } else {
                    *old(self)
                },
            },
            match (old(self).derived(qp_delta), result) {
                (Ok(quantizer), Ok(_)) => final(self).previous() == quantizer.luma,
                _ => final(self).previous() == old(self).previous(),
            },
            final(self).cb_offset() == old(self).cb_offset(),
            final(self).cr_offset() == old(self).cr_offset(),
            final(self).bypass_at_zero() == old(self).bypass_at_zero(),
    {
        let quantizer = self.derive(qp_delta)?;
        let output = operation(quantizer)?;
        self.previous_luma = quantizer.luma;
        Ok(output)
    }
}

/// A derived luma quantizer lies in 0..=51, whatever came before.
pub proof fn law_derived_luma_range(state: MacroblockQuantizerState, qp_delta: i8)
    requires
        -26 <= qp_delta <= 25,
    ensures
        state.derived(qp_delta) matches Ok(quantizer) && quantizer.luma <= 51
            && quantizer.chroma_cb <= 39 && quantizer.chroma_cr <= 39,
{
}

/// What a macroblock commits is its luma quantizer and nothing else: the next one
/// is derived from that quantizer with the same offsets.
pub proof fn law_only_the_luma_quantizer_is_committed(state: MacroblockQuantizerState, luma: u8)
    ensures
        state.with_previous(luma).previous() == luma,
        state.with_previous(luma).cb_offset() == state.cb_offset(),
        state.with_previous(luma).cr_offset() == state.cr_offset(),
        state.with_previous(luma).bypass_at_zero() == state.bypass_at_zero(),
{
}

/// The delta derives a luma quantizer.
pub open spec fn reaches(state: MacroblockQuantizerState, qp_delta: i8, luma: u8) -> bool {
    state.derived(qp_delta) matches Ok(quantizer) && quantizer.luma == luma
}

/// Every luma quantizer can be reached from every other by exactly one delta.
pub proof fn law_one_delta_reaches_each_quantizer(state: MacroblockQuantizerState, luma: u8)
    requires
        state.previous() <= 51,
        luma <= 51,
    ensures
        exists|qp_delta: i8| reaches(state, qp_delta, luma),
        forall|first: i8, second: i8|
            #![trigger reaches(state, first, luma), reaches(state, second, luma)]
            reaches(state, first, luma) && reaches(state, second, luma) ==> first == second,
{
    let difference = luma - state.previous();
    let qp_delta = if difference > 25 {
        difference - 52
    } else if difference < -26 {
        difference + 52
    } else {
        difference
    };
    assert(reaches(state, qp_delta as i8, luma));
}

} // verus!
