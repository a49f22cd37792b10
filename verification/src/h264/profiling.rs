//! Opt-in counters for selecting whole-decoder optimization targets.

use vstd::prelude::*;

use crate::text::{decimal, decimal_text};

verus! {

pub const CALLS: usize = 0;

pub const LUMA_PIXELS: usize = 1;

pub const CHROMA_PIXELS: usize = 2;

pub const WIDTH_4: usize = 3;

pub const WIDTH_8: usize = 4;

pub const WIDTH_16: usize = 5;

pub const LUMA_INTEGER_CALLS: usize = 6;

pub const LUMA_HORIZONTAL_CALLS: usize = 7;

pub const LUMA_VERTICAL_CALLS: usize = 8;

pub const LUMA_TWO_DIMENSIONAL_CALLS: usize = 9;

pub const LUMA_CLIPPED_CALLS: usize = 10;

pub const LUMA_INTEGER_PIXELS: usize = 11;

pub const LUMA_HORIZONTAL_PIXELS: usize = 12;

pub const LUMA_VERTICAL_PIXELS: usize = 13;

pub const LUMA_TWO_DIMENSIONAL_PIXELS: usize = 14;

pub const LUMA_CLIPPED_PIXELS: usize = 15;

pub const CHROMA_INTEGER_CALLS: usize = 16;

pub const CHROMA_BILINEAR_CALLS: usize = 17;

pub const CHROMA_CLIPPED_CALLS: usize = 18;

pub const CHROMA_INTEGER_PIXELS: usize = 19;

pub const CHROMA_BILINEAR_PIXELS: usize = 20;

pub const CHROMA_CLIPPED_PIXELS: usize = 21;

pub const SPATIAL_DIRECT_MACROBLOCKS: usize = 22;

pub const SPATIAL_DIRECT_UNIFORM_PREDICTION: usize = 23;

pub const SPATIAL_DIRECT_COL_ZERO_CLEAR: usize = 24;

pub const SPATIAL_DIRECT_COL_ZERO_SET: usize = 25;

pub const SPATIAL_DIRECT_COL_ZERO_MIXED: usize = 26;

pub const SPATIAL_DIRECT_BOTH_ZERO: usize = 27;

pub const SPATIAL_DIRECT_LIST0_ZERO: usize = 28;

pub const SPATIAL_DIRECT_LIST1_ZERO: usize = 29;

pub const SPATIAL_DIRECT_BOTH_REFERENCE_ZERO: usize = 30;

pub const SPATIAL_DIRECT_ZERO_NEIGHBOUR_TRIPLET: usize = 31;

pub const CABAC_DECISIONS: usize = 32;

pub const CABAC_MPS_NO_RENORMALIZATION: usize = 33;

pub const CABAC_MPS_RENORMALIZATION: usize = 34;

pub const CABAC_LPS: usize = 35;

/// What inter prediction and entropy decoding did, counted modulo 2^64.
#[derive(Debug, Clone, Copy, PartialEq, Eq)]
pub struct InterPredictionProfile {
    counters: [u64; 36],
}

impl Default for InterPredictionProfile {
    fn default() -> (profile: Self)
        ensures
            profile@ == Seq::new(36, |i: int| 0u64),
    {
        let profile = InterPredictionProfile { counters: [0u64; 36] };
        assert(profile@ =~= Seq::new(36, |i: int| 0u64));
        profile
    }
}

impl View for InterPredictionProfile {
    type V = Seq<u64>;

    closed spec fn view(&self) -> Seq<u64> {
        self.counters@
    }
}

/// The counters with one of them raised.
pub open spec fn raised(counters: Seq<u64>, index: int, value: u64) -> Seq<u64> {
    counters.update(index, counters[index].wrapping_add(value))
}

/// The counters with one of them raised where a condition holds.
pub open spec fn raised_if(condition: bool, counters: Seq<u64>, index: int, value: u64) -> Seq<
    u64,
> {
    if condition {
        raised(counters, index, value)
    } else {
        counters
    }
}

/// The counters after a prediction: its size and width.
pub open spec fn with_size(counters: Seq<u64>, width: u8, luma_pixels: u64) -> Seq<u64> {
    let counted = raised(
        raised(raised(counters, CALLS as int, 1), LUMA_PIXELS as int, luma_pixels),
        CHROMA_PIXELS as int,
        luma_pixels / 2,
    );
    if width == 4 {
        raised(counted, WIDTH_4 as int, 1)
    } else if width == 8 {
        raised(counted, WIDTH_8 as int, 1)
    } else if width == 16 {
        raised(counted, WIDTH_16 as int, 1)
    } else {
        counted
    }
}

/// The counters after a luma prediction, by the directions it interpolates in.
pub open spec fn with_luma(
    counters: Seq<u64>,
    fraction_x: u8,
    fraction_y: u8,
    clipped: bool,
    pixels: u64,
) -> Seq<u64> {
    let (calls, work) = if fraction_x == 0 && fraction_y == 0 {
        (LUMA_INTEGER_CALLS, LUMA_INTEGER_PIXELS)
    } else if fraction_y == 0 {
        (LUMA_HORIZONTAL_CALLS, LUMA_HORIZONTAL_PIXELS)
    } else if fraction_x == 0 {
        (LUMA_VERTICAL_CALLS, LUMA_VERTICAL_PIXELS)
    } else {
        (LUMA_TWO_DIMENSIONAL_CALLS, LUMA_TWO_DIMENSIONAL_PIXELS)
    };
    let counted = raised(raised(counters, calls as int, 1), work as int, pixels);
    raised_if(
        clipped,
        raised_if(clipped, counted, LUMA_CLIPPED_CALLS as int, 1),
        LUMA_CLIPPED_PIXELS as int,
        pixels,
    )
}

/// The counters after a chroma prediction.
pub open spec fn with_chroma(
    counters: Seq<u64>,
    fraction_x: u8,
    fraction_y: u8,
    clipped: bool,
    pixels: u64,
) -> Seq<u64> {
    let (calls, work) = if fraction_x == 0 && fraction_y == 0 {
        (CHROMA_INTEGER_CALLS, CHROMA_INTEGER_PIXELS)
    } else {
        (CHROMA_BILINEAR_CALLS, CHROMA_BILINEAR_PIXELS)
    };
    let counted = raised(raised(counters, calls as int, 1), work as int, pixels);
    raised_if(
        clipped,
        raised_if(clipped, counted, CHROMA_CLIPPED_CALLS as int, 1),
        CHROMA_CLIPPED_PIXELS as int,
        pixels,
    )
}

/// The counters after a uniform spatial Direct prediction.
pub open spec fn with_uniform_direct(
    counters: Seq<u64>,
    list0_zero: bool,
    list1_zero: bool,
    both_reference_zero: bool,
) -> Seq<u64> {
    let counted = raised(
        raised(counters, SPATIAL_DIRECT_MACROBLOCKS as int, 1),
        SPATIAL_DIRECT_UNIFORM_PREDICTION as int,
        1,
    );
    raised_if(
        both_reference_zero,
        raised_if(
            list0_zero && list1_zero,
            raised_if(
                list1_zero,
                raised_if(list0_zero, counted, SPATIAL_DIRECT_LIST0_ZERO as int, 1),
                SPATIAL_DIRECT_LIST1_ZERO as int,
                1,
            ),
            SPATIAL_DIRECT_BOTH_ZERO as int,
            1,
        ),
        SPATIAL_DIRECT_BOTH_REFERENCE_ZERO as int,
        1,
    )
}

/// The counters after a spatial Direct grid of which `mask` tells the zero
/// cells.
pub open spec fn with_direct_grid(counters: Seq<u64>, cell_count: usize, mask: u16) -> Seq<u64> {
    raised(
        raised(counters, SPATIAL_DIRECT_MACROBLOCKS as int, 1),
        if mask == 0 {
            SPATIAL_DIRECT_COL_ZERO_CLEAR as int
        } else if mask == 0xffffu16 >> ((16 - cell_count) as usize) {
            SPATIAL_DIRECT_COL_ZERO_SET as int
        } else {
            SPATIAL_DIRECT_COL_ZERO_MIXED as int
        },
        1,
    )
}

/// The counters after a group of three neighbours without motion.
pub open spec fn with_zero_triplet(counters: Seq<u64>) -> Seq<u64> {
    raised(counters, SPATIAL_DIRECT_ZERO_NEIGHBOUR_TRIPLET as int, 1)
}

/// The counters after a CABAC decision.
pub open spec fn with_decision(counters: Seq<u64>, lps: bool, renormalized: bool) -> Seq<u64> {
    raised(
        raised(counters, CABAC_DECISIONS as int, 1),
        if lps {
            CABAC_LPS as int
        } else if renormalized {
            CABAC_MPS_RENORMALIZATION as int
        } else {
            CABAC_MPS_NO_RENORMALIZATION as int
        },
        1,
    )
}

/// A counter in decimal.
pub open spec fn shown(counters: Seq<u64>, index: usize) -> Seq<char> {
    decimal(counters[index as int] as nat)
}

/// The calls and pixels.
pub open spec fn calls_line(counters: Seq<u64>) -> Seq<char> {
    "inter prediction: "@
        + shown(counters, CALLS)
        + " calls, "@
        + shown(counters, LUMA_PIXELS)
        + " luma pixels, "@
        + shown(counters, CHROMA_PIXELS)
        + " chroma pixels\n"@
}

/// The calls by width.
pub open spec fn widths_line(counters: Seq<u64>) -> Seq<char> {
    "  widths: 4="@
        + shown(counters, WIDTH_4)
        + " 8="@
        + shown(counters, WIDTH_8)
        + " 16="@
        + shown(counters, WIDTH_16)
        + "\n"@
}

/// The luma calls by filter.
pub open spec fn luma_calls_line(counters: Seq<u64>) -> Seq<char> {
    "  luma calls: integer="@
        + shown(counters, LUMA_INTEGER_CALLS)
        + " horizontal="@
        + shown(counters, LUMA_HORIZONTAL_CALLS)
        + " vertical="@
        + shown(counters, LUMA_VERTICAL_CALLS)
        + " 2d="@
        + shown(counters, LUMA_TWO_DIMENSIONAL_CALLS)
        + " clipped="@
        + shown(counters, LUMA_CLIPPED_CALLS)
        + "\n"@
}

/// The luma pixels by filter.
pub open spec fn luma_pixels_line(counters: Seq<u64>, percentages: Seq<String>) -> Seq<char> {
    "  luma pixels: integer="@
        + shown(counters, LUMA_INTEGER_PIXELS)
        + " ("@
        + percentages[0]@
        + "%) horizontal="@
        + shown(counters, LUMA_HORIZONTAL_PIXELS)
        + " ("@
        + percentages[1]@
        + "%) vertical="@
        + shown(counters, LUMA_VERTICAL_PIXELS)
        + " ("@
        + percentages[2]@
        + "%) 2d="@
        + shown(counters, LUMA_TWO_DIMENSIONAL_PIXELS)
        + " ("@
        + percentages[3]@
        + "%) clipped="@
        + shown(counters, LUMA_CLIPPED_PIXELS)
        + " ("@
        + percentages[4]@
        + "%)\n"@
}

/// The chroma calls by filter.
pub open spec fn chroma_calls_line(counters: Seq<u64>) -> Seq<char> {
    "  chroma calls: integer="@
        + shown(counters, CHROMA_INTEGER_CALLS)
        + " bilinear="@
        + shown(counters, CHROMA_BILINEAR_CALLS)
        + " clipped="@
        + shown(counters, CHROMA_CLIPPED_CALLS)
        + "\n"@
}

/// The chroma pixels by filter.
pub open spec fn chroma_pixels_line(counters: Seq<u64>, percentages: Seq<String>) -> Seq<char> {
    "  chroma pixels: integer="@
        + shown(counters, CHROMA_INTEGER_PIXELS)
        + " ("@
        + percentages[5]@
        + "%) bilinear="@
        + shown(counters, CHROMA_BILINEAR_PIXELS)
        + " ("@
        + percentages[6]@
        + "%) clipped="@
        + shown(counters, CHROMA_CLIPPED_PIXELS)
        + " ("@
        + percentages[7]@
        + "%)\n"@
}

/// The spatial Direct macroblocks.
pub open spec fn direct_line(counters: Seq<u64>) -> Seq<char> {
    "spatial Direct: macroblocks="@
        + shown(counters, SPATIAL_DIRECT_MACROBLOCKS)
        + " prediction-uniform="@
        + shown(counters, SPATIAL_DIRECT_UNIFORM_PREDICTION)
        + " col-zero-clear="@
        + shown(counters, SPATIAL_DIRECT_COL_ZERO_CLEAR)
        + " col-zero-set="@
        + shown(counters, SPATIAL_DIRECT_COL_ZERO_SET)
        + " col-zero-mixed="@
        + shown(counters, SPATIAL_DIRECT_COL_ZERO_MIXED)
        + "\n"@
}

/// The uniform spatial Direct predictions.
pub open spec fn uniform_line(counters: Seq<u64>) -> Seq<char> {
    "  uniform predictions: both-zero="@
        + shown(counters, SPATIAL_DIRECT_BOTH_ZERO)
        + " list0-zero="@
        + shown(counters, SPATIAL_DIRECT_LIST0_ZERO)
        + " list1-zero="@
        + shown(counters, SPATIAL_DIRECT_LIST1_ZERO)
        + " both-reference-zero="@
        + shown(counters, SPATIAL_DIRECT_BOTH_REFERENCE_ZERO)
        + " zero-neighbour-triplet="@
        + shown(counters, SPATIAL_DIRECT_ZERO_NEIGHBOUR_TRIPLET)
        + "\n"@
}

/// The CABAC decisions.
pub open spec fn cabac_line(counters: Seq<u64>, percentages: Seq<String>) -> Seq<char> {
    "CABAC decisions: total="@
        + shown(counters, CABAC_DECISIONS)
        + " MPS-no-renorm="@
        + shown(counters, CABAC_MPS_NO_RENORMALIZATION)
        + " ("@
        + percentages[8]@
        + "%) MPS-renorm="@
        + shown(counters, CABAC_MPS_RENORMALIZATION)
        + " ("@
        + percentages[9]@
        + "%) LPS="@
        + shown(counters, CABAC_LPS)
        + " ("@
        + percentages[10]@
        + "%)"@
}

/// The whole report.
pub open spec fn report(counters: Seq<u64>, percentages: Seq<String>) -> Seq<char> {
    calls_line(counters)
        + widths_line(counters)
        + luma_calls_line(counters)
        + luma_pixels_line(counters, percentages)
        + chroma_calls_line(counters)
        + chroma_pixels_line(counters, percentages)
        + direct_line(counters)
        + uniform_line(counters)
        + cabac_line(counters, percentages)
}

/// The parts and wholes of the percentages of the report, in its order.
pub open spec fn shares_of(counters: Seq<u64>) -> Seq<(u64, u64)> {
    seq![
        (counters[LUMA_INTEGER_PIXELS as int], counters[LUMA_PIXELS as int]),
        (counters[LUMA_HORIZONTAL_PIXELS as int], counters[LUMA_PIXELS as int]),
        (counters[LUMA_VERTICAL_PIXELS as int], counters[LUMA_PIXELS as int]),
        (counters[LUMA_TWO_DIMENSIONAL_PIXELS as int], counters[LUMA_PIXELS as int]),
        (counters[LUMA_CLIPPED_PIXELS as int], counters[LUMA_PIXELS as int]),
        (counters[CHROMA_INTEGER_PIXELS as int], counters[CHROMA_PIXELS as int]),
        (counters[CHROMA_BILINEAR_PIXELS as int], counters[CHROMA_PIXELS as int]),
        (counters[CHROMA_CLIPPED_PIXELS as int], counters[CHROMA_PIXELS as int]),
        (counters[CABAC_MPS_NO_RENORMALIZATION as int], counters[CABAC_DECISIONS as int]),
        (counters[CABAC_MPS_RENORMALIZATION as int], counters[CABAC_DECISIONS as int]),
        (counters[CABAC_LPS as int], counters[CABAC_DECISIONS as int]),
    ]
}

impl InterPredictionProfile {
    fn counter(&self, index: usize) -> (value: u64)
        requires
            index < 36,
        ensures
            value == self@[index as int],
    {
        self.counters[index]
    }

    fn counter_text(&self, index: usize) -> (text: String)
        requires
            index < 36,
        ensures
            text@ == shown(self@, index),
    {
        decimal_text(self.counters[index])
    }

    fn increment(&mut self, index: usize, value: u64)
        requires
            index < 36,
        ensures
            final(self)@ == raised(old(self)@, index as int, value),
    {
        let ghost before = self@;
        self.counters[index] = self.counters[index].wrapping_add(value);
        assert(self@ =~= raised(before, index as int, value));
    }

    /// Sets every counter to zero.
    pub fn reset(&mut self)
        ensures
            final(self)@ == Seq::new(36, |i: int| 0u64),
    {
        self.counters = [0u64; 36];
        assert(self@ =~= Seq::new(36, |i: int| 0u64));
    }

    pub fn record_inter_prediction(
        &mut self,
        width: u8,
        height: u8,
        luma_fraction_x: u8,
        luma_fraction_y: u8,
        luma_clipped: bool,
        chroma_fraction_x: u8,
        chroma_fraction_y: u8,
        chroma_clipped: bool,
    )
        ensures
            final(self)@ == with_chroma(
                with_luma(
                    with_size(old(self)@, width, (width * height) as u64),
                    luma_fraction_x,
                    luma_fraction_y,
                    luma_clipped,
                    (width * height) as u64,
                ),
                chroma_fraction_x,
                chroma_fraction_y,
                chroma_clipped,
                ((width * height) / 2) as u64,
            ),
    {
        assert(0 <= width * height <= 65025) by (nonlinear_arith)
            requires
                0 <= width <= 255,
                0 <= height <= 255,
        ;
        let luma_pixels: u64 = width as u64 * height as u64;
        let chroma_pixels: u64 = luma_pixels / 2;
        self.increment(CALLS, 1);
        self.increment(LUMA_PIXELS, luma_pixels);
        self.increment(CHROMA_PIXELS, chroma_pixels);
        if width == 4 {
            self.increment(WIDTH_4, 1);
        } else if width == 8 {
            self.increment(WIDTH_8, 1);
        } else if width == 16 {
            self.increment(WIDTH_16, 1);
        }
        let (luma_calls, luma_work): (usize, usize) = if luma_fraction_x == 0 && luma_fraction_y
            == 0 {
            (LUMA_INTEGER_CALLS, LUMA_INTEGER_PIXELS)
        } else if luma_fraction_y == 0 {
            (LUMA_HORIZONTAL_CALLS, LUMA_HORIZONTAL_PIXELS)
        } else if luma_fraction_x == 0 {
            (LUMA_VERTICAL_CALLS, LUMA_VERTICAL_PIXELS)
        } else {
            (LUMA_TWO_DIMENSIONAL_CALLS, LUMA_TWO_DIMENSIONAL_PIXELS)
        };
        self.increment(luma_calls, 1);
        self.increment(luma_work, luma_pixels);
        if luma_clipped {
            self.increment(LUMA_CLIPPED_CALLS, 1);
            self.increment(LUMA_CLIPPED_PIXELS, luma_pixels);
        }
        let (chroma_calls, chroma_work): (usize, usize) = if chroma_fraction_x == 0
            && chroma_fraction_y == 0 {
            (CHROMA_INTEGER_CALLS, CHROMA_INTEGER_PIXELS)
        } else {
            (CHROMA_BILINEAR_CALLS, CHROMA_BILINEAR_PIXELS)
        };
        self.increment(chroma_calls, 1);
        self.increment(chroma_work, chroma_pixels);
        if chroma_clipped {
            self.increment(CHROMA_CLIPPED_CALLS, 1);
            self.increment(CHROMA_CLIPPED_PIXELS, chroma_pixels);
        }
    }

    pub fn record_spatial_direct_uniform_prediction(
        &mut self,
        list0_zero: bool,
        list1_zero: bool,
        both_reference_zero: bool,
    )
        ensures
            final(self)@ == with_uniform_direct(
                old(self)@,
                list0_zero,
                list1_zero,
                both_reference_zero,
            ),
    {
        self.increment(SPATIAL_DIRECT_MACROBLOCKS, 1);
        self.increment(SPATIAL_DIRECT_UNIFORM_PREDICTION, 1);
        if list0_zero {
            self.increment(SPATIAL_DIRECT_LIST0_ZERO, 1);
        }
        if list1_zero {
            self.increment(SPATIAL_DIRECT_LIST1_ZERO, 1);
        }
        if list0_zero && list1_zero {
            self.increment(SPATIAL_DIRECT_BOTH_ZERO, 1);
        }
        if both_reference_zero {
            self.increment(SPATIAL_DIRECT_BOTH_REFERENCE_ZERO, 1);
        }
    }

    pub fn record_spatial_direct_col_zero_grid(&mut self, cell_count: usize, mask: u16)
        requires
            1 <= cell_count <= 16,
        ensures
            final(self)@ == with_direct_grid(old(self)@, cell_count, mask),
    {
        self.increment(SPATIAL_DIRECT_MACROBLOCKS, 1);
        let all_set: u16 = 0xffffu16 >> (16 - cell_count);
        let index: usize = if mask == 0 {
            SPATIAL_DIRECT_COL_ZERO_CLEAR
        } else if mask == all_set {
            SPATIAL_DIRECT_COL_ZERO_SET
        } else {
            SPATIAL_DIRECT_COL_ZERO_MIXED
        };
        self.increment(index, 1);
    }

    pub fn record_spatial_direct_zero_neighbour_triplet(&mut self)
        ensures
            final(self)@ == with_zero_triplet(old(self)@),
    {
        self.increment(SPATIAL_DIRECT_ZERO_NEIGHBOUR_TRIPLET, 1);
    }

    pub fn record_cabac_decision(&mut self, lps: bool, renormalized: bool)
        ensures
            final(self)@ == with_decision(old(self)@, lps, renormalized),
    {
        self.increment(CABAC_DECISIONS, 1);
        let index: usize = if lps {
            CABAC_LPS
        } else if renormalized {
            CABAC_MPS_RENORMALIZATION
        } else {
            CABAC_MPS_NO_RENORMALIZATION
        };
        self.increment(index, 1);
    }

    /// The parts and wholes of the percentages that the report shows, in its
    /// order. A whole may be zero.
    pub fn shares(&self) -> (shares: Vec<(u64, u64)>)
        ensures
            shares@ == shares_of(self@),
    {
        let mut shares: Vec<(u64, u64)> = Vec::with_capacity(11);
        shares.push((self.counter(LUMA_INTEGER_PIXELS), self.counter(LUMA_PIXELS)));
        shares.push((self.counter(LUMA_HORIZONTAL_PIXELS), self.counter(LUMA_PIXELS)));
        shares.push((self.counter(LUMA_VERTICAL_PIXELS), self.counter(LUMA_PIXELS)));
        shares.push((self.counter(LUMA_TWO_DIMENSIONAL_PIXELS), self.counter(LUMA_PIXELS)));
        shares.push((self.counter(LUMA_CLIPPED_PIXELS), self.counter(LUMA_PIXELS)));
        shares.push((self.counter(CHROMA_INTEGER_PIXELS), self.counter(CHROMA_PIXELS)));
        shares.push((self.counter(CHROMA_BILINEAR_PIXELS), self.counter(CHROMA_PIXELS)));
        shares.push((self.counter(CHROMA_CLIPPED_PIXELS), self.counter(CHROMA_PIXELS)));
        shares.push((self.counter(CABAC_MPS_NO_RENORMALIZATION), self.counter(CABAC_DECISIONS)));
        shares.push((self.counter(CABAC_MPS_RENORMALIZATION), self.counter(CABAC_DECISIONS)));
        shares.push((self.counter(CABAC_LPS), self.counter(CABAC_DECISIONS)));
        assert(shares@ =~= shares_of(self@));
        shares
    }

    fn calls_line_text(&self) -> (text: String)
        ensures
            text@ == calls_line(self@),
    {
        let mut text: String = String::from_str("inter prediction: ");
        text.append(self.counter_text(CALLS).as_str());
        text.append(" calls, ");
        text.append(self.counter_text(LUMA_PIXELS).as_str());
        text.append(" luma pixels, ");
        text.append(self.counter_text(CHROMA_PIXELS).as_str());
        text.append(" chroma pixels\n");
        text
    }

    fn widths_line_text(&self) -> (text: String)
        ensures
            text@ == widths_line(self@),
    {
        let mut text: String = String::from_str("  widths: 4=");
        text.append(self.counter_text(WIDTH_4).as_str());
        text.append(" 8=");
        text.append(self.counter_text(WIDTH_8).as_str());
        text.append(" 16=");
        text.append(self.counter_text(WIDTH_16).as_str());
        text.append("\n");
        text
    }

    fn luma_calls_line_text(&self) -> (text: String)
        ensures
            text@ == luma_calls_line(self@),
    {
        let mut text: String = String::from_str("  luma calls: integer=");
        text.append(self.counter_text(LUMA_INTEGER_CALLS).as_str());
        text.append(" horizontal=");
        text.append(self.counter_text(LUMA_HORIZONTAL_CALLS).as_str());
        text.append(" vertical=");
        text.append(self.counter_text(LUMA_VERTICAL_CALLS).as_str());
        text.append(" 2d=");
        text.append(self.counter_text(LUMA_TWO_DIMENSIONAL_CALLS).as_str());
        text.append(" clipped=");
        text.append(self.counter_text(LUMA_CLIPPED_CALLS).as_str());
        text.append("\n");
        text
    }

    fn luma_pixels_line_text(&self, percentages: &Vec<String>) -> (text: String)
        requires
            percentages.len() == 11,
        ensures
            text@ == luma_pixels_line(self@, percentages@),
    {
        let mut text: String = String::from_str("  luma pixels: integer=");
        text.append(self.counter_text(LUMA_INTEGER_PIXELS).as_str());
        text.append(" (");
        text.append(percentages[0].as_str());
        text.append("%) horizontal=");
        text.append(self.counter_text(LUMA_HORIZONTAL_PIXELS).as_str());
        text.append(" (");
        text.append(percentages[1].as_str());
        text.append("%) vertical=");
        text.append(self.counter_text(LUMA_VERTICAL_PIXELS).as_str());
        text.append(" (");
        text.append(percentages[2].as_str());
        text.append("%) 2d=");
        text.append(self.counter_text(LUMA_TWO_DIMENSIONAL_PIXELS).as_str());
        text.append(" (");
        text.append(percentages[3].as_str());
        text.append("%) clipped=");
        text.append(self.counter_text(LUMA_CLIPPED_PIXELS).as_str());
        text.append(" (");
        text.append(percentages[4].as_str());
        text.append("%)\n");
        text
    }

    fn chroma_calls_line_text(&self) -> (text: String)
        ensures
            text@ == chroma_calls_line(self@),
    {
        let mut text: String = String::from_str("  chroma calls: integer=");
        text.append(self.counter_text(CHROMA_INTEGER_CALLS).as_str());
        text.append(" bilinear=");
        text.append(self.counter_text(CHROMA_BILINEAR_CALLS).as_str());
        text.append(" clipped=");
        text.append(self.counter_text(CHROMA_CLIPPED_CALLS).as_str());
        text.append("\n");
        text
    }

    fn chroma_pixels_line_text(&self, percentages: &Vec<String>) -> (text: String)
        requires
            percentages.len() == 11,
        ensures
            text@ == chroma_pixels_line(self@, percentages@),
    {
        let mut text: String = String::from_str("  chroma pixels: integer=");
        text.append(self.counter_text(CHROMA_INTEGER_PIXELS).as_str());
        text.append(" (");
        text.append(percentages[5].as_str());
        text.append("%) bilinear=");
        text.append(self.counter_text(CHROMA_BILINEAR_PIXELS).as_str());
        text.append(" (");
        text.append(percentages[6].as_str());
        text.append("%) clipped=");
        text.append(self.counter_text(CHROMA_CLIPPED_PIXELS).as_str());
        text.append(" (");
        text.append(percentages[7].as_str());
        text.append("%)\n");
        text
    }

    fn direct_line_text(&self) -> (text: String)
        ensures
            text@ == direct_line(self@),
    {
        let mut text: String = String::from_str("spatial Direct: macroblocks=");
        text.append(self.counter_text(SPATIAL_DIRECT_MACROBLOCKS).as_str());
        text.append(" prediction-uniform=");
        text.append(self.counter_text(SPATIAL_DIRECT_UNIFORM_PREDICTION).as_str());
        text.append(" col-zero-clear=");
        text.append(self.counter_text(SPATIAL_DIRECT_COL_ZERO_CLEAR).as_str());
        text.append(" col-zero-set=");
        text.append(self.counter_text(SPATIAL_DIRECT_COL_ZERO_SET).as_str());
        text.append(" col-zero-mixed=");
        text.append(self.counter_text(SPATIAL_DIRECT_COL_ZERO_MIXED).as_str());
        text.append("\n");
        text
    }

    fn uniform_line_text(&self) -> (text: String)
        ensures
            text@ == uniform_line(self@),
    {
        let mut text: String = String::from_str("  uniform predictions: both-zero=");
        text.append(self.counter_text(SPATIAL_DIRECT_BOTH_ZERO).as_str());
        text.append(" list0-zero=");
        text.append(self.counter_text(SPATIAL_DIRECT_LIST0_ZERO).as_str());
        text.append(" list1-zero=");
        text.append(self.counter_text(SPATIAL_DIRECT_LIST1_ZERO).as_str());
        text.append(" both-reference-zero=");
        text.append(self.counter_text(SPATIAL_DIRECT_BOTH_REFERENCE_ZERO).as_str());
        text.append(" zero-neighbour-triplet=");
        text.append(self.counter_text(SPATIAL_DIRECT_ZERO_NEIGHBOUR_TRIPLET).as_str());
        text.append("\n");
        text
    }

    fn cabac_line_text(&self, percentages: &Vec<String>) -> (text: String)
        requires
            percentages.len() == 11,
        ensures
            text@ == cabac_line(self@, percentages@),
    {
        let mut text: String = String::from_str("CABAC decisions: total=");
        text.append(self.counter_text(CABAC_DECISIONS).as_str());
        text.append(" MPS-no-renorm=");
        text.append(self.counter_text(CABAC_MPS_NO_RENORMALIZATION).as_str());
        text.append(" (");
        text.append(percentages[8].as_str());
        text.append("%) MPS-renorm=");
        text.append(self.counter_text(CABAC_MPS_RENORMALIZATION).as_str());
        text.append(" (");
        text.append(percentages[9].as_str());
        text.append("%) LPS=");
        text.append(self.counter_text(CABAC_LPS).as_str());
        text.append(" (");
        text.append(percentages[10].as_str());
        text.append("%)");
        text
    }

    /// The report of the counters, with the percentages of `shares` as text.
    pub fn to_string(&self, percentages: &Vec<String>) -> (text: String)
        requires
            percentages.len() == 11,
        ensures
            text@ == report(self@, percentages@),
    {
        let mut text: String = self.calls_line_text();
        text.append(self.widths_line_text().as_str());
        text.append(self.luma_calls_line_text().as_str());
        text.append(self.luma_pixels_line_text(percentages).as_str());
        text.append(self.chroma_calls_line_text().as_str());
        text.append(self.chroma_pixels_line_text(percentages).as_str());
        text.append(self.direct_line_text().as_str());
        text.append(self.uniform_line_text().as_str());
        text.append(self.cabac_line_text(percentages).as_str());
        text
    }
}

} // verus!
