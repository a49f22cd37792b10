//! Macroblock syntax, state, and reconstruction orchestration.

use vstd::prelude::*;

use super::bits::{
    begins, follows, follows_view, lemma_same_bits, lemma_same_flag, lemma_same_ue, same_step,
    BitReader, Cursor,
};
use super::error::{H264Error, Result};

verus! {

const INTRA_CODED_BLOCK_PATTERNS_420: [u8; 48] = [
    47, 31, 15, 0, 23, 27, 29, 30, 7, 11, 13, 14, 39, 43, 45, 46, 16, 3, 5, 10, 12, 19, 21, 26, 28,
    35, 37, 42, 44, 1, 2, 4, 8, 17, 18, 20, 24, 6, 9, 22, 25, 32, 33, 34, 36, 40, 38, 41,
];

const INTER_CODED_BLOCK_PATTERNS_420: [u8; 48] = [
    0, 16, 1, 2, 4, 8, 32, 3, 5, 10, 12, 15, 47, 7, 11, 13, 14, 6, 9, 31, 35, 37, 42, 44, 33, 34,
    36, 40, 39, 43, 45, 46, 17, 18, 20, 24, 19, 21, 26, 28, 23, 27, 29, 30, 22, 25, 38, 41,
];

/// The coefficients of one transform block in scan order.
#[derive(Debug, Clone, Copy, PartialEq, Eq)]
pub struct ResidualBlock {
    pub coefficients: [i32; 16],
    /// How many coefficients the block may have: 4, 15 or 16.
    pub max_num_coeff: u8,
    /// How many coefficients are not zero.
    pub total_coeff: u8,
}

impl ResidualBlock {
    /// A block of at most `max_num_coeff` coefficients, all of them zero.
    pub fn empty(max_num_coeff: u8) -> (block: Self)
        ensures
            block.max_num_coeff == max_num_coeff,
            block.total_coeff == 0,
            forall|i: int| 0 <= i < 16 ==> block.coefficients[i] == 0,
    {
        ResidualBlock { coefficients: [0i32; 16], max_num_coeff, total_coeff: 0 }
    }
}

#[derive(Debug, Clone, Copy, PartialEq, Eq, Structural)]
pub struct CodedBlockPattern {
    /// Four bits, one for each 8x8 luma region.
    pub luma: u8,
    /// Zero means no chroma coefficients, one adds DC, and two adds DC + AC.
    pub chroma: u8,
}

impl CodedBlockPattern {
    /// Whether any coefficients are coded.
    pub open spec fn coded(self) -> bool {
        self.luma != 0 || self.chroma != 0
    }

    #[inline]
    pub fn has_residual(self) -> (coded: bool)
        ensures
            coded == self.coded(),
    {
        self.luma != 0 || self.chroma != 0
    }
}

#[derive(Debug, Clone, Copy, PartialEq, Eq)]
pub struct IntraPredictionModeSyntax {
    /// Use the mode predicted from the neighbouring blocks.
    pub use_predicted: bool,
    /// The three-bit rem_intra prediction mode when `use_predicted` is false.
    pub remaining_mode: Option<u8>,
}

#[derive(Debug, Clone, Copy, PartialEq, Eq)]
pub enum IntraLumaPrediction {
    FourByFour([IntraPredictionModeSyntax; 16]),
    EightByEight([IntraPredictionModeSyntax; 4]),
    SixteenBySixteen { mode: u8 },
}

/// A luma prediction with its modes as a sequence.
pub enum LumaPredictionView {
    FourByFour(Seq<IntraPredictionModeSyntax>),
    EightByEight(Seq<IntraPredictionModeSyntax>),
    SixteenBySixteen { mode: u8 },
}

impl View for IntraLumaPrediction {
    type V = LumaPredictionView;

    open spec fn view(&self) -> LumaPredictionView {
        match self {
            IntraLumaPrediction::FourByFour(modes) => LumaPredictionView::FourByFour(modes@),
            IntraLumaPrediction::EightByEight(modes) => LumaPredictionView::EightByEight(modes@),
            IntraLumaPrediction::SixteenBySixteen { mode } => {
                LumaPredictionView::SixteenBySixteen { mode: *mode }
            },
        }
    }
}

#[derive(Debug, Clone, Copy, PartialEq, Eq)]
pub struct IntraMacroblockHeader {
    pub luma_prediction: IntraLumaPrediction,
    pub chroma_prediction_mode: u8,
    pub coded_block_pattern: CodedBlockPattern,
    /// Zero when mb_qp_delta is absent and therefore inferred.
    pub qp_delta: i8,
}

/// An intra header with its modes as a sequence.
pub struct IntraHeaderView {
    pub luma_prediction: LumaPredictionView,
    pub chroma_prediction_mode: u8,
    pub coded_block_pattern: CodedBlockPattern,
    pub qp_delta: i8,
}

impl View for IntraMacroblockHeader {
    type V = IntraHeaderView;

    open spec fn view(&self) -> IntraHeaderView {
        IntraHeaderView {
            luma_prediction: self.luma_prediction@,
            chroma_prediction_mode: self.chroma_prediction_mode,
            coded_block_pattern: self.coded_block_pattern,
            qp_delta: self.qp_delta,
        }
    }
}

impl IntraMacroblockHeader {
    /// Whether residual syntax follows: always after a 16x16 prediction.
    #[inline]
    pub fn has_residual(&self) -> (coded: bool)
        ensures
            coded == (self.luma_prediction is SixteenBySixteen || self.coded_block_pattern.coded()),
    {
        match self.luma_prediction {
            IntraLumaPrediction::SixteenBySixteen { .. } => true,
            _ => self.coded_block_pattern.has_residual(),
        }
    }
}

#[derive(Debug, Clone, PartialEq, Eq)]
pub struct PcmMacroblock {
    pub luma: Box<[u8; 256]>,
    /// Interleaved only in syntax order: 64 Cb samples followed by 64 Cr.
    pub chroma: Box<[u8; 128]>,
}

#[derive(Debug, Clone, PartialEq, Eq)]
pub enum IntraMacroblock {
    Predicted(IntraMacroblockHeader),
    Pcm(PcmMacroblock),
}

/// An intra macroblock with its modes and samples as sequences.
pub enum IntraMacroblockView {
    Predicted(IntraHeaderView),
    Pcm { luma: Seq<u8>, chroma: Seq<u8> },
}

impl View for IntraMacroblock {
    type V = IntraMacroblockView;

    open spec fn view(&self) -> IntraMacroblockView {
        match self {
            IntraMacroblock::Predicted(header) => IntraMacroblockView::Predicted(header@),
            IntraMacroblock::Pcm(samples) => IntraMacroblockView::Pcm {
                luma: (*samples.luma)@,
                chroma: (*samples.chroma)@,
            },
        }
    }
}

#[derive(Debug, Clone, Copy, PartialEq, Eq)]
pub struct IntraResidual {
    pub luma_dc: Option<ResidualBlock>,
    pub luma: [ResidualBlock; 16],
    pub chroma_dc: [ResidualBlock; 2],
    pub chroma_ac: [[ResidualBlock; 4]; 2],
}

#[derive(Debug, Clone, Copy, PartialEq, Eq)]
pub struct InterResidual {
    pub luma: [ResidualBlock; 16],
    pub chroma_dc: [ResidualBlock; 2],
    pub chroma_ac: [[ResidualBlock; 4]; 2],
}

#[derive(Debug, Clone, PartialEq, Eq)]
pub struct DecodedIntraMacroblock {
    pub macroblock: IntraMacroblock,
    /// Present for predicted macroblocks and absent for I_PCM.
    pub residual: Option<IntraResidual>,
}

#[derive(Debug, Clone, Copy, PartialEq, Eq, Structural)]
pub struct MotionVectorDifference {
    /// Horizontal displacement difference in quarter-luma-sample units.
    pub x: i16,
    /// Vertical displacement difference in quarter-luma-sample units.
    pub y: i16,
}

#[derive(Debug, Clone, Copy, PartialEq, Eq, Structural)]
#[allow(non_camel_case_types)]
pub enum PSubMacroblockType {
    L0_8x8,
    L0_8x4,
    L0_4x8,
    L0_4x4,
}

impl PSubMacroblockType {
    /// Into how many partitions the 8x8 region is divided.
    pub open spec fn count(self) -> nat {
        match self {
            PSubMacroblockType::L0_8x8 => 1,
            PSubMacroblockType::L0_8x4 | PSubMacroblockType::L0_4x8 => 2,
            PSubMacroblockType::L0_4x4 => 4,
        }
    }

    /// The width and height of its partitions.
    pub open spec fn size(self) -> (u8, u8) {
        match self {
            PSubMacroblockType::L0_8x8 => (8, 8),
            PSubMacroblockType::L0_8x4 => (8, 4),
            PSubMacroblockType::L0_4x8 => (4, 8),
            PSubMacroblockType::L0_4x4 => (4, 4),
        }
    }

    #[inline]
    pub fn partition_count(self) -> (count: usize)
        ensures
            count == self.count(),
    {
        match self {
            PSubMacroblockType::L0_8x8 => 1,
            PSubMacroblockType::L0_8x4 | PSubMacroblockType::L0_4x8 => 2,
            PSubMacroblockType::L0_4x4 => 4,
        }
    }

    #[inline]
    pub fn partition_size(self) -> (size: (u8, u8))
        ensures
            size == self.size(),
    {
        match self {
            PSubMacroblockType::L0_8x8 => (8, 8),
            PSubMacroblockType::L0_8x4 => (8, 4),
            PSubMacroblockType::L0_4x8 => (4, 8),
            PSubMacroblockType::L0_4x4 => (4, 4),
        }
    }
}

#[derive(Debug, Clone, Copy, PartialEq, Eq)]
#[allow(non_camel_case_types)]
pub enum PPartitionMode {
    L0_16x16,
    L0_16x8,
    L0_8x16,
    L0_8x8 { sub_macroblocks: [PSubMacroblockType; 4], reference_index_forced_zero: bool },
}

#[derive(Debug, Clone, PartialEq, Eq)]
pub struct PPartitionMotion {
    pub reference_index: u8,
    /// One entry for ordinary macroblock partitions, or one per sub-partition
    /// for P_8x8/P_8x8ref0.
    pub differences: Vec<MotionVectorDifference>,
}

/// The motion of a P partition with its differences as a sequence.
pub struct PMotionView {
    pub reference_index: u8,
    pub differences: Seq<MotionVectorDifference>,
}

impl View for PPartitionMotion {
    type V = PMotionView;

    open spec fn view(&self) -> PMotionView {
        PMotionView { reference_index: self.reference_index, differences: self.differences@ }
    }
}

/// The views of P partitions.
pub open spec fn p_motions(partitions: Seq<PPartitionMotion>) -> Seq<PMotionView> {
    partitions.map_values(|partition: PPartitionMotion| partition@)
}

#[derive(Debug, Clone, PartialEq, Eq)]
pub struct PInterMacroblockHeader {
    pub partition_mode: PPartitionMode,
    pub partitions: Vec<PPartitionMotion>,
    pub coded_block_pattern: CodedBlockPattern,
    pub transform_size_8x8: bool,
    /// Zero when `mb_qp_delta` is absent and inferred.
    pub qp_delta: i8,
}

/// A P header with its lists as sequences.
pub struct PHeaderView {
    pub partition_mode: PPartitionMode,
    pub partitions: Seq<PMotionView>,
    pub coded_block_pattern: CodedBlockPattern,
    pub transform_size_8x8: bool,
    pub qp_delta: i8,
}

impl View for PInterMacroblockHeader {
    type V = PHeaderView;

    open spec fn view(&self) -> PHeaderView {
        PHeaderView {
            partition_mode: self.partition_mode,
            partitions: p_motions(self.partitions@),
            coded_block_pattern: self.coded_block_pattern,
            transform_size_8x8: self.transform_size_8x8,
            qp_delta: self.qp_delta,
        }
    }
}

#[derive(Debug, Clone, PartialEq, Eq)]
pub enum PSliceMacroblock {
    Inter(PInterMacroblockHeader),
    Intra(IntraMacroblock),
}

/// A macroblock of a P slice with its lists as sequences.
pub enum PMacroblockView {
    Inter(PHeaderView),
    Intra(IntraMacroblockView),
}

impl View for PSliceMacroblock {
    type V = PMacroblockView;

    open spec fn view(&self) -> PMacroblockView {
        match self {
            PSliceMacroblock::Inter(header) => PMacroblockView::Inter(header@),
            PSliceMacroblock::Intra(macroblock) => PMacroblockView::Intra(macroblock@),
        }
    }
}

#[derive(Debug, Clone, PartialEq, Eq)]
pub enum DecodedPSliceMacroblock {
    Inter { header: PInterMacroblockHeader, residual: InterResidual },
    Intra(DecodedIntraMacroblock),
}

/// Syntax context needed to decode a frame-coded CAVLC P macroblock.
#[derive(Debug, Clone, Copy, PartialEq, Eq, Structural)]
pub struct PMacroblockContext {
    pub num_ref_idx_l0_active: u8,
    pub transform_8x8_mode_enabled: bool,
}

#[derive(Debug, Clone, Copy, PartialEq, Eq, Structural)]
pub enum BPredictionMode {
    Direct,
    List0,
    List1,
    Bi,
}

impl BPredictionMode {
    /// Whether the first or the second list is used.
    pub open spec fn uses(self, second: bool) -> bool {
        self is Bi || if second {
            self is List1
        } else {
            self is List0
        }
    }

    #[inline]
    pub fn uses_list0(self) -> (used: bool)
        ensures
            used == self.uses(false),
    {
        match self {
            BPredictionMode::List0 | BPredictionMode::Bi => true,
            _ => false,
        }
    }

    #[inline]
    pub fn uses_list1(self) -> (used: bool)
        ensures
            used == self.uses(true),
    {
        match self {
            BPredictionMode::List1 | BPredictionMode::Bi => true,
            _ => false,
        }
    }
}

#[derive(Debug, Clone, Copy, PartialEq, Eq, Structural)]
#[allow(non_camel_case_types)]
pub enum BSubMacroblockType {
    Direct8x8,
    List0_8x8,
    List1_8x8,
    Bi8x8,
    List0_8x4,
    List0_4x8,
    List1_8x4,
    List1_4x8,
    Bi8x4,
    Bi4x8,
    List0_4x4,
    List1_4x4,
    Bi4x4,
}

impl BSubMacroblockType {
    /// The sub-macroblock type with the code `value`.
    pub open spec fn of_code(value: u32) -> Option<BSubMacroblockType> {
        match value {
            0 => Some(BSubMacroblockType::Direct8x8),
            1 => Some(BSubMacroblockType::List0_8x8),
            2 => Some(BSubMacroblockType::List1_8x8),
            3 => Some(BSubMacroblockType::Bi8x8),
            4 => Some(BSubMacroblockType::List0_8x4),
            5 => Some(BSubMacroblockType::List0_4x8),
            6 => Some(BSubMacroblockType::List1_8x4),
            7 => Some(BSubMacroblockType::List1_4x8),
            8 => Some(BSubMacroblockType::Bi8x4),
            9 => Some(BSubMacroblockType::Bi4x8),
            10 => Some(BSubMacroblockType::List0_4x4),
            11 => Some(BSubMacroblockType::List1_4x4),
            12 => Some(BSubMacroblockType::Bi4x4),
            _ => None,
        }
    }

    /// Which lists the sub-macroblock uses.
    pub open spec fn mode(self) -> BPredictionMode {
        match self {
            BSubMacroblockType::Direct8x8 => BPredictionMode::Direct,
            BSubMacroblockType::List0_8x8
            | BSubMacroblockType::List0_8x4
            | BSubMacroblockType::List0_4x8
            | BSubMacroblockType::List0_4x4 => BPredictionMode::List0,
            BSubMacroblockType::List1_8x8
            | BSubMacroblockType::List1_8x4
            | BSubMacroblockType::List1_4x8
            | BSubMacroblockType::List1_4x4 => BPredictionMode::List1,
            BSubMacroblockType::Bi8x8
            | BSubMacroblockType::Bi8x4
            | BSubMacroblockType::Bi4x8
            | BSubMacroblockType::Bi4x4 => BPredictionMode::Bi,
        }
    }

    /// The width and height of its partitions.
    pub open spec fn size(self) -> (u8, u8) {
        match self {
            BSubMacroblockType::Direct8x8
            | BSubMacroblockType::List0_8x8
            | BSubMacroblockType::List1_8x8
            | BSubMacroblockType::Bi8x8 => (8, 8),
            BSubMacroblockType::List0_8x4
            | BSubMacroblockType::List1_8x4
            | BSubMacroblockType::Bi8x4 => (8, 4),
            BSubMacroblockType::List0_4x8
            | BSubMacroblockType::List1_4x8
            | BSubMacroblockType::Bi4x8 => (4, 8),
            BSubMacroblockType::List0_4x4
            | BSubMacroblockType::List1_4x4
            | BSubMacroblockType::Bi4x4 => (4, 4),
        }
    }

    /// Into how many partitions the 8x8 region is divided.
    pub open spec fn count(self) -> nat {
        if self.size() == (8u8, 8u8) {
            1
        } else if self.size() == (4u8, 4u8) {
            4
        } else {
            2
        }
    }

    #[inline]
    pub fn prediction(self) -> (mode: BPredictionMode)
        ensures
            mode == self.mode(),
    {
        match self {
            BSubMacroblockType::Direct8x8 => BPredictionMode::Direct,
            BSubMacroblockType::List0_8x8
            | BSubMacroblockType::List0_8x4
            | BSubMacroblockType::List0_4x8
            | BSubMacroblockType::List0_4x4 => BPredictionMode::List0,
            BSubMacroblockType::List1_8x8
            | BSubMacroblockType::List1_8x4
            | BSubMacroblockType::List1_4x8
            | BSubMacroblockType::List1_4x4 => BPredictionMode::List1,
            BSubMacroblockType::Bi8x8
            | BSubMacroblockType::Bi8x4
            | BSubMacroblockType::Bi4x8
            | BSubMacroblockType::Bi4x4 => BPredictionMode::Bi,
        }
    }

    #[inline]
    pub fn partition_count(self) -> (count: usize)
        ensures
            count == self.count(),
    {
        match self {
            BSubMacroblockType::Direct8x8
            | BSubMacroblockType::List0_8x8
            | BSubMacroblockType::List1_8x8
            | BSubMacroblockType::Bi8x8 => 1,
            BSubMacroblockType::List0_8x4
            | BSubMacroblockType::List0_4x8
            | BSubMacroblockType::List1_8x4
            | BSubMacroblockType::List1_4x8
            | BSubMacroblockType::Bi8x4
            | BSubMacroblockType::Bi4x8 => 2,
            BSubMacroblockType::List0_4x4
            | BSubMacroblockType::List1_4x4
            | BSubMacroblockType::Bi4x4 => 4,
        }
    }

    #[inline]
    pub fn partition_size(self) -> (size: (u8, u8))
        ensures
            size == self.size(),
    {
        match self {
            BSubMacroblockType::Direct8x8
            | BSubMacroblockType::List0_8x8
            | BSubMacroblockType::List1_8x8
            | BSubMacroblockType::Bi8x8 => (8, 8),
            BSubMacroblockType::List0_8x4
            | BSubMacroblockType::List1_8x4
            | BSubMacroblockType::Bi8x4 => (8, 4),
            BSubMacroblockType::List0_4x8
            | BSubMacroblockType::List1_4x8
            | BSubMacroblockType::Bi4x8 => (4, 8),
            BSubMacroblockType::List0_4x4
            | BSubMacroblockType::List1_4x4
            | BSubMacroblockType::Bi4x4 => (4, 4),
        }
    }
}

/// The partitions of a sub-macroblock cover its 8x8 samples.
pub proof fn law_sub_macroblock_partitions_cover(p: PSubMacroblockType, b: BSubMacroblockType)
    ensures
        p.count() * (p.size().0 * p.size().1) == 64,
        b.count() * (b.size().0 * b.size().1) == 64,
{
    lemma_cover(p.count() as int, p.size().0 as int, p.size().1 as int);
    lemma_cover(b.count() as int, b.size().0 as int, b.size().1 as int);
}

proof fn lemma_cover(count: int, width: int, height: int)
    by (nonlinear_arith)
    requires
        (count == 1 && width == 8 && height == 8) || (count == 2 && width == 8 && height == 4) || (
        count == 2 && width == 4 && height == 8) || (count == 4 && width == 4 && height == 4),
    ensures
        count * (width * height) == 64,
{
}

#[derive(Debug, Clone, Copy, PartialEq, Eq)]
pub enum BPartitionMode {
    Direct16x16,
    SixteenBySixteen,
    SixteenByEight,
    EightBySixteen,
    EightByEight { sub_macroblocks: [BSubMacroblockType; 4] },
}

#[derive(Debug, Clone, PartialEq, Eq)]
pub struct BPartitionMotion {
    pub prediction: BPredictionMode,
    pub reference_index_l0: Option<u8>,
    pub reference_index_l1: Option<u8>,
    /// Empty for an unused list or Direct; otherwise one entry for an
    /// ordinary macroblock partition or one per sub-macroblock partition.
    pub differences_l0: Vec<MotionVectorDifference>,
    pub differences_l1: Vec<MotionVectorDifference>,
}

/// The motion of a B partition with its differences as sequences.
pub struct BMotionView {
    pub prediction: BPredictionMode,
    pub reference_index_l0: Option<u8>,
    pub reference_index_l1: Option<u8>,
    pub differences_l0: Seq<MotionVectorDifference>,
    pub differences_l1: Seq<MotionVectorDifference>,
}

impl BMotionView {
    /// A partition of which only the mode is known.
    pub open spec fn empty(prediction: BPredictionMode) -> BMotionView {
        BMotionView {
            prediction,
            reference_index_l0: None,
            reference_index_l1: None,
            differences_l0: Seq::empty(),
            differences_l1: Seq::empty(),
        }
    }

    /// The partition with the reference of one list.
    pub open spec fn with_reference(self, second: bool, index: u8) -> BMotionView {
        if second {
            BMotionView { reference_index_l1: Some(index), ..self }
        } else {
            BMotionView { reference_index_l0: Some(index), ..self }
        }
    }

    /// The partition with the differences of one list.
    pub open spec fn with_differences(
        self,
        second: bool,
        differences: Seq<MotionVectorDifference>,
    ) -> BMotionView {
        if second {
            BMotionView { differences_l1: differences, ..self }
        } else {
            BMotionView { differences_l0: differences, ..self }
        }
    }
}

impl View for BPartitionMotion {
    type V = BMotionView;

    open spec fn view(&self) -> BMotionView {
        BMotionView {
            prediction: self.prediction,
            reference_index_l0: self.reference_index_l0,
            reference_index_l1: self.reference_index_l1,
            differences_l0: self.differences_l0@,
            differences_l1: self.differences_l1@,
        }
    }
}

/// The views of B partitions.
pub open spec fn b_motions(partitions: Seq<BPartitionMotion>) -> Seq<BMotionView> {
    partitions.map_values(|partition: BPartitionMotion| partition@)
}

#[derive(Debug, Clone, PartialEq, Eq)]
pub struct BInterMacroblockHeader {
    pub partition_mode: BPartitionMode,
    pub partitions: Vec<BPartitionMotion>,
    pub coded_block_pattern: CodedBlockPattern,
    pub transform_size_8x8: bool,
    /// Zero when `mb_qp_delta` is absent and inferred.
    pub qp_delta: i8,
}

/// A B header with its lists as sequences.
pub struct BHeaderView {
    pub partition_mode: BPartitionMode,
    pub partitions: Seq<BMotionView>,
    pub coded_block_pattern: CodedBlockPattern,
    pub transform_size_8x8: bool,
    pub qp_delta: i8,
}

impl View for BInterMacroblockHeader {
    type V = BHeaderView;

    open spec fn view(&self) -> BHeaderView {
        BHeaderView {
            partition_mode: self.partition_mode,
            partitions: b_motions(self.partitions@),
            coded_block_pattern: self.coded_block_pattern,
            transform_size_8x8: self.transform_size_8x8,
            qp_delta: self.qp_delta,
        }
    }
}

#[derive(Debug, Clone, PartialEq, Eq)]
pub enum BSliceMacroblock {
    Inter(BInterMacroblockHeader),
    Intra(IntraMacroblock),
}

/// A macroblock of a B slice with its lists as sequences.
pub enum BMacroblockView {
    Inter(BHeaderView),
    Intra(IntraMacroblockView),
}

impl View for BSliceMacroblock {
    type V = BMacroblockView;

    open spec fn view(&self) -> BMacroblockView {
        match self {
            BSliceMacroblock::Inter(header) => BMacroblockView::Inter(header@),
            BSliceMacroblock::Intra(macroblock) => BMacroblockView::Intra(macroblock@),
        }
    }
}

#[derive(Debug, Clone, PartialEq, Eq)]
pub enum DecodedBSliceMacroblock {
    Inter { header: BInterMacroblockHeader, residual: InterResidual },
    Intra(DecodedIntraMacroblock),
}

/// Syntax context needed to decode a frame-coded CAVLC B macroblock.
#[derive(Debug, Clone, Copy, PartialEq, Eq, Structural)]
pub struct BMacroblockContext {
    pub num_ref_idx_l0_active: u8,
    pub num_ref_idx_l1_active: u8,
    pub transform_8x8_mode_enabled: bool,
    pub direct_8x8_inference: bool,
}

/// Reads one intra prediction mode.
pub open spec fn prediction_mode_syntax(cursor: Cursor) -> (IntraPredictionModeSyntax, Cursor) {
    let (use_predicted, cursor) = cursor.flag();
    if use_predicted {
        (IntraPredictionModeSyntax { use_predicted, remaining_mode: None }, cursor)
    } else {
        let (mode, cursor) = cursor.bits(3);
        (IntraPredictionModeSyntax { use_predicted, remaining_mode: Some(mode as u8) }, cursor)
    }
}

fn parse_intra_prediction_mode(reader: &mut BitReader<'_>) -> (result: Result<
    IntraPredictionModeSyntax,
>)
    ensures
        follows(result, *final(reader), prediction_mode_syntax(old(reader).cursor())),
        final(reader).data() == old(reader).data(),
{
    let use_predicted = reader.read_bit()?;
    let remaining_mode: Option<u8> = if use_predicted {
        None
    } else {
        Some(reader.read_bits(3)? as u8)
    };
    Ok(IntraPredictionModeSyntax { use_predicted, remaining_mode })
}

/// Reads prediction modes until there are `count` of them.
pub open spec fn prediction_modes_syntax(
    cursor: Cursor,
    count: nat,
    modes: Seq<IntraPredictionModeSyntax>,
) -> (Seq<IntraPredictionModeSyntax>, Cursor)
    decreases count - modes.len(),
{
    if cursor.error is Some || modes.len() >= count {
        (modes, cursor)
    } else {
        let (mode, cursor) = prediction_mode_syntax(cursor);
        prediction_modes_syntax(cursor, count, modes.push(mode))
    }
}

fn parse_prediction_modes<const COUNT: usize>(reader: &mut BitReader<'_>) -> (result: Result<
    [IntraPredictionModeSyntax; COUNT],
>)
    ensures
        follows_view(
            result,
            *final(reader),
            prediction_modes_syntax(old(reader).cursor(), COUNT as nat, Seq::empty()),
        ),
        final(reader).data() == old(reader).data(),
{
    let mut modes = [IntraPredictionModeSyntax { use_predicted: false, remaining_mode: None };
        COUNT];
    let mut index: usize = 0;
    assert(modes@.take(0) =~= Seq::<IntraPredictionModeSyntax>::empty());
    while index < COUNT
        invariant
            index <= COUNT,
            modes@.len() == COUNT,
            reader.data() == old(reader).data(),
            prediction_modes_syntax(old(reader).cursor(), COUNT as nat, Seq::empty())
                == prediction_modes_syntax(
                reader.cursor(),
                COUNT as nat,
                modes@.take(index as int),
            ),
        decreases COUNT - index,
    {
        proof {
            reveal_with_fuel(prediction_modes_syntax, 2);
        }
        let ghost before = modes@.take(index as int);
        let mode = parse_intra_prediction_mode(reader)?;
        modes[index] = mode;
        index = index + 1;
        assert(modes@.take(index as int) =~= before.push(mode));
    }
    assert(modes@.take(COUNT as int) =~= modes@);
    Ok(modes)
}

/// Reads the chroma prediction mode.
pub open spec fn chroma_mode_syntax(cursor: Cursor) -> (u8, Cursor) {
    let (mode, cursor) = cursor.ue();
    (
        mode as u8,
        cursor.require(mode <= 3, H264Error::InvalidSyntax("intra_chroma_pred_mode exceeds 3")),
    )
}

fn parse_chroma_prediction_mode(reader: &mut BitReader<'_>) -> (result: Result<u8>)
    ensures
        follows(result, *final(reader), chroma_mode_syntax(old(reader).cursor())),
        final(reader).data() == old(reader).data(),
{
    let mode: u32 = reader.read_ue()?;
    if mode > 3 {
        return Err(H264Error::InvalidSyntax("intra_chroma_pred_mode exceeds 3"));
    }
    Ok(mode as u8)
}

/// The coded block pattern in a table entry: sixteen times the chroma part
/// plus the luma part.
pub open spec fn pattern_of(value: u8) -> CodedBlockPattern {
    CodedBlockPattern { luma: value % 16, chroma: value / 16 }
}

/// Reads a coded block pattern by its index in a table.
pub open spec fn pattern_syntax(cursor: Cursor, table: [u8; 48]) -> (CodedBlockPattern, Cursor) {
    let (code, cursor) = cursor.ue();
    (
        pattern_of(table[code as int]),
        cursor.require(
            code <= 47,
            H264Error::InvalidSyntax("coded_block_pattern codeNum exceeds 47"),
        ),
    )
}

/// The coded block patterns of intra macroblocks, by their codes.
pub open spec fn intra_patterns() -> [u8; 48] {
    [
        47, 31, 15, 0, 23, 27, 29, 30, 7, 11, 13, 14, 39, 43, 45, 46, 16, 3, 5, 10, 12, 19, 21, 26,
        28, 35, 37, 42, 44, 1, 2, 4, 8, 17, 18, 20, 24, 6, 9, 22, 25, 32, 33, 34, 36, 40, 38, 41,
    ]
}

/// The coded block patterns of inter macroblocks, by their codes.
pub open spec fn inter_patterns() -> [u8; 48] {
    [
        0, 16, 1, 2, 4, 8, 32, 3, 5, 10, 12, 15, 47, 7, 11, 13, 14, 6, 9, 31, 35, 37, 42, 44, 33,
        34, 36, 40, 39, 43, 45, 46, 17, 18, 20, 24, 19, 21, 26, 28, 23, 27, 29, 30, 22, 25, 38, 41,
    ]
}

fn split_pattern(value: u8) -> (pattern: CodedBlockPattern)
    ensures
        pattern == pattern_of(value),
{
    assert(value & 0x0f == value % 16 && value >> 4 == value / 16) by (bit_vector);
    CodedBlockPattern { luma: value & 0x0f, chroma: value >> 4 }
}

fn parse_intra_coded_block_pattern(reader: &mut BitReader<'_>) -> (result: Result<
    CodedBlockPattern,
>)
    ensures
        follows(
            result,
            *final(reader),
            pattern_syntax(old(reader).cursor(), intra_patterns()),
        ),
        final(reader).data() == old(reader).data(),
{
    let code_num: u32 = reader.read_ue()?;
    if code_num > 47 {
        return Err(H264Error::InvalidSyntax("coded_block_pattern codeNum exceeds 47"));
    }
    Ok(split_pattern(INTRA_CODED_BLOCK_PATTERNS_420[code_num as usize]))
}

fn parse_inter_coded_block_pattern(reader: &mut BitReader<'_>) -> (result: Result<
    CodedBlockPattern,
>)
    ensures
        follows(
            result,
            *final(reader),
            pattern_syntax(old(reader).cursor(), inter_patterns()),
        ),
        final(reader).data() == old(reader).data(),
{
    let code_num: u32 = reader.read_ue()?;
    if code_num > 47 {
        return Err(H264Error::InvalidSyntax("coded_block_pattern codeNum exceeds 47"));
    }
    Ok(split_pattern(INTER_CODED_BLOCK_PATTERNS_420[code_num as usize]))
}

/// Reads the change of the quantizer.
pub open spec fn qp_delta_syntax(cursor: Cursor) -> (i8, Cursor) {
    let (delta, cursor) = cursor.se();
    (
        delta as i8,
        cursor.require(
            -26 <= delta <= 25,
            H264Error::InvalidSyntax("mb_qp_delta is outside the 8-bit range"),
        ),
    )
}

fn parse_qp_delta(reader: &mut BitReader<'_>) -> (result: Result<i8>)
    ensures
        follows(result, *final(reader), qp_delta_syntax(old(reader).cursor())),
        final(reader).data() == old(reader).data(),
{
    let delta: i32 = reader.read_se()?;
    if delta < -26 || delta > 25 {
        return Err(H264Error::InvalidSyntax("mb_qp_delta is outside the 8-bit range"));
    }
    Ok(delta as i8)
}

/// Reads an intra macroblock of 4x4 or 8x8 predictions.
#[verifier::opaque]
pub open spec fn intra_nxn_syntax(cursor: Cursor, transform_8x8_mode: bool) -> (
    IntraHeaderView,
    Cursor,
) {
    let (transform_size_8x8, cursor) = if transform_8x8_mode {
        cursor.flag()
    } else {
        (false, cursor)
    };
    let (luma_prediction, cursor) = if transform_size_8x8 {
        let (modes, cursor) = prediction_modes_syntax(cursor, 4, Seq::empty());
        (LumaPredictionView::EightByEight(modes), cursor)
    } else {
        let (modes, cursor) = prediction_modes_syntax(cursor, 16, Seq::empty());
        (LumaPredictionView::FourByFour(modes), cursor)
    };
    let (chroma_prediction_mode, cursor) = chroma_mode_syntax(cursor);
    let (coded_block_pattern, cursor) = pattern_syntax(cursor, intra_patterns());
    let (qp_delta, cursor) = if coded_block_pattern.coded() {
        qp_delta_syntax(cursor)
    } else {
        (0, cursor)
    };
    (
        IntraHeaderView { luma_prediction, chroma_prediction_mode, coded_block_pattern, qp_delta },
        cursor,
    )
}

fn parse_intra_nxn(reader: &mut BitReader<'_>, transform_8x8_mode_enabled: bool) -> (result: Result<
    IntraMacroblockHeader,
>)
    ensures
        follows_view(
            result,
            *final(reader),
            intra_nxn_syntax(old(reader).cursor(), transform_8x8_mode_enabled),
        ),
        final(reader).data() == old(reader).data(),
{
    proof {
        reveal(intra_nxn_syntax);
    }
    let transform_size_8x8 = if transform_8x8_mode_enabled {
        reader.read_bit()?
    } else {
        false
    };
    let luma_prediction = if transform_size_8x8 {
        IntraLumaPrediction::EightByEight(parse_prediction_modes::<4>(reader)?)
    } else {
        IntraLumaPrediction::FourByFour(parse_prediction_modes::<16>(reader)?)
    };
    let chroma_prediction_mode: u8 = parse_chroma_prediction_mode(reader)?;
    let coded_block_pattern = parse_intra_coded_block_pattern(reader)?;
    let qp_delta: i8 = if coded_block_pattern.has_residual() {
        parse_qp_delta(reader)?
    } else {
        0
    };
    Ok(
        IntraMacroblockHeader {
            luma_prediction,
            chroma_prediction_mode,
            coded_block_pattern,
            qp_delta,
        },
    )
}

/// Reads an intra macroblock of one 16x16 prediction. Its type gives the mode
/// and the coded block pattern.
pub open spec fn intra_16x16_syntax(cursor: Cursor, mb_type: u32) -> (IntraHeaderView, Cursor) {
    let index = mb_type - 1;
    let (chroma_prediction_mode, cursor) = chroma_mode_syntax(cursor);
    let (qp_delta, cursor) = qp_delta_syntax(cursor);
    (
        IntraHeaderView {
            luma_prediction: LumaPredictionView::SixteenBySixteen { mode: (index % 4) as u8 },
            chroma_prediction_mode,
            coded_block_pattern: CodedBlockPattern {
                luma: if index >= 12 {
                    15
                } else {
                    0
                },
                chroma: (index / 4 % 3) as u8,
            },
            qp_delta,
        },
        cursor,
    )
}

fn parse_intra_16x16(reader: &mut BitReader<'_>, mb_type: u32) -> (result: Result<
    IntraMacroblockHeader,
>)
    requires
        1 <= mb_type <= 24,
    ensures
        follows_view(result, *final(reader), intra_16x16_syntax(old(reader).cursor(), mb_type)),
        final(reader).data() == old(reader).data(),
{
    let type_index: u32 = mb_type - 1;
    let mode: u8 = (type_index % 4) as u8;
    let chroma: u8 = ((type_index / 4) % 3) as u8;
    let luma: u8 = if type_index >= 12 {
        15
    } else {
        0
    };
    let chroma_prediction_mode: u8 = parse_chroma_prediction_mode(reader)?;
    let qp_delta: i8 = parse_qp_delta(reader)?;
    Ok(
        IntraMacroblockHeader {
            luma_prediction: IntraLumaPrediction::SixteenBySixteen { mode },
            chroma_prediction_mode,
            coded_block_pattern: CodedBlockPattern { luma, chroma },
            qp_delta,
        },
    )
}

/// Reads zero bits up to the next byte.
pub open spec fn alignment_syntax(cursor: Cursor, left: nat) -> Cursor
    decreases left,
{
    if cursor.error is Some || left == 0 {
        cursor
    } else {
        let (bit, cursor) = cursor.flag();
        alignment_syntax(
            cursor.require(!bit, H264Error::InvalidSyntax("pcm_alignment_zero_bit is not zero")),
            (left - 1) as nat,
        )
    }
}

/// Reads bytes until there are `count` of them.
pub open spec fn samples_syntax(cursor: Cursor, count: nat, samples: Seq<u8>) -> (Seq<u8>, Cursor)
    decreases count - samples.len(),
{
    if cursor.error is Some || samples.len() >= count {
        (samples, cursor)
    } else {
        let (sample, cursor) = cursor.bits(8);
        samples_syntax(cursor, count, samples.push(sample as u8))
    }
}

/// Reads the aligned samples of a macroblock without prediction.
pub open spec fn pcm_syntax(cursor: Cursor) -> (IntraMacroblockView, Cursor) {
    let cursor = alignment_syntax(cursor, ((8 - cursor.position % 8) % 8) as nat);
    let (luma, cursor) = samples_syntax(cursor, 256, Seq::empty());
    let (chroma, cursor) = samples_syntax(cursor, 128, Seq::empty());
    (IntraMacroblockView::Pcm { luma, chroma }, cursor)
}

fn parse_samples<const COUNT: usize>(reader: &mut BitReader<'_>) -> (result: Result<[u8; COUNT]>)
    ensures
        follows_view(
            result,
            *final(reader),
            samples_syntax(old(reader).cursor(), COUNT as nat, Seq::empty()),
        ),
        final(reader).data() == old(reader).data(),
{
    let mut samples = [0u8; COUNT];
    let mut index: usize = 0;
    assert(samples@.take(0) =~= Seq::<u8>::empty());
    while index < COUNT
        invariant
            index <= COUNT,
            samples@.len() == COUNT,
            reader.data() == old(reader).data(),
            samples_syntax(old(reader).cursor(), COUNT as nat, Seq::empty()) == samples_syntax(
                reader.cursor(),
                COUNT as nat,
                samples@.take(index as int),
            ),
        decreases COUNT - index,
    {
        proof {
            reveal_with_fuel(samples_syntax, 2);
        }
        let ghost before = samples@.take(index as int);
        let sample: u8 = reader.read_bits(8)? as u8;
        samples[index] = sample;
        index = index + 1;
        assert(samples@.take(index as int) =~= before.push(sample));
    }
    assert(samples@.take(COUNT as int) =~= samples@);
    Ok(samples)
}

fn skip_alignment(reader: &mut BitReader<'_>) -> (result: Result<()>)
    ensures
        ({
            let start = old(reader).cursor();
            let end = alignment_syntax(start, ((8 - start.position % 8) % 8) as nat);
            match result {
                Ok(_) => end.error is None && final(reader).cursor() == end,
                Err(error) => end.error == Some(error),
            }
        }),
        final(reader).data() == old(reader).data(),
{
    let ghost start = reader.cursor();
    while reader.bit_offset() != 0
        invariant
            start == old(reader).cursor(),
            reader.data() == old(reader).data(),
            alignment_syntax(start, ((8 - start.position % 8) % 8) as nat) == alignment_syntax(
                reader.cursor(),
                ((8 - reader.position() % 8) % 8) as nat,
            ),
        decreases (8 - reader.position() % 8) % 8,
    {
        proof {
            reveal_with_fuel(alignment_syntax, 2);
        }
        if reader.read_bit()? {
            return Err(H264Error::InvalidSyntax("pcm_alignment_zero_bit is not zero"));
        }
    }
    Ok(())
}

fn parse_pcm(reader: &mut BitReader<'_>) -> (result: Result<PcmMacroblock>)
    ensures
        ({
            let (samples, cursor) = pcm_syntax(old(reader).cursor());
            match result {
                Ok(pcm) => cursor.error is None && final(reader).cursor() == cursor
                    && IntraMacroblock::Pcm(pcm)@ == samples,
                Err(error) => cursor.error == Some(error),
            }
        }),
        final(reader).data() == old(reader).data(),
{
    skip_alignment(reader)?;
    let luma = parse_samples::<256>(reader)?;
    let chroma = parse_samples::<128>(reader)?;
    Ok(PcmMacroblock { luma: Box::new(luma), chroma: Box::new(chroma) })
}

/// Reads the rest of an intra macroblock of type `mb_type`.
#[verifier::opaque]
pub open spec fn intra_type_syntax(cursor: Cursor, mb_type: u32, transform_8x8_mode: bool) -> (
    IntraMacroblockView,
    Cursor,
) {
    if mb_type == 0 {
        let (header, cursor) = intra_nxn_syntax(cursor, transform_8x8_mode);
        (IntraMacroblockView::Predicted(header), cursor)
    } else if mb_type <= 24 {
        let (header, cursor) = intra_16x16_syntax(cursor, mb_type);
        (IntraMacroblockView::Predicted(header), cursor)
    } else if mb_type == 25 {
        pcm_syntax(cursor)
    } else {
        (
            IntraMacroblockView::Pcm { luma: Seq::empty(), chroma: Seq::empty() },
            cursor.fail(H264Error::InvalidSyntax("mb_type exceeds the I-slice macroblock table")),
        )
    }
}

fn parse_intra_macroblock_type(
    reader: &mut BitReader<'_>,
    mb_type: u32,
    transform_8x8_mode_enabled: bool,
) -> (result: Result<IntraMacroblock>)
    ensures
        follows_view(
            result,
            *final(reader),
            intra_type_syntax(old(reader).cursor(), mb_type, transform_8x8_mode_enabled),
        ),
        final(reader).data() == old(reader).data(),
{
    proof {
        reveal(intra_type_syntax);
    }
    if mb_type == 0 {
        Ok(IntraMacroblock::Predicted(parse_intra_nxn(reader, transform_8x8_mode_enabled)?))
    } else if mb_type <= 24 {
        Ok(IntraMacroblock::Predicted(parse_intra_16x16(reader, mb_type)?))
    } else if mb_type == 25 {
        Ok(IntraMacroblock::Pcm(parse_pcm(reader)?))
    } else {
        Err(H264Error::InvalidSyntax("mb_type exceeds the I-slice macroblock table"))
    }
}

/// Reads a reference index among `active_count` references.
pub open spec fn reference_index_syntax(cursor: Cursor, active_count: u8) -> (u8, Cursor) {
    if active_count == 0 {
        (
            0,
            cursor.fail(H264Error::InvalidSyntax("P macroblock has no active reference pictures")),
        )
    } else if active_count == 1 {
        (0, cursor)
    } else if active_count == 2 {
        let (first, cursor) = cursor.flag();
        (
            if first {
                0
            } else {
                1
            },
            cursor,
        )
    } else {
        let (index, cursor) = cursor.ue();
        (
            index as u8,
            cursor.require(
                index < active_count,
                H264Error::InvalidSyntax("ref_idx_l0 exceeds the active reference list"),
            ),
        )
    }
}

fn parse_reference_index(reader: &mut BitReader<'_>, active_count: u8) -> (result: Result<u8>)
    ensures
        follows(
            result,
            *final(reader),
            reference_index_syntax(old(reader).cursor(), active_count),
        ),
        final(reader).data() == old(reader).data(),
{
    match active_count {
        0 => Err(H264Error::InvalidSyntax("P macroblock has no active reference pictures")),
        1 => Ok(0),
        2 => Ok(
            if reader.read_bit()? {
                0
            } else {
                1
            },
        ),
        _ => {
            let index: u32 = reader.read_ue()?;
            if index >= active_count as u32 {
                return Err(
                    H264Error::InvalidSyntax("ref_idx_l0 exceeds the active reference list"),
                );
            }
            Ok(index as u8)
        },
    }
}

/// Reads a motion vector difference.
pub open spec fn difference_syntax(cursor: Cursor) -> (MotionVectorDifference, Cursor) {
    let (x, cursor) = cursor.se();
    let (y, cursor) = cursor.se();
    let cursor = cursor.require(
        -32768 <= x <= 32767,
        H264Error::InvalidSyntax("horizontal mvd_l0 is outside the supported range"),
    );
    let cursor = cursor.require(
        -32768 <= y <= 32767,
        H264Error::InvalidSyntax("vertical mvd_l0 is outside the supported range"),
    );
    (MotionVectorDifference { x: x as i16, y: y as i16 }, cursor)
}

fn parse_motion_vector_difference(reader: &mut BitReader<'_>) -> (result: Result<
    MotionVectorDifference,
>)
    ensures
        follows(result, *final(reader), difference_syntax(old(reader).cursor())),
        final(reader).data() == old(reader).data(),
{
    let x: i32 = reader.read_se()?;
    let y: i32 = reader.read_se()?;
    if x < -32768 || x > 32767 {
        return Err(H264Error::InvalidSyntax("horizontal mvd_l0 is outside the supported range"));
    }
    if y < -32768 || y > 32767 {
        return Err(H264Error::InvalidSyntax("vertical mvd_l0 is outside the supported range"));
    }
    Ok(MotionVectorDifference { x: x as i16, y: y as i16 })
}

/// Reads differences until there are `count` of them.
pub open spec fn differences_syntax(
    cursor: Cursor,
    count: nat,
    differences: Seq<MotionVectorDifference>,
) -> (Seq<MotionVectorDifference>, Cursor)
    decreases count - differences.len(),
{
    if cursor.error is Some || differences.len() >= count {
        (differences, cursor)
    } else {
        let (difference, cursor) = difference_syntax(cursor);
        differences_syntax(cursor, count, differences.push(difference))
    }
}

fn parse_differences(reader: &mut BitReader<'_>, count: usize) -> (result: Result<
    Vec<MotionVectorDifference>,
>)
    ensures
        follows_view(
            result,
            *final(reader),
            differences_syntax(old(reader).cursor(), count as nat, Seq::empty()),
        ),
        final(reader).data() == old(reader).data(),
{
    let mut differences: Vec<MotionVectorDifference> = Vec::with_capacity(count);
    while differences.len() < count
        invariant
            differences@.len() <= count,
            reader.data() == old(reader).data(),
            differences_syntax(old(reader).cursor(), count as nat, Seq::empty())
                == differences_syntax(reader.cursor(), count as nat, differences@),
        decreases count - differences@.len(),
    {
        proof {
            reveal_with_fuel(differences_syntax, 2);
        }
        let difference = parse_motion_vector_difference(reader)?;
        differences.push(difference);
    }
    Ok(differences)
}

/// Reads reference indices until there are `count` of them.
pub open spec fn reference_indices_syntax(
    cursor: Cursor,
    count: nat,
    active_count: u8,
    indices: Seq<u8>,
) -> (Seq<u8>, Cursor)
    decreases count - indices.len(),
{
    if cursor.error is Some || indices.len() >= count {
        (indices, cursor)
    } else {
        let (index, cursor) = reference_index_syntax(cursor, active_count);
        reference_indices_syntax(cursor, count, active_count, indices.push(index))
    }
}

fn parse_reference_indices(
    reader: &mut BitReader<'_>,
    count: usize,
    active_count: u8,
) -> (result: Result<Vec<u8>>)
    ensures
        follows_view(
            result,
            *final(reader),
            reference_indices_syntax(
                old(reader).cursor(),
                count as nat,
                active_count,
                Seq::empty(),
            ),
        ),
        final(reader).data() == old(reader).data(),
        result matches Ok(indices) ==> indices@.len() == count,
{
    let mut indices: Vec<u8> = Vec::with_capacity(count);
    while indices.len() < count
        invariant
            indices@.len() <= count,
            reader.data() == old(reader).data(),
            reference_indices_syntax(
                old(reader).cursor(),
                count as nat,
                active_count,
                Seq::empty(),
            ) == reference_indices_syntax(
                reader.cursor(),
                count as nat,
                active_count,
                indices@,
            ),
        decreases count - indices@.len(),
    {
        proof {
            reveal_with_fuel(reference_indices_syntax, 2);
        }
        let index: u8 = parse_reference_index(reader, active_count)?;
        indices.push(index);
    }
    Ok(indices)
}

/// Reads the differences of P partitions, `counts[i]` for the one with the
/// reference `references[i]`.
pub open spec fn p_motions_syntax(
    cursor: Cursor,
    references: Seq<u8>,
    counts: Seq<nat>,
    partitions: Seq<PMotionView>,
) -> (Seq<PMotionView>, Cursor)
    decreases references.len() - partitions.len(),
{
    if cursor.error is Some || partitions.len() >= references.len() {
        (partitions, cursor)
    } else {
        let at = partitions.len() as int;
        let (differences, cursor) = differences_syntax(cursor, counts[at], Seq::empty());
        p_motions_syntax(
            cursor,
            references,
            counts,
            partitions.push(PMotionView { reference_index: references[at], differences }),
        )
    }
}

/// The numbers of a list of machine integers.
pub open spec fn as_counts(counts: Seq<usize>) -> Seq<nat> {
    counts.map_values(|count: usize| count as nat)
}

fn parse_p_motions(
    reader: &mut BitReader<'_>,
    references: &Vec<u8>,
    counts: &Vec<usize>,
) -> (result: Result<Vec<PPartitionMotion>>)
    requires
        references@.len() == counts@.len(),
    ensures
        ({
            let step = p_motions_syntax(
                old(reader).cursor(),
                references@,
                as_counts(counts@),
                Seq::empty(),
            );
            match result {
                Ok(partitions) => step.1.error is None && final(reader).cursor() == step.1
                    && p_motions(partitions@) == step.0,
                Err(error) => step.1.error == Some(error),
            }
        }),
        final(reader).data() == old(reader).data(),
{
    let mut partitions: Vec<PPartitionMotion> = Vec::with_capacity(references.len());
    assert(p_motions(partitions@) =~= Seq::<PMotionView>::empty());
    while partitions.len() < references.len()
        invariant
            references@.len() == counts@.len(),
            partitions@.len() <= references@.len(),
            reader.data() == old(reader).data(),
            p_motions_syntax(
                old(reader).cursor(),
                references@,
                as_counts(counts@),
                Seq::empty(),
            ) == p_motions_syntax(
                reader.cursor(),
                references@,
                as_counts(counts@),
                p_motions(partitions@),
            ),
        decreases references@.len() - partitions@.len(),
    {
        proof {
            reveal_with_fuel(p_motions_syntax, 2);
        }
        let ghost before = p_motions(partitions@);
        let index: usize = partitions.len();
        let differences = parse_differences(reader, counts[index])?;
        let partition = PPartitionMotion { reference_index: references[index], differences };
        partitions.push(partition);
        assert(p_motions(partitions@) =~= before.push(partition@));
    }
    Ok(partitions)
}

/// The same number for each of `len` partitions.
pub open spec fn ones(len: nat) -> Seq<nat> {
    Seq::new(len, |i: int| 1nat)
}

/// Reads the motion of whole P partitions: all references, then one difference
/// each.
pub open spec fn p_partitions_syntax(cursor: Cursor, count: nat, active_count: u8) -> (
    Seq<PMotionView>,
    Cursor,
) {
    let (references, cursor) = reference_indices_syntax(cursor, count, active_count, Seq::empty());
    p_motions_syntax(cursor, references, ones(references.len()), Seq::empty())
}

fn parse_macroblock_partition_motion(
    reader: &mut BitReader<'_>,
    partition_count: usize,
    num_ref_idx_l0_active: u8,
) -> (result: Result<Vec<PPartitionMotion>>)
    ensures
        ({
            let step = p_partitions_syntax(
                old(reader).cursor(),
                partition_count as nat,
                num_ref_idx_l0_active,
            );
            match result {
                Ok(partitions) => step.1.error is None && final(reader).cursor() == step.1
                    && p_motions(partitions@) == step.0,
                Err(error) => step.1.error == Some(error),
            }
        }),
        final(reader).data() == old(reader).data(),
{
    let references = parse_reference_indices(reader, partition_count, num_ref_idx_l0_active)?;
    let mut counts: Vec<usize> = Vec::with_capacity(partition_count);
    while counts.len() < references.len()
        invariant
            counts@.len() <= references@.len(),
            forall|i: int| 0 <= i < counts@.len() ==> counts@[i] == 1,
        decreases references@.len() - counts@.len(),
    {
        counts.push(1);
    }
    assert(as_counts(counts@) =~= ones(references@.len()));
    parse_p_motions(reader, &references, &counts)
}

/// Reads the type of a P sub-macroblock.
pub open spec fn p_sub_type_syntax(cursor: Cursor) -> (PSubMacroblockType, Cursor) {
    let (code, cursor) = cursor.ue();
    (
        if code == 0 {
            PSubMacroblockType::L0_8x8
        } else if code == 1 {
            PSubMacroblockType::L0_8x4
        } else if code == 2 {
            PSubMacroblockType::L0_4x8
        } else {
            PSubMacroblockType::L0_4x4
        },
        cursor.require(
            code <= 3,
            H264Error::InvalidSyntax("sub_mb_type exceeds the P-slice table"),
        ),
    )
}

fn parse_p_sub_macroblock_type(reader: &mut BitReader<'_>) -> (result: Result<PSubMacroblockType>)
    ensures
        follows(result, *final(reader), p_sub_type_syntax(old(reader).cursor())),
        final(reader).data() == old(reader).data(),
{
    let code: u32 = reader.read_ue()?;
    match code {
        0 => Ok(PSubMacroblockType::L0_8x8),
        1 => Ok(PSubMacroblockType::L0_8x4),
        2 => Ok(PSubMacroblockType::L0_4x8),
        3 => Ok(PSubMacroblockType::L0_4x4),
        _ => Err(H264Error::InvalidSyntax("sub_mb_type exceeds the P-slice table")),
    }
}

/// Reads the motion of four P sub-macroblocks: their types, then their
/// references unless those are zero, then their differences.
#[verifier::opaque]
pub open spec fn p_sub_macroblocks_syntax(cursor: Cursor, forced_zero: bool, active_count: u8) -> (
    ([PSubMacroblockType; 4], Seq<PMotionView>),
    Cursor,
) {
    let (first, cursor) = p_sub_type_syntax(cursor);
    let (second, cursor) = p_sub_type_syntax(cursor);
    let (third, cursor) = p_sub_type_syntax(cursor);
    let (fourth, cursor) = p_sub_type_syntax(cursor);
    let (references, cursor) = if forced_zero {
        (seq![0u8, 0u8, 0u8, 0u8], cursor)
    } else {
        reference_indices_syntax(cursor, 4, active_count, Seq::empty())
    };
    let (partitions, cursor) = p_motions_syntax(
        cursor,
        references,
        seq![first.count(), second.count(), third.count(), fourth.count()],
        Seq::empty(),
    );
    (([first, second, third, fourth], partitions), cursor)
}

fn parse_p_sub_macroblocks(
    reader: &mut BitReader<'_>,
    forced_zero: bool,
    active_count: u8,
) -> (result: Result<([PSubMacroblockType; 4], Vec<PPartitionMotion>)>)
    ensures
        ({
            let step = p_sub_macroblocks_syntax(old(reader).cursor(), forced_zero, active_count);
            match result {
                Ok((types, partitions)) => step.1.error is None && final(reader).cursor() == step.1
                    && step.0 == (types, p_motions(partitions@)),
                Err(error) => step.1.error == Some(error),
            }
        }),
        final(reader).data() == old(reader).data(),
{
    proof {
        reveal(p_sub_macroblocks_syntax);
    }
    let first = parse_p_sub_macroblock_type(reader)?;
    let second = parse_p_sub_macroblock_type(reader)?;
    let third = parse_p_sub_macroblock_type(reader)?;
    let fourth = parse_p_sub_macroblock_type(reader)?;
    let references: Vec<u8> = if forced_zero {
        vec![0u8, 0u8, 0u8, 0u8]
    } else {
        parse_reference_indices(reader, 4, active_count)?
    };
    assert(forced_zero ==> references@ =~= seq![0u8, 0u8, 0u8, 0u8]);
    let counts: Vec<usize> = vec![
        first.partition_count(),
        second.partition_count(),
        third.partition_count(),
        fourth.partition_count(),
    ];
    assert(as_counts(counts@) =~= seq![
        first.count(),
        second.count(),
        third.count(),
        fourth.count(),
    ]);
    let partitions = parse_p_motions(reader, &references, &counts)?;
    Ok(([first, second, third, fourth], partitions))
}

/// What follows the motion of an inter macroblock.
pub struct InterTail {
    pub coded_block_pattern: CodedBlockPattern,
    pub transform_size_8x8: bool,
    pub qp_delta: i8,
}

/// Reads the coded block pattern, the transform size where there is a choice,
/// and the quantizer change where there is a residual.
#[verifier::opaque]
pub open spec fn inter_tail_syntax(cursor: Cursor, permits_8x8: bool) -> (InterTail, Cursor) {
    let (coded_block_pattern, cursor) = pattern_syntax(cursor, inter_patterns());
    let (transform_size_8x8, cursor) = if coded_block_pattern.luma != 0 && permits_8x8 {
        cursor.flag()
    } else {
        (false, cursor)
    };
    let (qp_delta, cursor) = if coded_block_pattern.coded() {
        qp_delta_syntax(cursor)
    } else {
        (0, cursor)
    };
    (InterTail { coded_block_pattern, transform_size_8x8, qp_delta }, cursor)
}

fn parse_inter_tail(reader: &mut BitReader<'_>, permits_8x8: bool) -> (result: Result<InterTail>)
    ensures
        follows(result, *final(reader), inter_tail_syntax(old(reader).cursor(), permits_8x8)),
        final(reader).data() == old(reader).data(),
{
    proof {
        reveal(inter_tail_syntax);
    }
    let coded_block_pattern = parse_inter_coded_block_pattern(reader)?;
    let transform_size_8x8 = if coded_block_pattern.luma != 0 && permits_8x8 {
        reader.read_bit()?
    } else {
        false
    };
    let qp_delta: i8 = if coded_block_pattern.has_residual() {
        parse_qp_delta(reader)?
    } else {
        0
    };
    Ok(InterTail { coded_block_pattern, transform_size_8x8, qp_delta })
}

/// Whether all four P sub-macroblocks are undivided.
pub open spec fn undivided(types: [PSubMacroblockType; 4]) -> bool {
    types[0] is L0_8x8 && types[1] is L0_8x8 && types[2] is L0_8x8 && types[3] is L0_8x8
}

/// Reads the rest of a P inter macroblock of type `mb_type`, from 0 to 4.
#[verifier::opaque]
pub open spec fn p_inter_syntax(cursor: Cursor, mb_type: u32, context: PMacroblockContext) -> (
    PHeaderView,
    Cursor,
) {
    let active = context.num_ref_idx_l0_active;
    let ((partition_mode, partitions, permits), cursor) = if mb_type <= 2 {
        let mode = if mb_type == 0 {
            PPartitionMode::L0_16x16
        } else if mb_type == 1 {
            PPartitionMode::L0_16x8
        } else {
            PPartitionMode::L0_8x16
        };
        let count = if mb_type == 0 {
            1nat
        } else {
            2nat
        };
        let (partitions, cursor) = p_partitions_syntax(cursor, count, active);
        ((mode, partitions, true), cursor)
    } else {
        let ((types, partitions), cursor) = p_sub_macroblocks_syntax(
            cursor,
            mb_type == 4,
            active,
        );
        (
            (
                PPartitionMode::L0_8x8 {
                    sub_macroblocks: types,
                    reference_index_forced_zero: mb_type == 4,
                },
                partitions,
                undivided(types),
            ),
            cursor,
        )
    };
    let (tail, cursor) = inter_tail_syntax(cursor, context.transform_8x8_mode_enabled && permits);
    (
        PHeaderView {
            partition_mode,
            partitions,
            coded_block_pattern: tail.coded_block_pattern,
            transform_size_8x8: tail.transform_size_8x8,
            qp_delta: tail.qp_delta,
        },
        cursor,
    )
}

/// A failed cursor stays failed when the parts of a macroblock are read.
proof fn lemma_parts_keep_failure()
    ensures
        forall|cursor: Cursor, permits: bool|
            cursor.error is Some ==> (#[trigger] inter_tail_syntax(cursor, permits)).1 == cursor,
        forall|cursor: Cursor, forced: bool, active: u8|
            cursor.error is Some ==> (#[trigger] p_sub_macroblocks_syntax(
                cursor,
                forced,
                active,
            )).1 == cursor,
        forall|cursor: Cursor, mb_type: u32, mode: bool|
            cursor.error is Some ==> (#[trigger] intra_type_syntax(cursor, mb_type, mode)).1
                == cursor,
{
    reveal(inter_tail_syntax);
    reveal(p_sub_macroblocks_syntax);
    reveal(intra_type_syntax);
    reveal(intra_nxn_syntax);
}

fn parse_p_inter_macroblock(
    reader: &mut BitReader<'_>,
    mb_type: u32,
    context: PMacroblockContext,
) -> (result: Result<PInterMacroblockHeader>)
    requires
        mb_type <= 4,
    ensures
        follows_view(
            result,
            *final(reader),
            p_inter_syntax(old(reader).cursor(), mb_type, context),
        ),
        final(reader).data() == old(reader).data(),
{
    proof {
        reveal(p_inter_syntax);
        lemma_parts_keep_failure();
    }
    let active: u8 = context.num_ref_idx_l0_active;
    let (partition_mode, partitions, permits_transform_8x8): (
        PPartitionMode,
        Vec<PPartitionMotion>,
        bool,
    ) = match mb_type {
        0 => (
            PPartitionMode::L0_16x16,
            parse_macroblock_partition_motion(reader, 1, active)?,
            true,
        ),
        1 => (PPartitionMode::L0_16x8, parse_macroblock_partition_motion(reader, 2, active)?, true),
        2 => (PPartitionMode::L0_8x16, parse_macroblock_partition_motion(reader, 2, active)?, true),
        _ => {
            let forced_zero = mb_type == 4;
            let (sub_macroblocks, partitions): ([PSubMacroblockType; 4], Vec<PPartitionMotion>) =
                parse_p_sub_macroblocks(reader, forced_zero, active)?;
            let permits = sub_macroblocks[0] == PSubMacroblockType::L0_8x8 && sub_macroblocks[1]
                == PSubMacroblockType::L0_8x8 && sub_macroblocks[2] == PSubMacroblockType::L0_8x8
                && sub_macroblocks[3] == PSubMacroblockType::L0_8x8;
            (
                PPartitionMode::L0_8x8 {
                    sub_macroblocks,
                    reference_index_forced_zero: forced_zero,
                },
                partitions,
                permits,
            )
        },
    };
    let tail = parse_inter_tail(
        reader,
        context.transform_8x8_mode_enabled && permits_transform_8x8,
    )?;
    Ok(
        PInterMacroblockHeader {
            partition_mode,
            partitions,
            coded_block_pattern: tail.coded_block_pattern,
            transform_size_8x8: tail.transform_size_8x8,
            qp_delta: tail.qp_delta,
        },
    )
}

/// Reads a P-slice macroblock, of which types from 5 on are intra types.
pub open spec fn p_macroblock_syntax(cursor: Cursor, context: PMacroblockContext) -> (
    PMacroblockView,
    Cursor,
) {
    let cursor = cursor.require(
        1 <= context.num_ref_idx_l0_active <= 32,
        H264Error::InvalidSyntax("P macroblock active reference count is outside 1..=32"),
    );
    let (mb_type, cursor) = cursor.ue();
    if cursor.error is Some || mb_type <= 4 {
        let (header, next) = p_inter_syntax(cursor, mb_type, context);
        (
            PMacroblockView::Inter(header),
            if cursor.error is Some {
                cursor
            } else {
                next
            },
        )
    } else if mb_type <= 30 {
        let (macroblock, cursor) = intra_type_syntax(
            cursor,
            (mb_type - 5) as u32,
            context.transform_8x8_mode_enabled,
        );
        (PMacroblockView::Intra(macroblock), cursor)
    } else {
        (
            PMacroblockView::Intra(
                IntraMacroblockView::Pcm { luma: Seq::empty(), chroma: Seq::empty() },
            ),
            cursor.fail(H264Error::InvalidSyntax("mb_type exceeds the P-slice macroblock table")),
        )
    }
}

/// Parses one non-skipped, frame-coded CAVLC P-slice macroblock up to the
/// residual coefficient syntax.
///
/// P-slice mb_type values 5 through 30 are mapped to their I-slice
/// counterparts, including complete I_PCM sample consumption. Any failure
/// leaves the reader unchanged.
pub fn parse_cavlc_p_macroblock(reader: &mut BitReader<'_>, context: PMacroblockContext) -> (result:
    Result<PSliceMacroblock>)
    ensures
        follows_view(result, *final(reader), p_macroblock_syntax(old(reader).cursor(), context)),
        final(reader).data() == old(reader).data(),
        result is Err ==> *final(reader) == *old(reader),
{
    if context.num_ref_idx_l0_active == 0 || context.num_ref_idx_l0_active > 32 {
        return Err(
            H264Error::InvalidSyntax("P macroblock active reference count is outside 1..=32"),
        );
    }
    let mut probe = *reader;
    let mb_type: u32 = probe.read_ue()?;
    let macroblock = if mb_type <= 4 {
        PSliceMacroblock::Inter(parse_p_inter_macroblock(&mut probe, mb_type, context)?)
    } else if mb_type <= 30 {
        PSliceMacroblock::Intra(
            parse_intra_macroblock_type(
                &mut probe,
                mb_type - 5,
                context.transform_8x8_mode_enabled,
            )?,
        )
    } else {
        return Err(H264Error::InvalidSyntax("mb_type exceeds the P-slice macroblock table"));
    };
    *reader = probe;
    Ok(macroblock)
}

/// Reads an I-slice macroblock.
pub open spec fn intra_macroblock_syntax(cursor: Cursor, transform_8x8_mode: bool) -> (
    IntraMacroblockView,
    Cursor,
) {
    let (mb_type, cursor) = cursor.ue();
    intra_type_syntax(cursor, mb_type, transform_8x8_mode)
}

/// Parses the non-residual portion of one CAVLC I-slice macroblock.
///
/// For predicted macroblocks the reader stops immediately before residual
/// coefficient syntax. I_PCM samples are consumed completely. Any failure
/// leaves the reader unchanged.
pub fn parse_cavlc_intra_macroblock(
    reader: &mut BitReader<'_>,
    transform_8x8_mode_enabled: bool,
) -> (result: Result<IntraMacroblock>)
    ensures
        follows_view(
            result,
            *final(reader),
            intra_macroblock_syntax(old(reader).cursor(), transform_8x8_mode_enabled),
        ),
        final(reader).data() == old(reader).data(),
        result is Err ==> *final(reader) == *old(reader),
{
    proof {
        lemma_parts_keep_failure();
    }
    let mut probe = *reader;
    let mb_type: u32 = probe.read_ue()?;
    let macroblock = parse_intra_macroblock_type(&mut probe, mb_type, transform_8x8_mode_enabled)?;
    *reader = probe;
    Ok(macroblock)
}

/// Reads a run of skipped macroblocks, which ends inside the picture.
pub open spec fn skip_run_syntax(cursor: Cursor, remaining: nat) -> (int, Cursor) {
    let (value, cursor) = cursor.ue();
    (
        value as int,
        cursor.require(
            value <= remaining,
            H264Error::InvalidSyntax("mb_skip_run exceeds the remaining picture"),
        ),
    )
}

/// Parses CAVLC `mb_skip_run` and bounds it to the remaining picture.
pub fn parse_cavlc_mb_skip_run(reader: &mut BitReader<'_>, remaining_macroblocks: usize) -> (result:
    Result<usize>)
    ensures
        ({
            let step = skip_run_syntax(old(reader).cursor(), remaining_macroblocks as nat);
            match result {
                Ok(run) => step.1.error is None && run == step.0 && final(reader).cursor() == step.1,
                Err(error) => step.1.error == Some(error) && *final(reader) == *old(reader),
            }
        }),
        final(reader).data() == old(reader).data(),
{
    let mut probe = *reader;
    let value: u32 = probe.read_ue()?;
    if value as u64 > remaining_macroblocks as u64 {
        return Err(H264Error::InvalidSyntax("mb_skip_run exceeds the remaining picture"));
    }
    *reader = probe;
    Ok(value as usize)
}

/// Reads the references of one list for the partitions from `index` on that
/// use it.
pub open spec fn b_references_syntax(
    cursor: Cursor,
    partitions: Seq<BMotionView>,
    index: nat,
    second: bool,
    active_count: u8,
) -> (Seq<BMotionView>, Cursor)
    decreases partitions.len() - index,
{
    if cursor.error is Some || index >= partitions.len() {
        (partitions, cursor)
    } else {
        let partition = partitions[index as int];
        if partition.prediction.uses(second) {
            let (reference, cursor) = reference_index_syntax(cursor, active_count);
            b_references_syntax(
                cursor,
                partitions.update(index as int, partition.with_reference(second, reference)),
                index + 1,
                second,
                active_count,
            )
        } else {
            b_references_syntax(cursor, partitions, index + 1, second, active_count)
        }
    }
}

/// Reads the differences of one list for the partitions from `index` on that
/// use it, `counts[i]` for the partition `i`.
pub open spec fn b_differences_syntax(
    cursor: Cursor,
    partitions: Seq<BMotionView>,
    counts: Seq<nat>,
    index: nat,
    second: bool,
) -> (Seq<BMotionView>, Cursor)
    decreases partitions.len() - index,
{
    if cursor.error is Some || index >= partitions.len() {
        (partitions, cursor)
    } else {
        let partition = partitions[index as int];
        if partition.prediction.uses(second) {
            let (differences, cursor) = differences_syntax(
                cursor,
                counts[index as int],
                Seq::empty(),
            );
            b_differences_syntax(
                cursor,
                partitions.update(index as int, partition.with_differences(second, differences)),
                counts,
                index + 1,
                second,
            )
        } else {
            b_differences_syntax(cursor, partitions, counts, index + 1, second)
        }
    }
}

fn uses_list(prediction: BPredictionMode, second: bool) -> (used: bool)
    ensures
        used == prediction.uses(second),
{
    if second {
        prediction.uses_list1()
    } else {
        prediction.uses_list0()
    }
}

fn parse_b_references(
    reader: &mut BitReader<'_>,
    partitions: &mut Vec<BPartitionMotion>,
    second: bool,
    active_count: u8,
) -> (result: Result<()>)
    ensures
        ({
            let step = b_references_syntax(
                old(reader).cursor(),
                b_motions(old(partitions)@),
                0,
                second,
                active_count,
            );
            match result {
                Ok(_) => step.1.error is None && final(reader).cursor() == step.1 && b_motions(
                    final(partitions)@,
                ) == step.0,
                Err(error) => step.1.error == Some(error),
            }
        }),
        final(partitions)@.len() == old(partitions)@.len(),
        final(reader).data() == old(reader).data(),
{
    let mut index: usize = 0;
    while index < partitions.len()
        invariant
            index <= partitions@.len(),
            partitions@.len() == old(partitions)@.len(),
            reader.data() == old(reader).data(),
            b_references_syntax(
                old(reader).cursor(),
                b_motions(old(partitions)@),
                0,
                second,
                active_count,
            ) == b_references_syntax(
                reader.cursor(),
                b_motions(partitions@),
                index as nat,
                second,
                active_count,
            ),
        decreases partitions@.len() - index,
    {
        proof {
            reveal_with_fuel(b_references_syntax, 2);
        }
        let ghost before = b_motions(partitions@);
        if uses_list(partitions[index].prediction, second) {
            let reference: u8 = parse_reference_index(reader, active_count)?;
            if second {
                partitions[index].reference_index_l1 = Some(reference);
            } else {
                partitions[index].reference_index_l0 = Some(reference);
            }
            assert(b_motions(partitions@) =~= before.update(
                index as int,
                before[index as int].with_reference(second, reference),
            ));
        }
        index = index + 1;
    }
    Ok(())
}

fn parse_b_differences(
    reader: &mut BitReader<'_>,
    partitions: &mut Vec<BPartitionMotion>,
    counts: &Vec<usize>,
    second: bool,
) -> (result: Result<()>)
    requires
        counts@.len() == old(partitions)@.len(),
    ensures
        ({
            let step = b_differences_syntax(
                old(reader).cursor(),
                b_motions(old(partitions)@),
                as_counts(counts@),
                0,
                second,
            );
            match result {
                Ok(_) => step.1.error is None && final(reader).cursor() == step.1 && b_motions(
                    final(partitions)@,
                ) == step.0,
                Err(error) => step.1.error == Some(error),
            }
        }),
        final(partitions)@.len() == old(partitions)@.len(),
        final(reader).data() == old(reader).data(),
{
    let mut index: usize = 0;
    while index < partitions.len()
        invariant
            index <= partitions@.len(),
            partitions@.len() == old(partitions)@.len(),
            counts@.len() == partitions@.len(),
            reader.data() == old(reader).data(),
            b_differences_syntax(
                old(reader).cursor(),
                b_motions(old(partitions)@),
                as_counts(counts@),
                0,
                second,
            ) == b_differences_syntax(
                reader.cursor(),
                b_motions(partitions@),
                as_counts(counts@),
                index as nat,
                second,
            ),
        decreases partitions@.len() - index,
    {
        proof {
            reveal_with_fuel(b_differences_syntax, 2);
        }
        let ghost before = b_motions(partitions@);
        if uses_list(partitions[index].prediction, second) {
            let differences = parse_differences(reader, counts[index])?;
            let ghost read = differences@;
            if second {
                partitions[index].differences_l1 = differences;
            } else {
                partitions[index].differences_l0 = differences;
            }
            assert(b_motions(partitions@) =~= before.update(
                index as int,
                before[index as int].with_differences(second, read),
            ));
        }
        index = index + 1;
    }
    Ok(())
}

/// Reads the motion of B partitions with the given modes: the references of
/// each list, then the differences of each list.
#[verifier::opaque]
pub open spec fn b_motion_syntax(
    cursor: Cursor,
    modes: Seq<BPredictionMode>,
    counts: Seq<nat>,
    context: BMacroblockContext,
) -> (Seq<BMotionView>, Cursor) {
    let partitions = modes.map_values(|mode: BPredictionMode| BMotionView::empty(mode));
    let (partitions, cursor) = b_references_syntax(
        cursor,
        partitions,
        0,
        false,
        context.num_ref_idx_l0_active,
    );
    let (partitions, cursor) = b_references_syntax(
        cursor,
        partitions,
        0,
        true,
        context.num_ref_idx_l1_active,
    );
    let (partitions, cursor) = b_differences_syntax(cursor, partitions, counts, 0, false);
    b_differences_syntax(cursor, partitions, counts, 0, true)
}

#[inline]
fn empty_b_partition(prediction: BPredictionMode) -> (partition: BPartitionMotion)
    ensures
        partition@ == BMotionView::empty(prediction),
{
    BPartitionMotion {
        prediction,
        reference_index_l0: None,
        reference_index_l1: None,
        differences_l0: Vec::new(),
        differences_l1: Vec::new(),
    }
}

fn parse_b_motion(
    reader: &mut BitReader<'_>,
    modes: &Vec<BPredictionMode>,
    counts: &Vec<usize>,
    context: BMacroblockContext,
) -> (result: Result<Vec<BPartitionMotion>>)
    requires
        modes@.len() == counts@.len(),
    ensures
        ({
            let step = b_motion_syntax(
                old(reader).cursor(),
                modes@,
                as_counts(counts@),
                context,
            );
            match result {
                Ok(partitions) => step.1.error is None && final(reader).cursor() == step.1
                    && b_motions(partitions@) == step.0,
                Err(error) => step.1.error == Some(error),
            }
        }),
        final(reader).data() == old(reader).data(),
{
    proof {
        reveal(b_motion_syntax);
    }
    let mut partitions: Vec<BPartitionMotion> = Vec::with_capacity(modes.len());
    while partitions.len() < modes.len()
        invariant
            partitions@.len() <= modes@.len(),
            forall|i: int|
                0 <= i < partitions@.len() ==> (#[trigger] partitions@[i])@ == BMotionView::empty(
                    modes@[i],
                ),
        decreases modes@.len() - partitions@.len(),
    {
        let index: usize = partitions.len();
        partitions.push(empty_b_partition(modes[index]));
    }
    assert(b_motions(partitions@) =~= modes@.map_values(
        |mode: BPredictionMode| BMotionView::empty(mode),
    ));
    parse_b_references(reader, &mut partitions, false, context.num_ref_idx_l0_active)?;
    parse_b_references(reader, &mut partitions, true, context.num_ref_idx_l1_active)?;
    parse_b_differences(reader, &mut partitions, counts, false)?;
    parse_b_differences(reader, &mut partitions, counts, true)?;
    Ok(partitions)
}

/// Parses the motion of whole B partitions, one difference for each list in
/// use.
fn parse_b_partition_motion(
    reader: &mut BitReader<'_>,
    predictions: &Vec<BPredictionMode>,
    context: BMacroblockContext,
) -> (result: Result<Vec<BPartitionMotion>>)
    ensures
        ({
            let step = b_motion_syntax(
                old(reader).cursor(),
                predictions@,
                ones(predictions@.len()),
                context,
            );
            match result {
                Ok(partitions) => step.1.error is None && final(reader).cursor() == step.1
                    && b_motions(partitions@) == step.0,
                Err(error) => step.1.error == Some(error),
            }
        }),
        final(reader).data() == old(reader).data(),
{
    let mut counts: Vec<usize> = Vec::with_capacity(predictions.len());
    while counts.len() < predictions.len()
        invariant
            counts@.len() <= predictions@.len(),
            forall|i: int| 0 <= i < counts@.len() ==> counts@[i] == 1,
        decreases predictions@.len() - counts@.len(),
    {
        counts.push(1);
    }
    assert(as_counts(counts@) =~= ones(predictions@.len()));
    parse_b_motion(reader, predictions, &counts, context)
}

/// Reads the type of a B sub-macroblock.
pub open spec fn b_sub_type_syntax(cursor: Cursor) -> (BSubMacroblockType, Cursor) {
    let (code, cursor) = cursor.ue();
    let sub_type = BSubMacroblockType::of_code(code);
    (
        match sub_type {
            Some(sub_type) => sub_type,
            None => BSubMacroblockType::Direct8x8,
        },
        cursor.require(
            sub_type is Some,
            H264Error::InvalidSyntax("sub_mb_type exceeds the B-slice table"),
        ),
    )
}

fn parse_b_sub_macroblock_type(reader: &mut BitReader<'_>) -> (result: Result<BSubMacroblockType>)
    ensures
        follows(result, *final(reader), b_sub_type_syntax(old(reader).cursor())),
        final(reader).data() == old(reader).data(),
{
    let code: u32 = reader.read_ue()?;
    match code {
        0 => Ok(BSubMacroblockType::Direct8x8),
        1 => Ok(BSubMacroblockType::List0_8x8),
        2 => Ok(BSubMacroblockType::List1_8x8),
        3 => Ok(BSubMacroblockType::Bi8x8),
        4 => Ok(BSubMacroblockType::List0_8x4),
        5 => Ok(BSubMacroblockType::List0_4x8),
        6 => Ok(BSubMacroblockType::List1_8x4),
        7 => Ok(BSubMacroblockType::List1_4x8),
        8 => Ok(BSubMacroblockType::Bi8x4),
        9 => Ok(BSubMacroblockType::Bi4x8),
        10 => Ok(BSubMacroblockType::List0_4x4),
        11 => Ok(BSubMacroblockType::List1_4x4),
        12 => Ok(BSubMacroblockType::Bi4x4),
        _ => Err(H264Error::InvalidSyntax("sub_mb_type exceeds the B-slice table")),
    }
}

/// Whether a B sub-macroblock allows the 8x8 transform.
pub open spec fn permits_8x8(sub_type: BSubMacroblockType, direct_inference: bool) -> bool {
    sub_type.size() == (8u8, 8u8) && (sub_type is Direct8x8 ==> direct_inference)
}

fn allows_transform_8x8(sub_type: BSubMacroblockType, direct_inference: bool) -> (allows: bool)
    ensures
        allows == permits_8x8(sub_type, direct_inference),
{
    let (width, height): (u8, u8) = sub_type.partition_size();
    width == 8 && height == 8 && (sub_type != BSubMacroblockType::Direct8x8 || direct_inference)
}

/// Reads the motion of four B sub-macroblocks.
#[verifier::opaque]
pub open spec fn b_sub_macroblocks_syntax(cursor: Cursor, context: BMacroblockContext) -> (
    ([BSubMacroblockType; 4], Seq<BMotionView>),
    Cursor,
) {
    let (first, cursor) = b_sub_type_syntax(cursor);
    let (second, cursor) = b_sub_type_syntax(cursor);
    let (third, cursor) = b_sub_type_syntax(cursor);
    let (fourth, cursor) = b_sub_type_syntax(cursor);
    let (partitions, cursor) = b_motion_syntax(
        cursor,
        seq![first.mode(), second.mode(), third.mode(), fourth.mode()],
        seq![first.count(), second.count(), third.count(), fourth.count()],
        context,
    );
    (([first, second, third, fourth], partitions), cursor)
}

/// A failed cursor stays failed when the parts of a B macroblock are read.
proof fn lemma_b_parts_keep_failure()
    ensures
        forall|cursor: Cursor, modes: Seq<BPredictionMode>, counts: Seq<nat>, context: BMacroblockContext|
            cursor.error is Some ==> (#[trigger] b_motion_syntax(
                cursor,
                modes,
                counts,
                context,
            )).1 == cursor,
        forall|cursor: Cursor, context: BMacroblockContext|
            cursor.error is Some ==> (#[trigger] b_sub_macroblocks_syntax(cursor, context)).1
                == cursor,
        forall|cursor: Cursor, permits: bool|
            cursor.error is Some ==> (#[trigger] inter_tail_syntax(cursor, permits)).1 == cursor,
{
    reveal(b_motion_syntax);
    reveal(b_sub_macroblocks_syntax);
    lemma_parts_keep_failure();
}

fn parse_b_sub_macroblocks(reader: &mut BitReader<'_>, context: BMacroblockContext) -> (result:
    Result<([BSubMacroblockType; 4], Vec<BPartitionMotion>)>)
    ensures
        ({
            let step = b_sub_macroblocks_syntax(old(reader).cursor(), context);
            match result {
                Ok((types, partitions)) => step.1.error is None && final(reader).cursor() == step.1
                    && step.0 == (types, b_motions(partitions@)),
                Err(error) => step.1.error == Some(error),
            }
        }),
        final(reader).data() == old(reader).data(),
{
    proof {
        reveal(b_sub_macroblocks_syntax);
        lemma_b_parts_keep_failure();
    }
    let first = parse_b_sub_macroblock_type(reader)?;
    let second = parse_b_sub_macroblock_type(reader)?;
    let third = parse_b_sub_macroblock_type(reader)?;
    let fourth = parse_b_sub_macroblock_type(reader)?;
    let modes: Vec<BPredictionMode> = vec![
        first.prediction(),
        second.prediction(),
        third.prediction(),
        fourth.prediction(),
    ];
    let counts: Vec<usize> = vec![
        first.partition_count(),
        second.partition_count(),
        third.partition_count(),
        fourth.partition_count(),
    ];
    assert(modes@ =~= seq![first.mode(), second.mode(), third.mode(), fourth.mode()]);
    assert(as_counts(counts@) =~= seq![
        first.count(),
        second.count(),
        third.count(),
        fourth.count(),
    ]);
    let partitions = parse_b_motion(reader, &modes, &counts, context)?;
    Ok(([first, second, third, fourth], partitions))
}

/// The modes of the two partitions of the B macroblock types 4 to 21, by
/// pairs of types.
pub open spec fn b_pair_modes(pair: int) -> Seq<BPredictionMode> {
    let table: Seq<(BPredictionMode, BPredictionMode)> = seq![
        (BPredictionMode::List0, BPredictionMode::List0),
        (BPredictionMode::List1, BPredictionMode::List1),
        (BPredictionMode::List0, BPredictionMode::List1),
        (BPredictionMode::List1, BPredictionMode::List0),
        (BPredictionMode::List0, BPredictionMode::Bi),
        (BPredictionMode::List1, BPredictionMode::Bi),
        (BPredictionMode::Bi, BPredictionMode::List0),
        (BPredictionMode::Bi, BPredictionMode::List1),
        (BPredictionMode::Bi, BPredictionMode::Bi),
    ];
    seq![table[pair].0, table[pair].1]
}

fn pair_modes(pair: u32) -> (modes: Vec<BPredictionMode>)
    requires
        pair <= 8,
    ensures
        modes@ == b_pair_modes(pair as int),
{
    let (first, second): (BPredictionMode, BPredictionMode) = match pair {
        0 => (BPredictionMode::List0, BPredictionMode::List0),
        1 => (BPredictionMode::List1, BPredictionMode::List1),
        2 => (BPredictionMode::List0, BPredictionMode::List1),
        3 => (BPredictionMode::List1, BPredictionMode::List0),
        4 => (BPredictionMode::List0, BPredictionMode::Bi),
        5 => (BPredictionMode::List1, BPredictionMode::Bi),
        6 => (BPredictionMode::Bi, BPredictionMode::List0),
        7 => (BPredictionMode::Bi, BPredictionMode::List1),
        _ => (BPredictionMode::Bi, BPredictionMode::Bi),
    };
    let modes: Vec<BPredictionMode> = vec![first, second];
    assert(modes@ =~= b_pair_modes(pair as int));
    modes
}

/// Reads the partitions of a B inter macroblock of type `mb_type`, from 0 to
/// 22, and whether it allows the 8x8 transform.
#[verifier::opaque]
pub open spec fn b_partitions_syntax(cursor: Cursor, mb_type: u32, context: BMacroblockContext) -> (
    (BPartitionMode, Seq<BMotionView>, bool),
    Cursor,
) {
    if mb_type == 0 {
        (
            (
                BPartitionMode::Direct16x16,
                seq![BMotionView::empty(BPredictionMode::Direct)],
                context.direct_8x8_inference,
            ),
            cursor,
        )
    } else if mb_type <= 3 {
        let mode = if mb_type == 1 {
            BPredictionMode::List0
        } else if mb_type == 2 {
            BPredictionMode::List1
        } else {
            BPredictionMode::Bi
        };
        let (partitions, cursor) = b_motion_syntax(cursor, seq![mode], ones(1), context);
        ((BPartitionMode::SixteenBySixteen, partitions, true), cursor)
    } else if mb_type <= 21 {
        let (partitions, cursor) = b_motion_syntax(
            cursor,
            b_pair_modes((mb_type - 4) / 2),
            ones(2),
            context,
        );
        (
            (
                if mb_type % 2 == 0 {
                    BPartitionMode::SixteenByEight
                } else {
                    BPartitionMode::EightBySixteen
                },
                partitions,
                true,
            ),
            cursor,
        )
    } else {
        let ((types, partitions), cursor) = b_sub_macroblocks_syntax(cursor, context);
        let inference = context.direct_8x8_inference;
        (
            (
                BPartitionMode::EightByEight { sub_macroblocks: types },
                partitions,
                permits_8x8(types[0], inference) && permits_8x8(types[1], inference) && permits_8x8(
                    types[2],
                    inference,
                ) && permits_8x8(types[3], inference),
            ),
            cursor,
        )
    }
}

fn parse_b_partitions(
    reader: &mut BitReader<'_>,
    mb_type: u32,
    context: BMacroblockContext,
) -> (result: Result<(BPartitionMode, Vec<BPartitionMotion>, bool)>)
    requires
        mb_type <= 22,
    ensures
        ({
            let step = b_partitions_syntax(old(reader).cursor(), mb_type, context);
            match result {
                Ok((mode, partitions, permits)) => step.1.error is None && final(reader).cursor()
                    == step.1 && step.0 == (mode, b_motions(partitions@), permits),
                Err(error) => step.1.error == Some(error),
            }
        }),
        final(reader).data() == old(reader).data(),
{
    proof {
        reveal(b_partitions_syntax);
    }
    if mb_type == 0 {
        let partitions: Vec<BPartitionMotion> = vec![empty_b_partition(BPredictionMode::Direct)];
        assert(b_motions(partitions@) =~= seq![BMotionView::empty(BPredictionMode::Direct)]);
        return Ok((BPartitionMode::Direct16x16, partitions, context.direct_8x8_inference));
    }
    if mb_type <= 3 {
        let prediction = match mb_type {
            1 => BPredictionMode::List0,
            2 => BPredictionMode::List1,
            _ => BPredictionMode::Bi,
        };
        let modes: Vec<BPredictionMode> = vec![prediction];
        assert(modes@ =~= seq![prediction]);
        let partitions = parse_b_partition_motion(reader, &modes, context)?;
        return Ok((BPartitionMode::SixteenBySixteen, partitions, true));
    }
    if mb_type <= 21 {
        let partition_mode = if mb_type % 2 == 0 {
            BPartitionMode::SixteenByEight
        } else {
            BPartitionMode::EightBySixteen
        };
        let modes = pair_modes((mb_type - 4) / 2);
        let partitions = parse_b_partition_motion(reader, &modes, context)?;
        return Ok((partition_mode, partitions, true));
    }
    let (sub_macroblocks, partitions): ([BSubMacroblockType; 4], Vec<BPartitionMotion>) =
        parse_b_sub_macroblocks(reader, context)?;
    let inference = context.direct_8x8_inference;
    let permits = allows_transform_8x8(sub_macroblocks[0], inference) && allows_transform_8x8(
        sub_macroblocks[1],
        inference,
    ) && allows_transform_8x8(sub_macroblocks[2], inference) && allows_transform_8x8(
        sub_macroblocks[3],
        inference,
    );
    Ok((BPartitionMode::EightByEight { sub_macroblocks }, partitions, permits))
}

/// Reads the rest of a B inter macroblock of type `mb_type`, from 0 to 22.
#[verifier::opaque]
pub open spec fn b_inter_syntax(cursor: Cursor, mb_type: u32, context: BMacroblockContext) -> (
    BHeaderView,
    Cursor,
) {
    let ((partition_mode, partitions, permits), cursor) = b_partitions_syntax(
        cursor,
        mb_type,
        context,
    );
    let (tail, cursor) = inter_tail_syntax(cursor, context.transform_8x8_mode_enabled && permits);
    (
        BHeaderView {
            partition_mode,
            partitions,
            coded_block_pattern: tail.coded_block_pattern,
            transform_size_8x8: tail.transform_size_8x8,
            qp_delta: tail.qp_delta,
        },
        cursor,
    )
}

fn parse_b_inter_macroblock(
    reader: &mut BitReader<'_>,
    mb_type: u32,
    context: BMacroblockContext,
) -> (result: Result<BInterMacroblockHeader>)
    requires
        mb_type <= 22,
    ensures
        follows_view(
            result,
            *final(reader),
            b_inter_syntax(old(reader).cursor(), mb_type, context),
        ),
        final(reader).data() == old(reader).data(),
{
    proof {
        reveal(b_inter_syntax);
        lemma_parts_keep_failure();
    }
    let (partition_mode, partitions, permits_transform_8x8): (
        BPartitionMode,
        Vec<BPartitionMotion>,
        bool,
    ) = parse_b_partitions(reader, mb_type, context)?;
    let tail = parse_inter_tail(
        reader,
        context.transform_8x8_mode_enabled && permits_transform_8x8,
    )?;
    Ok(
        BInterMacroblockHeader {
            partition_mode,
            partitions,
            coded_block_pattern: tail.coded_block_pattern,
            transform_size_8x8: tail.transform_size_8x8,
            qp_delta: tail.qp_delta,
        },
    )
}

/// Reads a B-slice macroblock, of which types from 23 on are intra types.
pub open spec fn b_macroblock_syntax(cursor: Cursor, context: BMacroblockContext) -> (
    BMacroblockView,
    Cursor,
) {
    let cursor = cursor.require(
        1 <= context.num_ref_idx_l0_active <= 32 && 1 <= context.num_ref_idx_l1_active <= 32,
        H264Error::InvalidSyntax("B macroblock active reference count is outside 1..=32"),
    );
    let (mb_type, cursor) = cursor.ue();
    if cursor.error is Some || mb_type <= 22 {
        let (header, next) = b_inter_syntax(cursor, mb_type, context);
        (
            BMacroblockView::Inter(header),
            if cursor.error is Some {
                cursor
            } else {
                next
            },
        )
    } else if mb_type <= 48 {
        let (macroblock, cursor) = intra_type_syntax(
            cursor,
            (mb_type - 23) as u32,
            context.transform_8x8_mode_enabled,
        );
        (BMacroblockView::Intra(macroblock), cursor)
    } else {
        (
            BMacroblockView::Intra(
                IntraMacroblockView::Pcm { luma: Seq::empty(), chroma: Seq::empty() },
            ),
            cursor.fail(H264Error::InvalidSyntax("mb_type exceeds the B-slice macroblock table")),
        )
    }
}

/// Parses one non-skipped, frame-coded CAVLC B-slice macroblock up to the
/// residual coefficient syntax.
///
/// B-slice mb_type values 23 through 48 are mapped to their I-slice
/// counterparts. Any failure leaves the reader unchanged.
pub fn parse_cavlc_b_macroblock(reader: &mut BitReader<'_>, context: BMacroblockContext) -> (result:
    Result<BSliceMacroblock>)
    ensures
        follows_view(result, *final(reader), b_macroblock_syntax(old(reader).cursor(), context)),
        final(reader).data() == old(reader).data(),
        result is Err ==> *final(reader) == *old(reader),
{
    if context.num_ref_idx_l0_active == 0 || context.num_ref_idx_l0_active > 32
        || context.num_ref_idx_l1_active == 0 || context.num_ref_idx_l1_active > 32 {
        return Err(
            H264Error::InvalidSyntax("B macroblock active reference count is outside 1..=32"),
        );
    }
    let mut probe = *reader;
    let mb_type: u32 = probe.read_ue()?;
    let macroblock = if mb_type <= 22 {
        BSliceMacroblock::Inter(parse_b_inter_macroblock(&mut probe, mb_type, context)?)
    } else if mb_type <= 48 {
        BSliceMacroblock::Intra(
            parse_intra_macroblock_type(
                &mut probe,
                mb_type - 23,
                context.transform_8x8_mode_enabled,
            )?,
        )
    } else {
        return Err(H264Error::InvalidSyntax("mb_type exceeds the B-slice macroblock table"));
    };
    *reader = probe;
    Ok(macroblock)
}

/// Intra macroblocks are coded alike in I, P and B slices, with their type
/// raised by 5 in P slices and by 23 in B slices.
pub proof fn law_intra_types_are_shared(
    cursor: Cursor,
    p: PMacroblockContext,
    b: BMacroblockContext,
)
    requires
        cursor.ue().1.error is None,
        1 <= p.num_ref_idx_l0_active <= 32,
        1 <= b.num_ref_idx_l0_active <= 32,
        1 <= b.num_ref_idx_l1_active <= 32,
    ensures
        5 <= cursor.ue().0 <= 30 ==> p_macroblock_syntax(cursor, p) == ({
            let (macroblock, next) = intra_type_syntax(
                cursor.ue().1,
                (cursor.ue().0 - 5) as u32,
                p.transform_8x8_mode_enabled,
            );
            (PMacroblockView::Intra(macroblock), next)
        }),
        23 <= cursor.ue().0 <= 48 ==> b_macroblock_syntax(cursor, b) == ({
            let (macroblock, next) = intra_type_syntax(
                cursor.ue().1,
                (cursor.ue().0 - 23) as u32,
                b.transform_8x8_mode_enabled,
            );
            (BMacroblockView::Intra(macroblock), next)
        }),
{
}

/// The type of a P macroblock tells what it is: up to 4 it is predicted from other
/// pictures, up to 30 it is an intra macroblock, and any other type is refused.
pub proof fn law_p_types_are_told_apart(cursor: Cursor, context: PMacroblockContext)
    requires
        cursor.ue().1.error is None,
        1 <= context.num_ref_idx_l0_active <= 32,
    ensures
        ({
            let (macroblock, next) = p_macroblock_syntax(cursor, context);
            &&& cursor.ue().0 <= 4 ==> macroblock is Inter
            &&& 4 < cursor.ue().0 <= 30 ==> macroblock is Intra
            &&& cursor.ue().0 > 30 ==> (next.error matches Some(error) && error is InvalidSyntax)
        }),
{
}

/// The type of a B macroblock tells what it is: up to 22 it is predicted from other
/// pictures, up to 48 it is an intra macroblock, and any other type is refused.
pub proof fn law_b_types_are_told_apart(cursor: Cursor, context: BMacroblockContext)
    requires
        cursor.ue().1.error is None,
        1 <= context.num_ref_idx_l0_active <= 32,
        1 <= context.num_ref_idx_l1_active <= 32,
    ensures
        ({
            let (macroblock, next) = b_macroblock_syntax(cursor, context);
            &&& cursor.ue().0 <= 22 ==> macroblock is Inter
            &&& 22 < cursor.ue().0 <= 48 ==> macroblock is Intra
            &&& cursor.ue().0 > 48 ==> (next.error matches Some(error) && error is InvalidSyntax)
        }),
{
}

/// Prediction modes are read alike.
proof fn lemma_same_modes(
    short: Cursor,
    long: Cursor,
    count: nat,
    modes: Seq<IntraPredictionModeSyntax>,
)
    requires
        begins(short, long),
    ensures
        same_step(
            prediction_modes_syntax(short, count, modes),
            prediction_modes_syntax(long, count, modes),
        ),
    decreases count - modes.len(),
{
    reveal_with_fuel(prediction_modes_syntax, 2);
    if modes.len() < count {
        let (mode, next) = prediction_mode_syntax(short);
        if next.error is None {
            lemma_same_flag(short, long);
            lemma_same_bits(short.flag().1, long.flag().1, 3);
            lemma_same_modes(next, prediction_mode_syntax(long).1, count, modes.push(mode));
        }
    }
}

/// Alignment bits are read alike.
proof fn lemma_same_alignment(short: Cursor, long: Cursor, left: nat)
    requires
        begins(short, long),
    ensures
        alignment_syntax(short, left).error is None ==> begins(
            alignment_syntax(short, left),
            alignment_syntax(long, left),
        ),
    decreases left,
{
    reveal_with_fuel(alignment_syntax, 2);
    if left > 0 {
        lemma_same_flag(short, long);
        let (bit, next) = short.flag();
        if next.error is None && !bit {
            lemma_same_alignment(next, long.flag().1, (left - 1) as nat);
        }
    }
}

/// Samples are read alike.
proof fn lemma_same_samples(short: Cursor, long: Cursor, count: nat, samples: Seq<u8>)
    requires
        begins(short, long),
    ensures
        same_step(samples_syntax(short, count, samples), samples_syntax(long, count, samples)),
    decreases count - samples.len(),
{
    reveal_with_fuel(samples_syntax, 2);
    if samples.len() < count {
        lemma_same_bits(short, long, 8);
        let (sample, next) = short.bits(8);
        if next.error is None {
            lemma_same_samples(next, long.bits(8).1, count, samples.push(sample as u8));
        }
    }
}

/// Intra macroblocks of 4x4 or 8x8 predictions are read alike.
proof fn lemma_same_nxn(short: Cursor, long: Cursor, transform_8x8_mode: bool)
    requires
        begins(short, long),
    ensures
        same_step(
            intra_nxn_syntax(short, transform_8x8_mode),
            intra_nxn_syntax(long, transform_8x8_mode),
        ),
{
    reveal(intra_nxn_syntax);
    if intra_nxn_syntax(short, transform_8x8_mode).1.error is None {
        let (eight, first, second) = if transform_8x8_mode {
            lemma_same_flag(short, long);
            (short.flag().0, short.flag().1, long.flag().1)
        } else {
            (false, short, long)
        };
        assert(first.error is None);
        let count: nat = if eight {
            4
        } else {
            16
        };
        lemma_same_modes(first, second, count, Seq::empty());
        let first = prediction_modes_syntax(first, count, Seq::empty()).1;
        let second = prediction_modes_syntax(second, count, Seq::empty()).1;
        lemma_same_ue(first, second);
        let first = chroma_mode_syntax(first).1;
        let second = chroma_mode_syntax(second).1;
        lemma_same_ue(first, second);
        let first = pattern_syntax(first, intra_patterns()).1;
        let second = pattern_syntax(second, intra_patterns()).1;
        lemma_same_ue(first, second);
    }
}

/// Intra macroblocks are read alike behind their types.
proof fn lemma_same_intra_type(short: Cursor, long: Cursor, mb_type: u32, transform_8x8_mode: bool)
    requires
        begins(short, long),
        mb_type == 25 ==> short.position % 8 == long.position % 8,
    ensures
        same_step(
            intra_type_syntax(short, mb_type, transform_8x8_mode),
            intra_type_syntax(long, mb_type, transform_8x8_mode),
        ),
{
    reveal(intra_type_syntax);
    if mb_type == 0 {
        lemma_same_nxn(short, long, transform_8x8_mode);
    } else if mb_type <= 24 {
        lemma_same_ue(short, long);
        if chroma_mode_syntax(short).1.error is None {
            lemma_same_ue(chroma_mode_syntax(short).1, chroma_mode_syntax(long).1);
        }
    } else if mb_type == 25 && pcm_syntax(short).1.error is None {
        let left = ((8 - short.position % 8) % 8) as nat;
        lemma_same_alignment(short, long, left);
        let first = alignment_syntax(short, left);
        let second = alignment_syntax(long, left);
        lemma_same_samples(first, second, 256, Seq::empty());
        let first = samples_syntax(first, 256, Seq::empty()).1;
        let second = samples_syntax(second, 256, Seq::empty()).1;
        lemma_same_samples(first, second, 128, Seq::empty());
    }
}

/// A P macroblock of an intra type holds what an intra macroblock of that type
/// holds, and is refused where that is refused, if the same bits stand behind the
/// two types. Samples without prediction are aligned, so their types have to end
/// at the same place of a byte.
pub proof fn law_p_slices_hold_the_intra_macroblocks(
    intra: Cursor,
    cursor: Cursor,
    context: PMacroblockContext,
)
    requires
        1 <= context.num_ref_idx_l0_active <= 32,
        intra.ue().0 <= 25,
        cursor.ue().0 == intra.ue().0 + 5,
        begins(intra.ue().1, cursor.ue().1),
        intra.ue().0 == 25 ==> intra.ue().1.position % 8 == cursor.ue().1.position % 8,
    ensures
        ({
            let (expected, end) = intra_macroblock_syntax(
                intra,
                context.transform_8x8_mode_enabled,
            );
            let (macroblock, next) = p_macroblock_syntax(cursor, context);
            &&& end.error is None ==> macroblock == PMacroblockView::Intra(expected) && begins(
                end,
                next,
            )
            &&& begins(cursor.ue().1, intra.ue().1) && next.error is None ==> end.error is None
        }),
{
    let mode = context.transform_8x8_mode_enabled;
    lemma_same_intra_type(intra.ue().1, cursor.ue().1, intra.ue().0, mode);
    if begins(cursor.ue().1, intra.ue().1) {
        lemma_same_intra_type(cursor.ue().1, intra.ue().1, intra.ue().0, mode);
    }
}

/// A B macroblock of an intra type holds what an intra macroblock of that type
/// holds, and is refused where that is refused, if the same bits stand behind the
/// two types. Samples without prediction are aligned, so their types have to end
/// at the same place of a byte.
pub proof fn law_b_slices_hold_the_intra_macroblocks(
    intra: Cursor,
    cursor: Cursor,
    context: BMacroblockContext,
)
    requires
        1 <= context.num_ref_idx_l0_active <= 32,
        1 <= context.num_ref_idx_l1_active <= 32,
        intra.ue().0 <= 25,
        cursor.ue().0 == intra.ue().0 + 23,
        begins(intra.ue().1, cursor.ue().1),
        intra.ue().0 == 25 ==> intra.ue().1.position % 8 == cursor.ue().1.position % 8,
    ensures
        ({
            let (expected, end) = intra_macroblock_syntax(
                intra,
                context.transform_8x8_mode_enabled,
            );
            let (macroblock, next) = b_macroblock_syntax(cursor, context);
            &&& end.error is None ==> macroblock == BMacroblockView::Intra(expected) && begins(
                end,
                next,
            )
            &&& begins(cursor.ue().1, intra.ue().1) && next.error is None ==> end.error is None
        }),
{
    let mode = context.transform_8x8_mode_enabled;
    lemma_same_intra_type(intra.ue().1, cursor.ue().1, intra.ue().0, mode);
    if begins(cursor.ue().1, intra.ue().1) {
        lemma_same_intra_type(cursor.ue().1, intra.ue().1, intra.ue().0, mode);
    }
}

} // verus!
