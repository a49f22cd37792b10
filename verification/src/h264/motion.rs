//! Motion-vector prediction state for frame-coded P slices.
//!
//! H.264 predicts each inter partition from already decoded neighbouring
//! partitions. Storing the result at 4x4 granularity makes the A/B/C/D lookup
//! rules work uniformly for macroblock and sub-macroblock partitions.

use vstd::prelude::*;

use super::error::{first_error, lemma_first_error, H264Error, Result};
use super::macroblock::{
    MotionVectorDifference, PHeaderView, PInterMacroblockHeader, PMotionView, PPartitionMode,
    PSubMacroblockType,
};
use crate::shared::filled;

verus! {

#[derive(Debug, Clone, Copy, PartialEq, Eq, Structural)]
pub struct MotionVector {
    /// Horizontal displacement in quarter-luma-sample units.
    pub x: i16,
    /// Vertical displacement in quarter-luma-sample units.
    pub y: i16,
}

impl Default for MotionVector {
    fn default() -> (vector: Self)
        ensures
            vector == (MotionVector { x: 0, y: 0 }),
    {
        MotionVector { x: 0, y: 0 }
    }
}

#[derive(Debug, Clone, Copy, PartialEq, Eq, Structural)]
pub struct ResolvedPPartition {
    /// Horizontal luma-sample offset inside the macroblock.
    pub x: u8,
    /// Vertical luma-sample offset inside the macroblock.
    pub y: u8,
    pub width: u8,
    pub height: u8,
    pub reference_index: u8,
    pub motion_vector: MotionVector,
}

#[derive(Debug, Clone, PartialEq, Eq)]
pub struct ResolvedPMacroblock {
    pub skipped: bool,
    /// Partitions are in macroblock/sub-macroblock decoding order.
    pub partitions: Vec<ResolvedPPartition>,
}

#[derive(Debug, Clone, Copy, PartialEq, Eq, Structural)]
pub struct ResolvedBListMotion {
    pub reference_index: u8,
    pub motion_vector: MotionVector,
}

#[derive(Debug, Clone, Copy, PartialEq, Eq)]
pub struct ResolvedBPartition {
    pub x: u8,
    pub y: u8,
    pub width: u8,
    pub height: u8,
    pub list0: Option<ResolvedBListMotion>,
    pub list1: Option<ResolvedBListMotion>,
}

#[derive(Debug, Clone, PartialEq, Eq)]
pub struct ResolvedBMacroblock {
    pub direct: bool,
    pub partitions: Vec<ResolvedBPartition>,
}

/// How a 4x4 block was predicted.
#[derive(Debug, Clone, Copy, PartialEq, Eq)]
pub enum MotionKind {
    Intra,
    Inter { reference_index: u8, vector: MotionVector },
}

/// The motion of a 4x4 block and the slice that it belongs to.
#[derive(Debug, Clone, Copy, PartialEq, Eq)]
pub struct MotionCell {
    pub slice_id: u32,
    pub kind: MotionKind,
}

/// What a neighbouring block contributes to a prediction.
#[derive(Debug, Clone, Copy)]
pub struct NeighbourMotion {
    pub available: bool,
    pub reference_index: i8,
    pub vector: MotionVector,
}

/// The place and size of a partition, in luma samples of its macroblock.
#[derive(Debug, Clone, Copy)]
pub struct PartitionGeometry {
    pub x: u8,
    pub y: u8,
    pub width: u8,
    pub height: u8,
    pub macroblock_partition_index: usize,
    pub difference_index: usize,
}

/// A partition with the motion that the bitstream gives it.
#[derive(Debug, Clone, Copy)]
pub struct PartitionPlan {
    pub geometry: PartitionGeometry,
    pub reference_index: u8,
    pub difference: MotionVectorDifference,
}

/// A motion state as mathematics: the cells of one macroblock follow those of
/// the one before it.
pub struct MotionStateView {
    pub width: int,
    pub height: int,
    pub cells: Seq<Option<MotionCell>>,
}

/// Why a macroblock cannot be written.
pub open spec fn write_error(state: MotionStateView, address: int) -> Option<H264Error> {
    if address >= state.width * state.height {
        Some(H264Error::InvalidSyntax("motion-state macroblock address exceeds the picture"))
    } else if exists|i: int|
        address * 16 <= i < address * 16 + 16 && #[trigger] state.cells[i] is Some {
        Some(H264Error::InvalidSyntax("motion-state macroblock was already recorded"))
    } else {
        None
    }
}

/// The state with the cells of one macroblock replaced.
pub open spec fn committed(
    state: MotionStateView,
    address: int,
    local: Seq<Option<MotionCell>>,
) -> MotionStateView {
    MotionStateView {
        cells: Seq::new(
            state.cells.len(),
            |i: int|
                if address * 16 <= i < address * 16 + 16 {
                    local[i - address * 16]
                } else {
                    state.cells[i]
                },
        ),
        ..state
    }
}

/// What is known of a block that cannot be used.
pub open spec fn unavailable() -> NeighbourMotion {
    NeighbourMotion {
        available: false,
        reference_index: -1 as i8,
        vector: MotionVector { x: 0, y: 0 },
    }
}

/// What a cell contributes to partitions of a slice.
pub open spec fn contribution(cell: Option<MotionCell>, slice_id: u32) -> NeighbourMotion {
    match cell {
        Some(cell) => if cell.slice_id != slice_id {
            unavailable()
        } else {
            match cell.kind {
                MotionKind::Intra => NeighbourMotion {
                    available: true,
                    reference_index: -1 as i8,
                    vector: MotionVector { x: 0, y: 0 },
                },
                MotionKind::Inter { reference_index, vector } => NeighbourMotion {
                    available: true,
                    reference_index: reference_index as i8,
                    vector,
                },
            }
        },
        None => unavailable(),
    }
}

/// What the block at a luma sample of the picture contributes. Blocks of the
/// current macroblock are taken from `local`.
pub open spec fn neighbour(
    state: MotionStateView,
    address: int,
    slice_id: u32,
    local: Seq<Option<MotionCell>>,
    x: int,
    y: int,
) -> NeighbourMotion {
    if x < 0 || y < 0 || x >= state.width * 16 || y >= state.height * 16 {
        unavailable()
    } else {
        let other = (y / 16) * state.width + x / 16;
        let index = (y % 16) / 4 * 4 + (x % 16) / 4;
        contribution(
            if other == address {
                local[index]
            } else {
                state.cells[other * 16 + index]
            },
            slice_id,
        )
    }
}

/// The neighbours of a partition: on the left (A), above (B), above right (C)
/// and above left (D).
pub open spec fn neighbours_of(
    state: MotionStateView,
    address: int,
    slice_id: u32,
    local: Seq<Option<MotionCell>>,
    geometry: PartitionGeometry,
) -> (NeighbourMotion, NeighbourMotion, NeighbourMotion, NeighbourMotion) {
    let x = address % state.width * 16 + geometry.x;
    let y = address / state.width * 16 + geometry.y;
    (
        neighbour(state, address, slice_id, local, x - 1, y),
        neighbour(state, address, slice_id, local, x, y - 1),
        neighbour(state, address, slice_id, local, x + geometry.width, y - 1),
        neighbour(state, address, slice_id, local, x - 1, y - 1),
    )
}

/// The middle one of three numbers.
pub open spec fn middle(a: i16, b: i16, c: i16) -> i16 {
    if a <= b <= c || c <= b <= a {
        b
    } else if b <= a <= c || c <= a <= b {
        a
    } else {
        c
    }
}

/// The median prediction: the vector of the one neighbour with the same
/// reference picture where there is exactly one, else the component-wise
/// median.
pub open spec fn median_prediction(
    a: NeighbourMotion,
    b: NeighbourMotion,
    c: NeighbourMotion,
    reference_index: u8,
) -> MotionVector {
    let alone = a.available && !b.available && !c.available;
    let b = if alone {
        a
    } else {
        b
    };
    let c = if alone {
        a
    } else {
        c
    };
    let index = reference_index as i8;
    let in_a = a.reference_index == index;
    let in_b = b.reference_index == index;
    let in_c = c.reference_index == index;
    if in_a && !in_b && !in_c {
        a.vector
    } else if !in_a && in_b && !in_c {
        b.vector
    } else if !in_a && !in_b && in_c {
        c.vector
    } else {
        MotionVector {
            x: middle(a.vector.x, b.vector.x, c.vector.x),
            y: middle(a.vector.y, b.vector.y, c.vector.y),
        }
    }
}

/// The predicted vector of a partition.
pub open spec fn predicted_vector(
    state: MotionStateView,
    address: int,
    slice_id: u32,
    local: Seq<Option<MotionCell>>,
    geometry: PartitionGeometry,
    reference_index: u8,
    mode: PPartitionMode,
) -> MotionVector {
    let (a, b, above_right, d) = neighbours_of(state, address, slice_id, local, geometry);
    let c = if above_right.available {
        above_right
    } else {
        d
    };
    let first = geometry.macroblock_partition_index == 0;
    let second = geometry.macroblock_partition_index == 1;
    if mode is L0_16x8 && first && b.reference_index == reference_index {
        b.vector
    } else if mode is L0_16x8 && second && a.reference_index == reference_index {
        a.vector
    } else if mode is L0_8x16 && first && a.reference_index == reference_index {
        a.vector
    } else if mode is L0_8x16 && second && c.reference_index == reference_index {
        c.vector
    } else {
        median_prediction(a, b, c, reference_index)
    }
}

/// The place of a sub-macroblock partition.
pub open spec fn sub_geometry(
    partition: int,
    sub_type: PSubMacroblockType,
    index: int,
) -> PartitionGeometry {
    let offset = match sub_type {
        PSubMacroblockType::L0_8x8 => (0int, 0int),
        PSubMacroblockType::L0_8x4 => (0int, index * 4),
        PSubMacroblockType::L0_4x8 => (index * 4, 0int),
        PSubMacroblockType::L0_4x4 => (index % 2 * 4, index / 2 * 4),
    };
    PartitionGeometry {
        x: (partition % 2 * 8 + offset.0) as u8,
        y: (partition / 2 * 8 + offset.1) as u8,
        width: sub_type.size().0,
        height: sub_type.size().1,
        macroblock_partition_index: partition as usize,
        difference_index: index as usize,
    }
}

/// The partitions of the first `count` sub-macroblocks, in decoding order.
pub open spec fn sub_geometries(types: Seq<PSubMacroblockType>, count: int) -> Seq<
    PartitionGeometry,
>
    decreases count,
{
    if count <= 0 {
        Seq::empty()
    } else {
        sub_geometries(types, count - 1) + Seq::new(
            types[count - 1].count(),
            |index: int| sub_geometry(count - 1, types[count - 1], index),
        )
    }
}

/// The place of a macroblock partition.
pub open spec fn whole_geometry(
    x: u8,
    y: u8,
    width: u8,
    height: u8,
    partition: usize,
) -> PartitionGeometry {
    PartitionGeometry {
        x,
        y,
        width,
        height,
        macroblock_partition_index: partition,
        difference_index: 0,
    }
}

/// The partitions of a macroblock, in decoding order.
pub open spec fn geometries(mode: PPartitionMode) -> Seq<PartitionGeometry> {
    match mode {
        PPartitionMode::L0_16x16 => seq![whole_geometry(0, 0, 16, 16, 0)],
        PPartitionMode::L0_16x8 => seq![
            whole_geometry(0, 0, 16, 8, 0),
            whole_geometry(0, 8, 16, 8, 1),
        ],
        PPartitionMode::L0_8x16 => seq![
            whole_geometry(0, 0, 8, 16, 0),
            whole_geometry(8, 0, 8, 16, 1),
        ],
        PPartitionMode::L0_8x8 { sub_macroblocks, .. } => sub_geometries(sub_macroblocks@, 4),
    }
}

/// The motion that a header gives a partition.
pub open spec fn plan_of(header: PHeaderView, geometry: PartitionGeometry) -> PartitionPlan {
    let motion = header.partitions[geometry.macroblock_partition_index as int];
    PartitionPlan {
        geometry,
        reference_index: motion.reference_index,
        difference: motion.differences[geometry.difference_index as int],
    }
}

/// The partitions of a macroblock with their motion.
pub open spec fn plans_of(header: PHeaderView) -> Seq<PartitionPlan> {
    geometries(header.partition_mode).map_values(
        |geometry: PartitionGeometry| plan_of(header, geometry),
    )
}

/// Why the motion of a sub-macroblock is refused.
pub open spec fn sub_error(
    motion: PMotionView,
    sub_type: PSubMacroblockType,
    forced_zero: bool,
) -> Option<H264Error> {
    if forced_zero && motion.reference_index != 0 {
        Some(H264Error::InvalidSyntax("P_8x8ref0 contains a non-zero reference index"))
    } else if motion.differences.len() != sub_type.count() {
        Some(H264Error::InvalidSyntax("P sub-macroblock motion-vector count is inconsistent"))
    } else if motion.reference_index > 31 {
        Some(H264Error::InvalidSyntax("P macroblock reference index exceeds 31"))
    } else {
        None
    }
}

/// Why the motion of each sub-macroblock is refused.
pub open spec fn sub_errors(
    partitions: Seq<PMotionView>,
    types: Seq<PSubMacroblockType>,
    forced_zero: bool,
) -> spec_fn(int) -> Option<H264Error> {
    |partition: int| sub_error(partitions[partition], types[partition], forced_zero)
}

/// Why a header with `expected` macroblock partitions is refused.
pub open spec fn whole_error(partitions: Seq<PMotionView>, expected: int) -> Option<H264Error> {
    if partitions.len() != expected {
        Some(H264Error::InvalidSyntax("P macroblock partition count is inconsistent"))
    } else if exists|i: int|
        0 <= i < expected && (#[trigger] partitions[i]).differences.len() != 1 {
        Some(H264Error::InvalidSyntax("P macroblock motion-vector count is inconsistent"))
    } else if exists|i: int|
        0 <= i < expected && (#[trigger] partitions[i]).reference_index > 31 {
        Some(H264Error::InvalidSyntax("P macroblock reference index exceeds 31"))
    } else {
        None
    }
}

/// Why the motion of a header is refused.
pub open spec fn plans_error(header: PHeaderView) -> Option<H264Error> {
    match header.partition_mode {
        PPartitionMode::L0_16x16 => whole_error(header.partitions, 1),
        PPartitionMode::L0_16x8 => whole_error(header.partitions, 2),
        PPartitionMode::L0_8x16 => whole_error(header.partitions, 2),
        PPartitionMode::L0_8x8 { sub_macroblocks, reference_index_forced_zero } => {
            if header.partitions.len() != 4 {
                Some(H264Error::InvalidSyntax("P macroblock partition count is inconsistent"))
            } else {
                first_error(
                    sub_errors(
                        header.partitions,
                        sub_macroblocks@,
                        reference_index_forced_zero,
                    ),
                    4,
                )
            }
        },
    }
}

/// A partition covers a 4x4 block of its macroblock.
pub open spec fn covers(x: u8, y: u8, width: u8, height: u8, cell: int) -> bool {
    &&& x <= cell % 4 * 4 < x + width
    &&& y <= cell / 4 * 4 < y + height
}

/// The cells of a macroblock with those of one partition set.
pub open spec fn with_partition(
    local: Seq<Option<MotionCell>>,
    slice_id: u32,
    partition: ResolvedPPartition,
) -> Seq<Option<MotionCell>> {
    Seq::new(
        16,
        |cell: int|
            if covers(partition.x, partition.y, partition.width, partition.height, cell) {
                Some(
                    MotionCell {
                        slice_id,
                        kind: MotionKind::Inter {
                            reference_index: partition.reference_index,
                            vector: partition.motion_vector,
                        },
                    },
                )
            } else {
                local[cell]
            },
    )
}

/// A macroblock of which some partitions are resolved.
pub struct Progress {
    pub local: Seq<Option<MotionCell>>,
    pub partitions: Seq<ResolvedPPartition>,
    pub error: Option<H264Error>,
}

/// A macroblock without any cells.
pub open spec fn no_cells() -> Seq<Option<MotionCell>> {
    Seq::new(16, |cell: int| None)
}

/// The macroblock with one more partition resolved.
pub open spec fn resolve_step(
    state: MotionStateView,
    address: int,
    slice_id: u32,
    mode: PPartitionMode,
    progress: Progress,
    plan: PartitionPlan,
) -> Progress {
    let predictor = predicted_vector(
        state,
        address,
        slice_id,
        progress.local,
        plan.geometry,
        plan.reference_index,
        mode,
    );
    let x = predictor.x + plan.difference.x;
    let y = predictor.y + plan.difference.y;
    let partition = ResolvedPPartition {
        x: plan.geometry.x,
        y: plan.geometry.y,
        width: plan.geometry.width,
        height: plan.geometry.height,
        reference_index: plan.reference_index,
        motion_vector: MotionVector { x: x as i16, y: y as i16 },
    };
    if progress.error is Some {
        progress
    } else if !(i16::MIN <= x <= i16::MAX) {
        Progress {
            error: Some(
                H264Error::InvalidSyntax(
                    "horizontal P motion vector exceeds the supported range",
                ),
            ),
            ..progress
        }
    } else if !(i16::MIN <= y <= i16::MAX) {
        Progress {
            error: Some(
                H264Error::InvalidSyntax("vertical P motion vector exceeds the supported range"),
            ),
            ..progress
        }
    } else {
        Progress {
            local: with_partition(progress.local, slice_id, partition),
            partitions: progress.partitions.push(partition),
            error: None,
        }
    }
}

/// The macroblock after its first `count` partitions.
pub open spec fn resolve_steps(
    state: MotionStateView,
    address: int,
    slice_id: u32,
    mode: PPartitionMode,
    plans: Seq<PartitionPlan>,
    count: int,
) -> Progress
    decreases count,
{
    if count <= 0 {
        Progress { local: no_cells(), partitions: Seq::empty(), error: None }
    } else {
        resolve_step(
            state,
            address,
            slice_id,
            mode,
            resolve_steps(state, address, slice_id, mode, plans, count - 1),
            plans[count - 1],
        )
    }
}

/// A macroblock after all its partitions.
pub open spec fn resolved_inter(
    state: MotionStateView,
    address: int,
    slice_id: u32,
    header: PHeaderView,
) -> Progress {
    let plans = plans_of(header);
    resolve_steps(state, address, slice_id, header.partition_mode, plans, plans.len() as int)
}

/// The inferred vector of a skipped macroblock.
pub open spec fn skip_vector(state: MotionStateView, address: int, slice_id: u32) -> MotionVector {
    let zero = MotionVector { x: 0, y: 0 };
    let geometry = whole_geometry(0, 0, 16, 16, 0);
    let (a, b, _, _) = neighbours_of(state, address, slice_id, no_cells(), geometry);
    if !a.available || !b.available || (a.reference_index == 0 && a.vector == zero) || (
    b.reference_index == 0 && b.vector == zero) {
        zero
    } else {
        predicted_vector(
            state,
            address,
            slice_id,
            no_cells(),
            geometry,
            0,
            PPartitionMode::L0_16x16,
        )
    }
}

/// The one partition of a skipped macroblock.
pub open spec fn skip_partition(
    state: MotionStateView,
    address: int,
    slice_id: u32,
) -> ResolvedPPartition {
    ResolvedPPartition {
        x: 0,
        y: 0,
        width: 16,
        height: 16,
        reference_index: 0,
        motion_vector: skip_vector(state, address, slice_id),
    }
}

/// Reference indices are small enough to be negated.
pub open spec fn small_reference(cell: Option<MotionCell>) -> bool {
    cell matches Some(cell) ==> match cell.kind {
        MotionKind::Inter { reference_index, .. } => reference_index <= 31,
        MotionKind::Intra => true,
    }
}

/// Per-picture List-0 motion state for frame-coded P slices.
///
/// The state is deliberately independent from pixel reconstruction. It can be
/// populated in slice decoding order, including arbitrary macroblock
/// addresses, while neighbour availability is restricted to the same slice.
#[derive(Debug, Clone)]
pub struct PMotionState {
    width_in_macroblocks: usize,
    height_in_macroblocks: usize,
    cells: Vec<Option<MotionCell>>,
}

impl View for PMotionState {
    type V = MotionStateView;

    closed spec fn view(&self) -> MotionStateView {
        MotionStateView {
            width: self.width_in_macroblocks as int,
            height: self.height_in_macroblocks as int,
            cells: self.cells@,
        }
    }
}

/// The bounds of the places in a picture.
proof fn lemma_places(width: int, height: int, column: int, row: int)
    by (nonlinear_arith)
    requires
        0 <= column < width,
        0 <= row < height,
    ensures
        row * width + column < width * height,
        0 <= row * width,
        width * 16 <= width * height * 16,
        height * 16 <= width * height * 16,
{
}

/// The row and column of an address.
proof fn lemma_address(width: int, height: int, address: int)
    by (nonlinear_arith)
    requires
        0 < width,
        0 <= address < width * height,
    ensures
        0 <= address % width < width,
        0 <= address / width < height,
{
}

impl PMotionState {
    /// The cells are those of the picture.
    pub closed spec fn well_formed(self) -> bool {
        &&& self.width_in_macroblocks > 0
        &&& self.height_in_macroblocks > 0
        &&& self.cells.len() == self.width_in_macroblocks * self.height_in_macroblocks * 16
        &&& forall|i: int| 0 <= i < self.cells.len() ==> small_reference(#[trigger] self.cells[i])
    }

    pub fn new(width_in_macroblocks: usize, height_in_macroblocks: usize) -> (result: Result<Self>)
        ensures
            match result {
                Ok(state) => {
                    &&& state.well_formed()
                    &&& 0 < width_in_macroblocks
                    &&& 0 < height_in_macroblocks
                    &&& width_in_macroblocks * height_in_macroblocks * 16 <= usize::MAX
                    &&& state@.width == width_in_macroblocks
                    &&& state@.height == height_in_macroblocks
                    &&& state@.cells == Seq::new(
                        (width_in_macroblocks * height_in_macroblocks * 16) as nat,
                        |i: int| None::<MotionCell>,
                    )
                },
                Err(error) => if width_in_macroblocks == 0 || height_in_macroblocks == 0 {
                    error == H264Error::InvalidSyntax(
                        "motion-state picture dimensions must be non-zero",
                    )
                } else {
                    error == H264Error::IntegerOverflow && width_in_macroblocks
                        * height_in_macroblocks * 16 > usize::MAX
                },
            },
    {
        if width_in_macroblocks == 0 || height_in_macroblocks == 0 {
            return Err(
                H264Error::InvalidSyntax("motion-state picture dimensions must be non-zero"),
            );
        }
        let macroblocks: usize = match width_in_macroblocks.checked_mul(height_in_macroblocks) {
            Some(count) => count,
            None => return Err(H264Error::IntegerOverflow),
        };
        let cell_count: usize = match macroblocks.checked_mul(16) {
            Some(count) => count,
            None => return Err(H264Error::IntegerOverflow),
        };
        let cells: Vec<Option<MotionCell>> = filled(None, cell_count);
        Ok(PMotionState { width_in_macroblocks, height_in_macroblocks, cells })
    }

    #[inline]
    pub fn width_in_macroblocks(&self) -> (width: usize)
        ensures
            width == self@.width,
    {
        self.width_in_macroblocks
    }

    #[inline]
    pub fn height_in_macroblocks(&self) -> (height: usize)
        ensures
            height == self@.height,
    {
        self.height_in_macroblocks
    }

    /// Records an intra macroblock so it remains spatially available while
    /// contributing the inferred `(refIdxL0, mvL0) = (-1, (0, 0))`.
    pub fn record_intra_macroblock(&mut self, macroblock_address: usize, slice_id: u32) -> (result:
        Result<()>)
        requires
            old(self).well_formed(),
        ensures
            final(self).well_formed(),
            match write_error(old(self)@, macroblock_address as int) {
                Some(error) => result == Err::<(), H264Error>(error) && final(self)@ == old(self)@,
                None => result is Ok && final(self)@ == committed(
                    old(self)@,
                    macroblock_address as int,
                    Seq::new(
                        16,
                        |i: int| Some(MotionCell { slice_id, kind: MotionKind::Intra }),
                    ),
                ),
            },
    {
        self.ensure_macroblock_available_for_write(macroblock_address)?;
        let cell = Some(MotionCell { slice_id, kind: MotionKind::Intra });
        let local = [cell; 16];
        assert(local@ =~= Seq::new(
            16,
            |i: int| Some(MotionCell { slice_id, kind: MotionKind::Intra }),
        ));
        self.commit_local_cells(macroblock_address, local);
        Ok(())
    }

    /// Derives and records all List-0 motion vectors of one non-skipped P
    /// macroblock.
    ///
    /// The operation is transactional: malformed public input or vector
    /// overflow leaves the picture state unchanged.
    pub fn resolve_inter_macroblock(
        &mut self,
        macroblock_address: usize,
        slice_id: u32,
        header: &PInterMacroblockHeader,
    ) -> (result: Result<ResolvedPMacroblock>)
        requires
            old(self).well_formed(),
        ensures
            final(self).well_formed(),
            match write_error(old(self)@, macroblock_address as int) {
                Some(error) => result == Err::<ResolvedPMacroblock, H264Error>(error)
                    && final(self)@ == old(self)@,
                None => match plans_error(header@) {
                    Some(error) => result == Err::<ResolvedPMacroblock, H264Error>(error)
                    && final(self)@ == old(self)@,
                    None => {
                        let resolved = resolved_inter(
                            old(self)@,
                            macroblock_address as int,
                            slice_id,
                            header@,
                        );
                        match resolved.error {
                            Some(error) => result == Err::<ResolvedPMacroblock, H264Error>(error)
                                && final(self)@ == old(self)@,
                            None => {
                                &&& result matches Ok(macroblock) && !macroblock.skipped
                                    && macroblock.partitions@ == resolved.partitions
                                &&& final(self)@ == committed(
                                    old(self)@,
                                    macroblock_address as int,
                                    resolved.local,
                                )
                            },
                        }
                    },
                },
            },
    {
        self.ensure_macroblock_available_for_write(macroblock_address)?;
        let plans = partition_plans(header)?;
        let ghost state = self@;
        let ghost address = macroblock_address as int;
        let mut local: [Option<MotionCell>; 16] = [None; 16];
        assert(local@ =~= no_cells());
        let mut resolved: Vec<ResolvedPPartition> = Vec::with_capacity(plans.len());
        let mut index: usize = 0;
        while index < plans.len()
            invariant
                index <= plans.len(),
                self.well_formed(),
                self@ == state,
                address == macroblock_address,
                address < state.width * state.height,
                write_error(state, address) is None,
                plans_error(header@) is None,
                plans@ == plans_of(header@),
                forall|i: int|
                    0 <= i < plans@.len() ==> valid_plan(#[trigger] plans@[i]),
                forall|i: int| 0 <= i < 16 ==> small_reference(#[trigger] local[i]),
                resolve_steps(
                    state,
                    address,
                    slice_id,
                    header@.partition_mode,
                    plans@,
                    index as int,
                ) == (Progress { local: local@, partitions: resolved@, error: None }),
                *self == *old(self),
            decreases plans.len() - index,
        {
            let plan: PartitionPlan = plans[index];
            assert(valid_plan(plans@[index as int]));
            let predictor = self.predict_motion_vector(
                macroblock_address,
                slice_id,
                &local,
                plan.geometry,
                plan.reference_index,
                &header.partition_mode,
            );
            let ghost after = resolve_steps(
                state,
                address,
                slice_id,
                header@.partition_mode,
                plans@,
                index + 1,
            );
            let motion_vector = match add_motion_vector_difference(predictor, plan.difference) {
                Ok(vector) => vector,
                Err(error) => {
                    proof {
                        lemma_failure_stays(
                            state,
                            address,
                            slice_id,
                            header@.partition_mode,
                            plans@,
                            index + 1,
                            plans@.len() as int,
                        );
                    }
                    return Err(error);
                },
            };
            let partition = ResolvedPPartition {
                x: plan.geometry.x,
                y: plan.geometry.y,
                width: plan.geometry.width,
                height: plan.geometry.height,
                reference_index: plan.reference_index,
                motion_vector,
            };
            fill_partition_cells(&mut local, slice_id, partition);
            resolved.push(partition);
            index = index + 1;
        }
        self.commit_local_cells(macroblock_address, local);
        Ok(ResolvedPMacroblock { skipped: false, partitions: resolved })
    }

    /// Derives and records the inferred List-0 motion of one P_Skip
    /// macroblock.
    pub fn resolve_skip_macroblock(&mut self, macroblock_address: usize, slice_id: u32) -> (result:
        Result<ResolvedPMacroblock>)
        requires
            old(self).well_formed(),
        ensures
            final(self).well_formed(),
            match write_error(old(self)@, macroblock_address as int) {
                Some(error) => result == Err::<ResolvedPMacroblock, H264Error>(error)
                    && final(self)@ == old(self)@,
                None => {
                    let partition = skip_partition(
                        old(self)@,
                        macroblock_address as int,
                        slice_id,
                    );
                    &&& result matches Ok(macroblock) && macroblock.skipped
                        && macroblock.partitions@ == seq![partition]
                    &&& final(self)@ == committed(
                        old(self)@,
                        macroblock_address as int,
                        with_partition(no_cells(), slice_id, partition),
                    )
                },
            },
    {
        self.ensure_macroblock_available_for_write(macroblock_address)?;
        let local: [Option<MotionCell>; 16] = [None; 16];
        assert(local@ =~= no_cells());
        let geometry = PartitionGeometry {
            x: 0,
            y: 0,
            width: 16,
            height: 16,
            macroblock_partition_index: 0,
            difference_index: 0,
        };
        let (a, b, _, _) = self.neighbours(macroblock_address, slice_id, &local, geometry);
        let zero = MotionVector { x: 0, y: 0 };
        let vector = if !a.available || !b.available || (a.reference_index == 0 && a.vector == zero)
            || (b.reference_index == 0 && b.vector == zero) {
            zero
        } else {
            self.predict_motion_vector(
                macroblock_address,
                slice_id,
                &local,
                geometry,
                0,
                &PPartitionMode::L0_16x16,
            )
        };
        let partition = ResolvedPPartition {
            x: 0,
            y: 0,
            width: 16,
            height: 16,
            reference_index: 0,
            motion_vector: vector,
        };
        let mut completed: [Option<MotionCell>; 16] = [None; 16];
        assert(completed@ =~= no_cells());
        fill_partition_cells(&mut completed, slice_id, partition);
        self.commit_local_cells(macroblock_address, completed);
        let mut partitions: Vec<ResolvedPPartition> = Vec::new();
        partitions.push(partition);
        assert(partitions@ =~= seq![partition]);
        Ok(ResolvedPMacroblock { skipped: true, partitions })
    }

    /// Forgets a macroblock, which can then be recorded again.
    pub fn clear_macroblock(&mut self, macroblock_address: usize) -> (result: Result<()>)
        requires
            old(self).well_formed(),
        ensures
            final(self).well_formed(),
            if macroblock_address >= old(self)@.width * old(self)@.height {
                &&& result == Err::<(), H264Error>(
                    H264Error::InvalidSyntax("motion-state macroblock address exceeds the picture"),
                )
                &&& final(self)@ == old(self)@
            } else {
                &&& result is Ok
                &&& final(self)@ == committed(old(self)@, macroblock_address as int, no_cells())
            },
    {
        if macroblock_address >= self.cells.len() / 16 {
            return Err(
                H264Error::InvalidSyntax("motion-state macroblock address exceeds the picture"),
            );
        }
        let local: [Option<MotionCell>; 16] = [None; 16];
        assert(local@ =~= no_cells());
        self.commit_local_cells(macroblock_address, local);
        Ok(())
    }

    fn predict_motion_vector(
        &self,
        macroblock_address: usize,
        slice_id: u32,
        local: &[Option<MotionCell>; 16],
        geometry: PartitionGeometry,
        reference_index: u8,
        mode: &PPartitionMode,
    ) -> (vector: MotionVector)
        requires
            self.well_formed(),
            macroblock_address < self@.width * self@.height,
            geometry.x < 16,
            geometry.y < 16,
            geometry.x + geometry.width <= 16,
            reference_index <= 31,
            forall|i: int| 0 <= i < 16 ==> small_reference(#[trigger] local[i]),
        ensures
            vector == predicted_vector(
                self@,
                macroblock_address as int,
                slice_id,
                local@,
                geometry,
                reference_index,
                *mode,
            ),
    {
        let (a, b, above_right, d) = self.neighbours(
            macroblock_address,
            slice_id,
            local,
            geometry,
        );
        let c = if above_right.available {
            above_right
        } else {
            d
        };
        let index: i8 = reference_index as i8;
        let partition: usize = geometry.macroblock_partition_index;
        match mode {
            PPartitionMode::L0_16x8 if partition == 0 && b.reference_index == index => b.vector,
            PPartitionMode::L0_16x8 if partition == 1 && a.reference_index == index => a.vector,
            PPartitionMode::L0_8x16 if partition == 0 && a.reference_index == index => a.vector,
            PPartitionMode::L0_8x16 if partition == 1 && c.reference_index == index => c.vector,
            _ => median_motion_vector_prediction(a, b, c, reference_index),
        }
    }

    fn neighbours(
        &self,
        macroblock_address: usize,
        slice_id: u32,
        local: &[Option<MotionCell>; 16],
        geometry: PartitionGeometry,
    ) -> (found: (NeighbourMotion, NeighbourMotion, NeighbourMotion, NeighbourMotion))
        requires
            self.well_formed(),
            macroblock_address < self@.width * self@.height,
            geometry.x < 16,
            geometry.y < 16,
            geometry.x + geometry.width <= 16,
            forall|i: int| 0 <= i < 16 ==> small_reference(#[trigger] local[i]),
        ensures
            found == neighbours_of(
                self@,
                macroblock_address as int,
                slice_id,
                local@,
                geometry,
            ),
    {
        let width: usize = self.width_in_macroblocks;
        proof {
            lemma_address(
                width as int,
                self.height_in_macroblocks as int,
                macroblock_address as int,
            );
            lemma_places(
                width as int,
                self.height_in_macroblocks as int,
                macroblock_address as int % width as int,
                macroblock_address as int / width as int,
            );
        }
        let x: usize = macroblock_address % width * 16 + geometry.x as usize;
        let y: usize = macroblock_address / width * 16 + geometry.y as usize;
        let right: usize = x + geometry.width as usize;
        let a = if x == 0 {
            none_available()
        } else {
            self.neighbour_at(x - 1, y, macroblock_address, slice_id, local)
        };
        let b = if y == 0 {
            none_available()
        } else {
            self.neighbour_at(x, y - 1, macroblock_address, slice_id, local)
        };
        let c = if y == 0 {
            none_available()
        } else {
            self.neighbour_at(right, y - 1, macroblock_address, slice_id, local)
        };
        let d = if x == 0 || y == 0 {
            none_available()
        } else {
            self.neighbour_at(x - 1, y - 1, macroblock_address, slice_id, local)
        };
        (a, b, c, d)
    }

    fn neighbour_at(
        &self,
        x: usize,
        y: usize,
        current_macroblock_address: usize,
        slice_id: u32,
        local: &[Option<MotionCell>; 16],
    ) -> (motion: NeighbourMotion)
        requires
            self.well_formed(),
            forall|i: int| 0 <= i < 16 ==> small_reference(#[trigger] local[i]),
        ensures
            motion == neighbour(
                self@,
                current_macroblock_address as int,
                slice_id,
                local@,
                x as int,
                y as int,
            ),
    {
        let macroblock_x: usize = x / 16;
        let macroblock_y: usize = y / 16;
        if macroblock_x >= self.width_in_macroblocks || macroblock_y >= self.height_in_macroblocks {
            return none_available();
        }
        proof {
            lemma_places(
                self.width_in_macroblocks as int,
                self.height_in_macroblocks as int,
                macroblock_x as int,
                macroblock_y as int,
            );
        }
        let macroblock_address: usize = macroblock_y * self.width_in_macroblocks + macroblock_x;
        let local_index: usize = (y % 16) / 4 * 4 + (x % 16) / 4;
        let cell = if macroblock_address == current_macroblock_address {
            local[local_index]
        } else {
            self.cells[macroblock_address * 16 + local_index]
        };
        assert(small_reference(cell));
        match cell {
            Some(cell) => if cell.slice_id != slice_id {
                none_available()
            } else {
                match cell.kind {
                    MotionKind::Intra => NeighbourMotion {
                        available: true,
                        reference_index: -1,
                        vector: MotionVector { x: 0, y: 0 },
                    },
                    MotionKind::Inter { reference_index, vector } => NeighbourMotion {
                        available: true,
                        reference_index: reference_index as i8,
                        vector,
                    },
                }
            },
            None => none_available(),
        }
    }

    fn ensure_macroblock_available_for_write(&self, macroblock_address: usize) -> (result: Result<
        (),
    >)
        requires
            self.well_formed(),
        ensures
            result == match write_error(self@, macroblock_address as int) {
                Some(error) => Err::<(), H264Error>(error),
                None => Ok(()),
            },
            result is Ok ==> macroblock_address < self@.width * self@.height,
    {
        if macroblock_address >= self.cells.len() / 16 {
            return Err(
                H264Error::InvalidSyntax("motion-state macroblock address exceeds the picture"),
            );
        }
        let start: usize = macroblock_address * 16;
        let mut index: usize = 0;
        while index < 16
            invariant
                index <= 16,
                self.well_formed(),
                start == macroblock_address * 16,
                start + 16 <= self.cells.len(),
                macroblock_address < self@.width * self@.height,
                forall|i: int| start <= i < start + index ==> self@.cells[i] is None,
            decreases 16 - index,
        {
            if self.cells[start + index].is_some() {
                assert(self@.cells[start + index] is Some);
                return Err(
                    H264Error::InvalidSyntax("motion-state macroblock was already recorded"),
                );
            }
            index = index + 1;
        }
        Ok(())
    }

    fn commit_local_cells(&mut self, macroblock_address: usize, local: [Option<MotionCell>; 16])
        requires
            old(self).well_formed(),
            macroblock_address < old(self)@.width * old(self)@.height,
            forall|i: int| 0 <= i < 16 ==> small_reference(#[trigger] local[i]),
        ensures
            final(self).well_formed(),
            final(self)@ == committed(old(self)@, macroblock_address as int, local@),
    {
        let start: usize = macroblock_address * 16;
        let ghost before = self@;
        let mut index: usize = 0;
        while index < 16
            invariant
                index <= 16,
                self.well_formed(),
                before == old(self)@,
                start == macroblock_address * 16,
                start + 16 <= self.cells.len(),
                self@.width == before.width,
                self@.height == before.height,
                self@.cells.len() == before.cells.len(),
                forall|i: int| 0 <= i < 16 ==> small_reference(#[trigger] local[i]),
                forall|i: int|
                    0 <= i < before.cells.len() ==> #[trigger] self@.cells[i] == if start <= i
                        < start + index {
                        local[i - start]
                    } else {
                        before.cells[i]
                    },
            decreases 16 - index,
        {
            let ghost earlier = self@.cells;
            assert(small_reference(local[index as int]));
            self.cells[start + index] = local[index];
            assert(self@.cells =~= earlier.update(start + index, local[index as int]));
            assert forall|i: int| 0 <= i < self.cells.len() implies small_reference(
                #[trigger] self.cells[i],
            ) by {
                assert(self.cells[i] == self@.cells[i]);
                assert(i != start + index ==> small_reference(earlier[i]));
            }
            index = index + 1;
        }
        assert(self@.cells =~= committed(before, macroblock_address as int, local@).cells);
    }
}

fn none_available() -> (motion: NeighbourMotion)
    ensures
        motion == unavailable(),
{
    NeighbourMotion {
        available: false,
        reference_index: -1,
        vector: MotionVector { x: 0, y: 0 },
    }
}

/// The bounds of planned partitions.
pub open spec fn valid_plan(plan: PartitionPlan) -> bool {
    &&& plan.geometry.x + plan.geometry.width <= 16
    &&& plan.geometry.y + plan.geometry.height <= 16
    &&& plan.geometry.x < 16
    &&& plan.geometry.y < 16
    &&& plan.reference_index <= 31
}

/// An error is kept by the partitions that follow.
proof fn lemma_failure_stays(
    state: MotionStateView,
    address: int,
    slice_id: u32,
    mode: PPartitionMode,
    plans: Seq<PartitionPlan>,
    failed: int,
    count: int,
)
    requires
        failed <= count,
        resolve_steps(state, address, slice_id, mode, plans, failed).error is Some,
    ensures
        resolve_steps(state, address, slice_id, mode, plans, count).error == resolve_steps(
            state,
            address,
            slice_id,
            mode,
            plans,
            failed,
        ).error,
    decreases count - failed,
{
    if failed < count {
        lemma_failure_stays(state, address, slice_id, mode, plans, failed, count - 1);
    }
}

fn validate_partitions(header: &PInterMacroblockHeader, expected: usize) -> (result: Result<()>)
    requires
        expected <= 2,
    ensures
        result == match whole_error(header@.partitions, expected as int) {
            Some(error) => Err::<(), H264Error>(error),
            None => Ok(()),
        },
{
    if header.partitions.len() != expected {
        return Err(H264Error::InvalidSyntax("P macroblock partition count is inconsistent"));
    }
    let ghost views = header@.partitions;
    let mut index: usize = 0;
    while index < expected
        invariant
            index <= expected,
            header.partitions.len() == expected,
            views == header@.partitions,
            forall|i: int| 0 <= i < index ==> (#[trigger] views[i]).differences.len() == 1,
        decreases expected - index,
    {
        assert(views[index as int] == header.partitions[index as int]@);
        if header.partitions[index].differences.len() != 1 {
            return Err(
                H264Error::InvalidSyntax("P macroblock motion-vector count is inconsistent"),
            );
        }
        index = index + 1;
    }
    let mut index: usize = 0;
    while index < expected
        invariant
            index <= expected,
            header.partitions.len() == expected,
            views == header@.partitions,
            forall|i: int| 0 <= i < expected ==> (#[trigger] views[i]).differences.len() == 1,
            forall|i: int| 0 <= i < index ==> (#[trigger] views[i]).reference_index <= 31,
        decreases expected - index,
    {
        assert(views[index as int] == header.partitions[index as int]@);
        if header.partitions[index].reference_index > 31 {
            return Err(H264Error::InvalidSyntax("P macroblock reference index exceeds 31"));
        }
        index = index + 1;
    }
    Ok(())
}

/// The plan of one place.
fn partition_plan(header: &PInterMacroblockHeader, geometry: PartitionGeometry) -> (plan:
    PartitionPlan)
    requires
        geometry.macroblock_partition_index < header@.partitions.len(),
        geometry.difference_index
            < header@.partitions[geometry.macroblock_partition_index as int].differences.len(),
    ensures
        plan == plan_of(header@, geometry),
{
    let motion = &header.partitions[geometry.macroblock_partition_index];
    assert(header@.partitions[geometry.macroblock_partition_index as int] == motion@);
    PartitionPlan {
        geometry,
        reference_index: motion.reference_index,
        difference: motion.differences[geometry.difference_index],
    }
}

fn place(x: u8, y: u8, width: u8, height: u8, partition: usize) -> (geometry: PartitionGeometry)
    ensures
        geometry == whole_geometry(x, y, width, height, partition),
{
    PartitionGeometry {
        x,
        y,
        width,
        height,
        macroblock_partition_index: partition,
        difference_index: 0,
    }
}

fn sub_place(partition: usize, sub_type: PSubMacroblockType, index: usize) -> (geometry:
    PartitionGeometry)
    requires
        partition < 4,
        index < sub_type.count(),
    ensures
        geometry == sub_geometry(partition as int, sub_type, index as int),
        geometry.x + geometry.width <= 16,
        geometry.y + geometry.height <= 16,
        geometry.x < 16,
        geometry.y < 16,
{
    let small: u8 = index as u8;
    let (sub_x, sub_y): (u8, u8) = match sub_type {
        PSubMacroblockType::L0_8x8 => (0, 0),
        PSubMacroblockType::L0_8x4 => (0, small * 4),
        PSubMacroblockType::L0_4x8 => (small * 4, 0),
        PSubMacroblockType::L0_4x4 => (small % 2 * 4, small / 2 * 4),
    };
    let (width, height) = sub_type.partition_size();
    PartitionGeometry {
        x: (partition % 2 * 8) as u8 + sub_x,
        y: (partition / 2 * 8) as u8 + sub_y,
        width,
        height,
        macroblock_partition_index: partition,
        difference_index: index,
    }
}

fn sub_plans(
    header: &PInterMacroblockHeader,
    types: &[PSubMacroblockType; 4],
    forced_zero: bool,
) -> (result: Result<Vec<PartitionPlan>>)
    requires
        header@.partitions.len() == 4,
    ensures
        match first_error(sub_errors(header@.partitions, types@, forced_zero), 4) {
            Some(error) => result == Err::<Vec<PartitionPlan>, H264Error>(error),
            None => result matches Ok(plans) && plans@ == sub_geometries(types@, 4).map_values(
                |geometry: PartitionGeometry| plan_of(header@, geometry),
            ) && forall|i: int| 0 <= i < plans@.len() ==> valid_plan(#[trigger] plans@[i]),
        },
{
    let ghost planned = |geometry: PartitionGeometry| plan_of(header@, geometry);
    let ghost errors = sub_errors(header@.partitions, types@, forced_zero);
    let mut plans: Vec<PartitionPlan> = Vec::new();
    let mut partition: usize = 0;
    assert(plans@ =~= sub_geometries(types@, 0).map_values(planned));
    while partition < 4
        invariant
            partition <= 4,
            header@.partitions.len() == 4,
            planned == (|geometry: PartitionGeometry| plan_of(header@, geometry)),
            errors == sub_errors(header@.partitions, types@, forced_zero),
            first_error(errors, partition as int) is None,
            plans@ == sub_geometries(types@, partition as int).map_values(planned),
            forall|i: int| 0 <= i < plans@.len() ==> valid_plan(#[trigger] plans@[i]),
        decreases 4 - partition,
    {
        proof {
            if errors(partition as int) is Some {
                lemma_first_error(errors, partition as int, 4);
            }
        }
        let sub_type = types[partition];
        let motion = &header.partitions[partition];
        assert(header@.partitions[partition as int] == motion@);
        if forced_zero && motion.reference_index != 0 {
            return Err(
                H264Error::InvalidSyntax("P_8x8ref0 contains a non-zero reference index"),
            );
        }
        let count: usize = sub_type.partition_count();
        if motion.differences.len() != count {
            return Err(
                H264Error::InvalidSyntax("P sub-macroblock motion-vector count is inconsistent"),
            );
        }
        if motion.reference_index > 31 {
            return Err(H264Error::InvalidSyntax("P macroblock reference index exceeds 31"));
        }
        let ghost before = plans@;
        let ghost places = |index: int| sub_geometry(partition as int, sub_type, index);
        let mut index: usize = 0;
        while index < count
            invariant
                index <= count,
                partition < 4,
                count == sub_type.count(),
                header@.partitions.len() == 4,
                header@.partitions[partition as int].differences.len() == count,
                header@.partitions[partition as int].reference_index <= 31,
                planned == (|geometry: PartitionGeometry| plan_of(header@, geometry)),
                places == (|index: int| sub_geometry(partition as int, sub_type, index)),
                plans@ == before + Seq::new(index as nat, places).map_values(planned),
                forall|i: int| 0 <= i < plans@.len() ==> valid_plan(#[trigger] plans@[i]),
            decreases count - index,
        {
            let geometry = sub_place(partition, sub_type, index);
            plans.push(partition_plan(header, geometry));
            assert(plans@ =~= before + Seq::new((index + 1) as nat, places).map_values(planned));
            index = index + 1;
        }
        assert(plans@ =~= sub_geometries(types@, partition + 1).map_values(planned)) by {
            assert(sub_geometries(types@, partition + 1) =~= sub_geometries(
                types@,
                partition as int,
            ) + Seq::new(count as nat, places));
        }
        partition = partition + 1;
    }
    Ok(plans)
}

fn partition_plans(header: &PInterMacroblockHeader) -> (result: Result<Vec<PartitionPlan>>)
    ensures
        match plans_error(header@) {
            Some(error) => result == Err::<Vec<PartitionPlan>, H264Error>(error),
            None => result matches Ok(plans) && plans@ == plans_of(header@) && forall|i: int|
                0 <= i < plans@.len() ==> valid_plan(#[trigger] plans@[i]),
        },
{
    let mut plans: Vec<PartitionPlan> = Vec::new();
    match &header.partition_mode {
        PPartitionMode::L0_16x16 => {
            validate_partitions(header, 1)?;
            assert(header@.partitions[0].reference_index <= 31);
            plans.push(partition_plan(header, place(0, 0, 16, 16, 0)));
        },
        PPartitionMode::L0_16x8 => {
            validate_partitions(header, 2)?;
            assert(header@.partitions[0].reference_index <= 31);
            assert(header@.partitions[1].reference_index <= 31);
            plans.push(partition_plan(header, place(0, 0, 16, 8, 0)));
            plans.push(partition_plan(header, place(0, 8, 16, 8, 1)));
        },
        PPartitionMode::L0_8x16 => {
            validate_partitions(header, 2)?;
            assert(header@.partitions[0].reference_index <= 31);
            assert(header@.partitions[1].reference_index <= 31);
            plans.push(partition_plan(header, place(0, 0, 8, 16, 0)));
            plans.push(partition_plan(header, place(8, 0, 8, 16, 1)));
        },
        PPartitionMode::L0_8x8 { sub_macroblocks, reference_index_forced_zero } => {
            if header.partitions.len() != 4 {
                return Err(
                    H264Error::InvalidSyntax("P macroblock partition count is inconsistent"),
                );
            }
            return sub_plans(header, sub_macroblocks, *reference_index_forced_zero);
        },
    }
    assert(plans@ =~= plans_of(header@));
    Ok(plans)
}

fn fill_partition_cells(
    cells: &mut [Option<MotionCell>; 16],
    slice_id: u32,
    partition: ResolvedPPartition,
)
    requires
        partition.reference_index <= 31,
        partition.x + partition.width <= 16,
        partition.y + partition.height <= 16,
        forall|i: int| 0 <= i < 16 ==> small_reference(#[trigger] old(cells)[i]),
    ensures
        final(cells)@ == with_partition(old(cells)@, slice_id, partition),
        forall|i: int| 0 <= i < 16 ==> small_reference(#[trigger] final(cells)[i]),
{
    let kind = MotionKind::Inter {
        reference_index: partition.reference_index,
        vector: partition.motion_vector,
    };
    let ghost before = cells@;
    let mut index: usize = 0;
    while index < 16
        invariant
            index <= 16,
            before == old(cells)@,
            partition.reference_index <= 31,
            partition.x + partition.width <= 16,
            partition.y + partition.height <= 16,
            kind == (MotionKind::Inter {
                reference_index: partition.reference_index,
                vector: partition.motion_vector,
            }),
            forall|i: int| 0 <= i < 16 ==> small_reference(#[trigger] cells[i]),
            forall|i: int|
                0 <= i < 16 ==> #[trigger] cells[i] == if i < index {
                    with_partition(before, slice_id, partition)[i]
                } else {
                    before[i]
                },
        decreases 16 - index,
    {
        let x: u8 = (index % 4 * 4) as u8;
        let y: u8 = (index / 4 * 4) as u8;
        if partition.x <= x && x < partition.x + partition.width && partition.y <= y && y
            < partition.y + partition.height {
            cells[index] = Some(MotionCell { slice_id, kind });
        }
        index = index + 1;
    }
    assert(cells@ =~= with_partition(before, slice_id, partition));
}

fn add_motion_vector_difference(
    predictor: MotionVector,
    difference: MotionVectorDifference,
) -> (result: Result<MotionVector>)
    ensures
        ({
            let x = predictor.x + difference.x;
            let y = predictor.y + difference.y;
            result == if !(i16::MIN <= x <= i16::MAX) {
                Err::<MotionVector, H264Error>(
                    H264Error::InvalidSyntax(
                        "horizontal P motion vector exceeds the supported range",
                    ),
                )
            } else if !(i16::MIN <= y <= i16::MAX) {
                Err(
                    H264Error::InvalidSyntax(
                        "vertical P motion vector exceeds the supported range",
                    ),
                )
            } else {
                Ok(MotionVector { x: x as i16, y: y as i16 })
            }
        }),
{
    let x: i32 = predictor.x as i32 + difference.x as i32;
    let y: i32 = predictor.y as i32 + difference.y as i32;
    if x < -0x8000 || x > 0x7fff {
        return Err(
            H264Error::InvalidSyntax("horizontal P motion vector exceeds the supported range"),
        );
    }
    if y < -0x8000 || y > 0x7fff {
        return Err(
            H264Error::InvalidSyntax("vertical P motion vector exceeds the supported range"),
        );
    }
    Ok(MotionVector { x: x as i16, y: y as i16 })
}

/// The prediction of a vector from those of the left, the upper, and the upper
/// right neighbour.
pub fn median_motion_vector_prediction(
    a: NeighbourMotion,
    b: NeighbourMotion,
    c: NeighbourMotion,
    reference_index: u8,
) -> (vector: MotionVector)
    ensures
        vector == median_prediction(a, b, c, reference_index),
{
    let alone: bool = a.available && !b.available && !c.available;
    let b = if alone {
        a
    } else {
        b
    };
    let c = if alone {
        a
    } else {
        c
    };
    let index: i8 = reference_index as i8;
    let in_a: bool = a.reference_index == index;
    let in_b: bool = b.reference_index == index;
    let in_c: bool = c.reference_index == index;
    if in_a && !in_b && !in_c {
        a.vector
    } else if !in_a && in_b && !in_c {
        b.vector
    } else if !in_a && !in_b && in_c {
        c.vector
    } else {
        MotionVector {
            x: median(a.vector.x, b.vector.x, c.vector.x),
            y: median(a.vector.y, b.vector.y, c.vector.y),
        }
    }
}

#[inline]
fn median(a: i16, b: i16, c: i16) -> (value: i16)
    ensures
        value == middle(a, b, c),
{
    if a <= b && b <= c || c <= b && b <= a {
        b
    } else if b <= a && a <= c || c <= a && a <= b {
        a
    } else {
        c
    }
}

/// Clearing a macroblock that was just recorded gives back the state before.
pub proof fn law_clearing_undoes_recording(
    state: MotionStateView,
    address: int,
    local: Seq<Option<MotionCell>>,
)
    requires
        0 <= address,
        write_error(state, address) is None,
        state.cells.len() == state.width * state.height * 16,
    ensures
        committed(committed(state, address, local), address, no_cells()) == state,
{
    let restored = committed(committed(state, address, local), address, no_cells());
    assert forall|i: int| 0 <= i < state.cells.len() implies #[trigger] restored.cells[i]
        == state.cells[i] by {
        if address * 16 <= i < address * 16 + 16 {
            assert(!(state.cells[i] is Some));
        }
    }
    assert(restored.cells =~= state.cells);
}

/// A macroblock that was recorded cannot be recorded again until it is cleared.
pub proof fn law_recording_takes_the_place(
    state: MotionStateView,
    address: int,
    local: Seq<Option<MotionCell>>,
    cell: int,
)
    requires
        0 <= address < state.width * state.height,
        state.cells.len() == state.width * state.height * 16,
        0 <= cell < 16,
        local[cell] is Some,
    ensures
        write_error(committed(state, address, local), address) == Some(
            H264Error::InvalidSyntax("motion-state macroblock was already recorded"),
        ),
        write_error(committed(state, address, no_cells()), address) is None,
{
    let after = committed(state, address, local);
    assert(after.cells[address * 16 + cell] is Some);
}

/// Blocks of another slice contribute nothing.
pub proof fn law_other_slices_are_unavailable(cell: MotionCell, slice_id: u32)
    requires
        cell.slice_id != slice_id,
    ensures
        contribution(Some(cell), slice_id) == unavailable(),
{
}

/// A 4x4 block of a macroblock belongs to one sub-macroblock, and to one
/// partition of that.
proof fn lemma_sub_partition_covers(
    partition: int,
    sub_type: PSubMacroblockType,
    index: int,
    cell: int,
)
    requires
        0 <= partition < 4,
        0 <= index < sub_type.count(),
        0 <= cell < 16,
    ensures
        ({
            let geometry = sub_geometry(partition, sub_type, index);
            covers(geometry.x, geometry.y, geometry.width, geometry.height, cell) <==> {
                &&& partition == cell / 8 * 2 + cell % 4 / 2
                &&& index == sub_partition_at(sub_type, cell)
            }
        }),
        0 <= sub_partition_at(sub_type, cell) < sub_type.count(),
{
}

/// The partition of a sub-macroblock that a 4x4 block belongs to.
pub open spec fn sub_partition_at(sub_type: PSubMacroblockType, cell: int) -> int {
    match sub_type {
        PSubMacroblockType::L0_8x8 => 0,
        PSubMacroblockType::L0_8x4 => cell / 4 % 2,
        PSubMacroblockType::L0_4x8 => cell % 2,
        PSubMacroblockType::L0_4x4 => cell / 4 % 2 * 2 + cell % 2,
    }
}

/// Where the partitions of a sub-macroblock begin in decoding order.
pub open spec fn sub_start(types: Seq<PSubMacroblockType>, partition: int) -> int
    decreases partition,
{
    if partition <= 0 {
        0
    } else {
        sub_start(types, partition - 1) + types[partition - 1].count()
    }
}

/// The partitions of sub-macroblocks by their places in decoding order.
proof fn lemma_sub_geometries(types: Seq<PSubMacroblockType>, count: int, cell: int)
    requires
        0 <= count <= types.len(),
        types.len() == 4,
        0 <= cell < 16,
    ensures
        sub_geometries(types, count).len() == sub_start(types, count),
        forall|i: int|
            #![trigger sub_geometries(types, count)[i]]
            0 <= i < sub_start(types, count) ==> {
                let geometry = sub_geometries(types, count)[i];
                let partition = cell / 8 * 2 + cell % 4 / 2;
                covers(geometry.x, geometry.y, geometry.width, geometry.height, cell) <==> (
                partition < count && i == sub_start(types, partition) + sub_partition_at(
                    types[partition],
                    cell,
                ))
            },
        forall|partition: int|
            #![trigger sub_start(types, partition)]
            0 <= partition < count ==> 0 <= sub_start(types, partition) && sub_start(
                types,
                partition,
            ) + types[partition].count() <= sub_start(types, count),
    decreases count,
{
    let partition = cell / 8 * 2 + cell % 4 / 2;
    if count > 0 {
        lemma_sub_geometries(types, count - 1, cell);
        let whole = sub_geometries(types, count);
        let start = sub_start(types, count - 1);
        assert(sub_start(types, count) == start + types[count - 1].count());
        assert(types[partition].count() <= 4);
        if partition < count {
            lemma_sub_partition_covers(partition, types[partition], 0, cell);
        }
        assert forall|i: int|
            #![trigger whole[i]]
            0 <= i < sub_start(types, count) implies (covers(
            whole[i].x,
            whole[i].y,
            whole[i].width,
            whole[i].height,
            cell,
        ) <==> (partition < count && i == sub_start(types, partition) + sub_partition_at(
            types[partition],
            cell,
        ))) by {
            if i < start {
                assert(whole[i] == sub_geometries(types, count - 1)[i]);
                if partition == count - 1 {
                    assert(sub_start(types, partition) == start);
                }
            } else {
                assert(whole[i] == sub_geometry(count - 1, types[count - 1], i - start));
                lemma_sub_partition_covers(count - 1, types[count - 1], i - start, cell);
                if partition < count - 1 {
                    assert(sub_start(types, partition) + types[partition].count() <= start);
                }
            }
        }
    }
}

/// Each 4x4 block of a macroblock is covered by exactly one of its partitions,
/// so that partitions never overlap and leave nothing out.
pub proof fn law_partitions_tile_the_macroblock(mode: PPartitionMode, cell: int)
    requires
        0 <= cell < 16,
    ensures
        exists|i: int|
            0 <= i < geometries(mode).len() && {
                let geometry = #[trigger] geometries(mode)[i];
                covers(geometry.x, geometry.y, geometry.width, geometry.height, cell)
            },
        forall|i: int, j: int|
            0 <= i < geometries(mode).len() && 0 <= j < geometries(mode).len() && ({
                let first = #[trigger] geometries(mode)[i];
                covers(first.x, first.y, first.width, first.height, cell)
            }) && ({
                let second = #[trigger] geometries(mode)[j];
                covers(second.x, second.y, second.width, second.height, cell)
            }) ==> i == j,
{
    let all = geometries(mode);
    match mode {
        PPartitionMode::L0_16x16 => {
            assert(covers(all[0].x, all[0].y, all[0].width, all[0].height, cell));
        },
        PPartitionMode::L0_16x8 => {
            assert(covers(all[0].x, all[0].y, all[0].width, all[0].height, cell) || covers(
                all[1].x,
                all[1].y,
                all[1].width,
                all[1].height,
                cell,
            ));
        },
        PPartitionMode::L0_8x16 => {
            assert(covers(all[0].x, all[0].y, all[0].width, all[0].height, cell) || covers(
                all[1].x,
                all[1].y,
                all[1].width,
                all[1].height,
                cell,
            ));
        },
        PPartitionMode::L0_8x8 { sub_macroblocks, .. } => {
            let types = sub_macroblocks@;
            let partition = cell / 8 * 2 + cell % 4 / 2;
            lemma_sub_geometries(types, 4, cell);
            lemma_sub_partition_covers(partition, types[partition], 0, cell);
            let place = sub_start(types, partition) + sub_partition_at(types[partition], cell);
            assert(covers(
                all[place].x,
                all[place].y,
                all[place].width,
                all[place].height,
                cell,
            ));
        },
    }
}

} // verus!
