//! Laws of motion vector prediction in P slices.

use vstd::arithmetic::div_mod::lemma_fundamental_div_mod;
use vstd::prelude::*;

use crate::h264::macroblock::{PHeaderView, PPartitionMode, PSubMacroblockType};
use crate::h264::motion::{
    committed, contribution, covers, geometries, law_partitions_tile_the_macroblock,
    median_prediction, neighbour, neighbours_of, no_cells, plan_of, plans_error, plans_of,
    predicted_vector, resolve_step, resolve_steps, resolved_inter, skip_partition, sub_geometry,
    unavailable, whole_geometry, MotionCell, MotionKind, MotionStateView, MotionVector,
    NeighbourMotion, PartitionGeometry, PartitionPlan, ResolvedPPartition,
};

verus! {

/// A block contributes where it was decoded before in the same slice: its reference
/// and vector if it is an inter block, and neither if it is an intra block.
pub proof fn law_blocks_contribute_inside_their_slice(cell: Option<MotionCell>, slice_id: u32)
    ensures
        ({
            let motion = contribution(cell, slice_id);
            &&& motion.available <==> cell is Some && cell->0.slice_id == slice_id
            &&& motion.available && cell->0.kind is Inter ==> motion.vector
                == cell->0.kind->vector && motion.reference_index
                == cell->0.kind->reference_index as i8
            &&& !(motion.available && cell->0.kind is Inter) ==> motion.reference_index == -1
                && motion.vector.x == 0 && motion.vector.y == 0
        }),
{
}

/// A number is the middle one of three: it is one of them, and as many are below as
/// above.
pub open spec fn is_middle(value: int, a: int, b: int, c: int) -> bool {
    &&& value == a || value == b || value == c
    &&& (value <= a && value <= b && value <= c ==> value == a && value == b || value == a && value
        == c || value == b && value == c)
    &&& (value >= a && value >= b && value >= c ==> value == a && value == b || value == a && value
        == c || value == b && value == c)
}

/// The median prediction is the vector of the only neighbour with the same reference,
/// or of the left neighbour where the others are missing, or the middle of each
/// component.
pub proof fn law_median_prediction(
    a: NeighbourMotion,
    b: NeighbourMotion,
    c: NeighbourMotion,
    reference_index: u8,
)
    requires
        reference_index <= 31,
    ensures
        ({
            let vector = median_prediction(a, b, c, reference_index);
            let alone = a.available && !b.available && !c.available;
            &&& alone ==> vector == a.vector
            &&& !alone && a.reference_index == reference_index && b.reference_index
                != reference_index && c.reference_index != reference_index ==> vector == a.vector
            &&& !alone && a.reference_index != reference_index && b.reference_index
                == reference_index && c.reference_index != reference_index ==> vector == b.vector
            &&& !alone && a.reference_index != reference_index && b.reference_index
                != reference_index && c.reference_index == reference_index ==> vector == c.vector
            &&& !alone && (a.reference_index == reference_index) == (b.reference_index
                == reference_index) ==> ((a.reference_index == reference_index) || c.reference_index
                != reference_index ==> is_middle(
                vector.x as int,
                a.vector.x as int,
                b.vector.x as int,
                c.vector.x as int,
            ) && is_middle(
                vector.y as int,
                a.vector.y as int,
                b.vector.y as int,
                c.vector.y as int,
            ))
            &&& !alone && (a.reference_index == reference_index) != (b.reference_index
                == reference_index) && c.reference_index == reference_index ==> is_middle(
                vector.x as int,
                a.vector.x as int,
                b.vector.x as int,
                c.vector.x as int,
            ) && is_middle(
                vector.y as int,
                a.vector.y as int,
                b.vector.y as int,
                c.vector.y as int,
            )
        }),
{
}

/// What the 4x4 block `cell` of a macroblock contributes. Blocks count from left to
/// right and from top to bottom.
pub open spec fn block(
    state: MotionStateView,
    slice_id: u32,
    address: int,
    cell: int,
) -> NeighbourMotion {
    contribution(state.cells[address * 16 + cell], slice_id)
}

/// What the last block of a row of the macroblock on the left contributes.
pub open spec fn left_of(
    state: MotionStateView,
    slice_id: u32,
    address: int,
    row: int,
) -> NeighbourMotion {
    if address % state.width == 0 {
        unavailable()
    } else {
        block(state, slice_id, address - 1, 4 * row + 3)
    }
}

/// What the first block of a row of the macroblock on the right contributes.
pub open spec fn right_of(
    state: MotionStateView,
    slice_id: u32,
    address: int,
    row: int,
) -> NeighbourMotion {
    if address % state.width == state.width - 1 {
        unavailable()
    } else {
        block(state, slice_id, address + 1, 4 * row)
    }
}

/// What a block of the last row of the macroblock above contributes.
pub open spec fn above(
    state: MotionStateView,
    slice_id: u32,
    address: int,
    column: int,
) -> NeighbourMotion {
    if address < state.width {
        unavailable()
    } else {
        block(state, slice_id, address - state.width, 12 + column)
    }
}

/// What the lower left block of the macroblock above and to the right contributes.
pub open spec fn above_right(
    state: MotionStateView,
    slice_id: u32,
    address: int,
) -> NeighbourMotion {
    if address < state.width || address % state.width == state.width - 1 {
        unavailable()
    } else {
        block(state, slice_id, address - state.width + 1, 12)
    }
}

/// What the lower right block of the macroblock above and to the left contributes.
pub open spec fn above_left(
    state: MotionStateView,
    slice_id: u32,
    address: int,
) -> NeighbourMotion {
    if address < state.width || address % state.width == 0 {
        unavailable()
    } else {
        block(state, slice_id, address - state.width - 1, 15)
    }
}

/// A neighbour, or another in its place where it is missing.
pub open spec fn or_other(motion: NeighbourMotion, other: NeighbourMotion) -> NeighbourMotion {
    if motion.available {
        motion
    } else {
        other
    }
}

/// A vector is a prediction plus the difference that the header gives.
pub open spec fn moved(
    partition: ResolvedPPartition,
    prediction: MotionVector,
    header: PHeaderView,
    index: int,
) -> bool {
    &&& partition.motion_vector.x == prediction.x + header.partitions[index].differences[0].x
    &&& partition.motion_vector.y == prediction.y + header.partitions[index].differences[0].y
    &&& partition.reference_index == header.partitions[index].reference_index
}

/// The macroblocks around one.
proof fn lemma_around(state: MotionStateView, address: int)
    requires
        0 < state.width,
        0 < state.height,
        0 <= address < state.width * state.height,
    ensures
        ({
            let column = address % state.width;
            let row = address / state.width;
            &&& address == row * state.width + column
            &&& 0 <= column < state.width
            &&& 0 <= row < state.height
            &&& address < state.width <==> row == 0
            &&& (row - 1) * state.width == row * state.width - state.width
        }),
{
    lemma_fundamental_div_mod(address, state.width);
    let column = address % state.width;
    let row = address / state.width;
    assert(row * state.width == state.width * row) by (nonlinear_arith);
    assert(0 <= column < state.width && 0 <= row < state.height) by (nonlinear_arith)
        requires
            0 < state.width,
            0 <= address < state.width * state.height,
            column == address % state.width,
            row == address / state.width,
    ;
    assert(row >= 1 ==> row * state.width >= state.width) by (nonlinear_arith)
        requires
            0 < state.width,
    ;
    assert((row - 1) * state.width == row * state.width - state.width) by (nonlinear_arith);
}

/// The neighbours of a partition at the top of a macroblock.
proof fn lemma_upper_neighbours(
    state: MotionStateView,
    address: int,
    slice_id: u32,
    local: Seq<Option<MotionCell>>,
    x: u8,
    width: u8,
    height: u8,
    partition: usize,
)
    requires
        0 < state.width,
        0 < state.height,
        0 <= address < state.width * state.height,
        x == 0 && width == 16 || x == 0 && width == 8 || x == 8 && width == 8,
    ensures
        ({
            let (a, b, c, d) = neighbours_of(
                state,
                address,
                slice_id,
                local,
                whole_geometry(x, 0, width, height, partition),
            );
            &&& x == 0 ==> a == left_of(state, slice_id, address, 0)
            &&& x == 8 ==> a == contribution(local[1], slice_id)
            &&& b == above(state, slice_id, address, x as int / 4)
            &&& x + width == 16 ==> c == above_right(state, slice_id, address)
            &&& x + width == 8 ==> c == above(state, slice_id, address, 2)
            &&& x == 0 ==> d == above_left(state, slice_id, address)
            &&& x == 8 ==> d == above(state, slice_id, address, 1)
        }),
{
    lemma_around(state, address);
    let column = address % state.width;
    let row = address / state.width;
    let left = column * 16 + x;
    let top = row * 16;
    assert((left - 1) / 16 == if x == 0 {
        column - 1
    } else {
        column
    });
    assert(left / 16 == column);
    assert((left + width) / 16 == if x + width == 16 {
        column + 1
    } else {
        column
    });
    assert((top - 1) / 16 == row - 1);
    assert(top / 16 == row);
    assert((top - 1) % 16 == 15);
    assert(top % 16 == 0);
}

/// The neighbours of the lower half of a macroblock.
proof fn lemma_lower_neighbours(
    state: MotionStateView,
    address: int,
    slice_id: u32,
    local: Seq<Option<MotionCell>>,
)
    requires
        0 < state.width,
        0 < state.height,
        0 <= address < state.width * state.height,
    ensures
        ({
            let (a, b, c, d) = neighbours_of(
                state,
                address,
                slice_id,
                local,
                whole_geometry(0, 8, 16, 8, 1),
            );
            &&& c == right_of(state, slice_id, address, 1)
            &&& a == left_of(state, slice_id, address, 2)
            &&& b == contribution(local[4], slice_id)
            &&& d == left_of(state, slice_id, address, 1)
        }),
{
    lemma_around(state, address);
    let column = address % state.width;
    let row = address / state.width;
    assert((column * 16 - 1) / 16 == column - 1);
    assert((column * 16) / 16 == column && (column * 16 + 16) / 16 == column + 1);
    assert((row * 16 + 8) / 16 == row && (row * 16 + 7) / 16 == row);
    assert((row * 16 + 8) % 16 == 8 && (row * 16 + 7) % 16 == 7);
}

/// The vector of a macroblock with one partition is the median prediction from the
/// blocks on the left, above, and above right, or above left in its place.
pub proof fn law_16x16_is_predicted_by_the_median(
    state: MotionStateView,
    address: int,
    slice_id: u32,
    header: PHeaderView,
)
    requires
        0 < state.width,
        0 < state.height,
        0 <= address < state.width * state.height,
        header.partition_mode is L0_16x16,
        plans_error(header) is None,
        resolved_inter(state, address, slice_id, header).error is None,
    ensures
        ({
            let partitions = resolved_inter(state, address, slice_id, header).partitions;
            &&& partitions.len() == 1
            &&& partitions[0].x == 0 && partitions[0].y == 0
            &&& partitions[0].width == 16 && partitions[0].height == 16
            &&& moved(
                partitions[0],
                median_prediction(
                    left_of(state, slice_id, address, 0),
                    above(state, slice_id, address, 0),
                    or_other(
                        above_right(state, slice_id, address),
                        above_left(state, slice_id, address),
                    ),
                    header.partitions[0].reference_index,
                ),
                header,
                0,
            )
        }),
{
    reveal_with_fuel(resolve_steps, 2);
    lemma_upper_neighbours(state, address, slice_id, no_cells(), 0, 16, 16, 0);
    let plans = plans_of(header);
    assert(plans.len() == 1 && plans[0] == plan_of(header, whole_geometry(0, 0, 16, 16, 0)));
}

/// The upper half of a macroblock takes its vector from the block above and the lower
/// half from the block on the left, where that has the same reference.
pub proof fn law_16x8_halves_follow_above_and_left(
    state: MotionStateView,
    address: int,
    slice_id: u32,
    header: PHeaderView,
)
    requires
        0 < state.width,
        0 < state.height,
        0 <= address < state.width * state.height,
        header.partition_mode is L0_16x8,
        plans_error(header) is None,
        resolved_inter(state, address, slice_id, header).error is None,
    ensures
        ({
            let partitions = resolved_inter(state, address, slice_id, header).partitions;
            let upper = above(state, slice_id, address, 0);
            let lower = left_of(state, slice_id, address, 2);
            &&& partitions.len() == 2
            &&& partitions[0].x == 0 && partitions[0].y == 0
            &&& partitions[0].width == 16 && partitions[0].height == 8
            &&& partitions[1].x == 0 && partitions[1].y == 8
            &&& partitions[1].width == 16 && partitions[1].height == 8
            &&& upper.reference_index == header.partitions[0].reference_index ==> moved(
                partitions[0],
                upper.vector,
                header,
                0,
            )
            &&& upper.reference_index != header.partitions[0].reference_index ==> moved(
                partitions[0],
                median_prediction(
                    left_of(state, slice_id, address, 0),
                    upper,
                    or_other(
                        above_right(state, slice_id, address),
                        above_left(state, slice_id, address),
                    ),
                    header.partitions[0].reference_index,
                ),
                header,
                0,
            )
            &&& lower.reference_index == header.partitions[1].reference_index ==> moved(
                partitions[1],
                lower.vector,
                header,
                1,
            )
            &&& lower.reference_index != header.partitions[1].reference_index ==> moved(
                partitions[1],
                median_prediction(
                    lower,
                    NeighbourMotion {
                        available: true,
                        reference_index: partitions[0].reference_index as i8,
                        vector: partitions[0].motion_vector,
                    },
                    or_other(
                        right_of(state, slice_id, address, 1),
                        left_of(state, slice_id, address, 1),
                    ),
                    header.partitions[1].reference_index,
                ),
                header,
                1,
            )
        }),
{
    reveal_with_fuel(resolve_steps, 3);
    let plans = plans_of(header);
    assert(plans.len() == 2 && plans[0] == plan_of(header, whole_geometry(0, 0, 16, 8, 0))
        && plans[1] == plan_of(header, whole_geometry(0, 8, 16, 8, 1)));
    let first = resolve_steps(state, address, slice_id, header.partition_mode, plans, 1);
    lemma_upper_neighbours(state, address, slice_id, no_cells(), 0, 16, 8, 0);
    lemma_lower_neighbours(state, address, slice_id, first.local);
}

/// The left half of a macroblock takes its vector from the block on the left and the
/// right half from the block above and to the right, or the block above and to the left
/// in its place, where that has the same reference, whatever the other half has.
pub proof fn law_8x16_halves_follow_left_and_above_right(
    state: MotionStateView,
    address: int,
    slice_id: u32,
    header: PHeaderView,
)
    requires
        0 < state.width,
        0 < state.height,
        0 <= address < state.width * state.height,
        header.partition_mode is L0_8x16,
        plans_error(header) is None,
        resolved_inter(state, address, slice_id, header).error is None,
    ensures
        ({
            let partitions = resolved_inter(state, address, slice_id, header).partitions;
            let beside = left_of(state, slice_id, address, 0);
            let diagonal = or_other(
                above_right(state, slice_id, address),
                above(state, slice_id, address, 1),
            );
            &&& partitions.len() == 2
            &&& partitions[0].x == 0 && partitions[0].y == 0
            &&& partitions[0].width == 8 && partitions[0].height == 16
            &&& partitions[1].x == 8 && partitions[1].y == 0
            &&& partitions[1].width == 8 && partitions[1].height == 16
            &&& beside.reference_index == header.partitions[0].reference_index ==> moved(
                partitions[0],
                beside.vector,
                header,
                0,
            )
            &&& beside.reference_index != header.partitions[0].reference_index ==> moved(
                partitions[0],
                median_prediction(
                    beside,
                    above(state, slice_id, address, 0),
                    or_other(
                        above(state, slice_id, address, 2),
                        above_left(state, slice_id, address),
                    ),
                    header.partitions[0].reference_index,
                ),
                header,
                0,
            )
            &&& diagonal.reference_index == header.partitions[1].reference_index ==> moved(
                partitions[1],
                diagonal.vector,
                header,
                1,
            )
            &&& diagonal.reference_index != header.partitions[1].reference_index ==> moved(
                partitions[1],
                median_prediction(
                    NeighbourMotion {
                        available: true,
                        reference_index: partitions[0].reference_index as i8,
                        vector: partitions[0].motion_vector,
                    },
                    above(state, slice_id, address, 2),
                    diagonal,
                    header.partitions[1].reference_index,
                ),
                header,
                1,
            )
        }),
{
    reveal_with_fuel(resolve_steps, 3);
    let plans = plans_of(header);
    assert(plans.len() == 2 && plans[0] == plan_of(header, whole_geometry(0, 0, 8, 16, 0))
        && plans[1] == plan_of(header, whole_geometry(8, 0, 8, 16, 1)));
    let first = resolve_steps(state, address, slice_id, header.partition_mode, plans, 1);
    lemma_upper_neighbours(state, address, slice_id, no_cells(), 0, 8, 16, 0);
    lemma_upper_neighbours(state, address, slice_id, first.local, 8, 8, 16, 1);
}

/// A skipped macroblock has no motion at the upper or left border of its slice, nor
/// where the block on the left or above rests on the first reference without motion,
/// and elsewhere that of the median prediction.
pub proof fn law_skipped_macroblocks(state: MotionStateView, address: int, slice_id: u32)
    requires
        0 < state.width,
        0 < state.height,
        0 <= address < state.width * state.height,
    ensures
        ({
            let partition = skip_partition(state, address, slice_id);
            let a = left_of(state, slice_id, address, 0);
            let b = above(state, slice_id, address, 0);
            let rests = |motion: NeighbourMotion|
                motion.reference_index == 0 && motion.vector.x == 0 && motion.vector.y == 0;
            &&& partition.x == 0 && partition.y == 0
            &&& partition.width == 16 && partition.height == 16
            &&& partition.reference_index == 0
            &&& if !a.available || !b.available || rests(a) || rests(b) {
                partition.motion_vector.x == 0 && partition.motion_vector.y == 0
            } else {
                partition.motion_vector == median_prediction(
                    a,
                    b,
                    or_other(
                        above_right(state, slice_id, address),
                        above_left(state, slice_id, address),
                    ),
                    0,
                )
            }
        }),
{
    lemma_upper_neighbours(state, address, slice_id, no_cells(), 0, 16, 16, 0);
}

/// The partitions of sub-macroblocks lie row by row: the second of two below or to the
/// right, and of four the second to the right and the third below.
pub proof fn law_sub_partitions_lie_row_by_row(
    partition: int,
    sub_type: PSubMacroblockType,
    index: int,
)
    requires
        0 <= partition < 4,
        0 <= index < sub_type.count(),
    ensures
        ({
            let geometry = sub_geometry(partition, sub_type, index);
            let left = if partition == 1 || partition == 3 {
                8
            } else {
                0int
            };
            let top = if partition >= 2 {
                8
            } else {
                0int
            };
            &&& geometry.macroblock_partition_index == partition
            &&& geometry.difference_index == index
            &&& sub_type is L0_8x8 ==> geometry.x == left && geometry.y == top && geometry.width
                == 8 && geometry.height == 8
            &&& sub_type is L0_8x4 ==> geometry.x == left && geometry.y == top + 4 * index
                && geometry.width == 8 && geometry.height == 4
            &&& sub_type is L0_4x8 ==> geometry.x == left + 4 * index && geometry.y == top
                && geometry.width == 4 && geometry.height == 8
            &&& sub_type is L0_4x4 ==> geometry.x == left + (if index == 1 || index == 3 {
                4
            } else {
                0int
            }) && geometry.y == top + (if index >= 2 {
                4
            } else {
                0int
            }) && geometry.width == 4 && geometry.height == 4
        }),
{
}

/// What the block of a luma sample contributes that lies in a macroblock or just
/// outside of it, by its place from the upper left one.
pub open spec fn sample_block(
    state: MotionStateView,
    address: int,
    slice_id: u32,
    local: Seq<Option<MotionCell>>,
    x: int,
    y: int,
) -> NeighbourMotion {
    let column = address % state.width + if x < 0 {
        -1int
    } else if x >= 16 {
        1
    } else {
        0
    };
    let row = address / state.width - if y < 0 {
        1int
    } else {
        0
    };
    let across = if x < 0 {
        3
    } else if x >= 16 {
        0
    } else {
        x / 4
    };
    let down = if y < 0 {
        3
    } else {
        y / 4
    };
    if !(0 <= column < state.width && 0 <= row) {
        unavailable()
    } else if 0 <= x < 16 && 0 <= y {
        contribution(local[4 * down + across], slice_id)
    } else {
        block(state, slice_id, row * state.width + column, 4 * down + across)
    }
}

/// A partition of a sub-macroblock is predicted by the median from the blocks just left
/// of it, just above it, and above right of it, or above left where that is missing.
pub proof fn law_sub_partitions_look_at_their_own_neighbours(
    state: MotionStateView,
    address: int,
    slice_id: u32,
    local: Seq<Option<MotionCell>>,
    geometry: PartitionGeometry,
    reference_index: u8,
    mode: PPartitionMode,
)
    requires
        0 < state.width,
        0 < state.height,
        0 <= address < state.width * state.height,
        mode is L0_8x8,
        0 <= geometry.x < 16,
        0 <= geometry.y < 16,
        0 < geometry.width,
        geometry.x + geometry.width <= 16,
    ensures
        ({
            let x = geometry.x as int;
            let y = geometry.y as int;
            predicted_vector(
                state,
                address,
                slice_id,
                local,
                geometry,
                reference_index,
                mode,
            ) == median_prediction(
                sample_block(state, address, slice_id, local, x - 1, y),
                sample_block(state, address, slice_id, local, x, y - 1),
                or_other(
                    sample_block(state, address, slice_id, local, x + geometry.width, y - 1),
                    sample_block(state, address, slice_id, local, x - 1, y - 1),
                ),
                reference_index,
            )
        }),
{
    lemma_around(state, address);
    let x = geometry.x as int;
    let y = geometry.y as int;
    lemma_sample_block(state, address, slice_id, local, x - 1, y);
    lemma_sample_block(state, address, slice_id, local, x, y - 1);
    lemma_sample_block(state, address, slice_id, local, x + geometry.width, y - 1);
    lemma_sample_block(state, address, slice_id, local, x - 1, y - 1);
}

/// The block of a sample by its place in the picture.
proof fn lemma_sample_block(
    state: MotionStateView,
    address: int,
    slice_id: u32,
    local: Seq<Option<MotionCell>>,
    x: int,
    y: int,
)
    requires
        0 < state.width,
        0 < state.height,
        0 <= address < state.width * state.height,
        -1 <= x <= 16,
        -1 <= y < 16,
    ensures
        neighbour(
            state,
            address,
            slice_id,
            local,
            address % state.width * 16 + x,
            address / state.width * 16 + y,
        ) == sample_block(state, address, slice_id, local, x, y),
{
    lemma_around(state, address);
    let column = address % state.width;
    let row = address / state.width;
    assert((column * 16 + x) / 16 == if x < 0 {
        column - 1
    } else if x >= 16 {
        column + 1
    } else {
        column
    });
    assert((column * 16 + x) % 16 == if x < 0 {
        15
    } else if x >= 16 {
        0
    } else {
        x
    });
    assert((row * 16 + y) / 16 == if y < 0 {
        row - 1
    } else {
        row
    });
    assert((row * 16 + y) % 16 == if y < 0 {
        15
    } else {
        y
    });
}

/// The partitions so far have the places, sizes and references of their plans, and
/// each block holds the motion of the last partition that covers it.
proof fn lemma_recorded(
    state: MotionStateView,
    address: int,
    slice_id: u32,
    mode: PPartitionMode,
    plans: Seq<PartitionPlan>,
    count: int,
    cell: int,
)
    requires
        0 <= count <= plans.len(),
        0 <= cell < 16,
        resolve_steps(state, address, slice_id, mode, plans, count).error is None,
    ensures
        ({
            let progress = resolve_steps(state, address, slice_id, mode, plans, count);
            &&& progress.partitions.len() == count
            &&& progress.local.len() == 16
            &&& forall|i: int|
                0 <= i < count ==> {
                    let partition = #[trigger] progress.partitions[i];
                    let geometry = plans[i].geometry;
                    &&& partition.x == geometry.x && partition.y == geometry.y
                    &&& partition.width == geometry.width && partition.height == geometry.height
                    &&& partition.reference_index == plans[i].reference_index
                }
            &&& forall|i: int|
                0 <= i < count && covers(
                    (#[trigger] progress.partitions[i]).x,
                    progress.partitions[i].y,
                    progress.partitions[i].width,
                    progress.partitions[i].height,
                    cell,
                ) && (forall|j: int|
                    i < j < count ==> !covers(
                        (#[trigger] plans[j]).geometry.x,
                        plans[j].geometry.y,
                        plans[j].geometry.width,
                        plans[j].geometry.height,
                        cell,
                    )) ==> progress.local[cell] == Some(
                    MotionCell {
                        slice_id,
                        kind: MotionKind::Inter {
                            reference_index: progress.partitions[i].reference_index,
                            vector: progress.partitions[i].motion_vector,
                        },
                    },
                )
        }),
    decreases count,
{
    if count > 0 {
        let before = resolve_steps(state, address, slice_id, mode, plans, count - 1);
        let after = resolve_steps(state, address, slice_id, mode, plans, count);
        assert(before.error is None);
        lemma_recorded(state, address, slice_id, mode, plans, count - 1, cell);
        assert(after == resolve_step(state, address, slice_id, mode, before, plans[count - 1]));
        assert forall|i: int| 0 <= i < count implies {
            let partition = #[trigger] after.partitions[i];
            let geometry = plans[i].geometry;
            &&& partition.x == geometry.x && partition.y == geometry.y
            &&& partition.width == geometry.width && partition.height == geometry.height
            &&& partition.reference_index == plans[i].reference_index
        } by {
            if i < count - 1 {
                assert(after.partitions[i] == before.partitions[i]);
            }
        }
        assert forall|i: int|
            0 <= i < count && covers(
                (#[trigger] after.partitions[i]).x,
                after.partitions[i].y,
                after.partitions[i].width,
                after.partitions[i].height,
                cell,
            ) && (forall|j: int|
                i < j < count ==> !covers(
                    (#[trigger] plans[j]).geometry.x,
                    plans[j].geometry.y,
                    plans[j].geometry.width,
                    plans[j].geometry.height,
                    cell,
                )) implies after.local[cell] == Some(
            MotionCell {
                slice_id,
                kind: MotionKind::Inter {
                    reference_index: after.partitions[i].reference_index,
                    vector: after.partitions[i].motion_vector,
                },
            },
        ) by {
            if i < count - 1 {
                assert(after.partitions[i] == before.partitions[i]);
                assert(!covers(
                    plans[count - 1].geometry.x,
                    plans[count - 1].geometry.y,
                    plans[count - 1].geometry.width,
                    plans[count - 1].geometry.height,
                    cell,
                ));
            }
        }
    }
}

/// What is recorded of a macroblock is what its partitions were resolved to: each 4x4
/// block holds the reference and the vector of the one partition that covers it.
pub proof fn law_recorded_blocks_hold_their_partition(
    state: MotionStateView,
    address: int,
    slice_id: u32,
    header: PHeaderView,
    index: int,
    cell: int,
)
    requires
        0 <= address,
        address * 16 + 16 <= state.cells.len(),
        resolved_inter(state, address, slice_id, header).error is None,
        0 <= cell < 16,
        0 <= index < resolved_inter(state, address, slice_id, header).partitions.len(),
        ({
            let partition = resolved_inter(state, address, slice_id, header).partitions[index];
            &&& partition.x <= cell % 4 * 4 < partition.x + partition.width
            &&& partition.y <= cell / 4 * 4 < partition.y + partition.height
        }),
    ensures
        ({
            let resolved = resolved_inter(state, address, slice_id, header);
            let after = committed(state, address, resolved.local);
            after.cells[address * 16 + cell] == Some(
                MotionCell {
                    slice_id,
                    kind: MotionKind::Inter {
                        reference_index: resolved.partitions[index].reference_index,
                        vector: resolved.partitions[index].motion_vector,
                    },
                },
            )
        }),
{
    let plans = plans_of(header);
    let all = geometries(header.partition_mode);
    let count = plans.len() as int;
    lemma_recorded(state, address, slice_id, header.partition_mode, plans, count, cell);
    law_partitions_tile_the_macroblock(header.partition_mode, cell);
    let resolved = resolved_inter(state, address, slice_id, header);
    assert(plans[index].geometry == all[index]);
    assert(covers(all[index].x, all[index].y, all[index].width, all[index].height, cell));
    assert forall|j: int| index < j < count implies !covers(
        (#[trigger] plans[j]).geometry.x,
        plans[j].geometry.y,
        plans[j].geometry.width,
        plans[j].geometry.height,
        cell,
    ) by {
        assert(plans[j].geometry == all[j]);
    }
    assert(covers(
        resolved.partitions[index].x,
        resolved.partitions[index].y,
        resolved.partitions[index].width,
        resolved.partitions[index].height,
        cell,
    ));
}

proof fn lemma_resolved(
    state: MotionStateView,
    address: int,
    slice_id: u32,
    mode: PPartitionMode,
    plans: Seq<PartitionPlan>,
    count: int,
    index: int,
)
    requires
        0 <= index < count,
        resolve_steps(state, address, slice_id, mode, plans, count).error is None,
    ensures
        ({
            let after = resolve_steps(state, address, slice_id, mode, plans, count);
            let before = resolve_steps(state, address, slice_id, mode, plans, index);
            let plan = plans[index];
            let predictor = predicted_vector(
                state,
                address,
                slice_id,
                before.local,
                plan.geometry,
                plan.reference_index,
                mode,
            );
            let partition = after.partitions[index];
            &&& after.partitions.len() == count
            &&& before.error is None
            &&& partition.motion_vector.x == predictor.x + plan.difference.x
            &&& partition.motion_vector.y == predictor.y + plan.difference.y
            &&& partition.reference_index == plan.reference_index
            &&& partition.x == plan.geometry.x
            &&& partition.y == plan.geometry.y
            &&& partition.width == plan.geometry.width
            &&& partition.height == plan.geometry.height
        }),
    decreases count,
{
    let earlier = resolve_steps(state, address, slice_id, mode, plans, count - 1);
    if index < count - 1 {
        lemma_resolved(state, address, slice_id, mode, plans, count - 1, index);
    } else if count > 1 {
        lemma_resolved(state, address, slice_id, mode, plans, count - 1, 0);
    }
}

/// A vector is what is predicted of it, from the partitions before it, plus the
/// difference that the header gives. The partition lies where its geometry says and
/// refers to what the header says.
pub proof fn law_vectors_are_predictions_plus_differences(
    state: MotionStateView,
    address: int,
    slice_id: u32,
    header: PHeaderView,
    index: int,
)
    requires
        resolved_inter(state, address, slice_id, header).error is None,
        0 <= index < geometries(header.partition_mode).len(),
    ensures
        ({
            let partition = resolved_inter(state, address, slice_id, header).partitions[index];
            let geometry = geometries(header.partition_mode)[index];
            let motion = header.partitions[geometry.macroblock_partition_index as int];
            let difference = motion.differences[geometry.difference_index as int];
            let before = resolve_steps(
                state,
                address,
                slice_id,
                header.partition_mode,
                plans_of(header),
                index,
            );
            let predictor = predicted_vector(
                state,
                address,
                slice_id,
                before.local,
                geometry,
                motion.reference_index,
                header.partition_mode,
            );
            &&& partition.motion_vector.x == predictor.x + difference.x
            &&& partition.motion_vector.y == predictor.y + difference.y
            &&& partition.reference_index == motion.reference_index
            &&& partition.x == geometry.x
            &&& partition.y == geometry.y
            &&& partition.width == geometry.width
            &&& partition.height == geometry.height
        }),
{
    let plans = plans_of(header);
    lemma_resolved(
        state,
        address,
        slice_id,
        header.partition_mode,
        plans,
        plans.len() as int,
        index,
    );
}

/// Whole partitions lie side by side, or one above the other.
pub proof fn law_whole_partitions_halve_the_macroblock()
    ensures
        ({
            let lies = |geometry: PartitionGeometry, x: int, y: int, width: int, height: int|
                geometry.x == x && geometry.y == y && geometry.width == width && geometry.height
                    == height && geometry.difference_index == 0;
            let whole = geometries(PPartitionMode::L0_16x16);
            let upright = geometries(PPartitionMode::L0_16x8);
            let beside = geometries(PPartitionMode::L0_8x16);
            &&& whole.len() == 1 && lies(whole[0], 0, 0, 16, 16)
            &&& upright.len() == 2 && lies(upright[0], 0, 0, 16, 8) && lies(upright[1], 0, 8, 16, 8)
            &&& beside.len() == 2 && lies(beside[0], 0, 0, 8, 16) && lies(beside[1], 8, 0, 8, 16)
            &&& upright[0].macroblock_partition_index == 0
            &&& upright[1].macroblock_partition_index == 1
            &&& beside[0].macroblock_partition_index == 0
            &&& beside[1].macroblock_partition_index == 1
        }),
{
}

/// A header is taken where it has one motion for each partition, with as many
/// differences as that has parts and a reference below 32. References are zero where the
/// type says so.
pub proof fn law_headers_have_a_motion_for_each_partition(header: PHeaderView)
    ensures
        header.partition_mode is L0_16x16 || header.partition_mode is L0_16x8
            || header.partition_mode is L0_8x16 ==> (plans_error(header) is None <==> {
            &&& header.partition_mode is L0_16x16 ==> header.partitions.len() == 1
            &&& !(header.partition_mode is L0_16x16) ==> header.partitions.len() == 2
            &&& forall|i: int|
                0 <= i < header.partitions.len() ==> (#[trigger] header.partitions[i]).differences.len()
                    == 1 && header.partitions[i].reference_index < 32
        }),
{
}

} // verus!
