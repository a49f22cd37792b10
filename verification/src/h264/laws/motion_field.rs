//! Laws of the motion that is kept of reference pictures.

use vstd::arithmetic::div_mod::lemma_fundamental_div_mod_converse;
use vstd::prelude::*;

use crate::h264::error::first_error;
use crate::h264::motion::{ResolvedBPartition, ResolvedPPartition};
use crate::h264::motion_field::{
    area_error, b_areas, b_cells, cell_macroblock, cell_place, covered, filled_cells, p_areas,
    p_cells, recorded, records, BuilderView, MotionFieldCell, PartitionArea, ReferenceId,
};

verus! {

/// One of the first steps has no error.
proof fn lemma_no_area_error(areas: Seq<PartitionArea>, index: int, count: int)
    requires
        first_error(|i: int| area_error(areas, i), count) is None,
        0 <= index < count,
    ensures
        area_error(areas, index) is None,
    decreases count,
{
    let errors = |i: int| area_error(areas, i);
    if index < count - 1 {
        lemma_no_area_error(areas, index, count - 1);
    } else {
        assert(errors(index) is None);
    }
}

/// A block has the value of the partition that covers it.
proof fn lemma_filled(
    areas: Seq<PartitionArea>,
    values: Seq<MotionFieldCell>,
    count: int,
    index: int,
    cell: int,
)
    requires
        0 <= index < count <= areas.len(),
        0 <= cell < 16,
        areas[index].covers(cell),
        first_error(|i: int| area_error(areas, i), areas.len() as int) is None,
    ensures
        filled_cells(areas, values, count)[cell] == values[index],
    decreases count,
{
    if index < count - 1 {
        lemma_no_area_error(areas, count - 1, areas.len() as int);
        assert(covered(areas, count - 1, cell));
        assert(!areas[count - 1].covers(cell));
        lemma_filled(areas, values, count - 1, index, cell);
    }
}

/// The raster place of a block of a macroblock.
proof fn lemma_raster_cell(width: int, column: int, row: int, x: int, y: int)
    requires
        0 < width,
        0 <= column < width,
        0 <= row,
        0 <= x < 4,
        0 <= y < 4,
    ensures
        ({
            let cell = (4 * row + y) * (4 * width) + 4 * column + x;
            cell_macroblock(width, cell) == row * width + column && cell_place(width, cell) == 4 * y
                + x && 0 <= cell
        }),
{
    let cell = (4 * row + y) * (4 * width) + 4 * column + x;
    let line = 4 * width;
    assert((4 * row + y) * line == line * (4 * row + y)) by (nonlinear_arith);
    lemma_fundamental_div_mod_converse(cell, line, 4 * row + y, 4 * column + x);
    assert((4 * row + y) / 4 == row && (4 * row + y) % 4 == y);
    assert((4 * column + x) / 4 == column && (4 * column + x) % 4 == x);
    assert(0 <= (4 * row + y) * (4 * width)) by (nonlinear_arith)
        requires
            0 < width,
            0 <= row,
            0 <= y,
    ;
}

/// After a macroblock was recorded, each 4x4 block of the picture inside one of its
/// partitions holds the motion of that partition.
pub proof fn law_partitions_are_found_at_their_blocks(
    before: BuilderView,
    after: BuilderView,
    areas: Seq<PartitionArea>,
    values: Seq<MotionFieldCell>,
    column: int,
    row: int,
    index: int,
    x: int,
    y: int,
)
    requires
        0 < before.width,
        0 <= column < before.width,
        0 <= row,
        0 <= x < 4,
        0 <= y < 4,
        records(before, after, Ok(()), row * before.width + column, areas, values),
        0 <= index < areas.len(),
        areas[index].x <= 4 * x < areas[index].x + areas[index].width,
        areas[index].y <= 4 * y < areas[index].y + areas[index].height,
        (4 * row + y) * (4 * before.width) + 4 * column + x < before.cells.len(),
    ensures
        after.cells[(4 * row + y) * (4 * before.width) + 4 * column + x] == values[index],
{
    let cell = 4 * y + x;
    assert(cell % 4 == x && cell / 4 == y);
    assert(areas[index].covers(cell));
    lemma_filled(areas, values, areas.len() as int, index, cell);
    lemma_raster_cell(before.width, column, row, x, y);
}

/// The motion that is kept of a P partition is its reference, with the identity that the
/// first list has for it, and its vector. Nothing is kept for the second list.
pub proof fn law_p_partitions_are_kept(
    partitions: Seq<ResolvedPPartition>,
    ids: Option<&[Option<ReferenceId>]>,
    index: int,
)
    requires
        0 <= index < partitions.len(),
    ensures
        ({
            let partition = partitions[index];
            let cell = p_cells(partitions, ids)[index];
            let area = p_areas(partitions)[index];
            &&& !cell.intra
            &&& cell.list1 is None
            &&& cell.list0 is Some
            &&& cell.list0->0.reference_index == partition.reference_index
            &&& cell.list0->0.vector == partition.motion_vector
            &&& ids matches Some(ids) ==> (partition.reference_index < ids@.len()
                ==> cell.list0->0.reference_id == ids@[partition.reference_index as int])
            &&& ids is None ==> cell.list0->0.reference_id is None
            &&& area.x == partition.x && area.y == partition.y
            &&& area.width == partition.width && area.height == partition.height
        }),
{
}

/// The motion that is kept of a B partition is that of each list that it uses, with the
/// identities of that list.
pub proof fn law_b_partitions_are_kept(
    partitions: Seq<ResolvedBPartition>,
    first: &[Option<ReferenceId>],
    second: &[Option<ReferenceId>],
    index: int,
)
    requires
        0 <= index < partitions.len(),
    ensures
        ({
            let partition = partitions[index];
            let cell = b_cells(partitions, Some(first), Some(second))[index];
            let area = b_areas(partitions)[index];
            &&& !cell.intra
            &&& cell.list0 is Some == partition.list0 is Some
            &&& cell.list1 is Some == partition.list1 is Some
            &&& partition.list0 matches Some(motion) ==> {
                &&& cell.list0->0.reference_index == motion.reference_index
                &&& cell.list0->0.vector == motion.motion_vector
                &&& motion.reference_index < first@.len() ==> cell.list0->0.reference_id
                    == first@[motion.reference_index as int]
            }
            &&& partition.list1 matches Some(motion) ==> {
                &&& cell.list1->0.reference_index == motion.reference_index
                &&& cell.list1->0.vector == motion.motion_vector
                &&& motion.reference_index < second@.len() ==> cell.list1->0.reference_id
                    == second@[motion.reference_index as int]
            }
            &&& area.x == partition.x && area.y == partition.y
            &&& area.width == partition.width && area.height == partition.height
        }),
{
}

} // verus!
