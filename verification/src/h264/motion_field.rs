//! Immutable per-4x4 motion metadata retained with reference pictures.

use vstd::arithmetic::div_mod::{lemma_fundamental_div_mod, lemma_fundamental_div_mod_converse};
use vstd::prelude::*;

use super::error::{first_error, lemma_first_error, or_error, H264Error, Result};
use super::motion::{
    covers, MotionVector, ResolvedBListMotion, ResolvedBMacroblock, ResolvedBPartition,
    ResolvedPMacroblock, ResolvedPPartition,
};
use crate::media::Size;
use crate::shared::filled;

verus! {

/// The stable identity of a reference picture.
#[derive(Debug, Clone, Copy, PartialEq, Eq, Structural)]
pub struct ReferenceId {
    pub value: u64,
}

impl ReferenceId {
    pub fn new(value: u64) -> (id: Self)
        ensures
            id.value == value,
    {
        ReferenceId { value }
    }
}

#[derive(Debug, Clone, Copy, PartialEq, Eq)]
pub struct StoredListMotion {
    pub reference_index: u8,
    /// Stable identity in the decoded picture buffer. `None` is allowed only
    /// for callers that decode pixels without supplying reference metadata.
    pub reference_id: Option<ReferenceId>,
    pub vector: MotionVector,
}

#[derive(Debug, Clone, Copy, PartialEq, Eq)]
pub struct MotionFieldCell {
    pub intra: bool,
    pub list0: Option<StoredListMotion>,
    pub list1: Option<StoredListMotion>,
}

/// The cell of an intra block.
pub open spec fn intra_cell() -> MotionFieldCell {
    MotionFieldCell { intra: true, list0: None, list1: None }
}

fn make_intra_cell() -> (cell: MotionFieldCell)
    ensures
        cell == intra_cell(),
{
    MotionFieldCell { intra: true, list0: None, list1: None }
}

/// Why a picture of this size has no motion field.
pub open spec fn dimensions_error(size: Size) -> Option<H264Error> {
    if size.width == 0 || size.height == 0 || size.width % 16 != 0 || size.height % 16 != 0 {
        Some(
            H264Error::InvalidSyntax(
                "motion-field dimensions must be non-zero and macroblock aligned",
            ),
        )
    } else if (size.width / 4) * (size.height / 4) > usize::MAX {
        Some(H264Error::IntegerOverflow)
    } else {
        None
    }
}

/// The width, height and number of 4x4 blocks of a picture.
fn field_dimensions(coded_size: Size) -> (result: Result<(usize, usize, usize)>)
    ensures
        match dimensions_error(coded_size) {
            Some(error) => result == Err::<(usize, usize, usize), H264Error>(error),
            None => result matches Ok((width, height, count)) && width == coded_size.width / 4
                && height == coded_size.height / 4 && count == width * height && width > 0
                && height > 0 && width % 4 == 0 && height % 4 == 0,
        },
{
    let width: usize = coded_size.width as usize;
    let height: usize = coded_size.height as usize;
    if width == 0 || height == 0 || width % 16 != 0 || height % 16 != 0 {
        return Err(
            H264Error::InvalidSyntax(
                "motion-field dimensions must be non-zero and macroblock aligned",
            ),
        );
    }
    match (width / 4).checked_mul(height / 4) {
        Some(count) => Ok((width / 4, height / 4, count)),
        None => Err(H264Error::IntegerOverflow),
    }
}

/// A motion field as mathematics, its cells in raster order.
pub struct MotionFieldView {
    pub width: int,
    pub height: int,
    pub cells: Seq<MotionFieldCell>,
}

#[derive(Debug, PartialEq, Eq)]
pub struct ReferenceMotionField {
    width_in_4x4_blocks: usize,
    height_in_4x4_blocks: usize,
    cells: Vec<MotionFieldCell>,
}

impl View for ReferenceMotionField {
    type V = MotionFieldView;

    closed spec fn view(&self) -> MotionFieldView {
        MotionFieldView {
            width: self.width_in_4x4_blocks as int,
            height: self.height_in_4x4_blocks as int,
            cells: self.cells@,
        }
    }
}

impl Clone for ReferenceMotionField {
    fn clone(&self) -> (copy: Self)
        ensures
            copy@ == self@,
    {
        proof {
            use_type_invariant(self);
        }
        let mut cells: Vec<MotionFieldCell> = Vec::with_capacity(self.cells.len());
        let mut index: usize = 0;
        while index < self.cells.len()
            invariant
                index <= self.cells.len(),
                cells@ == self.cells@.take(index as int),
            decreases self.cells.len() - index,
        {
            cells.push(self.cells[index]);
            index = index + 1;
            assert(cells@ =~= self.cells@.take(index as int));
        }
        assert(cells@ =~= self.cells@);
        ReferenceMotionField {
            width_in_4x4_blocks: self.width_in_4x4_blocks,
            height_in_4x4_blocks: self.height_in_4x4_blocks,
            cells,
        }
    }
}

/// A place in a rectangle comes before its end.
proof fn lemma_raster(width: int, height: int, x: int, y: int)
    by (nonlinear_arith)
    requires
        0 <= x < width,
        0 <= y < height,
    ensures
        0 <= y * width,
        y * width + x < width * height,
{
}

impl ReferenceMotionField {
    #[verifier::type_invariant]
    spec fn complete(self) -> bool {
        self.cells.len() == self.width_in_4x4_blocks * self.height_in_4x4_blocks
    }

    pub fn all_intra(coded_size: Size) -> (result: Result<Self>)
        ensures
            match dimensions_error(coded_size) {
                Some(error) => result == Err::<ReferenceMotionField, H264Error>(error),
                None => result matches Ok(field) && field@.width == coded_size.width / 4
                    && field@.height == coded_size.height / 4 && field@.cells == Seq::new(
                    ((coded_size.width / 4) * (coded_size.height / 4)) as nat,
                    |i: int| intra_cell(),
                ),
            },
    {
        let (width, height, count) = field_dimensions(coded_size)?;
        let cells = filled(make_intra_cell(), count);
        assert(cells@ =~= Seq::new(
            ((coded_size.width / 4) * (coded_size.height / 4)) as nat,
            |i: int| intra_cell(),
        ));
        Ok(
            ReferenceMotionField {
                width_in_4x4_blocks: width,
                height_in_4x4_blocks: height,
                cells,
            },
        )
    }

    #[inline]
    pub fn width_in_4x4_blocks(&self) -> (width: usize)
        ensures
            width == self@.width,
    {
        self.width_in_4x4_blocks
    }

    #[inline]
    pub fn height_in_4x4_blocks(&self) -> (height: usize)
        ensures
            height == self@.height,
    {
        self.height_in_4x4_blocks
    }

    pub fn cell(&self, x: usize, y: usize) -> (cell: Option<MotionFieldCell>)
        ensures
            cell == if x < self@.width && y < self@.height {
                Some(self@.cells[y * self@.width + x])
            } else {
                None
            },
    {
        proof {
            use_type_invariant(self);
        }
        if x >= self.width_in_4x4_blocks || y >= self.height_in_4x4_blocks {
            return None;
        }
        proof {
            lemma_raster(
                self.width_in_4x4_blocks as int,
                self.height_in_4x4_blocks as int,
                x as int,
                y as int,
            );
        }
        Some(self.cells[y * self.width_in_4x4_blocks + x])
    }
}

/// A builder as mathematics. A builder that discards its cells has none.
pub struct BuilderView {
    /// The width of the picture in macroblocks.
    pub width: int,
    /// Which macroblocks are recorded.
    pub completed: Seq<bool>,
    /// The cells in raster order. Those of macroblocks that are not recorded
    /// have no meaning.
    pub cells: Seq<MotionFieldCell>,
}

impl BuilderView {
    /// Whether the cells are kept.
    pub open spec fn retains(self) -> bool {
        self.cells.len() > 0
    }
}

/// The macroblock that a cell belongs to.
pub open spec fn cell_macroblock(width: int, cell: int) -> int {
    cell / (4 * width) / 4 * width + cell % (4 * width) / 4
}

/// The place of a cell in its macroblock.
pub open spec fn cell_place(width: int, cell: int) -> int {
    cell / (4 * width) % 4 * 4 + cell % (4 * width) % 4
}

/// The cell at a place of a macroblock.
pub open spec fn macroblock_cell(width: int, address: int, place: int) -> int {
    (address / width * 4 + place / 4) * (4 * width) + address % width * 4 + place % 4
}

/// The builder with one macroblock recorded.
pub open spec fn recorded(
    builder: BuilderView,
    address: int,
    local: Seq<MotionFieldCell>,
) -> BuilderView {
    BuilderView {
        completed: builder.completed.update(address, true),
        cells: Seq::new(
            builder.cells.len(),
            |cell: int|
                if cell_macroblock(builder.width, cell) == address {
                    local[cell_place(builder.width, cell)]
                } else {
                    builder.cells[cell]
                },
        ),
        ..builder
    }
}

/// Why a macroblock cannot be recorded.
pub open spec fn record_error(builder: BuilderView, address: int) -> Option<H264Error> {
    if address >= builder.completed.len() {
        Some(H264Error::InvalidSyntax("reference motion-field macroblock exceeds the picture"))
    } else if builder.completed[address] {
        Some(H264Error::InvalidSyntax("reference motion-field macroblock was already recorded"))
    } else {
        None
    }
}

/// The place and size of a partition, in luma samples of its macroblock.
#[derive(Debug, Clone, Copy)]
pub struct PartitionArea {
    pub x: u8,
    pub y: u8,
    pub width: u8,
    pub height: u8,
}

impl PartitionArea {
    /// The partition covers a 4x4 block.
    pub open spec fn covers(self, cell: int) -> bool {
        covers(self.x, self.y, self.width, self.height, cell)
    }

    /// The partition is made of whole 4x4 blocks of the macroblock.
    pub open spec fn aligned(self) -> bool {
        &&& self.x % 4 == 0
        &&& self.y % 4 == 0
        &&& self.width % 4 == 0
        &&& self.height % 4 == 0
        &&& self.x + self.width <= 16
        &&& self.y + self.height <= 16
    }
}

/// One of the first `count` partitions covers a 4x4 block.
pub open spec fn covered(areas: Seq<PartitionArea>, count: int, cell: int) -> bool {
    exists|i: int| 0 <= i < count && (#[trigger] areas[i]).covers(cell)
}

/// Why a partition is refused after the ones before it.
pub open spec fn area_error(areas: Seq<PartitionArea>, index: int) -> Option<H264Error> {
    if !areas[index].aligned() {
        Some(H264Error::InvalidSyntax("motion partition is not aligned to the 4x4 field"))
    } else if exists|cell: int|
        0 <= cell < 16 && areas[index].covers(cell) && #[trigger] covered(areas, index, cell) {
        Some(H264Error::InvalidSyntax("motion partitions overlap in the 4x4 field"))
    } else {
        None
    }
}

/// Why partitions do not make up a macroblock.
pub open spec fn areas_error(areas: Seq<PartitionArea>) -> Option<H264Error> {
    or_error(
        first_error(|index: int| area_error(areas, index), areas.len() as int),
        if forall|cell: int|
            0 <= cell < 16 ==> #[trigger] covered(areas, areas.len() as int, cell) {
            None
        } else {
            Some(H264Error::InvalidSyntax("motion partitions do not cover the macroblock"))
        },
    )
}

/// The cells of a macroblock after its first `count` partitions.
pub open spec fn filled_cells(
    areas: Seq<PartitionArea>,
    values: Seq<MotionFieldCell>,
    count: int,
) -> Seq<MotionFieldCell>
    decreases count,
{
    if count <= 0 {
        Seq::new(16, |cell: int| intra_cell())
    } else {
        Seq::new(
            16,
            |cell: int|
                if areas[count - 1].covers(cell) {
                    values[count - 1]
                } else {
                    filled_cells(areas, values, count - 1)[cell]
                },
        )
    }
}

/// The identity of a reference picture in a list.
pub open spec fn identity(ids: Option<&[Option<ReferenceId>]>, index: u8) -> Option<ReferenceId> {
    match ids {
        Some(ids) => if index < ids@.len() {
            ids@[index as int]
        } else {
            None
        },
        None => None,
    }
}

/// The motion of one list as it is stored.
pub open spec fn stored(
    motion: Option<ResolvedBListMotion>,
    ids: Option<&[Option<ReferenceId>]>,
) -> Option<StoredListMotion> {
    match motion {
        Some(motion) => Some(
            StoredListMotion {
                reference_index: motion.reference_index,
                reference_id: identity(ids, motion.reference_index),
                vector: motion.motion_vector,
            },
        ),
        None => None,
    }
}

/// The places of P partitions.
pub open spec fn p_areas(partitions: Seq<ResolvedPPartition>) -> Seq<PartitionArea> {
    partitions.map_values(
        |partition: ResolvedPPartition|
            PartitionArea {
                x: partition.x,
                y: partition.y,
                width: partition.width,
                height: partition.height,
            },
    )
}

/// The cell of a P partition.
pub open spec fn p_cell(
    partition: ResolvedPPartition,
    ids: Option<&[Option<ReferenceId>]>,
) -> MotionFieldCell {
    MotionFieldCell {
        intra: false,
        list0: stored(
            Some(
                ResolvedBListMotion {
                    reference_index: partition.reference_index,
                    motion_vector: partition.motion_vector,
                },
            ),
            ids,
        ),
        list1: None,
    }
}

/// The cells of P partitions.
pub open spec fn p_cells(
    partitions: Seq<ResolvedPPartition>,
    ids: Option<&[Option<ReferenceId>]>,
) -> Seq<MotionFieldCell> {
    partitions.map_values(|partition: ResolvedPPartition| p_cell(partition, ids))
}

/// The places of B partitions.
pub open spec fn b_areas(partitions: Seq<ResolvedBPartition>) -> Seq<PartitionArea> {
    partitions.map_values(
        |partition: ResolvedBPartition|
            PartitionArea {
                x: partition.x,
                y: partition.y,
                width: partition.width,
                height: partition.height,
            },
    )
}

/// The cell of a B partition.
pub open spec fn b_cell(
    partition: ResolvedBPartition,
    ids_l0: Option<&[Option<ReferenceId>]>,
    ids_l1: Option<&[Option<ReferenceId>]>,
) -> MotionFieldCell {
    MotionFieldCell {
        intra: false,
        list0: stored(partition.list0, ids_l0),
        list1: stored(partition.list1, ids_l1),
    }
}

/// The cells of B partitions.
pub open spec fn b_cells(
    partitions: Seq<ResolvedBPartition>,
    ids_l0: Option<&[Option<ReferenceId>]>,
    ids_l1: Option<&[Option<ReferenceId>]>,
) -> Seq<MotionFieldCell> {
    partitions.map_values(|partition: ResolvedBPartition| b_cell(partition, ids_l0, ids_l1))
}

/// What recording a macroblock of partitions does.
pub open spec fn records(
    before: BuilderView,
    after: BuilderView,
    result: Result<()>,
    address: int,
    areas: Seq<PartitionArea>,
    values: Seq<MotionFieldCell>,
) -> bool {
    match or_error(areas_error(areas), record_error(before, address)) {
        Some(error) => result == Err::<(), H264Error>(error) && after == before,
        None => result is Ok && after == recorded(
            before,
            address,
            filled_cells(areas, values, areas.len() as int),
        ),
    }
}

/// The motion field of a picture that is being decoded.
#[derive(Debug, Clone)]
pub struct MotionFieldBuilder {
    width_in_macroblocks: usize,
    cells: Vec<MotionFieldCell>,
    completed: Vec<bool>,
}

impl View for MotionFieldBuilder {
    type V = BuilderView;

    closed spec fn view(&self) -> BuilderView {
        BuilderView {
            width: self.width_in_macroblocks as int,
            completed: self.completed@,
            cells: self.cells@,
        }
    }
}

/// The macroblocks fill whole rows.
pub open spec fn whole_rows(width: int, count: int) -> bool {
    0 < width && 0 < count && count % width == 0
}

/// Where the cells of a macroblock are.
proof fn lemma_cell(width: int, cell: int, address: int, place: int)
    requires
        0 < width,
        0 <= cell,
        0 <= address,
        0 <= place < 16,
    ensures
        cell_macroblock(width, cell) == address && cell_place(width, cell) == place <==> cell
            == macroblock_cell(width, address, place),
        0 <= cell_place(width, cell) < 16,
{
    let row_length = 4 * width;
    let y = cell / row_length;
    let x = cell % row_length;
    lemma_fundamental_div_mod(cell, row_length);
    lemma_fundamental_div_mod(address, width);
    assert(0 <= x < row_length && 0 <= y) by (nonlinear_arith)
        requires
            row_length > 0,
            0 <= cell,
            y == cell / row_length,
            x == cell % row_length,
    ;
    assert(0 <= address % width < width && 0 <= address / width) by (nonlinear_arith)
        requires
            0 < width,
            0 <= address,
    ;
    if cell_macroblock(width, cell) == address && cell_place(width, cell) == place {
        lemma_fundamental_div_mod_converse(address, width, y / 4, x / 4);
        assert(place / 4 == y % 4 && place % 4 == x % 4);
        assert(row_length * y == y * row_length) by (nonlinear_arith);
    }
    if cell == macroblock_cell(width, address, place) {
        let above = address / width * 4 + place / 4;
        let before = address % width * 4 + place % 4;
        assert(above * row_length == row_length * above) by (nonlinear_arith);
        lemma_fundamental_div_mod_converse(cell, row_length, above, before);
        assert(y == above && x == before);
        assert(y / 4 == address / width && x / 4 == address % width);
        assert(address / width * width == width * (address / width)) by (nonlinear_arith);
    }
}

/// The cells of a macroblock of the picture are there.
proof fn lemma_cell_bound(width: int, count: int, address: int, place: int)
    requires
        whole_rows(width, count),
        0 <= address < count,
        0 <= place < 16,
    ensures
        0 <= macroblock_cell(width, address, place) < 16 * count,
        (address / width * 4 + place / 4) * (4 * width) < 16 * count,
        0 <= (address / width * 4 + place / 4) * (4 * width),
        address / width * 4 + place / 4 < 16 * count,
        0 <= address / width,
        0 <= address % width < width,
        4 * width <= 16 * count,
{
    let rows = count / width;
    let row = address / width;
    lemma_fundamental_div_mod(count, width);
    lemma_fundamental_div_mod(address, width);
    assert(0 <= address % width < width && 0 <= row) by (nonlinear_arith)
        requires
            0 < width,
            0 <= address,
            row == address / width,
    ;
    assert(row < rows) by (nonlinear_arith)
        requires
            address == width * row + address % width,
            count == width * rows,
            0 <= address % width,
            address < count,
            0 < width,
    ;
    let y = row * 4 + place / 4;
    assert(y < rows * 4);
    assert(y * (4 * width) + 4 * width <= 16 * count) by (nonlinear_arith)
        requires
            y < rows * 4,
            count == width * rows,
            0 < width,
    ;
    assert(0 <= y * (4 * width) && y <= y * (4 * width)) by (nonlinear_arith)
        requires
            0 <= y,
            0 < width,
    ;
}

impl MotionFieldBuilder {
    /// The cells are those of the picture, or none are kept.
    pub closed spec fn well_formed(self) -> bool {
        &&& whole_rows(self.width_in_macroblocks as int, self.completed.len() as int)
        &&& self.completed.len() * 16 <= usize::MAX
        &&& self.cells.len() == 0 || self.cells.len() == 16 * self.completed.len()
    }

    /// A builder that keeps the motion of the picture.
    pub fn new(coded_size: Size) -> (result: Result<Self>)
        ensures
            match dimensions_error(coded_size) {
                Some(error) => result == Err::<MotionFieldBuilder, H264Error>(error),
                None => result matches Ok(builder) && builder.well_formed() && builder@.width
                    == coded_size.width / 16 && builder@.completed == Seq::new(
                    ((coded_size.width / 16) * (coded_size.height / 16)) as nat,
                    |i: int| false,
                ) && builder@.retains(),
            },
    {
        Self::new_with_retention(coded_size, true)
    }

    /// A builder that checks the motion of the picture and forgets it.
    pub fn new_discarding(coded_size: Size) -> (result: Result<Self>)
        ensures
            match dimensions_error(coded_size) {
                Some(error) => result == Err::<MotionFieldBuilder, H264Error>(error),
                None => result matches Ok(builder) && builder.well_formed() && builder@.width
                    == coded_size.width / 16 && builder@.completed == Seq::new(
                    ((coded_size.width / 16) * (coded_size.height / 16)) as nat,
                    |i: int| false,
                ) && !builder@.retains(),
            },
    {
        Self::new_with_retention(coded_size, false)
    }

    fn new_with_retention(coded_size: Size, retain_cells: bool) -> (result: Result<Self>)
        ensures
            match dimensions_error(coded_size) {
                Some(error) => result == Err::<MotionFieldBuilder, H264Error>(error),
                None => result matches Ok(builder) && builder.well_formed() && builder@.width
                    == coded_size.width / 16 && builder@.completed == Seq::new(
                    ((coded_size.width / 16) * (coded_size.height / 16)) as nat,
                    |i: int| false,
                ) && builder@.retains() == retain_cells,
            },
    {
        let (width, height, count) = field_dimensions(coded_size)?;
        let ghost columns = coded_size.width as int / 16;
        let ghost rows = coded_size.height as int / 16;
        assert(count == 16 * (columns * rows)) by (nonlinear_arith)
            requires
                count == width * height,
                width == 4 * columns,
                height == 4 * rows,
        ;
        assert(columns * rows > 0 && (columns * rows) % columns == 0) by (nonlinear_arith)
            requires
                columns > 0,
                rows > 0,
        ;
        let cells: Vec<MotionFieldCell> = if retain_cells {
            filled(make_intra_cell(), count)
        } else {
            Vec::new()
        };
        let completed: Vec<bool> = filled(false, count / 16);
        assert(completed@ =~= Seq::new((columns * rows) as nat, |i: int| false));
        Ok(MotionFieldBuilder { width_in_macroblocks: width / 4, cells, completed })
    }

    pub fn record_intra(&mut self, macroblock_address: usize) -> (result: Result<()>)
        requires
            old(self).well_formed(),
        ensures
            final(self).well_formed(),
            match record_error(old(self)@, macroblock_address as int) {
                Some(error) => result == Err::<(), H264Error>(error) && final(self)@ == old(self)@,
                None => result is Ok && final(self)@ == recorded(
                    old(self)@,
                    macroblock_address as int,
                    Seq::new(16, |cell: int| intra_cell()),
                ),
            },
    {
        let local = [make_intra_cell(); 16];
        assert(local@ =~= Seq::new(16, |cell: int| intra_cell()));
        self.record_macroblock(macroblock_address, local)
    }

    pub fn record_p(
        &mut self,
        macroblock_address: usize,
        motion: &ResolvedPMacroblock,
        reference_ids_l0: Option<&[Option<ReferenceId>]>,
    ) -> (result: Result<()>)
        requires
            old(self).well_formed(),
        ensures
            final(self).well_formed(),
            records(
                old(self)@,
                final(self)@,
                result,
                macroblock_address as int,
                p_areas(motion.partitions@),
                p_cells(motion.partitions@, reference_ids_l0),
            ),
    {
        let ghost partitions = motion.partitions@;
        let mut areas: Vec<PartitionArea> = Vec::new();
        let mut values: Vec<MotionFieldCell> = Vec::new();
        let mut index: usize = 0;
        while index < motion.partitions.len()
            invariant
                index <= motion.partitions.len(),
                partitions == motion.partitions@,
                areas@ == p_areas(partitions.take(index as int)),
                values@ == p_cells(partitions.take(index as int), reference_ids_l0),
            decreases motion.partitions.len() - index,
        {
            let partition = motion.partitions[index];
            areas.push(
                PartitionArea {
                    x: partition.x,
                    y: partition.y,
                    width: partition.width,
                    height: partition.height,
                },
            );
            let list = ResolvedBListMotion {
                reference_index: partition.reference_index,
                motion_vector: partition.motion_vector,
            };
            values.push(
                MotionFieldCell {
                    intra: false,
                    list0: store_motion(Some(list), reference_ids_l0),
                    list1: None,
                },
            );
            assert(partitions.take(index + 1) =~= partitions.take(index as int).push(partition));
            assert(areas@ =~= p_areas(partitions.take(index + 1)));
            assert(values@ =~= p_cells(partitions.take(index + 1), reference_ids_l0));
            index = index + 1;
        }
        assert(partitions.take(index as int) =~= partitions);
        self.record_partitions(macroblock_address, &areas, &values)
    }

    pub fn record_b(
        &mut self,
        macroblock_address: usize,
        motion: &ResolvedBMacroblock,
        reference_ids_l0: Option<&[Option<ReferenceId>]>,
        reference_ids_l1: Option<&[Option<ReferenceId>]>,
    ) -> (result: Result<()>)
        requires
            old(self).well_formed(),
        ensures
            final(self).well_formed(),
            records(
                old(self)@,
                final(self)@,
                result,
                macroblock_address as int,
                b_areas(motion.partitions@),
                b_cells(motion.partitions@, reference_ids_l0, reference_ids_l1),
            ),
    {
        let ghost partitions = motion.partitions@;
        let mut areas: Vec<PartitionArea> = Vec::new();
        let mut values: Vec<MotionFieldCell> = Vec::new();
        let mut index: usize = 0;
        while index < motion.partitions.len()
            invariant
                index <= motion.partitions.len(),
                partitions == motion.partitions@,
                areas@ == b_areas(partitions.take(index as int)),
                values@ == b_cells(
                    partitions.take(index as int),
                    reference_ids_l0,
                    reference_ids_l1,
                ),
            decreases motion.partitions.len() - index,
        {
            let partition = motion.partitions[index];
            areas.push(
                PartitionArea {
                    x: partition.x,
                    y: partition.y,
                    width: partition.width,
                    height: partition.height,
                },
            );
            values.push(
                MotionFieldCell {
                    intra: false,
                    list0: store_motion(partition.list0, reference_ids_l0),
                    list1: store_motion(partition.list1, reference_ids_l1),
                },
            );
            assert(partitions.take(index + 1) =~= partitions.take(index as int).push(partition));
            assert(areas@ =~= b_areas(partitions.take(index + 1)));
            assert(values@ =~= b_cells(
                partitions.take(index + 1),
                reference_ids_l0,
                reference_ids_l1,
            ));
            index = index + 1;
        }
        assert(partitions.take(index as int) =~= partitions);
        self.record_partitions(macroblock_address, &areas, &values)
    }

    /// Forgets a macroblock, which must then be recorded again.
    pub fn clear_macroblock(&mut self, macroblock_address: usize) -> (result: Result<()>)
        requires
            old(self).well_formed(),
        ensures
            final(self).well_formed(),
            if macroblock_address >= old(self)@.completed.len() {
                &&& result == Err::<(), H264Error>(
                    H264Error::InvalidSyntax(
                        "reference motion-field macroblock exceeds the picture",
                    ),
                )
                &&& final(self)@ == old(self)@
            } else {
                &&& result is Ok
                &&& final(self)@ == (BuilderView {
                    completed: old(self)@.completed.update(macroblock_address as int, false),
                    ..old(self)@
                })
            },
    {
        if macroblock_address >= self.completed.len() {
            return Err(
                H264Error::InvalidSyntax("reference motion-field macroblock exceeds the picture"),
            );
        }
        self.completed[macroblock_address] = false;
        Ok(())
    }

    /// The motion field of a builder that keeps it.
    pub fn finish(self) -> (result: Result<ReferenceMotionField>)
        requires
            self.well_formed(),
        ensures
            if self@.completed.contains(false) {
                result == Err::<ReferenceMotionField, H264Error>(
                    H264Error::InvalidSyntax("reference motion field is incomplete"),
                )
            } else if !self@.retains() {
                result == Err::<ReferenceMotionField, H264Error>(
                    H264Error::InvalidSyntax("reference motion field was not retained"),
                )
            } else {
                result matches Ok(field) && field@.width == 4 * self@.width && field@.height == 4
                    * (self@.completed.len() as int / self@.width) && field@.cells == self@.cells
            },
    {
        match self.finish_optional()? {
            Some(field) => Ok(field),
            None => Err(H264Error::InvalidSyntax("reference motion field was not retained")),
        }
    }

    /// The motion field of the picture, where it was kept.
    pub fn finish_optional(self) -> (result: Result<Option<ReferenceMotionField>>)
        requires
            self.well_formed(),
        ensures
            if self@.completed.contains(false) {
                result == Err::<Option<ReferenceMotionField>, H264Error>(
                    H264Error::InvalidSyntax("reference motion field is incomplete"),
                )
            } else if !self@.retains() {
                result == Ok::<Option<ReferenceMotionField>, H264Error>(None)
            } else {
                result matches Ok(Some(field)) && field@.width == 4 * self@.width && field@.height
                    == 4 * (self@.completed.len() as int / self@.width) && field@.cells
                    == self@.cells
            },
    {
        let mut index: usize = 0;
        while index < self.completed.len()
            invariant
                index <= self.completed.len(),
                forall|i: int| 0 <= i < index ==> self@.completed[i],
            decreases self.completed.len() - index,
        {
            if !self.completed[index] {
                assert(!self@.completed[index as int]);
                return Err(H264Error::InvalidSyntax("reference motion field is incomplete"));
            }
            index = index + 1;
        }
        if self.cells.len() == 0 {
            return Ok(None);
        }
        let width: usize = self.width_in_macroblocks;
        let count: usize = self.completed.len();
        let rows: usize = count / width;
        proof {
            lemma_fundamental_div_mod(count as int, width as int);
            lemma_cell_bound(width as int, count as int, 0, 0);
            assert((4 * width) * (4 * rows) == 16 * count) by (nonlinear_arith)
                requires
                    count == width * rows,
            ;
            assert(rows <= count) by (nonlinear_arith)
                requires
                    count == width * rows,
                    0 < width,
                    0 <= rows,
            ;
        }
        Ok(
            Some(
                ReferenceMotionField {
                    width_in_4x4_blocks: 4 * width,
                    height_in_4x4_blocks: 4 * rows,
                    cells: self.cells,
                },
            ),
        )
    }

    fn record_partitions(
        &mut self,
        macroblock_address: usize,
        areas: &Vec<PartitionArea>,
        values: &Vec<MotionFieldCell>,
    ) -> (result: Result<()>)
        requires
            old(self).well_formed(),
            areas.len() == values.len(),
        ensures
            final(self).well_formed(),
            records(
                old(self)@,
                final(self)@,
                result,
                macroblock_address as int,
                areas@,
                values@,
            ),
    {
        let ghost errors = |index: int| area_error(areas@, index);
        let mut cells = [make_intra_cell(); 16];
        let mut coverage: [bool; 16] = [false; 16];
        assert(cells@ =~= filled_cells(areas@, values@, 0));
        let mut index: usize = 0;
        while index < areas.len()
            invariant
                index <= areas.len(),
                areas.len() == values.len(),
                errors == (|index: int| area_error(areas@, index)),
                first_error(errors, index as int) is None,
                cells@ == filled_cells(areas@, values@, index as int),
                forall|cell: int|
                    0 <= cell < 16 ==> #[trigger] coverage[cell] == covered(
                        areas@,
                        index as int,
                        cell,
                    ),
                *self == *old(self),
                self.well_formed(),
            decreases areas.len() - index,
        {
            proof {
                if errors(index as int) is Some {
                    lemma_first_error(errors, index as int, areas.len() as int);
                }
            }
            fill_partition(&mut cells, &mut coverage, areas, values, index)?;
            index = index + 1;
        }
        let mut cell: usize = 0;
        while cell < 16
            invariant
                cell <= 16,
                first_error(errors, areas@.len() as int) is None,
                errors == (|index: int| area_error(areas@, index)),
                forall|cell: int|
                    0 <= cell < 16 ==> #[trigger] coverage[cell] == covered(
                        areas@,
                        areas@.len() as int,
                        cell,
                    ),
                forall|i: int| 0 <= i < cell ==> #[trigger] coverage[i],
                *self == *old(self),
                self.well_formed(),
            decreases 16 - cell,
        {
            if !coverage[cell] {
                assert(!covered(areas@, areas@.len() as int, cell as int));
                return Err(
                    H264Error::InvalidSyntax("motion partitions do not cover the macroblock"),
                );
            }
            cell = cell + 1;
        }
        assert forall|cell: int| 0 <= cell < 16 implies #[trigger] covered(
            areas@,
            areas@.len() as int,
            cell,
        ) by {
            assert(coverage[cell]);
        }
        self.record_macroblock(macroblock_address, cells)
    }

    fn record_macroblock(&mut self, macroblock_address: usize, local: [MotionFieldCell; 16]) -> (result:
        Result<()>)
        requires
            old(self).well_formed(),
        ensures
            final(self).well_formed(),
            match record_error(old(self)@, macroblock_address as int) {
                Some(error) => result == Err::<(), H264Error>(error) && final(self)@ == old(self)@,
                None => result is Ok && final(self)@ == recorded(
                    old(self)@,
                    macroblock_address as int,
                    local@,
                ),
            },
    {
        if macroblock_address >= self.completed.len() {
            return Err(
                H264Error::InvalidSyntax("reference motion-field macroblock exceeds the picture"),
            );
        }
        if self.completed[macroblock_address] {
            return Err(
                H264Error::InvalidSyntax("reference motion-field macroblock was already recorded"),
            );
        }
        let ghost before = self@;
        let width: usize = self.width_in_macroblocks;
        if self.cells.len() > 0 {
            let mut place: usize = 0;
            while place < 16
                invariant
                    place <= 16,
                    self.well_formed(),
                    before == old(self)@,
                    width == self.width_in_macroblocks,
                    macroblock_address < before.completed.len(),
                    self.cells.len() == 16 * before.completed.len(),
                    self@.width == before.width,
                    self@.completed == before.completed,
                    self@.cells.len() == before.cells.len(),
                    forall|cell: int|
                        0 <= cell < before.cells.len() ==> #[trigger] self@.cells[cell] == if (
                        cell_macroblock(before.width, cell) == macroblock_address && cell_place(
                            before.width,
                            cell,
                        ) < place) {
                            local[cell_place(before.width, cell)]
                        } else {
                            before.cells[cell]
                        },
                decreases 16 - place,
            {
                proof {
                    lemma_cell_bound(
                        width as int,
                        before.completed.len() as int,
                        macroblock_address as int,
                        place as int,
                    );
                }
                let y: usize = macroblock_address / width * 4 + place / 4;
                let x: usize = macroblock_address % width * 4 + place % 4;
                let target: usize = y * (4 * width) + x;
                let ghost earlier = self@.cells;
                self.cells[target] = local[place];
                assert(self@.cells =~= earlier.update(target as int, local[place as int]));
                assert forall|cell: int| 0 <= cell < before.cells.len() implies #[trigger] self@.cells[cell]
                    == if (cell_macroblock(before.width, cell) == macroblock_address && cell_place(
                    before.width,
                    cell,
                ) < place + 1) {
                    local[cell_place(before.width, cell)]
                } else {
                    before.cells[cell]
                } by {
                    lemma_cell(width as int, cell, macroblock_address as int, place as int);
                }
                place = place + 1;
            }
        }
        let ghost stored_cells = self@.cells;
        assert forall|cell: int| 0 <= cell < before.cells.len() implies #[trigger] stored_cells[cell]
            == recorded(before, macroblock_address as int, local@).cells[cell] by {
            lemma_cell(width as int, cell, macroblock_address as int, 0);
        }
        assert(stored_cells =~= recorded(before, macroblock_address as int, local@).cells);
        self.completed[macroblock_address] = true;
        assert(self@.completed =~= before.completed.update(macroblock_address as int, true));
        Ok(())
    }
}

fn find_identity(ids: Option<&[Option<ReferenceId>]>, index: u8) -> (id: Option<ReferenceId>)
    ensures
        id == identity(ids, index),
{
    match ids {
        Some(ids) => if (index as usize) < ids.len() {
            ids[index as usize]
        } else {
            None
        },
        None => None,
    }
}

fn store_motion(
    motion: Option<ResolvedBListMotion>,
    ids: Option<&[Option<ReferenceId>]>,
) -> (list: Option<StoredListMotion>)
    ensures
        list == stored(motion, ids),
{
    match motion {
        Some(motion) => Some(
            StoredListMotion {
                reference_index: motion.reference_index,
                reference_id: find_identity(ids, motion.reference_index),
                vector: motion.motion_vector,
            },
        ),
        None => None,
    }
}

/// Which 4x4 blocks a partition covers.
fn partition_mask(area: PartitionArea) -> (result: Result<[bool; 16]>)
    ensures
        match result {
            Ok(mask) => area.aligned() && forall|cell: int|
                0 <= cell < 16 ==> #[trigger] mask[cell] == area.covers(cell),
            Err(error) => !area.aligned() && error == H264Error::InvalidSyntax(
                "motion partition is not aligned to the 4x4 field",
            ),
        },
{
    if area.x % 4 != 0 || area.y % 4 != 0 || area.width % 4 != 0 || area.height % 4 != 0
        || area.width > 16 || area.height > 16 || area.x > 16 - area.width || area.y > 16
        - area.height {
        return Err(H264Error::InvalidSyntax("motion partition is not aligned to the 4x4 field"));
    }
    let mut mask: [bool; 16] = [false; 16];
    let mut cell: usize = 0;
    while cell < 16
        invariant
            cell <= 16,
            area.aligned(),
            forall|i: int| 0 <= i < cell ==> #[trigger] mask[i] == area.covers(i),
        decreases 16 - cell,
    {
        let x: u8 = (cell % 4 * 4) as u8;
        let y: u8 = (cell / 4 * 4) as u8;
        mask[cell] = area.x <= x && x < area.x + area.width && area.y <= y && y < area.y
            + area.height;
        cell = cell + 1;
    }
    Ok(mask)
}

fn fill_partition(
    cells: &mut [MotionFieldCell; 16],
    coverage: &mut [bool; 16],
    areas: &Vec<PartitionArea>,
    values: &Vec<MotionFieldCell>,
    index: usize,
) -> (result: Result<()>)
    requires
        index < areas.len(),
        areas.len() == values.len(),
        old(cells)@ == filled_cells(areas@, values@, index as int),
        forall|cell: int|
            0 <= cell < 16 ==> #[trigger] old(coverage)[cell] == covered(
                areas@,
                index as int,
                cell,
            ),
    ensures
        match area_error(areas@, index as int) {
            Some(error) => result == Err::<(), H264Error>(error),
            None => {
                &&& result is Ok
                &&& final(cells)@ == filled_cells(areas@, values@, index + 1)
                &&& forall|cell: int|
                    0 <= cell < 16 ==> #[trigger] final(coverage)[cell] == covered(
                        areas@,
                        index + 1,
                        cell,
                    )
            },
        },
{
    let mask = partition_mask(areas[index])?;
    let mut cell: usize = 0;
    while cell < 16
        invariant
            cell <= 16,
            index < areas.len(),
            areas@[index as int].aligned(),
            forall|i: int| 0 <= i < 16 ==> #[trigger] mask[i] == areas@[index as int].covers(i),
            forall|i: int|
                0 <= i < 16 ==> #[trigger] coverage[i] == covered(areas@, index as int, i),
            forall|i: int| 0 <= i < cell ==> !(mask[i] && #[trigger] coverage[i]),
            *cells == *old(cells),
            *coverage == *old(coverage),
        decreases 16 - cell,
    {
        if mask[cell] && coverage[cell] {
            assert(covered(areas@, index as int, cell as int));
            return Err(H264Error::InvalidSyntax("motion partitions overlap in the 4x4 field"));
        }
        cell = cell + 1;
    }
    assert forall|i: int| 0 <= i < 16 && areas@[index as int].covers(i) implies !#[trigger] covered(
        areas@,
        index as int,
        i,
    ) by {
        assert(mask[i]);
        assert(!coverage[i]);
    }
    let ghost before = cells@;
    let ghost covered_before = coverage@;
    let mut cell: usize = 0;
    while cell < 16
        invariant
            cell <= 16,
            index < areas.len(),
            areas.len() == values.len(),
            forall|i: int| 0 <= i < 16 ==> #[trigger] mask[i] == areas@[index as int].covers(i),
            forall|i: int|
                0 <= i < 16 ==> #[trigger] coverage[i] == (covered_before[i] || i < cell
                    && areas@[index as int].covers(i)),
            forall|i: int|
                0 <= i < 16 ==> #[trigger] cells[i] == if i < cell && areas@[index as int].covers(
                    i,
                ) {
                    values@[index as int]
                } else {
                    before[i]
                },
        decreases 16 - cell,
    {
        if mask[cell] {
            cells[cell] = values[index];
            coverage[cell] = true;
        }
        cell = cell + 1;
    }
    assert(cells@ =~= filled_cells(areas@, values@, index + 1));
    assert forall|i: int| 0 <= i < 16 implies #[trigger] coverage[i] == covered(
        areas@,
        index + 1,
        i,
    ) by {
        assert(covered_before[i] == covered(areas@, index as int, i));
        if covered(areas@, index as int, i) {
            let j = choose|j: int| 0 <= j < index && (#[trigger] areas@[j]).covers(i);
            assert(areas@[j].covers(i));
        }
        if areas@[index as int].covers(i) {
            assert(covered(areas@, index + 1, i));
        }
    }
    Ok(())
}

/// What was recorded for a macroblock is what its cells hold, and no other
/// macroblock changes.
pub proof fn law_recording_is_local(
    builder: BuilderView,
    address: int,
    local: Seq<MotionFieldCell>,
    other: int,
    place: int,
)
    requires
        whole_rows(builder.width, builder.completed.len() as int),
        builder.cells.len() == 16 * builder.completed.len(),
        0 <= address < builder.completed.len(),
        0 <= other < builder.completed.len(),
        0 <= place < 16,
    ensures
        recorded(builder, address, local).cells[macroblock_cell(builder.width, other, place)]
            == if other == address {
            local[place]
        } else {
            builder.cells[macroblock_cell(builder.width, other, place)]
        },
{
    let cell = macroblock_cell(builder.width, other, place);
    lemma_cell_bound(builder.width, builder.completed.len() as int, other, place);
    lemma_cell(builder.width, cell, other, place);
}

/// A macroblock that was recorded cannot be recorded again until it is cleared.
pub proof fn law_recording_completes(
    builder: BuilderView,
    address: int,
    local: Seq<MotionFieldCell>,
)
    requires
        0 <= address < builder.completed.len(),
    ensures
        record_error(recorded(builder, address, local), address) == Some(
            H264Error::InvalidSyntax("reference motion-field macroblock was already recorded"),
        ),
        record_error(
            BuilderView { completed: builder.completed.update(address, false), ..builder },
            address,
        ) is None,
{
}

} // verus!
