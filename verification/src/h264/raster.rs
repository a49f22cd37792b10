//! Square blocks in planes of samples.

use vstd::arithmetic::div_mod::{lemma_fundamental_div_mod, lemma_fundamental_div_mod_converse};
use vstd::prelude::*;

verus! {

/// A plane with a block of `size` by `size` samples replaced.
pub open spec fn with_block(
    plane: Seq<u8>,
    stride: int,
    x: int,
    y: int,
    size: int,
    block: spec_fn(int, int) -> u8,
) -> Seq<u8> {
    Seq::new(
        plane.len(),
        |index: int|
            if y <= index / stride < y + size && x <= index % stride < x + size {
                block(index / stride - y, index % stride - x)
            } else {
                plane[index]
            },
    )
}

/// The samples of a block.
pub open spec fn entries<const SIZE: usize>(block: [[u8; SIZE]; SIZE]) -> spec_fn(int, int) -> u8 {
    |row: int, column: int| block[row][column]
}

/// A block of a plane.
pub open spec fn block_at(plane: Seq<u8>, stride: int, x: int, y: int) -> spec_fn(
    int,
    int,
) -> u8 {
    |row: int, column: int| plane[(y + row) * stride + x + column]
}

/// A block lies inside a plane of `height` rows.
pub open spec fn inside(stride: int, height: int, x: int, y: int, size: int) -> bool {
    0 <= x && 0 <= y && x + size <= stride && y + size <= height
}

/// The place of a sample, its row and its column.
pub proof fn lemma_place(stride: int, height: int, x: int, y: int)
    requires
        0 <= x < stride,
        0 <= y < height,
    ensures
        y <= y * stride,
        0 <= y * stride + x < stride * height,
        (y * stride + x) / stride == y,
        (y * stride + x) % stride == x,
{
    assert(y * stride == stride * y) by (nonlinear_arith);
    lemma_fundamental_div_mod_converse(y * stride + x, stride, y, x);
    assert(y <= y * stride && y * stride + x < stride * height) by (nonlinear_arith)
        requires
            0 <= x < stride,
            0 <= y < height,
    ;
}

/// A place is made of its row and its column.
pub proof fn lemma_row_and_column(stride: int, height: int, index: int)
    requires
        0 < stride,
        0 <= index < stride * height,
    ensures
        index == index / stride * stride + index % stride,
        0 <= index % stride < stride,
        0 <= index / stride < height,
{
    lemma_fundamental_div_mod(index, stride);
    assert(stride * (index / stride) == index / stride * stride) by (nonlinear_arith);
    assert(0 <= index % stride < stride && 0 <= index / stride < height) by (nonlinear_arith)
        requires
            0 < stride,
            0 <= index < stride * height,
    ;
}

/// Writes a block.
pub(crate) fn put_block<const SIZE: usize>(
    plane: &mut Vec<u8>,
    stride: usize,
    x: usize,
    y: usize,
    block: &[[u8; SIZE]; SIZE],
    Ghost(height): Ghost<int>,
)
    requires
        old(plane)@.len() == stride * height,
        inside(stride as int, height, x as int, y as int, SIZE as int),
    ensures
        final(plane)@ == with_block(
            old(plane)@,
            stride as int,
            x as int,
            y as int,
            SIZE as int,
            entries(*block),
        ),
{
    let length: usize = plane.len();
    let ghost before = plane@;
    let ghost after = with_block(
        before,
        stride as int,
        x as int,
        y as int,
        SIZE as int,
        entries(*block),
    );
    let mut row: usize = 0;
    while row < SIZE
        invariant
            row <= SIZE,
            before.len() == stride * height == length,
            plane@.len() == before.len(),
            inside(stride as int, height, x as int, y as int, SIZE as int),
            after == with_block(
                before,
                stride as int,
                x as int,
                y as int,
                SIZE as int,
                entries(*block),
            ),
            forall|i: int|
                0 <= i < before.len() ==> #[trigger] plane@[i] == if i / stride as int >= y + row {
                    before[i]
                } else {
                    after[i]
                },
        decreases SIZE - row,
    {
        let mut column: usize = 0;
        proof {
            lemma_place(stride as int, height, x as int, y + row);
        }
        let start: usize = (y + row) * stride + x;
        while column < SIZE
            invariant
                row < SIZE,
                column <= SIZE,
                start == (y + row) * stride + x,
                before.len() == stride * height == length,
                plane@.len() == before.len(),
                inside(stride as int, height, x as int, y as int, SIZE as int),
                after == with_block(
                    before,
                    stride as int,
                    x as int,
                    y as int,
                    SIZE as int,
                    entries(*block),
                ),
                forall|i: int|
                    0 <= i < before.len() ==> #[trigger] plane@[i] == if i / stride as int > y + row
                        || (i / stride as int == y + row && i % stride as int >= x + column) {
                        before[i]
                    } else {
                        after[i]
                    },
            decreases SIZE - column,
        {
            proof {
                lemma_place(stride as int, height, x + column, y + row);
            }
            let ghost earlier = plane@;
            plane[start + column] = block[row][column];
            assert forall|i: int| 0 <= i < before.len() implies #[trigger] plane@[i] == if i
                / stride as int > y + row || (i / stride as int == y + row && i % stride as int >= x
                + column + 1) {
                before[i]
            } else {
                after[i]
            } by {
                lemma_row_and_column(stride as int, height, i);
                if i != start + column {
                    assert(plane@[i] == earlier[i]);
                } else {
                    assert(after[i] == block[row as int][column as int]);
                }
            }
            column = column + 1;
        }
        assert forall|i: int| 0 <= i < before.len() implies #[trigger] plane@[i] == if i
            / stride as int >= y + row + 1 {
            before[i]
        } else {
            after[i]
        } by {
            if i / stride as int == y + row && i % stride as int >= x + SIZE {
                assert(after[i] == before[i]);
            }
        }
        row = row + 1;
    }
    assert forall|i: int| 0 <= i < before.len() implies #[trigger] plane@[i] == after[i] by {
        if i / stride as int >= y + SIZE {
            assert(after[i] == before[i]);
        }
    }
    assert(plane@ =~= after);
}

/// Reads a block.
pub(crate) fn get_block<const SIZE: usize>(
    plane: &Vec<u8>,
    stride: usize,
    x: usize,
    y: usize,
    Ghost(height): Ghost<int>,
) -> (block: [[u8; SIZE]; SIZE])
    requires
        plane@.len() == stride * height,
        inside(stride as int, height, x as int, y as int, SIZE as int),
    ensures
        forall|row: int, column: int|
            #![trigger block[row][column]]
            0 <= row < SIZE && 0 <= column < SIZE ==> block[row][column] == block_at(
                plane@,
                stride as int,
                x as int,
                y as int,
            )(row, column),
{
    let length: usize = plane.len();
    let mut block = [[0u8; SIZE]; SIZE];
    let mut row: usize = 0;
    while row < SIZE
        invariant
            row <= SIZE,
            plane@.len() == stride * height == length,
            inside(stride as int, height, x as int, y as int, SIZE as int),
            forall|r: int, c: int|
                #![trigger block[r][c]]
                0 <= r < row && 0 <= c < SIZE ==> block[r][c] == plane@[(y + r) * stride + x + c],
        decreases SIZE - row,
    {
        let mut column: usize = 0;
        while column < SIZE
            invariant
                row < SIZE,
                column <= SIZE,
                plane@.len() == stride * height == length,
                inside(stride as int, height, x as int, y as int, SIZE as int),
                forall|r: int, c: int|
                    #![trigger block[r][c]]
                    0 <= r < row && 0 <= c < SIZE || r == row && 0 <= c < column ==> block[r][c]
                        == plane@[(y + r) * stride + x + c],
            decreases SIZE - column,
        {
            proof {
                lemma_place(stride as int, height, x + column, y + row);
            }
            block[row][column] = plane[(y + row) * stride + x + column];
            column = column + 1;
        }
        row = row + 1;
    }
    block
}

/// A block that was read from a plane gives the plane back wherever it is
/// written over changes of that block alone.
pub proof fn law_restoring_a_block(
    plane: Seq<u8>,
    changed: Seq<u8>,
    stride: int,
    height: int,
    x: int,
    y: int,
    size: int,
)
    requires
        plane.len() == stride * height,
        changed.len() == plane.len(),
        inside(stride, height, x, y, size),
        0 < size,
        forall|i: int|
            0 <= i < plane.len() && !(y <= i / stride < y + size && x <= i % stride < x + size)
                ==> #[trigger] changed[i] == plane[i],
    ensures
        with_block(changed, stride, x, y, size, block_at(plane, stride, x, y)) == plane,
{
    let restored = with_block(changed, stride, x, y, size, block_at(plane, stride, x, y));
    assert forall|i: int| 0 <= i < plane.len() implies #[trigger] restored[i] == plane[i] by {
        lemma_row_and_column(stride, height, i);
        if y <= i / stride < y + size && x <= i % stride < x + size {
            assert(y + (i / stride - y) == i / stride);
        } else {
            assert(changed[i] == plane[i]);
        }
    }
    assert(restored =~= plane);
}

/// A block that was written is what is read at its place.
pub proof fn law_reading_a_written_block(
    plane: Seq<u8>,
    stride: int,
    height: int,
    x: int,
    y: int,
    size: int,
    block: spec_fn(int, int) -> u8,
    row: int,
    column: int,
)
    requires
        plane.len() == stride * height,
        inside(stride, height, x, y, size),
        0 <= row < size,
        0 <= column < size,
    ensures
        block_at(with_block(plane, stride, x, y, size, block), stride, x, y)(row, column) == block(
            row,
            column,
        ),
{
    lemma_place(stride, height, x + column, y + row);
}

} // verus!
