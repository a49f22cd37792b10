//! Laws of the samples of pictures.

use vstd::prelude::*;

use crate::h264::picture_surface::{
    corner_reference, interleaved, left_samples, reconstructed, top_samples, with_macroblock,
    with_pcm, MacroblockPixels, PictureSamples,
};
use crate::h264::raster::{lemma_place, with_block};

verus! {

/// A block that is written is found at its place, row by row, and nothing else changes.
pub proof fn law_blocks_are_written_row_by_row(
    plane: Seq<u8>,
    stride: int,
    height: int,
    x: int,
    y: int,
    size: int,
    block: spec_fn(int, int) -> u8,
    column: int,
    row: int,
)
    requires
        plane.len() == stride * height,
        0 <= column < stride,
        0 <= row < height,
    ensures
        with_block(plane, stride, x, y, size, block)[row * stride + column] == if x <= column < x
            + size && y <= row < y + size {
            block(row - y, column - x)
        } else {
            plane[row * stride + column]
        },
{
    lemma_place(stride, height, column, row);
}

/// The samples above a block are the last row of what was written there, those on the
/// left the last column, and the corner the last sample of both. Samples above that are
/// not known repeat the last one that is.
pub proof fn law_references_touch_the_block(
    plane: Seq<u8>,
    stride: int,
    height: int,
    x: int,
    y: int,
    size: int,
    block: spec_fn(int, int) -> u8,
    index: int,
    known: int,
)
    requires
        plane.len() == stride * height,
        0 < size,
        0 <= x,
        0 <= y,
        x + size <= stride,
        y + size <= height,
        0 <= index < size,
        1 <= known <= size,
    ensures
        size <= y ==> ({
            let written = with_block(plane, stride, x, y - size, size, block);
            let samples = top_samples(written, stride, x, y, size, known);
            samples[index] == if index < known {
                block(size - 1, index)
            } else {
                block(size - 1, known - 1)
            }
        }),
        size <= x ==> left_samples(
            with_block(plane, stride, x - size, y, size, block),
            stride,
            x,
            y,
            size,
        )[index] == block(index, size - 1),
        size <= x && size <= y ==> corner_reference(
            with_block(plane, stride, x - size, y - size, size, block),
            stride,
            x,
            y,
            true,
        ) == Some(block(size - 1, size - 1)),
{
    if size <= y {
        let column = if index < known {
            x + index
        } else {
            x + known - 1
        };
        law_blocks_are_written_row_by_row(
            plane,
            stride,
            height,
            x,
            y - size,
            size,
            block,
            column,
            y - 1,
        );
    }
    if size <= x {
        law_blocks_are_written_row_by_row(
            plane,
            stride,
            height,
            x - size,
            y,
            size,
            block,
            x - 1,
            y + index,
        );
    }
    if size <= x && size <= y {
        law_blocks_are_written_row_by_row(
            plane,
            stride,
            height,
            x - size,
            y - size,
            size,
            block,
            x - 1,
            y - 1,
        );
    }
}

/// A reconstructed sample is its prediction plus its residual, held to 0 and 255.
pub proof fn law_residuals_are_added<const SIZE: usize>(
    prediction: [[u8; SIZE]; SIZE],
    residual: [[i32; SIZE]; SIZE],
    row: int,
    column: int,
)
    ensures
        ({
            let sum = prediction[row][column] + residual[row][column];
            reconstructed(prediction, residual)(row, column) == if sum < 0 {
                0
            } else if sum > 255 {
                255
            } else {
                sum
            }
        }),
{
}

/// Two planes that are interleaved take turns, the first one first.
pub proof fn law_interleaved_planes_take_turns(first: Seq<u8>, second: Seq<u8>, index: int)
    requires
        first.len() == second.len(),
        0 <= index < first.len(),
    ensures
        interleaved(first, second).len() == first.len() + second.len(),
        interleaved(first, second)[2 * index] == first[index],
        interleaved(first, second)[2 * index + 1] == second[index],
{
}

/// A macroblock of plain samples has its luma row by row, then those of Cb, and those of
/// Cr last.
pub proof fn law_plain_samples_are_written(
    picture: PictureSamples,
    macroblock_x: int,
    macroblock_y: int,
    luma: Seq<u8>,
    chroma: Seq<u8>,
    row: int,
    column: int,
)
    requires
        luma.len() == 256,
        chroma.len() == 128,
        0 <= macroblock_x,
        0 <= macroblock_y,
        16 * macroblock_x + 16 <= picture.width(),
        16 * macroblock_y + 16 <= picture.height(),
        picture.luma.len() == picture.width() * picture.height(),
        picture.cb.len() == (picture.width() / 2) * (picture.height() / 2),
        picture.cr.len() == (picture.width() / 2) * (picture.height() / 2),
        0 <= row < 16,
        0 <= column < 16,
    ensures
        ({
            let written = with_pcm(picture, macroblock_x, macroblock_y, luma, chroma);
            let stride = picture.width() / 2;
            &&& written.luma[(16 * macroblock_y + row) * picture.width() + (16 * macroblock_x
                + column)] == luma[16 * row + column]
            &&& row < 8 && column < 8 ==> {
                let place = (8 * macroblock_y + row) * stride + (8 * macroblock_x + column);
                written.cb[place] == chroma[8 * row + column] && written.cr[place] == chroma[64 + 8
                    * row + column]
            }
        }),
{
    let stride = picture.width() / 2;
    let lines = picture.height() / 2;
    lemma_place(
        picture.width(),
        picture.height(),
        16 * macroblock_x + column,
        16 * macroblock_y + row,
    );
    assert(macroblock_x * 16 == 16 * macroblock_x && macroblock_y * 16 == 16 * macroblock_y);
    if row < 8 && column < 8 {
        lemma_place(stride, lines, 8 * macroblock_x + column, 8 * macroblock_y + row);
    }
}

/// A macroblock that is written is read back, luma and both chroma components, each from
/// its own place.
pub proof fn law_written_macroblocks_are_read_back(
    picture: PictureSamples,
    macroblock_x: int,
    macroblock_y: int,
    pixels: MacroblockPixels,
    row: int,
    column: int,
)
    requires
        0 <= macroblock_x,
        0 <= macroblock_y,
        16 * macroblock_x + 16 <= picture.width(),
        16 * macroblock_y + 16 <= picture.height(),
        picture.luma.len() == picture.width() * picture.height(),
        picture.cb.len() == (picture.width() / 2) * (picture.height() / 2),
        picture.cr.len() == (picture.width() / 2) * (picture.height() / 2),
        0 <= row < 16,
        0 <= column < 16,
    ensures
        ({
            let written = with_macroblock(picture, macroblock_x, macroblock_y, pixels);
            let stride = picture.width() / 2;
            &&& written.luma[(16 * macroblock_y + row) * picture.width() + (16 * macroblock_x
                + column)] == pixels.luma[row][column]
            &&& row < 8 && column < 8 ==> {
                let place = (8 * macroblock_y + row) * stride + (8 * macroblock_x + column);
                written.cb[place] == pixels.cb[row][column] && written.cr[place]
                    == pixels.cr[row][column]
            }
        }),
{
    let stride = picture.width() / 2;
    let lines = picture.height() / 2;
    lemma_place(
        picture.width(),
        picture.height(),
        16 * macroblock_x + column,
        16 * macroblock_y + row,
    );
    if row < 8 && column < 8 {
        lemma_place(stride, lines, 8 * macroblock_x + column, 8 * macroblock_y + row);
    }
}

} // verus!
