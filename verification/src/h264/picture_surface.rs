//! Mutable pre-deblocking picture storage and immutable CPU-frame packaging.

use std::sync::Arc;
use vstd::prelude::*;

use super::error::{H264Error, Result};
use super::macroblock::PcmMacroblock;
use super::prediction::{
    clipped, side, Intra16x16References, Intra4x4References, Intra8x8References,
    IntraChroma420References, Prediction16x16, Prediction4x4, Prediction8x8,
};
use super::raster::{block_at, entries, get_block, inside, lemma_place, put_block, with_block};
use super::transform::{Block4x4, Block8x8};
use crate::media::{
    CpuFrame, CpuPlane, DecodedVideoFrame, FrameStorage, MediaError, MediaTime, PixelFormat, Size,
    VideoFormat,
};
use crate::shared::{filled, share};

verus! {

#[derive(Debug, Clone, Copy, PartialEq, Eq, Structural)]
pub enum ChromaPlane {
    Cb,
    Cr,
}

/// Availability decisions made by the macroblock/slice layer.
#[derive(Debug, Clone, Copy, PartialEq, Eq, Structural)]
pub struct IntraReferenceAvailability {
    pub top: bool,
    pub left: bool,
    pub top_left: bool,
    pub top_right: bool,
}

impl Default for IntraReferenceAvailability {
    fn default() -> (availability: Self)
        ensures
            availability == (IntraReferenceAvailability {
                top: false,
                left: false,
                top_left: false,
                top_right: false,
            }),
    {
        IntraReferenceAvailability { top: false, left: false, top_left: false, top_right: false }
    }
}

/// One mutable 8-bit 4:2:0 picture before deblocking.
///
/// Chroma remains planar during reconstruction because Cb and Cr have
/// independent prediction and residual paths. [`Self::into_nv12_frame`]
/// interleaves them once when the picture becomes immutable.
#[derive(Debug, Clone, PartialEq, Eq)]
pub struct Yuv420Picture {
    coded_size: Size,
    width: usize,
    height: usize,
    luma: Vec<u8>,
    cb: Vec<u8>,
    cr: Vec<u8>,
}

/// A picture as mathematics, its planes row after row.
pub struct PictureSamples {
    pub size: Size,
    pub luma: Seq<u8>,
    pub cb: Seq<u8>,
    pub cr: Seq<u8>,
}

impl PictureSamples {
    /// The width of the luma plane.
    pub open spec fn width(self) -> int {
        self.size.width as int
    }

    /// The height of the luma plane.
    pub open spec fn height(self) -> int {
        self.size.height as int
    }

    /// A chroma plane.
    pub open spec fn chroma(self, plane: ChromaPlane) -> Seq<u8> {
        match plane {
            ChromaPlane::Cb => self.cb,
            ChromaPlane::Cr => self.cr,
        }
    }

    /// The picture with a chroma plane replaced.
    pub open spec fn with_chroma(self, plane: ChromaPlane, samples: Seq<u8>) -> PictureSamples {
        match plane {
            ChromaPlane::Cb => PictureSamples { cb: samples, ..self },
            ChromaPlane::Cr => PictureSamples { cr: samples, ..self },
        }
    }
}

impl View for Yuv420Picture {
    type V = PictureSamples;

    closed spec fn view(&self) -> PictureSamples {
        PictureSamples {
            size: self.coded_size,
            luma: self.luma@,
            cb: self.cb@,
            cr: self.cr@,
        }
    }
}

/// The samples of one macroblock.
#[derive(Debug, Clone, PartialEq, Eq)]
pub struct MacroblockPixels {
    pub luma: [[u8; 16]; 16],
    pub cb: [[u8; 8]; 8],
    pub cr: [[u8; 8]; 8],
}

/// Why there is no picture of this size.
pub open spec fn picture_error(size: Size) -> Option<H264Error> {
    if size.width == 0 || size.height == 0 {
        Some(H264Error::InvalidSyntax("picture dimensions must be non-zero"))
    } else if size.width % 16 != 0 || size.height % 16 != 0 {
        Some(
            H264Error::InvalidSyntax("4:2:0 H.264 coded dimensions must be macroblock aligned"),
        )
    } else if size.width * size.height > usize::MAX {
        Some(H264Error::IntegerOverflow)
    } else {
        None
    }
}

/// Why a block is refused in a plane.
pub open spec fn block_bounds_error(
    width: int,
    height: int,
    x: int,
    y: int,
    size: int,
) -> Option<H264Error> {
    if x + size > usize::MAX || y + size > usize::MAX {
        Some(H264Error::IntegerOverflow)
    } else if x + size > width || y + size > height {
        Some(H264Error::InvalidSyntax("reconstructed block lies outside picture"))
    } else {
        None
    }
}

/// Why samples around a block that are said to be available are not there.
pub open spec fn reference_error(
    width: int,
    x: int,
    y: int,
    size: int,
    availability: IntraReferenceAvailability,
    reads_top_right: bool,
) -> Option<H264Error> {
    if availability.top && y == 0 {
        Some(H264Error::InvalidSyntax("top reference lies outside picture"))
    } else if availability.top && reads_top_right && availability.top_right && x + 2 * size
        > width {
        Some(H264Error::InvalidSyntax("top reference crosses the picture row"))
    } else if availability.left && x == 0 {
        Some(H264Error::InvalidSyntax("left reference lies outside picture"))
    } else if availability.top_left && (x == 0 || y == 0) {
        Some(H264Error::InvalidSyntax("top-left reference lies outside picture"))
    } else {
        None
    }
}

/// The first of two errors.
pub open spec fn either(first: Option<H264Error>, second: Option<H264Error>) -> Option<H264Error> {
    match first {
        Some(error) => Some(error),
        None => second,
    }
}

/// The samples above a block. Only the first `known` are read; the others
/// repeat the last of those.
pub open spec fn top_samples(
    plane: Seq<u8>,
    stride: int,
    x: int,
    y: int,
    count: int,
    known: int,
) -> Seq<u8> {
    Seq::new(
        count as nat,
        |i: int|
            plane[(y - 1) * stride + x + (if i < known {
                i
            } else {
                known - 1
            })],
    )
}

/// The samples on the left of a block.
pub open spec fn left_samples(plane: Seq<u8>, stride: int, x: int, y: int, count: int) -> Seq<u8> {
    Seq::new(count as nat, |i: int| plane[(y + i) * stride + x - 1])
}

/// The samples above a block, where they are available.
pub open spec fn top_reference(
    plane: Seq<u8>,
    stride: int,
    x: int,
    y: int,
    count: int,
    known: int,
    available: bool,
) -> Option<Seq<u8>> {
    if available {
        Some(top_samples(plane, stride, x, y, count, known))
    } else {
        None
    }
}

/// The samples on the left of a block, where they are available.
pub open spec fn left_reference(
    plane: Seq<u8>,
    stride: int,
    x: int,
    y: int,
    count: int,
    available: bool,
) -> Option<Seq<u8>> {
    if available {
        Some(left_samples(plane, stride, x, y, count))
    } else {
        None
    }
}

/// The sample above and on the left of a block, where it is available.
pub open spec fn corner_reference(
    plane: Seq<u8>,
    stride: int,
    x: int,
    y: int,
    available: bool,
) -> Option<u8> {
    if available {
        Some(plane[(y - 1) * stride + x - 1])
    } else {
        None
    }
}

/// A prediction plus its residual, held to the range of samples.
pub open spec fn reconstructed<const SIZE: usize>(
    prediction: [[u8; SIZE]; SIZE],
    residual: [[i32; SIZE]; SIZE],
) -> spec_fn(int, int) -> u8 {
    |row: int, column: int| clipped(prediction[row][column] + residual[row][column])
}

/// The rows of a block that is given row after row.
pub open spec fn rows_of_samples(samples: Seq<u8>, size: int) -> spec_fn(int, int) -> u8 {
    |row: int, column: int| samples[row * size + column]
}

/// Two planes, sample by sample in turns.
pub open spec fn interleaved(first: Seq<u8>, second: Seq<u8>) -> Seq<u8> {
    Seq::new(
        2 * first.len(),
        |i: int|
            if i % 2 == 0 {
                first[i / 2]
            } else {
                second[i / 2]
            },
    )
}

/// The picture with a PCM macroblock written.
pub open spec fn with_pcm(
    picture: PictureSamples,
    macroblock_x: int,
    macroblock_y: int,
    luma: Seq<u8>,
    chroma: Seq<u8>,
) -> PictureSamples {
    let stride = picture.width() / 2;
    let x = macroblock_x * 8;
    let y = macroblock_y * 8;
    PictureSamples {
        luma: with_block(
            picture.luma,
            picture.width(),
            macroblock_x * 16,
            macroblock_y * 16,
            16,
            rows_of_samples(luma, 16),
        ),
        cb: with_block(picture.cb, stride, x, y, 8, rows_of_samples(chroma.take(64), 8)),
        cr: with_block(picture.cr, stride, x, y, 8, rows_of_samples(chroma.skip(64), 8)),
        ..picture
    }
}

/// The picture with the samples of a macroblock replaced.
pub open spec fn with_macroblock(
    picture: PictureSamples,
    macroblock_x: int,
    macroblock_y: int,
    pixels: MacroblockPixels,
) -> PictureSamples {
    let stride = picture.width() / 2;
    let x = macroblock_x * 8;
    let y = macroblock_y * 8;
    PictureSamples {
        luma: with_block(
            picture.luma,
            picture.width(),
            macroblock_x * 16,
            macroblock_y * 16,
            16,
            entries(pixels.luma),
        ),
        cb: with_block(picture.cb, stride, x, y, 8, entries(pixels.cb)),
        cr: with_block(picture.cr, stride, x, y, 8, entries(pixels.cr)),
        ..picture
    }
}

/// The samples of a macroblock are those of the picture.
pub open spec fn is_macroblock(
    picture: PictureSamples,
    macroblock_x: int,
    macroblock_y: int,
    pixels: MacroblockPixels,
) -> bool {
    let stride = picture.width() / 2;
    let x = macroblock_x * 8;
    let y = macroblock_y * 8;
    &&& forall|row: int, column: int|
        #![trigger pixels.luma[row][column]]
        0 <= row < 16 && 0 <= column < 16 ==> pixels.luma[row][column] == block_at(
            picture.luma,
            picture.width(),
            macroblock_x * 16,
            macroblock_y * 16,
        )(row, column)
    &&& forall|row: int, column: int|
        #![trigger pixels.cb[row][column]]
        0 <= row < 8 && 0 <= column < 8 ==> pixels.cb[row][column] == block_at(
            picture.cb,
            stride,
            x,
            y,
        )(row, column)
    &&& forall|row: int, column: int|
        #![trigger pixels.cr[row][column]]
        0 <= row < 8 && 0 <= column < 8 ==> pixels.cr[row][column] == block_at(
            picture.cr,
            stride,
            x,
            y,
        )(row, column)
}

/// Why a picture is not packaged as NV12.
pub open spec fn nv12_error(picture: PictureSamples, format: VideoFormat) -> Option<H264Error> {
    if format.pixel_format != PixelFormat::Nv12 {
        Some(H264Error::InvalidSyntax("YUV picture output format must be NV12"))
    } else if format.coded_size != picture.size {
        Some(H264Error::InvalidSyntax("output format coded size does not match the picture"))
    } else {
        match format.error() {
            Some(MediaError::InvalidFormat(message)) => Some(H264Error::InvalidSyntax(message)),
            Some(MediaError::InvalidFrame(message)) => Some(H264Error::InvalidSyntax(message)),
            None => if picture.luma.len() + 2 * picture.cb.len() > usize::MAX {
                Some(H264Error::IntegerOverflow)
            } else {
                None
            },
        }
    }
}

/// The frame of a picture: both planes in one allocation.
pub open spec fn is_nv12_frame(
    frame: DecodedVideoFrame,
    picture: PictureSamples,
    id: u64,
    pts: Option<MediaTime>,
    duration: Option<MediaTime>,
    format: VideoFormat,
) -> bool {
    let bytes = picture.luma + interleaved(picture.cb, picture.cr);
    &&& frame.id == id
    &&& frame.pts == pts
    &&& frame.duration == duration
    &&& frame.format == format
    &&& frame.error() is None
    &&& frame.storage matches FrameStorage::Cpu(storage) && {
        let planes = storage.planes@;
        &&& planes.len() == 2
        &&& planes[0].bytes@ == bytes
        &&& planes[0].offset == 0
        &&& planes[0].stride == picture.width()
        &&& planes[0].rows == picture.height()
        &&& planes[1].bytes == planes[0].bytes
        &&& planes[1].offset == picture.luma.len()
        &&& planes[1].stride == picture.width()
        &&& planes[1].rows == picture.height() / 2
    }
}

/// The planes of a picture in quarters.
proof fn lemma_quarters(width: int, height: int)
    requires
        0 <= width,
        0 <= height,
        width % 2 == 0,
        height % 2 == 0,
    ensures
        width * height == 4 * ((width / 2) * (height / 2)),
        width * (height / 2) == 2 * ((width / 2) * (height / 2)),
{
    assert(width * height == 4 * ((width / 2) * (height / 2)) && width * (height / 2) == 2 * ((width
        / 2) * (height / 2))) by (nonlinear_arith)
        requires
            width == 2 * (width / 2),
            height == 2 * (height / 2),
    ;
}

fn validate_block_bounds(
    width: usize,
    height: usize,
    x: usize,
    y: usize,
    size: usize,
) -> (result: Result<()>)
    ensures
        result == match block_bounds_error(
            width as int,
            height as int,
            x as int,
            y as int,
            size as int,
        ) {
            Some(error) => Err::<(), H264Error>(error),
            None => Ok(()),
        },
{
    let right: usize = match x.checked_add(size) {
        Some(right) => right,
        None => return Err(H264Error::IntegerOverflow),
    };
    let bottom: usize = match y.checked_add(size) {
        Some(bottom) => bottom,
        None => return Err(H264Error::IntegerOverflow),
    };
    if right > width || bottom > height {
        return Err(H264Error::InvalidSyntax("reconstructed block lies outside picture"));
    }
    Ok(())
}

fn checked_product(value: usize, factor: usize) -> (result: Result<usize>)
    ensures
        match result {
            Ok(product) => product == value * factor,
            Err(error) => error == H264Error::IntegerOverflow && value * factor > usize::MAX,
        },
{
    match value.checked_mul(factor) {
        Some(product) => Ok(product),
        None => Err(H264Error::IntegerOverflow),
    }
}

fn find_reference_error(
    width: usize,
    x: usize,
    y: usize,
    size: usize,
    availability: IntraReferenceAvailability,
    reads_top_right: bool,
) -> (error: Option<H264Error>)
    requires
        x + size <= width,
    ensures
        error == reference_error(
            width as int,
            x as int,
            y as int,
            size as int,
            availability,
            reads_top_right,
        ),
{
    if availability.top && y == 0 {
        Some(H264Error::InvalidSyntax("top reference lies outside picture"))
    } else if availability.top && reads_top_right && availability.top_right && size > width - x
        - size {
        Some(H264Error::InvalidSyntax("top reference crosses the picture row"))
    } else if availability.left && x == 0 {
        Some(H264Error::InvalidSyntax("left reference lies outside picture"))
    } else if availability.top_left && (x == 0 || y == 0) {
        Some(H264Error::InvalidSyntax("top-left reference lies outside picture"))
    } else {
        None
    }
}

fn copy_top<const COUNT: usize>(
    plane: &Vec<u8>,
    stride: usize,
    x: usize,
    y: usize,
    known: usize,
    available: bool,
    Ghost(height): Ghost<int>,
) -> (samples: Option<[u8; COUNT]>)
    requires
        plane@.len() == stride * height,
        available ==> 1 <= y <= height && 1 <= known && x + known <= stride,
    ensures
        side(samples) == top_reference(
            plane@,
            stride as int,
            x as int,
            y as int,
            COUNT as int,
            known as int,
            available,
        ),
{
    if !available {
        return None;
    }
    let length: usize = plane.len();
    let mut samples = [0u8; COUNT];
    let ghost expected = top_samples(
        plane@,
        stride as int,
        x as int,
        y as int,
        COUNT as int,
        known as int,
    );
    let mut index: usize = 0;
    while index < COUNT
        invariant
            index <= COUNT,
            plane@.len() == stride * height == length,
            1 <= y <= height,
            1 <= known,
            x + known <= stride,
            expected == top_samples(
                plane@,
                stride as int,
                x as int,
                y as int,
                COUNT as int,
                known as int,
            ),
            forall|i: int| 0 <= i < index ==> samples[i] == expected[i],
        decreases COUNT - index,
    {
        let offset: usize = if index < known {
            index
        } else {
            known - 1
        };
        proof {
            lemma_place(stride as int, height, x + offset, y - 1);
        }
        samples[index] = plane[(y - 1) * stride + x + offset];
        index = index + 1;
    }
    assert(samples@ =~= expected);
    Some(samples)
}

fn copy_left<const COUNT: usize>(
    plane: &Vec<u8>,
    stride: usize,
    x: usize,
    y: usize,
    available: bool,
    Ghost(height): Ghost<int>,
) -> (samples: Option<[u8; COUNT]>)
    requires
        plane@.len() == stride * height,
        available ==> 1 <= x <= stride && y + COUNT <= height,
    ensures
        side(samples) == left_reference(
            plane@,
            stride as int,
            x as int,
            y as int,
            COUNT as int,
            available,
        ),
{
    if !available {
        return None;
    }
    let length: usize = plane.len();
    let mut samples = [0u8; COUNT];
    let ghost expected = left_samples(plane@, stride as int, x as int, y as int, COUNT as int);
    let mut index: usize = 0;
    while index < COUNT
        invariant
            index <= COUNT,
            plane@.len() == stride * height == length,
            1 <= x <= stride,
            y + COUNT <= height,
            expected == left_samples(plane@, stride as int, x as int, y as int, COUNT as int),
            forall|i: int| 0 <= i < index ==> samples[i] == expected[i],
        decreases COUNT - index,
    {
        proof {
            lemma_place(stride as int, height, x - 1, y + index);
        }
        samples[index] = plane[(y + index) * stride + (x - 1)];
        index = index + 1;
    }
    assert(samples@ =~= expected);
    Some(samples)
}

fn sample_top_left(
    plane: &Vec<u8>,
    stride: usize,
    x: usize,
    y: usize,
    available: bool,
    Ghost(height): Ghost<int>,
) -> (sample: Option<u8>)
    requires
        plane@.len() == stride * height,
        available ==> 1 <= x <= stride && 1 <= y <= height,
    ensures
        sample == corner_reference(plane@, stride as int, x as int, y as int, available),
{
    if !available {
        return None;
    }
    proof {
        assert(plane@.len() == plane.len());
        lemma_place(stride as int, height, x - 1, y - 1);
    }
    Some(plane[(y - 1) * stride + (x - 1)])
}

fn add_samples<const SIZE: usize>(
    prediction: &[[u8; SIZE]; SIZE],
    residual: &[[i32; SIZE]; SIZE],
) -> (block: [[u8; SIZE]; SIZE])
    ensures
        forall|row: int, column: int|
            #![trigger block[row][column]]
            0 <= row < SIZE && 0 <= column < SIZE ==> block[row][column] == reconstructed(
                *prediction,
                *residual,
            )(row, column),
{
    let mut block = [[0u8; SIZE]; SIZE];
    let mut row: usize = 0;
    while row < SIZE
        invariant
            row <= SIZE,
            forall|r: int, c: int|
                #![trigger block[r][c]]
                0 <= r < row && 0 <= c < SIZE ==> block[r][c] == clipped(
                    prediction[r][c] + residual[r][c],
                ),
        decreases SIZE - row,
    {
        let mut column: usize = 0;
        while column < SIZE
            invariant
                row < SIZE,
                column <= SIZE,
                forall|r: int, c: int|
                    #![trigger block[r][c]]
                    0 <= r < row && 0 <= c < SIZE || r == row && 0 <= c < column ==> block[r][c]
                        == clipped(prediction[r][c] + residual[r][c]),
            decreases SIZE - column,
        {
            let value: i64 = prediction[row][column] as i64 + residual[row][column] as i64;
            block[row][column] = if value < 0 {
                0
            } else if value > 255 {
                255
            } else {
                value as u8
            };
            column = column + 1;
        }
        row = row + 1;
    }
    block
}

fn rows_from<const SIZE: usize>(samples: &[u8], start: usize) -> (block: [[u8; SIZE]; SIZE])
    requires
        SIZE == 8 || SIZE == 16,
        start + SIZE * SIZE <= samples@.len(),
    ensures
        forall|row: int, column: int|
            #![trigger block[row][column]]
            0 <= row < SIZE && 0 <= column < SIZE ==> block[row][column] == rows_of_samples(
                samples@.skip(start as int),
                SIZE as int,
            )(row, column),
{
    let mut block = [[0u8; SIZE]; SIZE];
    let ghost tail = samples@.skip(start as int);
    let length: usize = samples.len();
    let mut row: usize = 0;
    while row < SIZE
        invariant
            row <= SIZE,
            SIZE == 8 || SIZE == 16,
            samples@.len() == length,
            start + SIZE * SIZE <= length,
            tail == samples@.skip(start as int),
            forall|r: int, c: int|
                #![trigger block[r][c]]
                0 <= r < row && 0 <= c < SIZE ==> block[r][c] == tail[r * SIZE + c],
        decreases SIZE - row,
    {
        let mut column: usize = 0;
        while column < SIZE
            invariant
                row < SIZE,
                column <= SIZE,
                SIZE == 8 || SIZE == 16,
                samples@.len() == length,
                start + SIZE * SIZE <= length,
                tail == samples@.skip(start as int),
                forall|r: int, c: int|
                    #![trigger block[r][c]]
                    0 <= r < row && 0 <= c < SIZE || r == row && 0 <= c < column ==> block[r][c]
                        == tail[r * SIZE + c],
            decreases SIZE - column,
        {
            proof {
                lemma_place(SIZE as int, SIZE as int, column as int, row as int);
            }
            block[row][column] = samples[start + (row * SIZE + column)];
            column = column + 1;
        }
        row = row + 1;
    }
    block
}

/// Blocks with equal samples are written alike.
proof fn lemma_with_block(
    plane: Seq<u8>,
    stride: int,
    x: int,
    y: int,
    size: int,
    first: spec_fn(int, int) -> u8,
    second: spec_fn(int, int) -> u8,
)
    requires
        forall|row: int, column: int|
            #![trigger first(row, column)]
            0 <= row < size && 0 <= column < size ==> first(row, column) == second(row, column),
    ensures
        with_block(plane, stride, x, y, size, first) == with_block(
            plane,
            stride,
            x,
            y,
            size,
            second,
        ),
{
    let left = with_block(plane, stride, x, y, size, first);
    let right = with_block(plane, stride, x, y, size, second);
    assert forall|i: int| 0 <= i < plane.len() implies #[trigger] left[i] == right[i] by {
        if y <= i / stride < y + size && x <= i % stride < x + size {
            assert(first(i / stride - y, i % stride - x) == second(
                i / stride - y,
                i % stride - x,
            ));
        }
    }
    assert(left =~= right);
}

fn write_sum<const SIZE: usize>(
    plane: &mut Vec<u8>,
    stride: usize,
    x: usize,
    y: usize,
    prediction: &[[u8; SIZE]; SIZE],
    residual: &[[i32; SIZE]; SIZE],
    Ghost(height): Ghost<int>,
)
    requires
        old(plane)@.len() == stride * height,
        inside(stride as int, height, x as int, y as int, SIZE as int),
    ensures
        final(plane)@ == with_block(
            old(plane)@,
            stride as int,
            x as int,
            y as int,
            SIZE as int,
            reconstructed(*prediction, *residual),
        ),
{
    let block = add_samples(prediction, residual);
    let ghost before = plane@;
    put_block(plane, stride, x, y, &block, Ghost(height));
    proof {
        assert forall|row: int, column: int|
            #![trigger entries(block)(row, column)]
            0 <= row < SIZE && 0 <= column < SIZE implies entries(block)(row, column)
            == reconstructed(*prediction, *residual)(row, column) by {
            assert(block[row][column] == reconstructed(*prediction, *residual)(row, column));
        }
        lemma_with_block(
            before,
            stride as int,
            x as int,
            y as int,
            SIZE as int,
            entries(block),
            reconstructed(*prediction, *residual),
        );
    }
}

fn write_rows<const SIZE: usize>(
    plane: &mut Vec<u8>,
    stride: usize,
    x: usize,
    y: usize,
    samples: &[u8],
    start: usize,
    Ghost(height): Ghost<int>,
)
    requires
        SIZE == 8 || SIZE == 16,
        start + SIZE * SIZE <= samples@.len(),
        old(plane)@.len() == stride * height,
        inside(stride as int, height, x as int, y as int, SIZE as int),
    ensures
        final(plane)@ == with_block(
            old(plane)@,
            stride as int,
            x as int,
            y as int,
            SIZE as int,
            rows_of_samples(samples@.skip(start as int), SIZE as int),
        ),
{
    let block: [[u8; SIZE]; SIZE] = rows_from(samples, start);
    let ghost before = plane@;
    let ghost rows = rows_of_samples(samples@.skip(start as int), SIZE as int);
    put_block(plane, stride, x, y, &block, Ghost(height));
    proof {
        assert forall|row: int, column: int|
            #![trigger entries(block)(row, column)]
            0 <= row < SIZE && 0 <= column < SIZE implies entries(block)(row, column) == rows(
            row,
            column,
        ) by {
            assert(block[row][column] == rows(row, column));
        }
        lemma_with_block(
            before,
            stride as int,
            x as int,
            y as int,
            SIZE as int,
            entries(block),
            rows,
        );
    }
}

impl Yuv420Picture {
    /// The planes have the size of the picture.
    pub closed spec fn well_formed(self) -> bool {
        &&& self.width == self.coded_size.width
        &&& self.height == self.coded_size.height
        &&& self.width > 0
        &&& self.height > 0
        &&& self.width % 16 == 0
        &&& self.height % 16 == 0
        &&& self.luma.len() == self.width * self.height
        &&& self.cb.len() == (self.width / 2) * (self.height / 2)
        &&& self.cr.len() == (self.width / 2) * (self.height / 2)
    }

    pub fn new(coded_size: Size) -> (result: Result<Self>)
        ensures
            match picture_error(coded_size) {
                Some(error) => result == Err::<Yuv420Picture, H264Error>(error),
                None => result matches Ok(picture) && picture.well_formed() && picture@ == (
                PictureSamples {
                    size: coded_size,
                    luma: Seq::new(
                        (coded_size.width * coded_size.height) as nat,
                        |i: int| 0u8,
                    ),
                    cb: Seq::new(
                        ((coded_size.width / 2) * (coded_size.height / 2)) as nat,
                        |i: int| 0u8,
                    ),
                    cr: Seq::new(
                        ((coded_size.width / 2) * (coded_size.height / 2)) as nat,
                        |i: int| 0u8,
                    ),
                }),
            },
    {
        if coded_size.width == 0 || coded_size.height == 0 {
            return Err(H264Error::InvalidSyntax("picture dimensions must be non-zero"));
        }
        if coded_size.width % 16 != 0 || coded_size.height % 16 != 0 {
            return Err(
                H264Error::InvalidSyntax("4:2:0 H.264 coded dimensions must be macroblock aligned"),
            );
        }
        let width: usize = coded_size.width as usize;
        let height: usize = coded_size.height as usize;
        proof {
            lemma_quarters(width as int, height as int);
        }
        let luma_len: usize = checked_product(width, height)?;
        let chroma_len: usize = checked_product(width / 2, height / 2)?;
        Ok(
            Yuv420Picture {
                coded_size,
                width,
                height,
                luma: filled(0u8, luma_len),
                cb: filled(0u8, chroma_len),
                cr: filled(0u8, chroma_len),
            },
        )
    }

    #[inline]
    pub fn coded_size(&self) -> (size: Size)
        ensures
            size == self@.size,
    {
        self.coded_size
    }

    /// The width and height of the luma plane.
    #[inline]
    pub fn dimensions(&self) -> (dimensions: (usize, usize))
        requires
            self.well_formed(),
        ensures
            dimensions.0 == self@.width(),
            dimensions.1 == self@.height(),
    {
        (self.width, self.height)
    }

    pub fn intra4x4_references(
        &self,
        x: usize,
        y: usize,
        availability: IntraReferenceAvailability,
    ) -> (result: Result<Intra4x4References>)
        requires
            self.well_formed(),
        ensures
            match either(
                block_bounds_error(self@.width(), self@.height(), x as int, y as int, 4),
                reference_error(self@.width(), x as int, y as int, 4, availability, true),
            ) {
                Some(error) => result == Err::<Intra4x4References, H264Error>(error),
                None => result matches Ok(references) && side(references.top) == top_reference(
                    self@.luma,
                    self@.width(),
                    x as int,
                    y as int,
                    8,
                    if availability.top_right {
                        8
                    } else {
                        4
                    },
                    availability.top,
                ) && side(references.left) == left_reference(
                    self@.luma,
                    self@.width(),
                    x as int,
                    y as int,
                    4,
                    availability.left,
                ) && references.top_left == corner_reference(
                    self@.luma,
                    self@.width(),
                    x as int,
                    y as int,
                    availability.top_left,
                ),
            },
    {
        validate_block_bounds(self.width, self.height, x, y, 4)?;
        if let Some(error) = find_reference_error(self.width, x, y, 4, availability, true) {
            return Err(error);
        }
        let ghost height = self.height as int;
        let known: usize = if availability.top_right {
            8
        } else {
            4
        };
        let top = copy_top(&self.luma, self.width, x, y, known, availability.top, Ghost(height));
        let left = copy_left(&self.luma, self.width, x, y, availability.left, Ghost(height));
        let top_left = sample_top_left(
            &self.luma,
            self.width,
            x,
            y,
            availability.top_left,
            Ghost(height),
        );
        Ok(Intra4x4References { top, left, top_left })
    }

    pub fn intra8x8_references(
        &self,
        x: usize,
        y: usize,
        availability: IntraReferenceAvailability,
    ) -> (result: Result<Intra8x8References>)
        requires
            self.well_formed(),
        ensures
            match either(
                block_bounds_error(self@.width(), self@.height(), x as int, y as int, 8),
                reference_error(self@.width(), x as int, y as int, 8, availability, true),
            ) {
                Some(error) => result == Err::<Intra8x8References, H264Error>(error),
                None => result matches Ok(references) && side(references.top) == top_reference(
                    self@.luma,
                    self@.width(),
                    x as int,
                    y as int,
                    16,
                    if availability.top_right {
                        16
                    } else {
                        8
                    },
                    availability.top,
                ) && side(references.left) == left_reference(
                    self@.luma,
                    self@.width(),
                    x as int,
                    y as int,
                    8,
                    availability.left,
                ) && references.top_left == corner_reference(
                    self@.luma,
                    self@.width(),
                    x as int,
                    y as int,
                    availability.top_left,
                ),
            },
    {
        validate_block_bounds(self.width, self.height, x, y, 8)?;
        if let Some(error) = find_reference_error(self.width, x, y, 8, availability, true) {
            return Err(error);
        }
        let ghost height = self.height as int;
        let known: usize = if availability.top_right {
            16
        } else {
            8
        };
        let top = copy_top(&self.luma, self.width, x, y, known, availability.top, Ghost(height));
        let left = copy_left(&self.luma, self.width, x, y, availability.left, Ghost(height));
        let top_left = sample_top_left(
            &self.luma,
            self.width,
            x,
            y,
            availability.top_left,
            Ghost(height),
        );
        Ok(Intra8x8References { top, left, top_left })
    }

    pub fn intra16x16_references(
        &self,
        macroblock_x: usize,
        macroblock_y: usize,
        availability: IntraReferenceAvailability,
    ) -> (result: Result<Intra16x16References>)
        requires
            self.well_formed(),
        ensures
            ({
                let x = macroblock_x * 16;
                let y = macroblock_y * 16;
                match either(
                    block_bounds_error(self@.width(), self@.height(), x, y, 16),
                    reference_error(self@.width(), x, y, 16, availability, false),
                ) {
                    Some(error) => result == Err::<Intra16x16References, H264Error>(error),
                    None => result matches Ok(references) && side(references.top) == top_reference(
                        self@.luma,
                        self@.width(),
                        x,
                        y,
                        16,
                        16,
                        availability.top,
                    ) && side(references.left) == left_reference(
                        self@.luma,
                        self@.width(),
                        x,
                        y,
                        16,
                        availability.left,
                    ) && references.top_left == corner_reference(
                        self@.luma,
                        self@.width(),
                        x,
                        y,
                        availability.top_left,
                    ),
                }
            }),
    {
        let x: usize = checked_product(macroblock_x, 16)?;
        let y: usize = checked_product(macroblock_y, 16)?;
        validate_block_bounds(self.width, self.height, x, y, 16)?;
        if let Some(error) = find_reference_error(self.width, x, y, 16, availability, false) {
            return Err(error);
        }
        let ghost height = self.height as int;
        let top = copy_top(&self.luma, self.width, x, y, 16, availability.top, Ghost(height));
        let left = copy_left(&self.luma, self.width, x, y, availability.left, Ghost(height));
        let top_left = sample_top_left(
            &self.luma,
            self.width,
            x,
            y,
            availability.top_left,
            Ghost(height),
        );
        Ok(Intra16x16References { top, left, top_left })
    }

    pub fn intra_chroma_references(
        &self,
        plane: ChromaPlane,
        macroblock_x: usize,
        macroblock_y: usize,
        availability: IntraReferenceAvailability,
    ) -> (result: Result<IntraChroma420References>)
        requires
            self.well_formed(),
        ensures
            ({
                let x = macroblock_x * 8;
                let y = macroblock_y * 8;
                let stride = self@.width() / 2;
                let samples = self@.chroma(plane);
                match either(
                    block_bounds_error(stride, self@.height() / 2, x, y, 8),
                    reference_error(stride, x, y, 8, availability, false),
                ) {
                    Some(error) => result == Err::<IntraChroma420References, H264Error>(error),
                    None => result matches Ok(references) && side(references.top) == top_reference(
                        samples,
                        stride,
                        x,
                        y,
                        8,
                        8,
                        availability.top,
                    ) && side(references.left) == left_reference(
                        samples,
                        stride,
                        x,
                        y,
                        8,
                        availability.left,
                    ) && references.top_left == corner_reference(
                        samples,
                        stride,
                        x,
                        y,
                        availability.top_left,
                    ),
                }
            }),
    {
        let x: usize = checked_product(macroblock_x, 8)?;
        let y: usize = checked_product(macroblock_y, 8)?;
        let stride: usize = self.width / 2;
        let rows: usize = self.height / 2;
        validate_block_bounds(stride, rows, x, y, 8)?;
        if let Some(error) = find_reference_error(stride, x, y, 8, availability, false) {
            return Err(error);
        }
        let ghost height = rows as int;
        let samples = match plane {
            ChromaPlane::Cb => &self.cb,
            ChromaPlane::Cr => &self.cr,
        };
        let top = copy_top(samples, stride, x, y, 8, availability.top, Ghost(height));
        let left = copy_left(samples, stride, x, y, availability.left, Ghost(height));
        let top_left = sample_top_left(
            samples,
            stride,
            x,
            y,
            availability.top_left,
            Ghost(height),
        );
        Ok(IntraChroma420References { top, left, top_left })
    }

    pub fn write_luma_4x4(
        &mut self,
        x: usize,
        y: usize,
        prediction: &Prediction4x4,
        residual: &Block4x4,
    ) -> (result: Result<()>)
        requires
            old(self).well_formed(),
        ensures
            final(self).well_formed(),
            match block_bounds_error(
                old(self)@.width(),
                old(self)@.height(),
                x as int,
                y as int,
                4,
            ) {
                Some(error) => result == Err::<(), H264Error>(error) && final(self)@ == old(self)@,
                None => result is Ok && final(self)@ == (PictureSamples {
                    luma: with_block(
                        old(self)@.luma,
                        old(self)@.width(),
                        x as int,
                        y as int,
                        4,
                        reconstructed(*prediction, *residual),
                    ),
                    ..old(self)@
                }),
            },
    {
        validate_block_bounds(self.width, self.height, x, y, 4)?;
        let ghost height = self.height as int;
        write_sum(&mut self.luma, self.width, x, y, prediction, residual, Ghost(height));
        Ok(())
    }

    pub fn write_luma_8x8(
        &mut self,
        x: usize,
        y: usize,
        prediction: &Prediction8x8,
        residual: &Block8x8,
    ) -> (result: Result<()>)
        requires
            old(self).well_formed(),
        ensures
            final(self).well_formed(),
            match block_bounds_error(
                old(self)@.width(),
                old(self)@.height(),
                x as int,
                y as int,
                8,
            ) {
                Some(error) => result == Err::<(), H264Error>(error) && final(self)@ == old(self)@,
                None => result is Ok && final(self)@ == (PictureSamples {
                    luma: with_block(
                        old(self)@.luma,
                        old(self)@.width(),
                        x as int,
                        y as int,
                        8,
                        reconstructed(*prediction, *residual),
                    ),
                    ..old(self)@
                }),
            },
    {
        validate_block_bounds(self.width, self.height, x, y, 8)?;
        let ghost height = self.height as int;
        write_sum(&mut self.luma, self.width, x, y, prediction, residual, Ghost(height));
        Ok(())
    }

    pub fn write_luma_16x16(
        &mut self,
        macroblock_x: usize,
        macroblock_y: usize,
        prediction: &Prediction16x16,
        residual: &[[i32; 16]; 16],
    ) -> (result: Result<()>)
        requires
            old(self).well_formed(),
        ensures
            final(self).well_formed(),
            match block_bounds_error(
                old(self)@.width(),
                old(self)@.height(),
                macroblock_x * 16,
                macroblock_y * 16,
                16,
            ) {
                Some(error) => result == Err::<(), H264Error>(error) && final(self)@ == old(self)@,
                None => result is Ok && final(self)@ == (PictureSamples {
                    luma: with_block(
                        old(self)@.luma,
                        old(self)@.width(),
                        macroblock_x * 16,
                        macroblock_y * 16,
                        16,
                        reconstructed(*prediction, *residual),
                    ),
                    ..old(self)@
                }),
            },
    {
        let x: usize = checked_product(macroblock_x, 16)?;
        let y: usize = checked_product(macroblock_y, 16)?;
        validate_block_bounds(self.width, self.height, x, y, 16)?;
        let ghost height = self.height as int;
        write_sum(&mut self.luma, self.width, x, y, prediction, residual, Ghost(height));
        Ok(())
    }

    pub fn write_chroma_8x8(
        &mut self,
        plane: ChromaPlane,
        macroblock_x: usize,
        macroblock_y: usize,
        prediction: &Prediction8x8,
        residual: &Block8x8,
    ) -> (result: Result<()>)
        requires
            old(self).well_formed(),
        ensures
            final(self).well_formed(),
            match block_bounds_error(
                old(self)@.width() / 2,
                old(self)@.height() / 2,
                macroblock_x * 8,
                macroblock_y * 8,
                8,
            ) {
                Some(error) => result == Err::<(), H264Error>(error) && final(self)@ == old(self)@,
                None => result is Ok && final(self)@ == old(self)@.with_chroma(
                    plane,
                    with_block(
                        old(self)@.chroma(plane),
                        old(self)@.width() / 2,
                        macroblock_x * 8,
                        macroblock_y * 8,
                        8,
                        reconstructed(*prediction, *residual),
                    ),
                ),
            },
    {
        let x: usize = checked_product(macroblock_x, 8)?;
        let y: usize = checked_product(macroblock_y, 8)?;
        let stride: usize = self.width / 2;
        let rows: usize = self.height / 2;
        validate_block_bounds(stride, rows, x, y, 8)?;
        let ghost height = rows as int;
        match plane {
            ChromaPlane::Cb => write_sum(
                &mut self.cb,
                stride,
                x,
                y,
                prediction,
                residual,
                Ghost(height),
            ),
            ChromaPlane::Cr => write_sum(
                &mut self.cr,
                stride,
                x,
                y,
                prediction,
                residual,
                Ghost(height),
            ),
        }
        Ok(())
    }

    pub fn write_pcm_macroblock(
        &mut self,
        macroblock_x: usize,
        macroblock_y: usize,
        pcm: &PcmMacroblock,
    ) -> (result: Result<()>)
        requires
            old(self).well_formed(),
        ensures
            final(self).well_formed(),
            match block_bounds_error(
                old(self)@.width(),
                old(self)@.height(),
                macroblock_x * 16,
                macroblock_y * 16,
                16,
            ) {
                Some(error) => result == Err::<(), H264Error>(error) && final(self)@ == old(self)@,
                None => result is Ok && final(self)@ == with_pcm(
                    old(self)@,
                    macroblock_x as int,
                    macroblock_y as int,
                    pcm.luma@,
                    pcm.chroma@,
                ),
            },
    {
        let luma_x: usize = checked_product(macroblock_x, 16)?;
        let luma_y: usize = checked_product(macroblock_y, 16)?;
        validate_block_bounds(self.width, self.height, luma_x, luma_y, 16)?;
        let ghost height = self.height as int;
        let luma: &[u8] = pcm.luma.as_slice();
        let chroma: &[u8] = pcm.chroma.as_slice();
        assert(luma@.skip(0) =~= luma@);
        write_rows::<16>(&mut self.luma, self.width, luma_x, luma_y, luma, 0, Ghost(height));
        let chroma_x: usize = macroblock_x * 8;
        let chroma_y: usize = macroblock_y * 8;
        let chroma_stride: usize = self.width / 2;
        let ghost half = (self.height / 2) as int;
        let first: &[u8] = vstd::slice::slice_subrange(chroma, 0, 64);
        assert(first@.skip(0) =~= chroma@.take(64));
        write_rows::<8>(&mut self.cb, chroma_stride, chroma_x, chroma_y, first, 0, Ghost(half));
        write_rows::<8>(&mut self.cr, chroma_stride, chroma_x, chroma_y, chroma, 64, Ghost(half));
        Ok(())
    }

    /// The samples of a macroblock, to be put back later.
    pub fn snapshot_macroblock(&self, macroblock_x: usize, macroblock_y: usize) -> (result: Result<
        MacroblockPixels,
    >)
        requires
            self.well_formed(),
        ensures
            match block_bounds_error(
                self@.width(),
                self@.height(),
                macroblock_x * 16,
                macroblock_y * 16,
                16,
            ) {
                Some(error) => result == Err::<MacroblockPixels, H264Error>(error),
                None => result matches Ok(pixels) && is_macroblock(
                    self@,
                    macroblock_x as int,
                    macroblock_y as int,
                    pixels,
                ),
            },
    {
        let luma_x: usize = checked_product(macroblock_x, 16)?;
        let luma_y: usize = checked_product(macroblock_y, 16)?;
        validate_block_bounds(self.width, self.height, luma_x, luma_y, 16)?;
        let chroma_x: usize = macroblock_x * 8;
        let chroma_y: usize = macroblock_y * 8;
        let ghost height = self.height as int;
        let ghost half = (self.height / 2) as int;
        Ok(
            MacroblockPixels {
                luma: get_block(&self.luma, self.width, luma_x, luma_y, Ghost(height)),
                cb: get_block(&self.cb, self.width / 2, chroma_x, chroma_y, Ghost(half)),
                cr: get_block(&self.cr, self.width / 2, chroma_x, chroma_y, Ghost(half)),
            },
        )
    }

    /// Puts the samples of a macroblock back.
    pub fn restore_macroblock(
        &mut self,
        macroblock_x: usize,
        macroblock_y: usize,
        snapshot: &MacroblockPixels,
    )
        requires
            old(self).well_formed(),
            macroblock_x * 16 + 16 <= old(self)@.width(),
            macroblock_y * 16 + 16 <= old(self)@.height(),
        ensures
            final(self).well_formed(),
            final(self)@ == with_macroblock(
                old(self)@,
                macroblock_x as int,
                macroblock_y as int,
                *snapshot,
            ),
    {
        let ghost height = self.height as int;
        let ghost half = (self.height / 2) as int;
        put_block(
            &mut self.luma,
            self.width,
            macroblock_x * 16,
            macroblock_y * 16,
            &snapshot.luma,
            Ghost(height),
        );
        let stride: usize = self.width / 2;
        put_block(
            &mut self.cb,
            stride,
            macroblock_x * 8,
            macroblock_y * 8,
            &snapshot.cb,
            Ghost(half),
        );
        put_block(
            &mut self.cr,
            stride,
            macroblock_x * 8,
            macroblock_y * 8,
            &snapshot.cr,
            Ghost(half),
        );
    }

    #[verifier::rlimit(60)]
    #[verifier::spinoff_prover]
    pub fn into_nv12_frame(
        self,
        id: u64,
        pts: Option<MediaTime>,
        duration: Option<MediaTime>,
        format: VideoFormat,
    ) -> (result: Result<DecodedVideoFrame>)
        requires
            self.well_formed(),
        ensures
            match nv12_error(self@, format) {
                Some(error) => result == Err::<DecodedVideoFrame, H264Error>(error),
                None => result matches Ok(frame) && is_nv12_frame(
                    frame,
                    self@,
                    id,
                    pts,
                    duration,
                    format,
                ),
            },
    {
        match format.pixel_format {
            PixelFormat::Nv12 => {},
            _ => return Err(H264Error::InvalidSyntax("YUV picture output format must be NV12")),
        }
        if format.coded_size != self.coded_size {
            return Err(
                H264Error::InvalidSyntax("output format coded size does not match the picture"),
            );
        }
        match format.validate() {
            Ok(()) => {},
            Err(MediaError::InvalidFormat(message)) => return Err(
                H264Error::InvalidSyntax(message),
            ),
            Err(MediaError::InvalidFrame(message)) => return Err(H264Error::InvalidSyntax(message)),
        }
        let luma_len: usize = self.luma.len();
        let chroma_len: usize = checked_product(self.cb.len(), 2)?;
        let allocation_len: usize = match luma_len.checked_add(chroma_len) {
            Some(length) => length,
            None => return Err(H264Error::IntegerOverflow),
        };
        let ghost luma = self.luma@;
        let ghost pairs = interleaved(self.cb@, self.cr@);
        let mut allocation: Vec<u8> = Vec::with_capacity(allocation_len);
        let mut index: usize = 0;
        while index < self.luma.len()
            invariant
                index <= self.luma.len(),
                luma == self.luma@,
                allocation@ == luma.take(index as int),
            decreases self.luma.len() - index,
        {
            allocation.push(self.luma[index]);
            index = index + 1;
            assert(allocation@ =~= luma.take(index as int));
        }
        assert(allocation@ =~= luma + pairs.take(0));
        let mut index: usize = 0;
        while index < self.cb.len()
            invariant
                index <= self.cb.len(),
                self.cb.len() == self.cr.len(),
                luma == self.luma@,
                pairs == interleaved(self.cb@, self.cr@),
                allocation@ == luma + pairs.take(2 * index),
            decreases self.cb.len() - index,
        {
            allocation.push(self.cb[index]);
            allocation.push(self.cr[index]);
            index = index + 1;
            assert(allocation@ =~= luma + pairs.take(2 * index));
        }
        assert(pairs.take(2 * index) =~= pairs);
        let ghost bytes = allocation@;
        let allocation: Arc<Vec<u8>> = Arc::new(allocation);
        proof {
            lemma_quarters(self.width as int, self.height as int);
        }
        let first = CpuPlane {
            bytes: share(&allocation),
            offset: 0,
            stride: self.width,
            rows: self.height,
        };
        let second = CpuPlane {
            bytes: allocation,
            offset: luma_len,
            stride: self.width,
            rows: self.height / 2,
        };
        let mut planes: Vec<CpuPlane> = Vec::with_capacity(2);
        planes.push(first);
        planes.push(second);
        assert(planes@[0].holds(self.width as int, self.height as int));
        assert(planes@[1].holds(self.width as int, self.height as int / 2));
        Ok(
            DecodedVideoFrame {
                id,
                pts,
                duration,
                format,
                storage: FrameStorage::Cpu(CpuFrame { planes }),
            },
        )
    }

    /// The planes, to be changed in place.
    pub fn planes_mut(&mut self) -> (planes: (&mut [u8], &mut [u8], &mut [u8]))
        requires
            old(self).well_formed(),
        ensures
            planes.0@ == old(self)@.luma,
            planes.1@ == old(self)@.cb,
            planes.2@ == old(self)@.cr,
            final(self)@ == (PictureSamples {
                size: old(self)@.size,
                luma: final(planes.0)@,
                cb: final(planes.1)@,
                cr: final(planes.2)@,
            }),
            final(planes.0)@.len() == planes.0@.len() && final(planes.1)@.len() == planes.1@.len()
                && final(planes.2)@.len() == planes.2@.len() ==> final(self).well_formed(),
    {
        (self.luma.as_mut_slice(), self.cb.as_mut_slice(), self.cr.as_mut_slice())
    }
}

/// Putting back the samples of a macroblock undoes every change of it.
pub proof fn law_restoring_a_macroblock(
    picture: PictureSamples,
    changed: PictureSamples,
    macroblock_x: int,
    macroblock_y: int,
    pixels: MacroblockPixels,
    other: MacroblockPixels,
)
    requires
        picture.width() % 16 == 0,
        picture.height() % 16 == 0,
        picture.luma.len() == picture.width() * picture.height(),
        picture.cb.len() == (picture.width() / 2) * (picture.height() / 2),
        picture.cr.len() == (picture.width() / 2) * (picture.height() / 2),
        0 <= macroblock_x,
        0 <= macroblock_y,
        macroblock_x * 16 + 16 <= picture.width(),
        macroblock_y * 16 + 16 <= picture.height(),
        is_macroblock(picture, macroblock_x, macroblock_y, pixels),
        changed == with_macroblock(picture, macroblock_x, macroblock_y, other),
    ensures
        with_macroblock(changed, macroblock_x, macroblock_y, pixels) == picture,
{
    let stride = picture.width() / 2;
    let half = picture.height() / 2;
    let x = macroblock_x * 8;
    let y = macroblock_y * 8;
    lemma_restored_plane(
        picture.luma,
        changed.luma,
        picture.width(),
        picture.height(),
        2 * x,
        2 * y,
        16,
        entries(other.luma),
        entries(pixels.luma),
    );
    lemma_restored_plane(
        picture.cb,
        changed.cb,
        stride,
        half,
        x,
        y,
        8,
        entries(other.cb),
        entries(pixels.cb),
    );
    lemma_restored_plane(
        picture.cr,
        changed.cr,
        stride,
        half,
        x,
        y,
        8,
        entries(other.cr),
        entries(pixels.cr),
    );
}

/// Putting back a block undoes every change of it.
proof fn lemma_restored_plane(
    plane: Seq<u8>,
    changed: Seq<u8>,
    stride: int,
    height: int,
    x: int,
    y: int,
    size: int,
    other: spec_fn(int, int) -> u8,
    block: spec_fn(int, int) -> u8,
)
    requires
        plane.len() == stride * height,
        inside(stride, height, x, y, size),
        0 < size,
        changed == with_block(plane, stride, x, y, size, other),
        forall|row: int, column: int|
            #![trigger block(row, column)]
            0 <= row < size && 0 <= column < size ==> block(row, column) == block_at(
                plane,
                stride,
                x,
                y,
            )(row, column),
    ensures
        with_block(changed, stride, x, y, size, block) == plane,
{
    super::raster::law_restoring_a_block(plane, changed, stride, height, x, y, size);
    lemma_with_block(changed, stride, x, y, size, block, block_at(plane, stride, x, y));
}

} // verus!
