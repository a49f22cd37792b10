use std::sync::Arc;

use decv::h264::error::H264Error;
use decv::h264::macroblock::PcmMacroblock;
use decv::h264::picture_surface::{ChromaPlane, IntraReferenceAvailability, Yuv420Picture};
use decv::media::{ColorInfo, FrameStorage, MediaTime, PixelFormat, Rect, Size, VideoFormat};

const ALL_REFERENCES: IntraReferenceAvailability = IntraReferenceAvailability {
    top: true,
    left: true,
    top_left: true,
    top_right: true,
};

#[test]
fn validates_macroblock_aligned_picture_dimensions() {
    assert!(Yuv420Picture::new(Size::new(16, 16)).is_ok());
    assert_eq!(
        Yuv420Picture::new(Size::new(17, 16)),
        Err(H264Error::InvalidSyntax(
            "4:2:0 H.264 coded dimensions must be macroblock aligned"
        ))
    );
    assert!(Yuv420Picture::new(Size::new(0, 16)).is_err());
}

#[test]
fn gathers_macroblock_luma_and_chroma_references() {
    let mut picture = Yuv420Picture::new(Size::new(32, 32)).unwrap();
    for column in 0..16 {
        picture.planes_mut().0[15 * 32 + 16 + column] = 10 + column as u8;
    }
    for row in 0..16 {
        picture.planes_mut().0[(16 + row) * 32 + 15] = 40 + row as u8;
    }
    picture.planes_mut().0[15 * 32 + 15] = 99;

    let references = picture.intra16x16_references(1, 1, ALL_REFERENCES).unwrap();
    assert_eq!(
        references.top,
        Some(std::array::from_fn(|index| 10 + index as u8))
    );
    assert_eq!(
        references.left,
        Some(std::array::from_fn(|index| 40 + index as u8))
    );
    assert_eq!(references.top_left, Some(99));

    for column in 0..8 {
        picture.planes_mut().1[7 * 16 + 8 + column] = 60 + column as u8;
    }
    for row in 0..8 {
        picture.planes_mut().1[(8 + row) * 16 + 7] = 80 + row as u8;
    }
    picture.planes_mut().1[7 * 16 + 7] = 70;
    let chroma = picture
        .intra_chroma_references(ChromaPlane::Cb, 1, 1, ALL_REFERENCES)
        .unwrap();
    assert_eq!(chroma.top, Some([60, 61, 62, 63, 64, 65, 66, 67]));
    assert_eq!(chroma.left, Some([80, 81, 82, 83, 84, 85, 86, 87]));
    assert_eq!(chroma.top_left, Some(70));
}

#[test]
fn substitutes_unavailable_top_right_samples() {
    let mut picture = Yuv420Picture::new(Size::new(32, 32)).unwrap();
    for column in 0..16 {
        picture.planes_mut().0[7 * 32 + 8 + column] = 20 + column as u8;
    }
    let availability = IntraReferenceAvailability {
        top: true,
        top_right: false,
        ..IntraReferenceAvailability::default()
    };
    let four = picture.intra4x4_references(8, 8, availability).unwrap();
    assert_eq!(four.top, Some([20, 21, 22, 23, 23, 23, 23, 23]));
    let eight = picture.intra8x8_references(8, 8, availability).unwrap();
    assert_eq!(
        eight.top,
        Some([
            20, 21, 22, 23, 24, 25, 26, 27, 27, 27, 27, 27, 27, 27, 27, 27
        ])
    );
    assert!(
        picture
            .intra8x8_references(
                24,
                8,
                IntraReferenceAvailability {
                    top: true,
                    top_right: true,
                    ..IntraReferenceAvailability::default()
                }
            )
            .is_err()
    );

    assert!(
        picture
            .intra4x4_references(
                0,
                0,
                IntraReferenceAvailability {
                    top: true,
                    ..IntraReferenceAvailability::default()
                }
            )
            .is_err()
    );
}

#[test]
fn adds_residuals_with_eight_bit_saturation() {
    let mut picture = Yuv420Picture::new(Size::new(16, 16)).unwrap();
    let mut residual = [[0; 4]; 4];
    residual[0][0] = -10;
    residual[0][1] = 300;
    picture
        .write_luma_4x4(0, 0, &[[5; 4]; 4], &residual)
        .unwrap();
    assert_eq!(&picture.planes_mut().0[..4], &[0, 255, 5, 5]);

    let mut chroma_residual = [[0; 8]; 8];
    chroma_residual[7][7] = -200;
    picture
        .write_chroma_8x8(ChromaPlane::Cr, 0, 0, &[[100; 8]; 8], &chroma_residual)
        .unwrap();
    assert_eq!(picture.planes_mut().2[0], 100);
    assert_eq!(picture.planes_mut().2[63], 0);
}

#[test]
fn writes_pcm_and_packages_shared_nv12_storage() {
    let mut picture = Yuv420Picture::new(Size::new(16, 16)).unwrap();
    let pcm = PcmMacroblock {
        luma: Box::new(std::array::from_fn(|index| index as u8)),
        chroma: Box::new(std::array::from_fn(
            |index| {
                if index < 64 { 10 } else { 20 }
            },
        )),
    };
    picture.write_pcm_macroblock(0, 0, &pcm).unwrap();
    let format = VideoFormat {
        coded_size: Size::new(16, 16),
        visible_rect: Rect::new(0, 0, 16, 16),
        display_size: Size::new(16, 16),
        pixel_format: PixelFormat::Nv12,
        color: ColorInfo::default(),
    };
    let frame = picture
        .into_nv12_frame(
            7,
            MediaTime::from_parts(1, 30),
            MediaTime::from_parts(1, 30),
            format,
        )
        .unwrap();
    assert_eq!(frame.id, 7);
    assert_eq!(frame.validate(), Ok(()));

    let cpu = match &frame.storage {
        FrameStorage::Cpu(cpu) => cpu,
        _ => panic!("expected CPU frame"),
    };
    assert_eq!(cpu.planes.len(), 2);
    assert_eq!(cpu.planes[0].bytes.len(), 384);
    assert!(Arc::ptr_eq(&cpu.planes[0].bytes, &cpu.planes[1].bytes));
    assert_eq!(&cpu.planes[0].bytes[..4], &[0, 1, 2, 3]);
    assert_eq!(cpu.planes[1].offset, 256);
    assert_eq!(
        &cpu.planes[1].bytes[256..264],
        &[10, 20, 10, 20, 10, 20, 10, 20]
    );
}
