use decv::h264::bits::BitReader;
use decv::h264::error::H264Error;
use decv::h264::macroblock::{
    parse_cavlc_b_macroblock, parse_cavlc_intra_macroblock, parse_cavlc_p_macroblock,
    BMacroblockContext, BSliceMacroblock, BSubMacroblockType, CodedBlockPattern,
    MotionVectorDifference, PInterMacroblockHeader, PMacroblockContext, PPartitionMode,
    PPartitionMotion, PSliceMacroblock, PSubMacroblockType,
};
use decv::h264::motion::{
    MotionVector, PMotionState, ResolvedPMacroblock, ResolvedPPartition,
};
use decv::h264::motion_field::{MotionFieldBuilder, ReferenceId, ReferenceMotionField};
use decv::h264::nal::{NalHeader, NalUnitType};
use decv::h264::parameter_sets::ParameterSetStore;
use decv::h264::picture::{PictureOrderCount, PictureOrderCountState};
use decv::h264::picture_surface::{ChromaPlane, Yuv420Picture};
use decv::h264::prediction::{
    predict_intra_16x16, predict_intra_4x4, predict_intra_8x8, predict_intra_chroma_420,
    Intra16x16References, Intra4x4References, Intra8x8References, IntraChroma420References,
};
use decv::h264::quantization::MacroblockQuantizerState;
use decv::h264::reorder::PictureReorderBuffer;
use decv::h264::slice::ParsedSliceHeader;
use decv::h264::transform::{
    inverse_scan_4x4, inverse_scan_8x8, inverse_transform_4x4, inverse_transform_8x8, ScanMode,
};
use decv::media::Size;

#[derive(Default)]
struct BitWriter {
    bits: Vec<bool>,
}

impl BitWriter {
    fn flag(&mut self, value: bool) -> &mut Self {
        self.bits.push(value);
        self
    }

    fn bits(&mut self, value: u64, count: u32) -> &mut Self {
        for shift in (0..count).rev() {
            self.bits.push(value >> shift & 1 == 1);
        }
        self
    }

    fn ue(&mut self, value: u32) -> &mut Self {
        let code = u64::from(value) + 1;
        let width = 64 - code.leading_zeros();
        self.bits(0, width - 1).bits(code, width)
    }

    fn bytes(&self) -> Vec<u8> {
        self.bits
            .chunks(8)
            .map(|chunk| {
                (0..8).fold(0, |byte, index| {
                    byte << 1 | u8::from(chunk.get(index).copied().unwrap_or(false))
                })
            })
            .collect()
    }

    fn rbsp(&mut self) -> Vec<u8> {
        self.flag(true).bytes()
    }
}

/// A baseline sequence of 4x3 macroblocks with frame numbers of four bits and
/// order counts of a type.
fn store_of_type(order_count_type: u32) -> ParameterSetStore {
    let mut sequence = BitWriter::default();
    sequence.bits(66, 8).bits(0, 8).bits(30, 8);
    sequence.ue(0).ue(0).ue(order_count_type);
    if order_count_type == 0 {
        sequence.ue(0);
    }
    sequence.ue(1).flag(false);
    sequence.ue(3).ue(2).flag(true).flag(true).flag(false).flag(false);
    let mut picture = BitWriter::default();
    picture.ue(0).ue(0).flag(false).flag(false).ue(0).ue(0).ue(0);
    picture.flag(false).bits(0, 2).ue(0).ue(0).ue(0);
    picture.flag(true).flag(false).flag(false);
    let mut store = ParameterSetStore::new();
    store.parse_sps(&sequence.rbsp()).unwrap();
    store.parse_pps(&picture.rbsp()).unwrap();
    store
}

/// Order counts that repeat after 16.
fn store() -> ParameterSetStore {
    store_of_type(0)
}

fn order_count(
    state: &mut PictureOrderCountState,
    store: &ParameterSetStore,
    idr: bool,
    frame_num: u64,
    lsb: u64,
    forget_all: bool,
) -> PictureOrderCount {
    let mut slice = BitWriter::default();
    slice.ue(0).ue(7).ue(0).bits(frame_num, 4);
    if idr {
        slice.ue(0);
    }
    slice.bits(lsb, 4);
    if idr {
        slice.flag(false).flag(false);
    } else if forget_all {
        slice.flag(true).ue(5).ue(0);
    } else {
        slice.flag(false);
    }
    slice.ue(0).ue(1);
    let header = NalHeader::parse(if idr { 0x65 } else { 0x61 }).unwrap();
    let parsed = ParsedSliceHeader::parse(&slice.rbsp(), header, store).unwrap();
    state.derive(&parsed, header).unwrap()
}

#[test]
fn order_counts_follow_their_reference() {
    let store = store();
    let mut state = PictureOrderCountState::new();
    let mut counts = Vec::new();
    for (frame_num, lsb) in [0, 4, 8, 12, 0, 14, 6].into_iter().enumerate() {
        let idr = frame_num == 0;
        let count = order_count(&mut state, &store, idr, frame_num as u64, lsb, false);
        counts.push(count.decoding.picture_order_count());
    }
    assert_eq!(counts, [0, 4, 8, 12, 16, 14, 22]);
}

fn frame_order_count(
    state: &mut PictureOrderCountState,
    store: &ParameterSetStore,
    frame_num: u64,
    reference: bool,
) -> PictureOrderCount {
    let mut slice = BitWriter::default();
    slice.ue(0).ue(7).ue(0).bits(frame_num, 4);
    if reference {
        slice.flag(false);
    }
    slice.ue(0).ue(1);
    let header = NalHeader::parse(if reference { 0x21 } else { 0x01 }).unwrap();
    let parsed = ParsedSliceHeader::parse(&slice.rbsp(), header, store).unwrap();
    state.derive(&parsed, header).unwrap()
}

#[test]
fn frame_number_wraps_are_kept() {
    let store = store_of_type(2);
    let mut state = PictureOrderCountState::new();
    let mut counts = Vec::new();
    for frame_num in [15, 0, 1, 14, 15, 0, 1] {
        let count = frame_order_count(&mut state, &store, frame_num, true);
        assert_eq!(count.decoding.top, count.decoding.bottom);
        counts.push(count.decoding.picture_order_count());
    }
    assert_eq!(counts, [30, 32, 34, 60, 62, 64, 66]);
    let between = frame_order_count(&mut state, &store, 2, false);
    assert_eq!(between.decoding.picture_order_count(), 67);
    let next = frame_order_count(&mut state, &store, 2, true);
    assert_eq!(next.decoding.picture_order_count(), 68);
    state.reset();
    let first = frame_order_count(&mut state, &store, 1, true);
    assert_eq!(first.decoding.picture_order_count(), 2);
}

#[test]
fn forgetting_every_reference_starts_at_zero() {
    let store = store();
    let mut state = PictureOrderCountState::new();
    order_count(&mut state, &store, true, 0, 0, false);
    let count = order_count(&mut state, &store, false, 1, 6, true);
    assert_eq!(count.decoding.picture_order_count(), 6);
    assert_eq!(count.stored.picture_order_count(), 0);
    let next = order_count(&mut state, &store, false, 1, 4, false);
    assert_eq!(next.decoding.picture_order_count(), 4);
}

#[test]
fn unit_types_keep_their_values() {
    for value in 0..32 {
        assert_eq!(NalUnitType::from_value(value).value(), value);
    }
    assert_ne!(NalUnitType::from_value(30), NalUnitType::from_value(31));
}

#[test]
fn each_quantizer_is_reached_by_one_delta() {
    let state = MacroblockQuantizerState::new(30, 0, 0, false).unwrap();
    let mut reached: Vec<u8> = (-26..=25)
        .map(|delta| state.derive(delta).unwrap().luma)
        .collect();
    reached.sort_unstable();
    assert_eq!(reached, (0..52).collect::<Vec<u8>>());
    assert!(state.derive(26).is_err());
    assert!(state.derive(-27).is_err());
}

#[test]
fn delayed_pictures_leave_in_order() {
    let mut buffer = PictureReorderBuffer::new(4);
    for (count, name) in [(8, 'a'), (2, 'b'), (6, 'c'), (2, 'd')] {
        assert_eq!(buffer.push(count, name), Ok(None));
    }
    assert_eq!(buffer.push(4, 'e'), Ok(Some('b')));
    assert_eq!(buffer.drain(), ['d', 'e', 'c', 'a']);
}

#[test]
fn scans_place_each_coefficient_once() {
    let small: [i32; 16] = std::array::from_fn(|index| index as i32);
    let large: [i32; 64] = std::array::from_fn(|index| index as i32);
    for mode in [ScanMode::Frame, ScanMode::Field] {
        let mut placed: Vec<i32> = inverse_scan_4x4(&small, mode).concat();
        placed.sort_unstable();
        assert_eq!(placed, small);
        let mut placed: Vec<i32> = inverse_scan_8x8(&large, mode).concat();
        placed.sort_unstable();
        assert_eq!(placed, large);
    }
    let frame = inverse_scan_4x4(&small, ScanMode::Frame);
    assert_eq!(frame[0], [0, 1, 5, 6]);
    let field = inverse_scan_4x4(&small, ScanMode::Field);
    assert_eq!(field[0], [0, 2, 8, 12]);
}

#[test]
fn a_constant_coefficient_alone_is_flat() {
    for (value, expected) in [(0, 0), (64, 1), (640, 10), (-640, -10), (31, 0), (32, 1)] {
        let mut small = [[0; 4]; 4];
        small[0][0] = value;
        assert_eq!(inverse_transform_4x4(&small), Ok([[expected; 4]; 4]));
        let mut large = [[0; 8]; 8];
        large[0][0] = value;
        assert_eq!(inverse_transform_8x8(&large), Ok([[expected; 8]; 8]));
    }
}

#[test]
fn flat_borders_predict_flat_blocks() {
    let four = Intra4x4References {
        top: Some([77; 8]),
        left: Some([77; 4]),
        top_left: Some(77),
    };
    let eight = Intra8x8References {
        top: Some([77; 16]),
        left: Some([77; 8]),
        top_left: Some(77),
    };
    for mode in 0..9 {
        assert_eq!(predict_intra_4x4(mode, &four), Ok([[77; 4]; 4]));
        assert_eq!(predict_intra_8x8(mode, &eight), Ok([[77; 8]; 8]));
    }
    let sixteen = Intra16x16References {
        top: Some([77; 16]),
        left: Some([77; 16]),
        top_left: Some(77),
    };
    let chroma = IntraChroma420References {
        top: Some([77; 8]),
        left: Some([77; 8]),
        top_left: Some(77),
    };
    for mode in 0..4 {
        assert_eq!(predict_intra_16x16(mode, &sixteen), Ok([[77; 16]; 16]));
        assert_eq!(predict_intra_chroma_420(mode, &chroma), Ok([[77; 8]; 8]));
    }
    assert!(predict_intra_4x4(9, &four).is_err());
}

#[test]
fn sub_macroblock_partitions_cover_their_region() {
    for kind in [
        PSubMacroblockType::L0_8x8,
        PSubMacroblockType::L0_8x4,
        PSubMacroblockType::L0_4x8,
        PSubMacroblockType::L0_4x4,
    ] {
        let (width, height) = kind.partition_size();
        assert_eq!(kind.partition_count() * usize::from(width) * usize::from(height), 64);
    }
    let direct = BSubMacroblockType::Direct8x8;
    let (width, height) = direct.partition_size();
    assert_eq!(direct.partition_count() * usize::from(width) * usize::from(height), 64);
}

#[test]
fn slices_share_their_intra_types() {
    let parse = |first: u32| {
        let mut writer = BitWriter::default();
        writer.ue(first).ue(1).ue(0);
        writer.bytes()
    };
    let plain = parse(3);
    let wanted = parse_cavlc_intra_macroblock(&mut BitReader::new(&plain), false).unwrap();
    let p = parse(8);
    assert_eq!(
        parse_cavlc_p_macroblock(
            &mut BitReader::new(&p),
            PMacroblockContext {
                num_ref_idx_l0_active: 1,
                transform_8x8_mode_enabled: false,
            },
        ),
        Ok(PSliceMacroblock::Intra(wanted.clone()))
    );
    let b = parse(26);
    assert_eq!(
        parse_cavlc_b_macroblock(
            &mut BitReader::new(&b),
            BMacroblockContext {
                num_ref_idx_l0_active: 1,
                num_ref_idx_l1_active: 1,
                transform_8x8_mode_enabled: false,
                direct_8x8_inference: true,
            },
        ),
        Ok(BSliceMacroblock::Intra(wanted))
    );
    let beyond = parse(49);
    assert!(matches!(
        parse_cavlc_b_macroblock(
            &mut BitReader::new(&beyond),
            BMacroblockContext {
                num_ref_idx_l0_active: 1,
                num_ref_idx_l1_active: 1,
                transform_8x8_mode_enabled: false,
                direct_8x8_inference: true,
            },
        ),
        Err(H264Error::InvalidSyntax(_))
    ));
}

fn inter_header() -> PInterMacroblockHeader {
    let motion = |count: usize| PPartitionMotion {
        reference_index: 0,
        differences: vec![MotionVectorDifference { x: 1, y: 0 }; count],
    };
    PInterMacroblockHeader {
        partition_mode: PPartitionMode::L0_8x8 {
            sub_macroblocks: [
                PSubMacroblockType::L0_8x8,
                PSubMacroblockType::L0_8x4,
                PSubMacroblockType::L0_4x8,
                PSubMacroblockType::L0_4x4,
            ],
            reference_index_forced_zero: false,
        },
        partitions: vec![motion(1), motion(2), motion(2), motion(4)],
        coded_block_pattern: CodedBlockPattern { luma: 0, chroma: 0 },
        transform_size_8x8: false,
        qp_delta: 0,
    }
}

#[test]
fn partitions_tile_their_macroblock() {
    let mut state = PMotionState::new(1, 1).unwrap();
    let resolved = state.resolve_inter_macroblock(0, 1, &inter_header()).unwrap();
    let mut covered = [[0; 16]; 16];
    for partition in &resolved.partitions {
        for y in partition.y..partition.y + partition.height {
            for x in partition.x..partition.x + partition.width {
                covered[usize::from(y)][usize::from(x)] += 1;
            }
        }
    }
    assert_eq!(covered, [[1; 16]; 16]);
}

#[test]
fn clearing_a_macroblock_makes_room_for_it() {
    let mut state = PMotionState::new(2, 1).unwrap();
    state.resolve_inter_macroblock(0, 1, &inter_header()).unwrap();
    assert_eq!(
        state.record_intra_macroblock(0, 1),
        Err(H264Error::InvalidSyntax(
            "motion-state macroblock was already recorded"
        ))
    );
    state.clear_macroblock(0).unwrap();
    assert_eq!(state.record_intra_macroblock(0, 1), Ok(()));
    assert!(state.clear_macroblock(2).is_err());
    assert!(PMotionState::new(0, 1).is_err());
}

#[test]
fn recording_a_macroblock_leaves_the_others() {
    let mut builder = MotionFieldBuilder::new(Size::new(32, 16)).unwrap();
    builder.record_intra(0).unwrap();
    let moved = ResolvedPMacroblock {
        skipped: false,
        partitions: vec![ResolvedPPartition {
            x: 0,
            y: 0,
            width: 16,
            height: 16,
            reference_index: 0,
            motion_vector: MotionVector { x: 1, y: 2 },
        }],
    };
    builder
        .record_p(1, &moved, Some(&[Some(ReferenceId::new(5))]))
        .unwrap();
    let field = builder.finish().unwrap();
    assert_eq!((field.width_in_4x4_blocks(), field.height_in_4x4_blocks()), (8, 4));
    for y in 0..4 {
        for x in 0..8 {
            assert_eq!(field.cell(x, y).unwrap().intra, x < 4);
        }
    }
    assert_eq!(field.cell(8, 0), None);
}

#[test]
fn restoring_a_macroblock_undoes_what_was_written() {
    let mut picture = Yuv420Picture::new(Size::new(32, 16)).unwrap();
    picture
        .write_luma_16x16(1, 0, &[[9; 16]; 16], &[[0; 16]; 16])
        .unwrap();
    let before = picture.clone();
    let snapshot = picture.snapshot_macroblock(1, 0).unwrap();
    picture
        .write_luma_8x8(24, 8, &[[200; 8]; 8], &[[100; 8]; 8])
        .unwrap();
    picture
        .write_chroma_8x8(ChromaPlane::Cb, 1, 0, &[[7; 8]; 8], &[[-3; 8]; 8])
        .unwrap();
    assert_ne!(picture, before);
    assert_eq!(picture.planes_mut().0[8 * 32 + 24], 255);
    assert_eq!(picture.planes_mut().1[8], 4);
    picture.restore_macroblock(1, 0, &snapshot);
    assert_eq!(picture, before);
    assert!(picture.snapshot_macroblock(2, 0).is_err());
}

#[test]
fn intra_fields_have_no_motion() {
    let field = ReferenceMotionField::all_intra(Size::new(32, 16)).unwrap();
    assert!((0..8).all(|x| (0..4).all(|y| field.cell(x, y).unwrap().intra)));
    assert!(ReferenceMotionField::all_intra(Size::new(17, 16)).is_err());
}
