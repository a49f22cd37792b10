use decv::h264::bits::BitReader;
use decv::h264::error::H264Error;
use decv::h264::macroblock::{
    parse_cavlc_b_macroblock, parse_cavlc_intra_macroblock, parse_cavlc_mb_skip_run,
    parse_cavlc_p_macroblock, BMacroblockContext, BPartitionMode, BPredictionMode,
    BSliceMacroblock, BSubMacroblockType, CodedBlockPattern, IntraLumaPrediction,
    IntraMacroblock, IntraMacroblockHeader, IntraPredictionModeSyntax, MotionVectorDifference,
    PInterMacroblockHeader, PMacroblockContext, PPartitionMode, PPartitionMotion,
    PSliceMacroblock, PSubMacroblockType,
};

#[test]
fn parses_intra_4x4_without_residual() {
    let mut writer = BitWriter::default();
    writer.write_ue(0);
    for _ in 0..16 {
        writer.write_flag(true);
    }
    writer.write_ue(0);
    writer.write_ue(3); // maps to coded_block_pattern = 0

    let data = writer.finish();
    let mut reader = BitReader::new(&data);
    let parsed = parse_cavlc_intra_macroblock(&mut reader, false).unwrap();
    assert_eq!(
        parsed,
        IntraMacroblock::Predicted(IntraMacroblockHeader {
            luma_prediction: IntraLumaPrediction::FourByFour(
                [IntraPredictionModeSyntax {
                    use_predicted: true,
                    remaining_mode: None,
                }; 16]
            ),
            chroma_prediction_mode: 0,
            coded_block_pattern: CodedBlockPattern { luma: 0, chroma: 0 },
            qp_delta: 0,
        })
    );
    assert_eq!(reader.bit_position(), writer.bit_len);
}

#[test]
fn parses_intra_8x8_modes_coded_pattern_and_qp() {
    let mut writer = BitWriter::default();
    writer.write_ue(0);
    writer.write_flag(true);
    for remaining_mode in 0..4 {
        writer.write_flag(false);
        writer.write_bits(remaining_mode, 3);
    }
    writer.write_ue(2);
    writer.write_ue(0); // maps to 47: all luma plus chroma DC + AC
    writer.write_se(1);

    let data = writer.finish();
    let mut reader = BitReader::new(&data);
    let parsed = parse_cavlc_intra_macroblock(&mut reader, true).unwrap();
    let IntraMacroblock::Predicted(header) = parsed else {
        panic!("expected predicted macroblock");
    };
    assert_eq!(
        header.luma_prediction,
        IntraLumaPrediction::EightByEight([
            IntraPredictionModeSyntax {
                use_predicted: false,
                remaining_mode: Some(0),
            },
            IntraPredictionModeSyntax {
                use_predicted: false,
                remaining_mode: Some(1),
            },
            IntraPredictionModeSyntax {
                use_predicted: false,
                remaining_mode: Some(2),
            },
            IntraPredictionModeSyntax {
                use_predicted: false,
                remaining_mode: Some(3),
            },
        ])
    );
    assert_eq!(header.chroma_prediction_mode, 2);
    assert_eq!(
        header.coded_block_pattern,
        CodedBlockPattern {
            luma: 15,
            chroma: 2,
        }
    );
    assert_eq!(header.qp_delta, 1);
    assert_eq!(reader.bit_position(), writer.bit_len);
}

#[test]
fn derives_intra_16x16_fields_from_mb_type() {
    let mut writer = BitWriter::default();
    writer.write_ue(23);
    writer.write_ue(3);
    writer.write_se(-2);

    let data = writer.finish();
    let mut reader = BitReader::new(&data);
    assert_eq!(
        parse_cavlc_intra_macroblock(&mut reader, true),
        Ok(IntraMacroblock::Predicted(IntraMacroblockHeader {
            luma_prediction: IntraLumaPrediction::SixteenBySixteen { mode: 2 },
            chroma_prediction_mode: 3,
            coded_block_pattern: CodedBlockPattern {
                luma: 15,
                chroma: 2,
            },
            qp_delta: -2,
        }))
    );
    assert_eq!(reader.bit_position(), writer.bit_len);
}

#[test]
fn parses_aligned_pcm_samples() {
    let mut writer = BitWriter::default();
    writer.write_ue(25);
    writer.byte_align_zero();
    for value in 0..384 {
        writer.write_bits((value & 0xff) as u32, 8);
    }

    let data = writer.finish();
    let mut reader = BitReader::new(&data);
    let IntraMacroblock::Pcm(pcm) = parse_cavlc_intra_macroblock(&mut reader, false).unwrap()
    else {
        panic!("expected PCM macroblock");
    };
    assert_eq!(pcm.luma[0], 0);
    assert_eq!(pcm.luma[255], 255);
    assert_eq!(pcm.chroma[0], 0);
    assert_eq!(pcm.chroma[127], 127);
    assert_eq!(reader.bit_position(), writer.bit_len);
}

#[test]
fn parses_p_16x16_with_inferred_reference_index() {
    let mut writer = BitWriter::default();
    writer.write_ue(0);
    writer.write_se(2);
    writer.write_se(-1);
    writer.write_ue(0); // inter coded_block_pattern = 0

    let data = writer.finish();
    let mut reader = BitReader::new(&data);
    assert_eq!(
        parse_cavlc_p_macroblock(
            &mut reader,
            PMacroblockContext {
                num_ref_idx_l0_active: 1,
                transform_8x8_mode_enabled: false,
            },
        ),
        Ok(PSliceMacroblock::Inter(PInterMacroblockHeader {
            partition_mode: PPartitionMode::L0_16x16,
            partitions: vec![PPartitionMotion {
                reference_index: 0,
                differences: vec![MotionVectorDifference { x: 2, y: -1 }],
            }],
            coded_block_pattern: CodedBlockPattern { luma: 0, chroma: 0 },
            transform_size_8x8: false,
            qp_delta: 0,
        }))
    );
    assert_eq!(reader.bit_position(), writer.bit_len);
}

#[test]
fn parses_p_16x8_reference_indices_transform_and_qp() {
    let mut writer = BitWriter::default();
    writer.write_ue(1);
    writer.write_flag(true); // te(v) value 0
    writer.write_flag(false); // te(v) value 1
    for (x, y) in [(1, 2), (-3, 4)] {
        writer.write_se(x);
        writer.write_se(y);
    }
    writer.write_ue(2); // inter coded_block_pattern = 1
    writer.write_flag(true);
    writer.write_se(-2);

    let data = writer.finish();
    let mut reader = BitReader::new(&data);
    let parsed = parse_cavlc_p_macroblock(
        &mut reader,
        PMacroblockContext {
            num_ref_idx_l0_active: 2,
            transform_8x8_mode_enabled: true,
        },
    )
    .unwrap();
    let PSliceMacroblock::Inter(header) = parsed else {
        panic!("expected inter macroblock");
    };
    assert_eq!(header.partition_mode, PPartitionMode::L0_16x8);
    assert_eq!(
        header
            .partitions
            .iter()
            .map(|partition| partition.reference_index)
            .collect::<Vec<_>>(),
        [0, 1]
    );
    assert_eq!(
        header
            .partitions
            .iter()
            .map(|partition| partition.differences[0])
            .collect::<Vec<_>>(),
        [
            MotionVectorDifference { x: 1, y: 2 },
            MotionVectorDifference { x: -3, y: 4 },
        ]
    );
    assert_eq!(
        header.coded_block_pattern,
        CodedBlockPattern { luma: 1, chroma: 0 }
    );
    assert!(header.transform_size_8x8);
    assert_eq!(header.qp_delta, -2);
    assert_eq!(reader.bit_position(), writer.bit_len);
}

#[test]
fn parses_every_p_sub_macroblock_shape_in_syntax_order() {
    let mut writer = BitWriter::default();
    writer.write_ue(3);
    for sub_type in 0..4 {
        writer.write_ue(sub_type);
    }
    for index in 0..9 {
        writer.write_se(index);
        writer.write_se(-index);
    }
    writer.write_ue(0);

    let data = writer.finish();
    let mut reader = BitReader::new(&data);
    let PSliceMacroblock::Inter(header) = parse_cavlc_p_macroblock(
        &mut reader,
        PMacroblockContext {
            num_ref_idx_l0_active: 1,
            transform_8x8_mode_enabled: true,
        },
    )
    .unwrap() else {
        panic!("expected inter macroblock");
    };
    assert_eq!(
        header.partition_mode,
        PPartitionMode::L0_8x8 {
            sub_macroblocks: [
                PSubMacroblockType::L0_8x8,
                PSubMacroblockType::L0_8x4,
                PSubMacroblockType::L0_4x8,
                PSubMacroblockType::L0_4x4,
            ],
            reference_index_forced_zero: false,
        }
    );
    assert_eq!(
        header
            .partitions
            .iter()
            .map(|partition| partition.differences.len())
            .collect::<Vec<_>>(),
        [1, 2, 2, 4]
    );
    assert!(!header.transform_size_8x8);
    assert_eq!(reader.bit_position(), writer.bit_len);
}

#[test]
fn p_8x8ref0_omits_reference_index_syntax() {
    let mut writer = BitWriter::default();
    writer.write_ue(4);
    for _ in 0..4 {
        writer.write_ue(0);
    }
    for _ in 0..4 {
        writer.write_se(0);
        writer.write_se(0);
    }
    writer.write_ue(0);

    let data = writer.finish();
    let mut reader = BitReader::new(&data);
    let PSliceMacroblock::Inter(header) = parse_cavlc_p_macroblock(
        &mut reader,
        PMacroblockContext {
            num_ref_idx_l0_active: 3,
            transform_8x8_mode_enabled: false,
        },
    )
    .unwrap() else {
        panic!("expected inter macroblock");
    };
    assert!(
        header
            .partitions
            .iter()
            .all(|part| part.reference_index == 0)
    );
    assert!(matches!(
        header.partition_mode,
        PPartitionMode::L0_8x8 {
            reference_index_forced_zero: true,
            ..
        }
    ));
    assert_eq!(reader.bit_position(), writer.bit_len);
}

#[test]
fn maps_every_ordinary_b_inter_macroblock_type() {
    let modes = [
        (1, vec![BPredictionMode::List0]),
        (2, vec![BPredictionMode::List1]),
        (3, vec![BPredictionMode::Bi]),
        (4, vec![BPredictionMode::List0, BPredictionMode::List0]),
        (5, vec![BPredictionMode::List0, BPredictionMode::List0]),
        (6, vec![BPredictionMode::List1, BPredictionMode::List1]),
        (7, vec![BPredictionMode::List1, BPredictionMode::List1]),
        (8, vec![BPredictionMode::List0, BPredictionMode::List1]),
        (9, vec![BPredictionMode::List0, BPredictionMode::List1]),
        (10, vec![BPredictionMode::List1, BPredictionMode::List0]),
        (11, vec![BPredictionMode::List1, BPredictionMode::List0]),
        (12, vec![BPredictionMode::List0, BPredictionMode::Bi]),
        (13, vec![BPredictionMode::List0, BPredictionMode::Bi]),
        (14, vec![BPredictionMode::List1, BPredictionMode::Bi]),
        (15, vec![BPredictionMode::List1, BPredictionMode::Bi]),
        (16, vec![BPredictionMode::Bi, BPredictionMode::List0]),
        (17, vec![BPredictionMode::Bi, BPredictionMode::List0]),
        (18, vec![BPredictionMode::Bi, BPredictionMode::List1]),
        (19, vec![BPredictionMode::Bi, BPredictionMode::List1]),
        (20, vec![BPredictionMode::Bi, BPredictionMode::Bi]),
        (21, vec![BPredictionMode::Bi, BPredictionMode::Bi]),
    ];
    for (mb_type, predictions) in modes {
        let mut writer = BitWriter::default();
        writer.write_ue(mb_type);
        for prediction in &predictions {
            if prediction.uses_list0() {
                writer.write_se(mb_type as i32);
                writer.write_se(0);
            }
        }
        for prediction in &predictions {
            if prediction.uses_list1() {
                writer.write_se(-(mb_type as i32));
                writer.write_se(0);
            }
        }
        writer.write_ue(0);

        let data = writer.finish();
        let mut reader = BitReader::new(&data);
        let BSliceMacroblock::Inter(header) =
            parse_cavlc_b_macroblock(&mut reader, b_context()).unwrap()
        else {
            panic!("expected B inter macroblock type {mb_type}");
        };
        assert_eq!(
            header
                .partitions
                .iter()
                .map(|partition| partition.prediction)
                .collect::<Vec<_>>(),
            predictions,
            "mb_type={mb_type}"
        );
        let expected_mode = match mb_type {
            1..=3 => BPartitionMode::SixteenBySixteen,
            value if value.is_multiple_of(2) => BPartitionMode::SixteenByEight,
            _ => BPartitionMode::EightBySixteen,
        };
        assert_eq!(header.partition_mode, expected_mode, "mb_type={mb_type}");
        assert_eq!(reader.bit_position(), writer.bit_len, "mb_type={mb_type}");
    }
}

#[test]
fn parses_b_direct_and_bidirectional_reference_syntax() {
    let mut direct = BitWriter::default();
    direct.write_ue(0);
    direct.write_ue(0);
    let data = direct.finish();
    let mut reader = BitReader::new(&data);
    let BSliceMacroblock::Inter(header) =
        parse_cavlc_b_macroblock(&mut reader, b_context()).unwrap()
    else {
        panic!("expected direct macroblock");
    };
    assert_eq!(header.partition_mode, BPartitionMode::Direct16x16);
    assert_eq!(header.partitions[0].prediction, BPredictionMode::Direct);
    assert_eq!(reader.bit_position(), direct.bit_len);

    let mut bi = BitWriter::default();
    bi.write_ue(20);
    bi.write_flag(true);
    bi.write_flag(false);
    bi.write_flag(false);
    bi.write_flag(true);
    for (x, y) in [(1, 2), (3, 4), (-1, -2), (-3, -4)] {
        bi.write_se(x);
        bi.write_se(y);
    }
    bi.write_ue(2);
    bi.write_flag(true);
    bi.write_se(-1);
    let data = bi.finish();
    let mut reader = BitReader::new(&data);
    let BSliceMacroblock::Inter(header) = parse_cavlc_b_macroblock(
        &mut reader,
        BMacroblockContext {
            num_ref_idx_l0_active: 2,
            num_ref_idx_l1_active: 2,
            transform_8x8_mode_enabled: true,
            direct_8x8_inference: true,
        },
    )
    .unwrap() else {
        panic!("expected bidirectional macroblock");
    };
    assert_eq!(header.partition_mode, BPartitionMode::SixteenByEight);
    assert_eq!(header.partitions[0].reference_index_l0, Some(0));
    assert_eq!(header.partitions[1].reference_index_l0, Some(1));
    assert_eq!(header.partitions[0].reference_index_l1, Some(1));
    assert_eq!(header.partitions[1].reference_index_l1, Some(0));
    assert_eq!(
        header.partitions[0].differences_l0,
        [MotionVectorDifference { x: 1, y: 2 }]
    );
    assert_eq!(
        header.partitions[0].differences_l1,
        [MotionVectorDifference { x: -1, y: -2 }]
    );
    assert!(header.transform_size_8x8);
    assert_eq!(header.qp_delta, -1);
    assert_eq!(reader.bit_position(), bi.bit_len);
}

#[test]
fn parses_mixed_b_sub_macroblock_shapes_in_list_order() {
    let mut writer = BitWriter::default();
    writer.write_ue(22);
    for sub_type in [0, 4, 7, 12] {
        writer.write_ue(sub_type);
    }
    for index in 0..6 {
        writer.write_se(index);
        writer.write_se(-index);
    }
    for index in 6..12 {
        writer.write_se(index);
        writer.write_se(-index);
    }
    writer.write_ue(0);

    let data = writer.finish();
    let mut reader = BitReader::new(&data);
    let BSliceMacroblock::Inter(header) =
        parse_cavlc_b_macroblock(&mut reader, b_context()).unwrap()
    else {
        panic!("expected B_8x8 macroblock");
    };
    assert_eq!(
        header.partition_mode,
        BPartitionMode::EightByEight {
            sub_macroblocks: [
                BSubMacroblockType::Direct8x8,
                BSubMacroblockType::List0_8x4,
                BSubMacroblockType::List1_4x8,
                BSubMacroblockType::Bi4x4,
            ],
        }
    );
    assert_eq!(
        header
            .partitions
            .iter()
            .map(|partition| partition.differences_l0.len())
            .collect::<Vec<_>>(),
        [0, 2, 0, 4]
    );
    assert_eq!(
        header
            .partitions
            .iter()
            .map(|partition| partition.differences_l1.len())
            .collect::<Vec<_>>(),
        [0, 0, 2, 4]
    );
    assert!(!header.transform_size_8x8);
    assert_eq!(reader.bit_position(), writer.bit_len);
}

#[test]
fn maps_b_intra_types_and_rejects_invalid_syntax_atomically() {
    let mut intra = BitWriter::default();
    intra.write_ue(23);
    for _ in 0..16 {
        intra.write_flag(true);
    }
    intra.write_ue(0);
    intra.write_ue(3);
    let data = intra.finish();
    let mut reader = BitReader::new(&data);
    assert!(matches!(
        parse_cavlc_b_macroblock(&mut reader, b_context()),
        Ok(BSliceMacroblock::Intra(IntraMacroblock::Predicted(_)))
    ));

    let mut invalid_type = BitWriter::default();
    invalid_type.write_ue(49);
    let mut invalid_sub_type = BitWriter::default();
    invalid_sub_type.write_ue(22);
    invalid_sub_type.write_ue(13);
    for writer in [invalid_type, invalid_sub_type] {
        let data = writer.finish();
        let mut reader = BitReader::new(&data);
        assert!(parse_cavlc_b_macroblock(&mut reader, b_context()).is_err());
        assert_eq!(reader.bit_position(), 0);
    }
}

#[test]
fn maps_p_slice_intra_types_and_bounds_skip_runs() {
    let mut writer = BitWriter::default();
    writer.write_ue(5);
    for _ in 0..16 {
        writer.write_flag(true);
    }
    writer.write_ue(0);
    writer.write_ue(3);
    let data = writer.finish();
    let mut reader = BitReader::new(&data);
    assert!(matches!(
        parse_cavlc_p_macroblock(
            &mut reader,
            PMacroblockContext {
                num_ref_idx_l0_active: 1,
                transform_8x8_mode_enabled: false,
            },
        ),
        Ok(PSliceMacroblock::Intra(IntraMacroblock::Predicted(_)))
    ));

    let mut writer = BitWriter::default();
    writer.write_ue(3);
    let data = writer.finish();
    let mut reader = BitReader::new(&data);
    assert_eq!(parse_cavlc_mb_skip_run(&mut reader, 3), Ok(3));
    let mut reader = BitReader::new(&data);
    assert!(parse_cavlc_mb_skip_run(&mut reader, 2).is_err());
    assert_eq!(reader.bit_position(), 0);
}

#[test]
fn rejects_invalid_p_syntax_atomically() {
    let context = PMacroblockContext {
        num_ref_idx_l0_active: 3,
        transform_8x8_mode_enabled: false,
    };
    let mut invalid_type = BitWriter::default();
    invalid_type.write_ue(31);
    let mut invalid_sub_type = BitWriter::default();
    invalid_sub_type.write_ue(3);
    invalid_sub_type.write_ue(4);
    let mut invalid_reference = BitWriter::default();
    invalid_reference.write_ue(0);
    invalid_reference.write_ue(3);
    for writer in [invalid_type, invalid_sub_type, invalid_reference] {
        let data = writer.finish();
        let mut reader = BitReader::new(&data);
        assert!(parse_cavlc_p_macroblock(&mut reader, context).is_err());
        assert_eq!(reader.bit_position(), 0);
    }
}

#[test]
fn rejects_invalid_or_truncated_macroblocks_atomically() {
    for writer in [
        invalid_mb_type(),
        invalid_chroma_mode(),
        invalid_qp_delta(),
        invalid_pcm_alignment(),
    ] {
        let data = writer.finish();
        let mut reader = BitReader::new(&data);
        assert!(matches!(
            parse_cavlc_intra_macroblock(&mut reader, false),
            Err(H264Error::InvalidSyntax(_))
        ));
        assert_eq!(reader.bit_position(), 0);
    }

    let mut reader = BitReader::new(&[0]);
    assert_eq!(
        parse_cavlc_intra_macroblock(&mut reader, false),
        Err(H264Error::UnexpectedEof)
    );
    assert_eq!(reader.bit_position(), 0);
}

fn invalid_mb_type() -> BitWriter {
    let mut writer = BitWriter::default();
    writer.write_ue(26);
    writer
}

fn invalid_chroma_mode() -> BitWriter {
    let mut writer = BitWriter::default();
    writer.write_ue(1);
    writer.write_ue(4);
    writer
}

fn invalid_qp_delta() -> BitWriter {
    let mut writer = BitWriter::default();
    writer.write_ue(1);
    writer.write_ue(0);
    writer.write_se(26);
    writer
}

fn invalid_pcm_alignment() -> BitWriter {
    let mut writer = BitWriter::default();
    writer.write_ue(25);
    writer.write_flag(true);
    writer
}

fn b_context() -> BMacroblockContext {
    BMacroblockContext {
        num_ref_idx_l0_active: 1,
        num_ref_idx_l1_active: 1,
        transform_8x8_mode_enabled: false,
        direct_8x8_inference: true,
    }
}

#[derive(Default)]
struct BitWriter {
    bits: Vec<u8>,
    bit_len: usize,
}

impl BitWriter {
    fn write_flag(&mut self, value: bool) {
        self.write_bits(u32::from(value), 1);
    }

    fn write_bits(&mut self, value: u32, count: usize) {
        for shift in (0..count).rev() {
            self.bits.push(((value >> shift) & 1) as u8);
            self.bit_len += 1;
        }
    }

    fn write_ue(&mut self, value: u32) {
        let code_num = u64::from(value) + 1;
        let width = 64 - code_num.leading_zeros() as usize;
        self.bits
            .extend(std::iter::repeat_n(0, width.saturating_sub(1)));
        self.bit_len += width.saturating_sub(1);
        self.write_bits(code_num as u32, width);
    }

    fn write_se(&mut self, value: i32) {
        let code_num = if value <= 0 {
            value.unsigned_abs() * 2
        } else {
            value as u32 * 2 - 1
        };
        self.write_ue(code_num);
    }

    fn byte_align_zero(&mut self) {
        while !self.bit_len.is_multiple_of(8) {
            self.write_flag(false);
        }
    }

    fn finish(&self) -> Vec<u8> {
        let mut bytes = vec![0; self.bits.len().div_ceil(8)];
        for (index, &bit) in self.bits.iter().enumerate() {
            bytes[index / 8] |= bit << (7 - index % 8);
        }
        bytes
    }
}
