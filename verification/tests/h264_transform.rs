use decv::h264::error::H264Error;
use decv::h264::sps::{ScalingList, ScalingMatrices};
use decv::h264::transform::{
    inverse_scale_4x4, inverse_scale_8x8, inverse_scan_4x4, inverse_scan_8x8,
    inverse_scan_scaling_list_4x4, inverse_scan_scaling_list_8x8, inverse_transform_4x4,
    inverse_transform_8x8, inverse_transform_chroma_dc_420, inverse_transform_luma_dc_4x4,
    reconstruct_residual_4x4, reconstruct_residual_8x8, resolve_scaling_lists_4x4,
    resolve_scaling_lists_8x8, ColorComponent, PredictionClass, ScanMode,
    DEFAULT_SCALING_LIST_4X4_INTRA, DEFAULT_SCALING_LIST_8X8_INTER,
    DEFAULT_SCALING_LIST_8X8_INTRA, FLAT_SCALING_LIST_4X4, FLAT_SCALING_LIST_8X8,
};

#[test]
fn inverse_scans_frame_and_field_coefficients() {
    let values = std::array::from_fn(|index| index as i32);
    assert_eq!(
        inverse_scan_4x4(&values, ScanMode::Frame),
        [[0, 1, 5, 6], [2, 4, 7, 12], [3, 8, 11, 13], [9, 10, 14, 15]]
    );
    assert_eq!(
        inverse_scan_4x4(&values, ScanMode::Field),
        [[0, 2, 8, 12], [1, 5, 9, 13], [3, 6, 10, 14], [4, 7, 11, 15]]
    );
}

#[test]
fn inverse_scans_frame_and_field_8x8_coefficients() {
    let values = std::array::from_fn(|index| index as i32);
    assert_eq!(
        inverse_scan_8x8(&values, ScanMode::Frame),
        [
            [0, 1, 5, 6, 14, 15, 27, 28],
            [2, 4, 7, 13, 16, 26, 29, 42],
            [3, 8, 12, 17, 25, 30, 41, 43],
            [9, 11, 18, 24, 31, 40, 44, 53],
            [10, 19, 23, 32, 39, 45, 52, 54],
            [20, 22, 33, 38, 46, 51, 55, 60],
            [21, 34, 37, 47, 50, 56, 59, 61],
            [35, 36, 48, 49, 57, 58, 62, 63],
        ]
    );
    assert_eq!(
        inverse_scan_8x8(&values, ScanMode::Field),
        [
            [0, 3, 8, 15, 22, 30, 38, 52],
            [1, 4, 14, 21, 29, 37, 45, 53],
            [2, 7, 16, 23, 31, 39, 46, 58],
            [5, 9, 20, 28, 36, 44, 51, 59],
            [6, 13, 24, 32, 40, 47, 54, 60],
            [10, 17, 25, 33, 41, 48, 55, 61],
            [11, 18, 26, 34, 42, 49, 56, 62],
            [12, 19, 27, 35, 43, 50, 57, 63],
        ]
    );
}

#[test]
fn scaling_lists_always_use_zig_zag_scan() {
    let values = std::array::from_fn(|index| index as u8 + 1);
    assert_eq!(
        inverse_scan_scaling_list_4x4(&values),
        [
            [1, 2, 6, 7],
            [3, 5, 8, 13],
            [4, 9, 12, 14],
            [10, 11, 15, 16]
        ]
    );

    let values = std::array::from_fn(|index| index as u8);
    assert_eq!(
        inverse_scan_scaling_list_8x8(&values)[0],
        [0, 1, 5, 6, 14, 15, 27, 28]
    );
}

#[test]
fn inverse_scales_flat_lists_and_preserves_special_dc() {
    let mut coefficients = [[0; 4]; 4];
    coefficients[0][0] = 1;
    coefficients[0][1] = 1;
    coefficients[1][1] = 1;
    assert_eq!(
        inverse_scale_4x4(&coefficients, 0, &FLAT_SCALING_LIST_4X4, false).unwrap()[..2],
        [[10, 13, 0, 0], [0, 16, 0, 0]]
    );
    assert_eq!(
        inverse_scale_4x4(&coefficients, 0, &FLAT_SCALING_LIST_4X4, true).unwrap()[0][0],
        1
    );

    // qP=24 switches to the left-shift branch with a zero shift.
    assert_eq!(
        inverse_scale_4x4(&coefficients, 24, &FLAT_SCALING_LIST_4X4, false).unwrap()[0][0],
        160
    );
}

#[test]
fn inverse_scales_each_8x8_norm_adjustment_class() {
    let mut coefficients = [[0; 8]; 8];
    for &(row, column) in &[(0, 0), (1, 1), (2, 2), (0, 1), (0, 2), (1, 2)] {
        coefficients[row][column] = 1;
    }
    let scaled = inverse_scale_8x8(&coefficients, 0, &FLAT_SCALING_LIST_8X8).unwrap();
    assert_eq!(
        (
            scaled[0][0],
            scaled[1][1],
            scaled[2][2],
            scaled[0][1],
            scaled[0][2],
            scaled[1][2],
        ),
        (5, 5, 8, 5, 6, 6)
    );
    assert_eq!(
        inverse_scale_8x8(&coefficients, 36, &FLAT_SCALING_LIST_8X8).unwrap()[0][0],
        320
    );
}

#[test]
fn inverse_transform_handles_dc_and_ac_impulses() {
    let mut dc = [[0; 4]; 4];
    dc[0][0] = 64;
    assert_eq!(inverse_transform_4x4(&dc), Ok([[1; 4]; 4]));

    let mut ac = [[0; 4]; 4];
    ac[0][1] = 64;
    assert_eq!(inverse_transform_4x4(&ac), Ok([[1, 1, 0, -1]; 4]));
}

#[test]
fn inverse_transform_4x4_extremes_match_a_wide_oracle() {
    fn pass(values: [i128; 4]) -> [i128; 4] {
        let e0 = values[0] + values[2];
        let e1 = values[0] - values[2];
        let e2 = (values[1] >> 1) - values[3];
        let e3 = values[1] + (values[3] >> 1);
        [e0 + e3, e1 + e2, e1 - e2, e0 - e3]
    }

    fn oracle(input: &[[i32; 4]; 4]) -> [[i32; 4]; 4] {
        let horizontal: [[i128; 4]; 4] = std::array::from_fn(|row| input[row].map(i128::from));
        let horizontal = horizontal.map(pass);
        std::array::from_fn(|row| {
            std::array::from_fn(|column| {
                let transformed = pass(std::array::from_fn(|index| horizontal[index][column]));
                i32::try_from((transformed[row] + 32) >> 6).unwrap()
            })
        })
    }

    let checkerboard = std::array::from_fn(|row| {
        std::array::from_fn(|column| {
            if (row + column) % 2 == 0 {
                i32::MAX
            } else {
                i32::MIN
            }
        })
    });
    for input in [[[i32::MAX; 4]; 4], [[i32::MIN; 4]; 4], checkerboard] {
        assert_eq!(inverse_transform_4x4(&input), Ok(oracle(&input)));
    }
    for index in 0..16 {
        let mut input = [[0; 4]; 4];
        input[index / 4][index % 4] = if index % 2 == 0 { i32::MAX } else { i32::MIN };
        assert_eq!(inverse_transform_4x4(&input), Ok(oracle(&input)));
    }
}

#[test]
fn inverse_transform_8x8_handles_dc_and_ac_impulses() {
    let mut dc = [[0; 8]; 8];
    dc[0][0] = 64;
    assert_eq!(inverse_transform_8x8(&dc), Ok([[1; 8]; 8]));

    let mut ac = [[0; 8]; 8];
    ac[0][1] = 64;
    assert_eq!(
        inverse_transform_8x8(&ac),
        Ok([[2, 1, 1, 0, 0, -1, -1, -1]; 8])
    );
}

#[test]
fn reconstructs_a_flat_qp_zero_dc_block() {
    let mut values = [0; 16];
    values[0] = 64;
    assert_eq!(
        reconstruct_residual_4x4(&values, ScanMode::Frame, 0, &FLAT_SCALING_LIST_4X4, false,),
        Ok([[10; 4]; 4])
    );

    let mut values = [0; 64];
    values[0] = 64;
    assert_eq!(
        reconstruct_residual_8x8(&values, ScanMode::Frame, 0, &FLAT_SCALING_LIST_8X8,),
        Ok([[5; 8]; 8])
    );
}

#[test]
fn transforms_and_scales_luma_dc_coefficients() {
    let mut impulse = [0; 16];
    impulse[0] = 1;
    assert_eq!(
        inverse_transform_luma_dc_4x4(&impulse, ScanMode::Frame, 0, &FLAT_SCALING_LIST_4X4,),
        Ok([[3; 4]; 4])
    );

    let all_one = [1; 16];
    assert_eq!(
        inverse_transform_luma_dc_4x4(&all_one, ScanMode::Frame, 0, &FLAT_SCALING_LIST_4X4,),
        Ok([[40, 0, 0, 0], [0; 4], [0; 4], [0; 4]])
    );
}

#[test]
fn transforms_and_scales_chroma_dc_coefficients() {
    assert_eq!(
        inverse_transform_chroma_dc_420(&[1, 0, 0, 0], 0, &FLAT_SCALING_LIST_4X4),
        Ok([[5; 2]; 2])
    );
    assert_eq!(
        inverse_transform_chroma_dc_420(&[1; 4], 0, &FLAT_SCALING_LIST_4X4),
        Ok([[20, 0], [0, 0]])
    );
}

#[test]
fn resolves_sequence_and_picture_scaling_list_fallbacks() {
    let flat = resolve_scaling_lists_4x4(None, None).unwrap();
    assert_eq!(
        flat.get(PredictionClass::Intra, ColorComponent::Luma),
        &FLAT_SCALING_LIST_4X4
    );
    assert_eq!(
        flat.get(PredictionClass::Inter, ColorComponent::Cr),
        &FLAT_SCALING_LIST_4X4
    );

    let sequence = ScalingMatrices {
        lists: vec![
            Some(scaling_list(8, false)),
            None,
            None,
            Some(scaling_list(9, false)),
            None,
            None,
        ],
    };
    let resolved = resolve_scaling_lists_4x4(Some(&sequence), None).unwrap();
    assert_eq!(
        resolved.get(PredictionClass::Intra, ColorComponent::Cr),
        &[8; 16]
    );
    assert_eq!(
        resolved.get(PredictionClass::Inter, ColorComponent::Cr),
        &[9; 16]
    );

    let picture = ScalingMatrices {
        lists: vec![
            Some(scaling_list(7, false)),
            None,
            Some(scaling_list(99, true)),
            None,
            None,
            Some(scaling_list(11, false)),
        ],
    };
    let resolved = resolve_scaling_lists_4x4(Some(&sequence), Some(&picture)).unwrap();
    assert_eq!(
        resolved.get(PredictionClass::Intra, ColorComponent::Cb),
        &[7; 16]
    );
    assert_eq!(
        resolved.get(PredictionClass::Intra, ColorComponent::Cr),
        &DEFAULT_SCALING_LIST_4X4_INTRA
    );
    assert_eq!(
        resolved.get(PredictionClass::Inter, ColorComponent::Luma),
        &[9; 16]
    );
    assert_eq!(
        resolved.get(PredictionClass::Inter, ColorComponent::Cr),
        &[11; 16]
    );
}

#[test]
fn resolves_8x8_sequence_and_picture_fallbacks() {
    let flat = resolve_scaling_lists_8x8(None, None).unwrap();
    assert_eq!(flat.get(PredictionClass::Intra), &FLAT_SCALING_LIST_8X8);

    let mut sequence_lists = vec![None; 8];
    sequence_lists[6] = Some(scaling_list_8x8(8, false));
    let sequence = ScalingMatrices {
        lists: sequence_lists,
    };
    let resolved = resolve_scaling_lists_8x8(Some(&sequence), None).unwrap();
    assert_eq!(resolved.get(PredictionClass::Intra), &[8; 64]);
    assert_eq!(
        resolved.get(PredictionClass::Inter),
        &DEFAULT_SCALING_LIST_8X8_INTER
    );

    let mut picture_lists = vec![None; 8];
    picture_lists[7] = Some(scaling_list_8x8(99, true));
    let picture = ScalingMatrices {
        lists: picture_lists,
    };
    let resolved = resolve_scaling_lists_8x8(Some(&sequence), Some(&picture)).unwrap();
    assert_eq!(resolved.get(PredictionClass::Intra), &[8; 64]);
    assert_eq!(
        resolved.get(PredictionClass::Inter),
        &DEFAULT_SCALING_LIST_8X8_INTER
    );
    assert_ne!(
        DEFAULT_SCALING_LIST_8X8_INTRA,
        DEFAULT_SCALING_LIST_8X8_INTER
    );
}

#[test]
fn rejects_malformed_scaling_matrix_shapes() {
    let too_few = ScalingMatrices {
        lists: vec![None; 5],
    };
    assert!(matches!(
        resolve_scaling_lists_4x4(Some(&too_few), None),
        Err(H264Error::InvalidSyntax(_))
    ));

    let malformed = ScalingMatrices {
        lists: vec![
            Some(ScalingList {
                values: vec![8; 15],
                use_default: false,
            }),
            None,
            None,
            None,
            None,
            None,
        ],
    };
    assert!(matches!(
        resolve_scaling_lists_4x4(Some(&malformed), None),
        Err(H264Error::InvalidSyntax(_))
    ));
}

#[test]
fn rejects_invalid_qp_scaling_lists_and_overflow() {
    let coefficients = [[1; 4]; 4];
    assert!(matches!(
        inverse_scale_4x4(&coefficients, 52, &FLAT_SCALING_LIST_4X4, false),
        Err(H264Error::InvalidSyntax(_))
    ));
    let mut invalid = FLAT_SCALING_LIST_4X4;
    invalid[5] = 0;
    assert!(matches!(
        inverse_scale_4x4(&coefficients, 0, &invalid, false),
        Err(H264Error::InvalidSyntax(_))
    ));
    let huge = [[i32::MAX; 4]; 4];
    assert_eq!(
        inverse_scale_4x4(&huge, 51, &[u8::MAX; 16], false),
        Err(H264Error::IntegerOverflow)
    );

    let coefficients = [[1; 8]; 8];
    assert!(inverse_scale_8x8(&coefficients, 52, &FLAT_SCALING_LIST_8X8).is_err());
    let mut invalid = FLAT_SCALING_LIST_8X8;
    invalid[63] = 0;
    assert!(inverse_scale_8x8(&coefficients, 0, &invalid).is_err());
    assert_eq!(
        inverse_scale_8x8(&[[i32::MAX; 8]; 8], 51, &[u8::MAX; 64]),
        Err(H264Error::IntegerOverflow)
    );
}

fn scaling_list(value: u8, use_default: bool) -> ScalingList {
    ScalingList {
        values: vec![value; 16],
        use_default,
    }
}

fn scaling_list_8x8(value: u8, use_default: bool) -> ScalingList {
    ScalingList {
        values: vec![value; 64],
        use_default,
    }
}
