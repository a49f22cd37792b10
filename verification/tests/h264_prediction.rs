use decv::h264::error::H264Error;
use decv::h264::prediction::{
    filter_intra_8x8_references, predict_intra_16x16, predict_intra_4x4, predict_intra_8x8,
    predict_intra_chroma_420, Intra16x16References, Intra4x4References, Intra8x8References,
    IntraChroma420References,
};

fn intra4_references() -> Intra4x4References {
    Intra4x4References {
        top: Some([10, 20, 30, 40, 50, 60, 70, 80]),
        left: Some([90, 100, 110, 120]),
        top_left: Some(50),
    }
}

fn intra8_references() -> Intra8x8References {
    Intra8x8References {
        top: Some(std::array::from_fn(|index| 10 * (index as u8 + 1))),
        left: Some(std::array::from_fn(|index| 90 + 10 * index as u8)),
        top_left: Some(50),
    }
}

#[test]
fn filters_intra8_reference_edges_and_corner() {
    let filtered = filter_intra_8x8_references(&intra8_references());
    assert_eq!(
        filtered.top,
        Some([
            23, 20, 30, 40, 50, 60, 70, 80, 90, 100, 110, 120, 130, 140, 150, 158
        ])
    );
    assert_eq!(filtered.left, Some([83, 100, 110, 120, 130, 140, 150, 158]));
    assert_eq!(filtered.top_left, Some(50));

    let one_sided = filter_intra_8x8_references(&Intra8x8References {
        top: Some([80; 16]),
        left: None,
        top_left: Some(40),
    });
    assert_eq!(one_sided.top_left, Some(50));
    assert_eq!(one_sided.left, None);
}

#[test]
fn predicts_intra8_directional_dc_and_filtered_edges() {
    let references = intra8_references();
    let vertical = predict_intra_8x8(0, &references).unwrap();
    assert!(
        vertical
            .iter()
            .all(|row| row == &[23, 20, 30, 40, 50, 60, 70, 80])
    );

    let horizontal = predict_intra_8x8(1, &references).unwrap();
    assert_eq!(horizontal[0], [83; 8]);
    assert_eq!(horizontal[7], [158; 8]);
    assert_eq!(predict_intra_8x8(2, &references).unwrap(), [[85; 8]; 8]);

    let unavailable = Intra8x8References {
        top: None,
        left: None,
        top_left: None,
    };
    assert_eq!(predict_intra_8x8(2, &unavailable).unwrap(), [[128; 8]; 8]);
}

#[test]
fn predicts_all_intra8_angular_modes() {
    let constant = Intra8x8References {
        top: Some([77; 16]),
        left: Some([77; 8]),
        top_left: Some(77),
    };
    for mode in 0..=8 {
        assert_eq!(predict_intra_8x8(mode, &constant).unwrap(), [[77; 8]; 8]);
    }

    let references = intra8_references();
    let down_left = predict_intra_8x8(3, &references).unwrap();
    assert_eq!(down_left[0][0], 23);
    assert_eq!(down_left[7][7], 156);

    let down_right = predict_intra_8x8(4, &references).unwrap();
    assert_eq!(down_right[0][0], 52);
    assert_eq!(down_right[0][7], 70);

    let vertical_right = predict_intra_8x8(5, &references).unwrap();
    assert_eq!(vertical_right[7][0], 140);
    let horizontal_down = predict_intra_8x8(6, &references).unwrap();
    assert_eq!(horizontal_down[0][7], 60);

    let vertical_left = predict_intra_8x8(7, &references).unwrap();
    assert_eq!(vertical_left[0][0], 22);
    assert_eq!(vertical_left[7][7], 120);
    let horizontal_up = predict_intra_8x8(8, &references).unwrap();
    assert_eq!(horizontal_up[0][0], 92);
    assert_eq!(horizontal_up[7][7], 158);
}

#[test]
fn rejects_intra8_modes_with_missing_references() {
    let complete = intra8_references();
    assert!(predict_intra_8x8(9, &complete).is_err());
    let no_top = Intra8x8References {
        top: None,
        ..complete
    };
    assert!(predict_intra_8x8(0, &no_top).is_err());
    assert!(predict_intra_8x8(3, &no_top).is_err());
    let no_left = Intra8x8References {
        left: None,
        ..complete
    };
    assert!(predict_intra_8x8(1, &no_left).is_err());
    assert!(predict_intra_8x8(8, &no_left).is_err());
    let no_corner = Intra8x8References {
        top_left: None,
        ..complete
    };
    assert!(predict_intra_8x8(4, &no_corner).is_err());
}

#[test]
fn predicts_intra4_vertical_horizontal_and_dc() {
    let references = intra4_references();
    assert_eq!(
        predict_intra_4x4(0, &references).unwrap(),
        [[10, 20, 30, 40]; 4]
    );
    assert_eq!(
        predict_intra_4x4(1, &references).unwrap(),
        [[90; 4], [100; 4], [110; 4], [120; 4]]
    );
    assert_eq!(predict_intra_4x4(2, &references).unwrap(), [[65; 4]; 4]);
    assert_eq!(
        predict_intra_4x4(
            2,
            &Intra4x4References {
                top: None,
                left: None,
                top_left: None,
            }
        )
        .unwrap(),
        [[128; 4]; 4]
    );
}

#[test]
fn predicts_intra4_down_left_and_vertical_left() {
    let references = intra4_references();
    assert_eq!(
        predict_intra_4x4(3, &references).unwrap(),
        [
            [20, 30, 40, 50],
            [30, 40, 50, 60],
            [40, 50, 60, 70],
            [50, 60, 70, 78],
        ]
    );
    assert_eq!(
        predict_intra_4x4(7, &references).unwrap(),
        [
            [15, 25, 35, 45],
            [20, 30, 40, 50],
            [25, 35, 45, 55],
            [30, 40, 50, 60],
        ]
    );
}

#[test]
fn predicts_intra4_horizontal_up() {
    assert_eq!(
        predict_intra_4x4(8, &intra4_references()).unwrap(),
        [
            [95, 100, 105, 110],
            [105, 110, 115, 118],
            [115, 118, 120, 120],
            [120, 120, 120, 120],
        ]
    );
}

#[test]
fn predicts_intra4_corner_modes_and_checks_references() {
    let references = intra4_references();
    assert_eq!(
        predict_intra_4x4(4, &references).unwrap(),
        [
            [50, 23, 20, 30],
            [83, 50, 23, 20],
            [100, 83, 50, 23],
            [110, 100, 83, 50],
        ]
    );
    assert_eq!(
        predict_intra_4x4(5, &references).unwrap(),
        [
            [30, 15, 25, 35],
            [50, 23, 20, 30],
            [83, 30, 15, 25],
            [100, 50, 23, 20],
        ]
    );
    assert_eq!(
        predict_intra_4x4(6, &references).unwrap(),
        [
            [70, 50, 23, 20],
            [95, 83, 70, 50],
            [105, 100, 95, 83],
            [115, 110, 105, 100],
        ]
    );

    let constant = Intra4x4References {
        top: Some([77; 8]),
        left: Some([77; 4]),
        top_left: Some(77),
    };
    for mode in 4..=6 {
        assert_eq!(predict_intra_4x4(mode, &constant).unwrap(), [[77; 4]; 4]);
    }

    let missing_corner = Intra4x4References {
        top_left: None,
        ..constant
    };
    assert!(predict_intra_4x4(4, &missing_corner).is_err());
    let missing_top = Intra4x4References {
        top: None,
        ..constant
    };
    assert!(predict_intra_4x4(0, &missing_top).is_err());
    assert!(predict_intra_4x4(3, &missing_top).is_err());
    assert!(predict_intra_4x4(9, &constant).is_err());
}

#[test]
fn predicts_intra16_vertical_and_horizontal() {
    let top = std::array::from_fn(|index| index as u8);
    let left = std::array::from_fn(|index| 100 + index as u8);
    let references = Intra16x16References {
        top: Some(top),
        left: Some(left),
        top_left: Some(50),
    };
    let vertical = predict_intra_16x16(0, &references).unwrap();
    assert!(vertical.iter().all(|row| row == &top));

    let horizontal = predict_intra_16x16(1, &references).unwrap();
    for row in 0..16 {
        assert_eq!(horizontal[row], [left[row]; 16]);
    }
}

#[test]
fn predicts_intra16_dc_for_each_availability_shape() {
    let both = Intra16x16References {
        top: Some([10; 16]),
        left: Some([20; 16]),
        top_left: None,
    };
    assert_eq!(predict_intra_16x16(2, &both), Ok([[15; 16]; 16]));

    let top_only = Intra16x16References {
        top: Some([11; 16]),
        left: None,
        top_left: None,
    };
    assert_eq!(predict_intra_16x16(2, &top_only), Ok([[11; 16]; 16]));
    let none = Intra16x16References {
        top: None,
        left: None,
        top_left: None,
    };
    assert_eq!(predict_intra_16x16(2, &none), Ok([[128; 16]; 16]));
}

#[test]
fn predicts_constant_intra16_plane() {
    let references = Intra16x16References {
        top: Some([64; 16]),
        left: Some([64; 16]),
        top_left: Some(64),
    };
    assert_eq!(predict_intra_16x16(3, &references), Ok([[64; 16]; 16]));
}

#[test]
fn predicts_chroma_dc_per_4x4_region() {
    let references = IntraChroma420References {
        top: Some([10, 10, 10, 10, 30, 30, 30, 30]),
        left: Some([20, 20, 20, 20, 40, 40, 40, 40]),
        top_left: None,
    };
    let prediction = predict_intra_chroma_420(0, &references).unwrap();
    assert_eq!(prediction[0], [15, 15, 15, 15, 30, 30, 30, 30]);
    assert_eq!(prediction[7], [40, 40, 40, 40, 35, 35, 35, 35]);
}

#[test]
fn predicts_chroma_directional_and_plane_modes() {
    let top = std::array::from_fn(|index| index as u8);
    let left = std::array::from_fn(|index| 100 + index as u8);
    let references = IntraChroma420References {
        top: Some(top),
        left: Some(left),
        top_left: Some(50),
    };
    assert_eq!(predict_intra_chroma_420(2, &references), Ok([top; 8]));
    let horizontal = predict_intra_chroma_420(1, &references).unwrap();
    for row in 0..8 {
        assert_eq!(horizontal[row], [left[row]; 8]);
    }

    let constant = IntraChroma420References {
        top: Some([64; 8]),
        left: Some([64; 8]),
        top_left: Some(64),
    };
    assert_eq!(predict_intra_chroma_420(3, &constant), Ok([[64; 8]; 8]));
}

#[test]
fn rejects_modes_with_missing_required_samples() {
    let missing = Intra16x16References {
        top: None,
        left: None,
        top_left: None,
    };
    assert!(matches!(
        predict_intra_16x16(0, &missing),
        Err(H264Error::InvalidSyntax(_))
    ));
    assert!(matches!(
        predict_intra_16x16(3, &missing),
        Err(H264Error::InvalidSyntax(_))
    ));
    assert!(matches!(
        predict_intra_16x16(4, &missing),
        Err(H264Error::InvalidSyntax(_))
    ));
}
