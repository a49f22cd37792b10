use decv::h264::error::H264Error;
use decv::h264::macroblock::{
    CodedBlockPattern, MotionVectorDifference, PInterMacroblockHeader, PPartitionMode,
    PPartitionMotion, PSubMacroblockType,
};
use decv::h264::motion::{
    median_motion_vector_prediction, MotionVector, NeighbourMotion, PMotionState,
};

fn difference(x: i16, y: i16) -> MotionVectorDifference {
    MotionVectorDifference { x, y }
}

fn motion(reference_index: u8, differences: &[(i16, i16)]) -> PPartitionMotion {
    PPartitionMotion {
        reference_index,
        differences: differences.iter().map(|&(x, y)| difference(x, y)).collect(),
    }
}

fn header(
    partition_mode: PPartitionMode,
    partitions: Vec<PPartitionMotion>,
) -> PInterMacroblockHeader {
    PInterMacroblockHeader {
        partition_mode,
        partitions,
        coded_block_pattern: CodedBlockPattern { luma: 0, chroma: 0 },
        transform_size_8x8: false,
        qp_delta: 0,
    }
}

fn neighbour(available: bool, reference_index: i8, x: i16, y: i16) -> NeighbourMotion {
    NeighbourMotion {
        available,
        reference_index,
        vector: MotionVector { x, y },
    }
}

#[test]
fn median_prediction_uses_the_only_matching_reference() {
    let predicted = median_motion_vector_prediction(
        neighbour(true, 0, 10, 20),
        neighbour(true, 1, 30, 40),
        neighbour(true, 2, 50, 60),
        1,
    );
    assert_eq!(predicted, MotionVector { x: 30, y: 40 });
}

#[test]
fn median_prediction_replicates_a_when_b_and_c_are_unavailable() {
    let predicted = median_motion_vector_prediction(
        neighbour(true, 2, 11, -7),
        neighbour(false, -1, 0, 0),
        neighbour(false, -1, 0, 0),
        0,
    );
    assert_eq!(predicted, MotionVector { x: 11, y: -7 });
}

#[test]
fn median_prediction_uses_component_wise_medians() {
    let predicted = median_motion_vector_prediction(
        neighbour(true, 0, -5, 30),
        neighbour(true, 0, 20, -10),
        neighbour(true, 0, 3, 4),
        0,
    );
    assert_eq!(predicted, MotionVector { x: 3, y: 4 });
}

#[test]
fn median_prediction_takes_reference_indices_as_signed_bytes() {
    let predicted = median_motion_vector_prediction(
        neighbour(true, -56, 10, 20),
        neighbour(true, 1, 30, 40),
        neighbour(true, 2, 50, 60),
        200,
    );
    assert_eq!(predicted, MotionVector { x: 10, y: 20 });
}

#[test]
fn first_inter_macroblock_uses_zero_predictor() {
    let mut state = PMotionState::new(2, 1).unwrap();
    let resolved = state
        .resolve_inter_macroblock(
            0,
            7,
            &header(PPartitionMode::L0_16x16, vec![motion(0, &[(5, -3)])]),
        )
        .unwrap();
    assert_eq!(
        resolved.partitions[0].motion_vector,
        MotionVector { x: 5, y: -3 }
    );
}

#[test]
fn left_macroblock_predicts_the_next_macroblock() {
    let mut state = PMotionState::new(2, 1).unwrap();
    state
        .resolve_inter_macroblock(
            0,
            1,
            &header(PPartitionMode::L0_16x16, vec![motion(0, &[(6, 2)])]),
        )
        .unwrap();
    let resolved = state
        .resolve_inter_macroblock(
            1,
            1,
            &header(PPartitionMode::L0_16x16, vec![motion(0, &[(1, -1)])]),
        )
        .unwrap();
    assert_eq!(
        resolved.partitions[0].motion_vector,
        MotionVector { x: 7, y: 1 }
    );
}

#[test]
fn neighbours_from_other_slices_are_unavailable() {
    let mut state = PMotionState::new(2, 1).unwrap();
    state
        .resolve_inter_macroblock(
            0,
            1,
            &header(PPartitionMode::L0_16x16, vec![motion(0, &[(6, 2)])]),
        )
        .unwrap();
    let resolved = state
        .resolve_inter_macroblock(
            1,
            2,
            &header(PPartitionMode::L0_16x16, vec![motion(0, &[(1, -1)])]),
        )
        .unwrap();
    assert_eq!(
        resolved.partitions[0].motion_vector,
        MotionVector { x: 1, y: -1 }
    );
}

#[test]
fn intra_neighbour_is_available_but_has_no_list_zero_motion() {
    let mut state = PMotionState::new(2, 2).unwrap();
    state.record_intra_macroblock(0, 3).unwrap();
    state
        .resolve_inter_macroblock(
            1,
            3,
            &header(PPartitionMode::L0_16x16, vec![motion(0, &[(12, 4)])]),
        )
        .unwrap();
    let resolved = state
        .resolve_inter_macroblock(
            2,
            3,
            &header(PPartitionMode::L0_16x16, vec![motion(0, &[(0, 0)])]),
        )
        .unwrap();
    assert_eq!(
        resolved.partitions[0].motion_vector,
        MotionVector { x: 12, y: 4 }
    );
}

#[test]
fn sixteen_by_eight_uses_directional_predictors() {
    let mut state = PMotionState::new(2, 2).unwrap();
    state
        .resolve_inter_macroblock(
            0,
            1,
            &header(PPartitionMode::L0_16x16, vec![motion(0, &[(4, 5)])]),
        )
        .unwrap();
    let resolved = state
        .resolve_inter_macroblock(
            2,
            1,
            &header(
                PPartitionMode::L0_16x8,
                vec![motion(0, &[(1, 2)]), motion(0, &[(3, 4)])],
            ),
        )
        .unwrap();
    assert_eq!(
        resolved
            .partitions
            .iter()
            .map(|partition| partition.motion_vector)
            .collect::<Vec<_>>(),
        vec![MotionVector { x: 5, y: 7 }, MotionVector { x: 8, y: 11 }]
    );
}

#[test]
fn subpartitions_use_earlier_motion_within_the_macroblock() {
    let mut state = PMotionState::new(1, 1).unwrap();
    let resolved = state
        .resolve_inter_macroblock(
            0,
            1,
            &header(
                PPartitionMode::L0_8x8 {
                    sub_macroblocks: [
                        PSubMacroblockType::L0_4x4,
                        PSubMacroblockType::L0_8x8,
                        PSubMacroblockType::L0_8x8,
                        PSubMacroblockType::L0_8x8,
                    ],
                    reference_index_forced_zero: false,
                },
                vec![
                    motion(0, &[(2, 1), (3, 1), (4, 1), (5, 1)]),
                    motion(0, &[(0, 0)]),
                    motion(0, &[(0, 0)]),
                    motion(0, &[(0, 0)]),
                ],
            ),
        )
        .unwrap();
    assert_eq!(
        resolved
            .partitions
            .iter()
            .take(4)
            .map(|partition| partition.motion_vector)
            .collect::<Vec<_>>(),
        vec![
            MotionVector { x: 2, y: 1 },
            MotionVector { x: 5, y: 2 },
            MotionVector { x: 6, y: 2 },
            MotionVector { x: 10, y: 3 },
        ]
    );
}

#[test]
fn skip_is_zero_at_the_picture_boundary() {
    let mut state = PMotionState::new(1, 1).unwrap();
    let resolved = state.resolve_skip_macroblock(0, 9).unwrap();
    assert!(resolved.skipped);
    assert_eq!(
        resolved.partitions[0].motion_vector,
        MotionVector::default()
    );
}

#[test]
fn skip_uses_prediction_when_a_and_b_are_nonzero() {
    let mut state = PMotionState::new(2, 2).unwrap();
    state
        .resolve_inter_macroblock(
            0,
            4,
            &header(PPartitionMode::L0_16x16, vec![motion(0, &[(8, 2)])]),
        )
        .unwrap();
    state
        .resolve_inter_macroblock(
            1,
            4,
            &header(PPartitionMode::L0_16x16, vec![motion(0, &[(2, 4)])]),
        )
        .unwrap();
    state
        .resolve_inter_macroblock(
            2,
            4,
            &header(PPartitionMode::L0_16x16, vec![motion(0, &[(4, 6)])]),
        )
        .unwrap();
    let resolved = state.resolve_skip_macroblock(3, 4).unwrap();
    assert_eq!(
        resolved.partitions[0].motion_vector,
        MotionVector { x: 10, y: 6 }
    );
}

#[test]
fn vector_overflow_does_not_commit_partial_macroblock() {
    let mut state = PMotionState::new(2, 1).unwrap();
    state
        .resolve_inter_macroblock(
            0,
            1,
            &header(PPartitionMode::L0_16x16, vec![motion(0, &[(i16::MAX, 0)])]),
        )
        .unwrap();
    let overflowing = header(
        PPartitionMode::L0_16x8,
        vec![motion(0, &[(1, 0)]), motion(0, &[(0, 0)])],
    );
    assert!(matches!(
        state.resolve_inter_macroblock(1, 1, &overflowing),
        Err(H264Error::InvalidSyntax(_))
    ));
    assert_eq!(state.record_intra_macroblock(1, 1), Ok(()));
}

#[test]
fn malformed_public_header_does_not_modify_state() {
    let mut state = PMotionState::new(1, 1).unwrap();
    let malformed = header(PPartitionMode::L0_16x8, vec![motion(0, &[(0, 0)])]);
    assert!(matches!(
        state.resolve_inter_macroblock(0, 1, &malformed),
        Err(H264Error::InvalidSyntax(_))
    ));
    assert_eq!(state.record_intra_macroblock(0, 1), Ok(()));
}
