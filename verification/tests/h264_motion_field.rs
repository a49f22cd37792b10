use decv::h264::motion::{
    MotionVector, ResolvedBListMotion, ResolvedBMacroblock, ResolvedBPartition,
    ResolvedPMacroblock, ResolvedPPartition,
};
use decv::h264::motion_field::{MotionFieldBuilder, ReferenceId};
use decv::media::Size;

#[test]
fn snapshots_intra_p_and_bidirectional_cells_in_raster_order() {
    let mut builder = MotionFieldBuilder::new(Size::new(32, 16)).unwrap();
    builder.record_intra(0).unwrap();
    builder
        .record_b(
            1,
            &ResolvedBMacroblock {
                direct: false,
                partitions: vec![
                    ResolvedBPartition {
                        x: 0,
                        y: 0,
                        width: 16,
                        height: 8,
                        list0: Some(ResolvedBListMotion {
                            reference_index: 0,
                            motion_vector: MotionVector { x: 2, y: 3 },
                        }),
                        list1: None,
                    },
                    ResolvedBPartition {
                        x: 0,
                        y: 8,
                        width: 16,
                        height: 8,
                        list0: None,
                        list1: Some(ResolvedBListMotion {
                            reference_index: 0,
                            motion_vector: MotionVector { x: -1, y: 4 },
                        }),
                    },
                ],
            },
            Some(&[Some(ReferenceId::new(7))]),
            Some(&[Some(ReferenceId::new(8))]),
        )
        .unwrap();
    let field = builder.finish().unwrap();
    assert!(field.cell(0, 0).unwrap().intra);
    assert_eq!(
        field.cell(4, 0).unwrap().list0.unwrap().reference_id,
        Some(ReferenceId::new(7))
    );
    assert_eq!(
        field.cell(7, 3).unwrap().list1.unwrap().reference_id,
        Some(ReferenceId::new(8))
    );
}

#[test]
fn rejects_incomplete_and_overlapping_macroblocks() {
    let mut builder = MotionFieldBuilder::new(Size::new(16, 16)).unwrap();
    assert!(
        builder
            .record_p(
                0,
                &ResolvedPMacroblock {
                    skipped: false,
                    partitions: vec![ResolvedPPartition {
                        x: 0,
                        y: 0,
                        width: 8,
                        height: 16,
                        reference_index: 0,
                        motion_vector: MotionVector::default(),
                    }],
                },
                None,
            )
            .is_err()
    );
    assert!(builder.finish().is_err());
}

#[test]
fn clearing_requires_a_complete_re_record() {
    let mut incomplete = MotionFieldBuilder::new(Size::new(16, 16)).unwrap();
    incomplete.record_intra(0).unwrap();
    incomplete.clear_macroblock(0).unwrap();
    assert!(incomplete.finish().is_err());

    let mut builder = MotionFieldBuilder::new(Size::new(16, 16)).unwrap();
    builder.record_intra(0).unwrap();
    assert!(builder.record_intra(0).is_err());
    builder.clear_macroblock(0).unwrap();
    builder
        .record_p(
            0,
            &ResolvedPMacroblock {
                skipped: false,
                partitions: vec![ResolvedPPartition {
                    x: 0,
                    y: 0,
                    width: 16,
                    height: 16,
                    reference_index: 0,
                    motion_vector: MotionVector { x: 3, y: -2 },
                }],
            },
            Some(&[Some(ReferenceId::new(9))]),
        )
        .unwrap();

    let cell = builder.finish().unwrap().cell(3, 3).unwrap();
    assert!(!cell.intra);
    assert_eq!(cell.list0.unwrap().reference_id, Some(ReferenceId::new(9)));
    assert_eq!(cell.list0.unwrap().vector, MotionVector { x: 3, y: -2 });
}

#[test]
fn discarding_builder_preserves_validation_without_retaining_cells() {
    let mut builder = MotionFieldBuilder::new_discarding(Size::new(32, 16)).unwrap();
    builder.record_intra(0).unwrap();
    builder
        .record_p(
            1,
            &ResolvedPMacroblock {
                skipped: false,
                partitions: vec![ResolvedPPartition {
                    x: 0,
                    y: 0,
                    width: 16,
                    height: 16,
                    reference_index: 0,
                    motion_vector: MotionVector { x: 3, y: -2 },
                }],
            },
            Some(&[Some(ReferenceId::new(9))]),
        )
        .unwrap();
    assert!(builder.finish_optional().unwrap().is_none());

    let mut duplicate = MotionFieldBuilder::new_discarding(Size::new(16, 16)).unwrap();
    duplicate.record_intra(0).unwrap();
    assert!(duplicate.record_intra(0).is_err());

    let mut incomplete = MotionFieldBuilder::new_discarding(Size::new(16, 16)).unwrap();
    assert!(
        incomplete
            .record_p(
                0,
                &ResolvedPMacroblock {
                    skipped: false,
                    partitions: vec![ResolvedPPartition {
                        x: 0,
                        y: 0,
                        width: 8,
                        height: 16,
                        reference_index: 0,
                        motion_vector: MotionVector::default(),
                    }],
                },
                None,
            )
            .is_err()
    );
    assert!(incomplete.finish_optional().is_err());
}

#[test]
fn cloning_a_partial_builder_preserves_its_initialized_cells() {
    let mut partial = MotionFieldBuilder::new(Size::new(32, 16)).unwrap();
    partial.record_intra(0).unwrap();

    let mut completed_clone = partial.clone();
    completed_clone.record_intra(1).unwrap();
    let field = completed_clone.finish().unwrap();
    assert!((0..8).all(|x| field.cell(x, 0).unwrap().intra));

    assert!(partial.finish().is_err());
}
