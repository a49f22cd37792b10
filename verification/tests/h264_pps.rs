use decv::h264::error::H264Error;
use decv::h264::pps::{
    EntropyCodingMode, PictureParameterSet, SliceGroupMap, SliceGroupRectangle,
    WeightedBiprediction,
};
use decv::h264::sps::SequenceParameterSet;

#[test]
fn parses_a_basic_cavlc_pps_and_its_defaults() {
    let sps = test_sps(4, 3);
    let mut writer = BitWriter::default();
    write_pps_prefix(&mut writer, 0, 0, false, false, 0);
    write_pps_suffix(&mut writer, 0, 1, true, 0, -2, true, true, false);

    let pps = PictureParameterSet::parse(&writer.finish_rbsp(), &sps).unwrap();

    assert_eq!(pps.id, 0);
    assert_eq!(pps.entropy_coding_mode, EntropyCodingMode::Cavlc);
    assert_eq!(pps.num_slice_groups, 1);
    assert_eq!(pps.slice_group_map, None);
    assert_eq!(pps.num_ref_idx_l0_default_active, 1);
    assert_eq!(pps.num_ref_idx_l1_default_active, 2);
    assert!(pps.weighted_prediction);
    assert_eq!(pps.weighted_biprediction, WeightedBiprediction::Default);
    assert_eq!(pps.pic_init_qp, 26);
    assert_eq!(pps.pic_init_qs, 27);
    assert_eq!(pps.chroma_qp_index_offset, -2);
    assert_eq!(pps.second_chroma_qp_index_offset, -2);
    assert!(!pps.transform_8x8_mode);
}

#[test]
fn parses_all_algorithmic_slice_group_map_shapes() {
    let sps = test_sps(4, 3);

    let mut interleaved = BitWriter::default();
    write_pps_prefix(&mut interleaved, 1, 0, false, false, 2);
    interleaved.write_ue(0);
    interleaved.write_ue(1);
    interleaved.write_ue(2);
    interleaved.write_ue(3);
    write_pps_suffix(&mut interleaved, 0, 0, false, 0, 0, false, false, false);
    let parsed = PictureParameterSet::parse(&interleaved.finish_rbsp(), &sps).unwrap();
    assert_eq!(
        parsed.slice_group_map,
        Some(SliceGroupMap::Interleaved {
            run_lengths: vec![2, 3, 4]
        })
    );

    let mut dispersed = BitWriter::default();
    write_pps_prefix(&mut dispersed, 2, 0, false, false, 1);
    dispersed.write_ue(1);
    write_pps_suffix(&mut dispersed, 0, 0, false, 0, 0, false, false, false);
    let parsed = PictureParameterSet::parse(&dispersed.finish_rbsp(), &sps).unwrap();
    assert_eq!(parsed.slice_group_map, Some(SliceGroupMap::Dispersed));

    for map_type in 3..=5 {
        let mut changing = BitWriter::default();
        write_pps_prefix(&mut changing, 3 + map_type, 0, false, false, 1);
        changing.write_ue(map_type);
        changing.write_flag(true);
        changing.write_ue(3);
        write_pps_suffix(&mut changing, 0, 0, false, 0, 0, false, false, false);
        let parsed = PictureParameterSet::parse(&changing.finish_rbsp(), &sps).unwrap();
        assert_eq!(
            parsed.slice_group_map,
            Some(SliceGroupMap::Changing {
                map_type: map_type as u8,
                change_direction: true,
                change_rate: 4
            })
        );
    }
}

#[test]
fn parses_foreground_and_explicit_slice_group_maps() {
    let sps = test_sps(4, 3);

    let mut foreground = BitWriter::default();
    write_pps_prefix(&mut foreground, 7, 0, false, false, 2);
    foreground.write_ue(2);
    foreground.write_ue(0);
    foreground.write_ue(5);
    foreground.write_ue(6);
    foreground.write_ue(11);
    write_pps_suffix(&mut foreground, 0, 0, false, 0, 0, false, false, false);
    let parsed = PictureParameterSet::parse(&foreground.finish_rbsp(), &sps).unwrap();
    assert_eq!(
        parsed.slice_group_map,
        Some(SliceGroupMap::Foreground {
            rectangles: vec![
                SliceGroupRectangle {
                    top_left: 0,
                    bottom_right: 5
                },
                SliceGroupRectangle {
                    top_left: 6,
                    bottom_right: 11
                }
            ]
        })
    );

    let mut explicit = BitWriter::default();
    write_pps_prefix(&mut explicit, 8, 0, false, false, 2);
    explicit.write_ue(6);
    explicit.write_ue(11);
    let ids = [0, 1, 2, 0, 1, 2, 0, 1, 2, 0, 1, 2];
    for id in ids {
        explicit.write_bits(id, 2);
    }
    write_pps_suffix(&mut explicit, 0, 0, false, 0, 0, false, false, false);
    let parsed = PictureParameterSet::parse(&explicit.finish_rbsp(), &sps).unwrap();
    assert_eq!(
        parsed.slice_group_map,
        Some(SliceGroupMap::Explicit {
            slice_group_ids: ids.map(|id| id as u8).to_vec()
        })
    );
}

#[test]
fn parses_cabac_and_high_profile_pps_extensions() {
    let sps = test_sps(4, 3);
    let mut writer = BitWriter::default();
    write_pps_prefix(&mut writer, 9, 0, true, true, 0);
    write_pps_suffix(&mut writer, 2, 0, false, 2, 3, true, false, true);
    writer.write_flag(true); // transform_8x8_mode
    writer.write_flag(true); // scaling matrix present
    writer.write_flag(true); // first scaling list
    for _ in 0..16 {
        writer.write_se(0);
    }
    for _ in 1..8 {
        writer.write_flag(false);
    }
    writer.write_se(-3);

    let pps = PictureParameterSet::parse(&writer.finish_rbsp(), &sps).unwrap();

    assert_eq!(pps.entropy_coding_mode, EntropyCodingMode::Cabac);
    assert!(pps.bottom_field_pic_order_in_frame_present);
    assert_eq!(pps.weighted_biprediction, WeightedBiprediction::Implicit);
    assert_eq!(pps.pic_init_qp, 28);
    assert_eq!(pps.chroma_qp_index_offset, 3);
    assert!(pps.transform_8x8_mode);
    assert_eq!(pps.scaling_matrices.unwrap().lists.len(), 8);
    assert_eq!(pps.second_chroma_qp_index_offset, -3);
}

#[test]
fn rejects_invalid_pps_values_before_allocating_maps() {
    let sps = test_sps(4, 3);

    let mut wrong_sps = BitWriter::default();
    write_pps_prefix(&mut wrong_sps, 0, 1, false, false, 0);
    assert_eq!(
        PictureParameterSet::parse(&wrong_sps.finish_rbsp(), &sps),
        Err(H264Error::MissingSps(1))
    );

    let mut too_many_groups = BitWriter::default();
    write_pps_prefix(&mut too_many_groups, 0, 0, false, false, 8);
    assert!(matches!(
        PictureParameterSet::parse(&too_many_groups.finish_rbsp(), &sps),
        Err(H264Error::InvalidSyntax(_))
    ));

    let mut wrong_map_size = BitWriter::default();
    write_pps_prefix(&mut wrong_map_size, 0, 0, false, false, 1);
    wrong_map_size.write_ue(6);
    wrong_map_size.write_ue(10);
    assert!(matches!(
        PictureParameterSet::parse(&wrong_map_size.finish_rbsp(), &sps),
        Err(H264Error::InvalidSyntax(_))
    ));

    let mut reserved_bipred = BitWriter::default();
    write_pps_prefix(&mut reserved_bipred, 0, 0, false, false, 0);
    write_pps_suffix(&mut reserved_bipred, 0, 0, false, 3, 0, false, false, false);
    assert!(matches!(
        PictureParameterSet::parse(&reserved_bipred.finish_rbsp(), &sps),
        Err(H264Error::InvalidSyntax(_))
    ));
}

fn test_sps(width_in_mbs: u32, height_in_map_units: u32) -> SequenceParameterSet {
    let mut writer = BitWriter::default();
    writer.write_bits(66, 8);
    writer.write_bits(0, 8);
    writer.write_bits(30, 8);
    writer.write_ue(0);
    writer.write_ue(0);
    writer.write_ue(0);
    writer.write_ue(0);
    writer.write_ue(1);
    writer.write_flag(false);
    writer.write_ue(width_in_mbs - 1);
    writer.write_ue(height_in_map_units - 1);
    writer.write_flag(true);
    writer.write_flag(true);
    writer.write_flag(false);
    writer.write_flag(false);
    SequenceParameterSet::parse(&writer.finish_rbsp()).unwrap()
}

#[allow(clippy::too_many_arguments)]
fn write_pps_prefix(
    writer: &mut BitWriter,
    pps_id: u32,
    sps_id: u32,
    cabac: bool,
    bottom_field_poc: bool,
    num_slice_groups_minus1: u32,
) {
    writer.write_ue(pps_id);
    writer.write_ue(sps_id);
    writer.write_flag(cabac);
    writer.write_flag(bottom_field_poc);
    writer.write_ue(num_slice_groups_minus1);
}

#[allow(clippy::too_many_arguments)]
fn write_pps_suffix(
    writer: &mut BitWriter,
    pic_init_qp_minus26: i32,
    pic_init_qs_minus26: i32,
    weighted_prediction: bool,
    weighted_biprediction: u32,
    chroma_qp_index_offset: i32,
    deblocking_filter_control_present: bool,
    constrained_intra_prediction: bool,
    redundant_pic_count_present: bool,
) {
    writer.write_ue(0);
    writer.write_ue(1);
    writer.write_flag(weighted_prediction);
    writer.write_bits(u64::from(weighted_biprediction), 2);
    writer.write_se(pic_init_qp_minus26);
    writer.write_se(pic_init_qs_minus26);
    writer.write_se(chroma_qp_index_offset);
    writer.write_flag(deblocking_filter_control_present);
    writer.write_flag(constrained_intra_prediction);
    writer.write_flag(redundant_pic_count_present);
}

#[derive(Default)]
struct BitWriter {
    bytes: Vec<u8>,
    current: u8,
    bits: u8,
}

impl BitWriter {
    fn write_flag(&mut self, value: bool) {
        self.write_bits(u64::from(value), 1);
    }

    fn write_bits(&mut self, value: u64, count: u8) {
        for shift in (0..count).rev() {
            self.current = (self.current << 1) | ((value >> shift) as u8 & 1);
            self.bits += 1;
            if self.bits == 8 {
                self.bytes.push(self.current);
                self.current = 0;
                self.bits = 0;
            }
        }
    }

    fn write_ue(&mut self, value: u32) {
        let code_num = u64::from(value) + 1;
        let width = 64 - code_num.leading_zeros() as u8;
        self.write_bits(0, width - 1);
        self.write_bits(code_num, width);
    }

    fn write_se(&mut self, value: i32) {
        let code_num = if value <= 0 {
            u32::try_from(-i64::from(value) * 2).unwrap()
        } else {
            u32::try_from(i64::from(value) * 2 - 1).unwrap()
        };
        self.write_ue(code_num);
    }

    fn finish_rbsp(mut self) -> Vec<u8> {
        self.write_flag(true);
        if self.bits != 0 {
            self.current <<= 8 - self.bits;
            self.bytes.push(self.current);
        }
        self.bytes
    }
}
