use decv::h264::error::H264Error;
use decv::h264::nal::{NalHeader, NalUnitType};
use decv::h264::parameter_sets::ParameterSetStore;
use decv::h264::slice::{
    DeblockingFilter, MemoryManagementOperation, ParsedSliceHeader, PredictionWeight,
    ReferenceListModification, ReferencePictureMarking, SliceType, WeightOffset,
};

#[test]
fn parses_an_idr_i_slice_and_resolves_parameter_sets() {
    let mut store = parameter_sets(PpsOptions::default());
    let mut writer = BitWriter::default();
    writer.write_ue(0);
    writer.write_ue(2);
    writer.write_ue(0);
    writer.write_bits(0, 4);
    writer.write_ue(7);
    writer.write_bits(2, 4);
    writer.write_flag(false); // no_output_of_prior_pics
    writer.write_flag(true); // long_term_reference
    writer.write_se(0); // slice_qp_delta
    writer.write_ue(0); // deblocking enabled
    writer.write_se(0);
    writer.write_se(0);

    let parsed = ParsedSliceHeader::parse(
        &writer.finish_bytes(),
        NalHeader {
            nal_ref_idc: 3,
            unit_type: NalUnitType::IdrSlice,
        },
        &store,
    )
    .unwrap();
    let header = parsed.header;

    assert_eq!(header.slice_type, SliceType::I);
    assert_eq!(header.frame_num, 0);
    assert_eq!(header.idr_pic_id, Some(7));
    assert_eq!(header.picture_order.pic_order_cnt_lsb, Some(2));
    assert_eq!(header.num_ref_idx_l0_active, 0);
    assert_eq!(header.num_ref_idx_l1_active, 0);
    assert_eq!(header.slice_qp_y, 26);
    assert_eq!(
        header.reference_picture_marking,
        ReferencePictureMarking::Idr {
            no_output_of_prior_pictures: false,
            long_term_reference: true
        }
    );
    assert_eq!(
        header.deblocking_filter,
        Some(DeblockingFilter {
            idc: 0,
            alpha_c0_offset_div2: 0,
            beta_offset_div2: 0
        })
    );
    assert_eq!(parsed.parameter_sets.picture.id, 0);
    assert!(header.bit_size > 0);

    store.clear();
}

#[test]
fn parses_weighted_p_slice_modifications_mmco_and_cabac() {
    let store = parameter_sets(PpsOptions {
        id: 1,
        cabac: true,
        weighted_prediction: true,
        ..PpsOptions::default()
    });
    let mut writer = BitWriter::default();
    write_slice_prefix(&mut writer, 0, 0, 1, 5, 4, 6);
    writer.write_flag(true); // override active refs
    writer.write_ue(1); // two L0 references
    writer.write_flag(true); // modify L0
    writer.write_ue(0);
    writer.write_ue(2);
    writer.write_ue(2);
    writer.write_ue(4);
    writer.write_ue(3);
    writer.write_ue(0); // luma denominator
    writer.write_ue(0); // chroma denominator
    writer.write_flag(true);
    writer.write_se(1);
    writer.write_se(-1);
    writer.write_flag(false);
    writer.write_flag(false);
    writer.write_flag(false);
    writer.write_flag(true); // adaptive marking
    writer.write_ue(1);
    writer.write_ue(0);
    writer.write_ue(6);
    writer.write_ue(2);
    writer.write_ue(0);
    writer.write_ue(2); // cabac_init_idc
    writer.write_se(-2);
    writer.write_ue(2); // filter except across slice boundaries
    writer.write_se(-1);
    writer.write_se(1);

    let parsed = ParsedSliceHeader::parse(
        &writer.finish_bytes(),
        NalHeader {
            nal_ref_idc: 2,
            unit_type: NalUnitType::NonIdrSlice,
        },
        &store,
    )
    .unwrap();
    let header = parsed.header;

    assert_eq!(header.slice_type, SliceType::P);
    assert_eq!(header.num_ref_idx_l0_active, 2);
    assert_eq!(
        header.ref_pic_list_modifications_l0,
        vec![
            ReferenceListModification::SubtractPicNum {
                abs_diff_pic_num: 3
            },
            ReferenceListModification::LongTerm {
                long_term_pic_num: 4
            }
        ]
    );
    let weights = header.prediction_weights.unwrap();
    assert_eq!(
        weights.list0[0].luma,
        Some(WeightOffset {
            weight: 1,
            offset: -1
        })
    );
    assert_eq!(weights.list0[1].luma, None);
    assert_eq!(
        header.reference_picture_marking,
        ReferencePictureMarking::Adaptive(vec![
            MemoryManagementOperation::ForgetShortTerm {
                difference_of_pic_nums: 1
            },
            MemoryManagementOperation::MarkCurrentLongTerm {
                long_term_frame_idx: 2
            }
        ])
    );
    assert_eq!(header.cabac_init_idc, Some(2));
    assert_eq!(header.slice_qp_y, 24);
    assert_eq!(
        header.deblocking_filter,
        Some(DeblockingFilter {
            idc: 2,
            alpha_c0_offset_div2: -1,
            beta_offset_div2: 1
        })
    );
}

#[test]
fn parses_an_explicitly_weighted_b_slice() {
    let store = parameter_sets(PpsOptions {
        id: 2,
        weighted_biprediction: 1,
        ..PpsOptions::default()
    });
    let mut writer = BitWriter::default();
    write_slice_prefix(&mut writer, 0, 1, 2, 1, 4, 3);
    writer.write_flag(true); // direct spatial prediction
    writer.write_flag(false); // default reference counts
    writer.write_flag(false); // no L0 modification
    writer.write_flag(false); // no L1 modification
    writer.write_ue(0);
    writer.write_ue(0);
    writer.write_flag(false);
    writer.write_flag(false);
    writer.write_flag(true);
    writer.write_se(2);
    writer.write_se(0);
    writer.write_flag(true);
    writer.write_se(1);
    writer.write_se(-1);
    writer.write_se(2);
    writer.write_se(-2);
    writer.write_se(0); // slice_qp_delta
    writer.write_ue(1); // disable deblocking

    let parsed = ParsedSliceHeader::parse(
        &writer.finish_bytes(),
        NalHeader {
            nal_ref_idc: 0,
            unit_type: NalUnitType::NonIdrSlice,
        },
        &store,
    )
    .unwrap();
    let header = parsed.header;

    assert_eq!(header.slice_type, SliceType::B);
    assert_eq!(header.direct_spatial_mv_prediction, Some(true));
    assert_eq!(header.num_ref_idx_l0_active, 1);
    assert_eq!(header.num_ref_idx_l1_active, 1);
    assert_eq!(
        header.reference_picture_marking,
        ReferencePictureMarking::Unmarked
    );
    let weights = header.prediction_weights.unwrap();
    assert_eq!(weights.list0[0].luma, None);
    assert_eq!(
        weights.list1[0].chroma,
        Some([
            WeightOffset {
                weight: 1,
                offset: -1
            },
            WeightOffset {
                weight: 2,
                offset: -2
            }
        ])
    );
}

#[test]
fn parses_type_one_poc_sp_and_dynamic_slice_groups() {
    let mut store = ParameterSetStore::new();
    store.parse_sps(&interlaced_sps_rbsp()).unwrap();
    store.parse_pps(&dynamic_slice_group_pps_rbsp()).unwrap();

    let mut writer = BitWriter::default();
    writer.write_ue(0);
    writer.write_ue(3); // SP
    writer.write_ue(3);
    writer.write_bits(2, 4); // frame_num
    writer.write_flag(false); // frame picture using MBAFF
    writer.write_se(1);
    writer.write_se(-1);
    writer.write_ue(2); // redundant_pic_cnt
    writer.write_flag(false); // default reference count
    writer.write_flag(false); // no list modification
    writer.write_se(0); // slice_qp_delta
    writer.write_flag(true); // sp_for_switch
    writer.write_se(-1); // slice_qs_delta
    writer.write_ue(1); // disable deblocking
    writer.write_bits(3, 4); // slice_group_change_cycle

    let parsed = ParsedSliceHeader::parse(
        &writer.finish_bytes(),
        NalHeader {
            nal_ref_idc: 0,
            unit_type: NalUnitType::NonIdrSlice,
        },
        &store,
    )
    .unwrap();
    let header = parsed.header;

    assert_eq!(header.slice_type, SliceType::Sp);
    assert_eq!(header.picture_order.delta_pic_order, [Some(1), Some(-1)]);
    assert_eq!(header.redundant_pic_count, Some(2));
    assert_eq!(header.sp_for_switch, Some(true));
    assert_eq!(header.slice_qs_y, Some(25));
    assert_eq!(header.slice_group_change_cycle, Some(3));
}

#[test]
fn rejects_missing_sets_invalid_idr_and_out_of_picture_addresses() {
    let empty = ParameterSetStore::new();
    let mut missing = BitWriter::default();
    missing.write_ue(0);
    missing.write_ue(2);
    missing.write_ue(9);
    assert!(matches!(
        ParsedSliceHeader::parse(
            &missing.finish_bytes(),
            NalHeader {
                nal_ref_idc: 3,
                unit_type: NalUnitType::IdrSlice
            },
            &empty
        ),
        Err(H264Error::MissingPps(9))
    ));

    let store = parameter_sets(PpsOptions::default());
    assert!(matches!(
        ParsedSliceHeader::parse(
            &[],
            NalHeader {
                nal_ref_idc: 0,
                unit_type: NalUnitType::IdrSlice
            },
            &store
        ),
        Err(H264Error::InvalidSyntax(_))
    ));

    let mut outside = BitWriter::default();
    write_slice_prefix(&mut outside, 12, 2, 0, 0, 4, 0);
    assert!(matches!(
        ParsedSliceHeader::parse(
            &outside.finish_bytes(),
            NalHeader {
                nal_ref_idc: 3,
                unit_type: NalUnitType::IdrSlice
            },
            &store
        ),
        Err(H264Error::InvalidSyntax(_))
    ));
}

fn parameter_sets(options: PpsOptions) -> ParameterSetStore {
    let mut store = ParameterSetStore::new();
    store.parse_sps(&sps_rbsp()).unwrap();
    store.parse_pps(&pps_rbsp(options)).unwrap();
    store
}

fn sps_rbsp() -> Vec<u8> {
    let mut writer = BitWriter::default();
    writer.write_bits(66, 8);
    writer.write_bits(0, 8);
    writer.write_bits(30, 8);
    writer.write_ue(0);
    writer.write_ue(0);
    writer.write_ue(0);
    writer.write_ue(0);
    writer.write_ue(2);
    writer.write_flag(false);
    writer.write_ue(3); // four macroblocks wide
    writer.write_ue(2); // three macroblocks high
    writer.write_flag(true);
    writer.write_flag(true);
    writer.write_flag(false);
    writer.write_flag(false);
    writer.finish_rbsp()
}

fn interlaced_sps_rbsp() -> Vec<u8> {
    let mut writer = BitWriter::default();
    writer.write_bits(77, 8);
    writer.write_bits(0, 8);
    writer.write_bits(32, 8);
    writer.write_ue(0);
    writer.write_ue(0);
    writer.write_ue(1);
    writer.write_flag(false);
    writer.write_se(-1);
    writer.write_se(2);
    writer.write_ue(0);
    writer.write_ue(2);
    writer.write_flag(false);
    writer.write_ue(3);
    writer.write_ue(1);
    writer.write_flag(false);
    writer.write_flag(true);
    writer.write_flag(true);
    writer.write_flag(false);
    writer.write_flag(false);
    writer.finish_rbsp()
}

#[derive(Default, Clone, Copy)]
struct PpsOptions {
    id: u32,
    cabac: bool,
    weighted_prediction: bool,
    weighted_biprediction: u64,
}

fn pps_rbsp(options: PpsOptions) -> Vec<u8> {
    let mut writer = BitWriter::default();
    writer.write_ue(options.id);
    writer.write_ue(0);
    writer.write_flag(options.cabac);
    writer.write_flag(false);
    writer.write_ue(0);
    writer.write_ue(0);
    writer.write_ue(0);
    writer.write_flag(options.weighted_prediction);
    writer.write_bits(options.weighted_biprediction, 2);
    writer.write_se(0);
    writer.write_se(0);
    writer.write_se(0);
    writer.write_flag(true);
    writer.write_flag(false);
    writer.write_flag(false);
    writer.finish_rbsp()
}

fn dynamic_slice_group_pps_rbsp() -> Vec<u8> {
    let mut writer = BitWriter::default();
    writer.write_ue(3);
    writer.write_ue(0);
    writer.write_flag(false);
    writer.write_flag(true);
    writer.write_ue(1);
    writer.write_ue(3);
    writer.write_flag(false);
    writer.write_ue(0);
    writer.write_ue(0);
    writer.write_ue(0);
    writer.write_flag(false);
    writer.write_bits(0, 2);
    writer.write_se(0);
    writer.write_se(0);
    writer.write_se(0);
    writer.write_flag(true);
    writer.write_flag(false);
    writer.write_flag(true);
    writer.finish_rbsp()
}

fn write_slice_prefix(
    writer: &mut BitWriter,
    first_mb: u32,
    slice_type: u32,
    pps_id: u32,
    frame_num: u64,
    frame_num_bits: u8,
    pic_order_cnt_lsb: u64,
) {
    writer.write_ue(first_mb);
    writer.write_ue(slice_type);
    writer.write_ue(pps_id);
    writer.write_bits(frame_num, frame_num_bits);
    writer.write_bits(pic_order_cnt_lsb, 4);
}

#[derive(Default)]
struct BitWriter {
    bytes: Vec<u8>,
    current: u8,
    bits: u8,
}

impl BitWriter {
    fn write_flag(&mut self, value: bool) {
        self.write_bits(u64::from(value), 1);
    }

    fn write_bits(&mut self, value: u64, count: u8) {
        for shift in (0..count).rev() {
            self.current = (self.current << 1) | ((value >> shift) as u8 & 1);
            self.bits += 1;
            if self.bits == 8 {
                self.bytes.push(self.current);
                self.current = 0;
                self.bits = 0;
            }
        }
    }

    fn write_ue(&mut self, value: u32) {
        let code_num = u64::from(value) + 1;
        let width = 64 - code_num.leading_zeros() as u8;
        self.write_bits(0, width - 1);
        self.write_bits(code_num, width);
    }

    fn write_se(&mut self, value: i32) {
        let code_num = if value <= 0 {
            u32::try_from(-i64::from(value) * 2).unwrap()
        } else {
            u32::try_from(i64::from(value) * 2 - 1).unwrap()
        };
        self.write_ue(code_num);
    }

    fn finish_bytes(mut self) -> Vec<u8> {
        if self.bits != 0 {
            self.current <<= 8 - self.bits;
            self.bytes.push(self.current);
        }
        self.bytes
    }

    fn finish_rbsp(mut self) -> Vec<u8> {
        self.write_flag(true);
        self.finish_bytes()
    }
}
