use decv::h264::bits::BitReader;
use decv::h264::sps::{
    parse_sample_aspect_ratio, PicOrderCount, Profile, SampleAspectRatio, SequenceParameterSet,
};
use decv::media::{ColorMatrix, ColorPrimaries, ColorRange, Size, TransferFunction};

#[test]
fn parses_a_baseline_640_by_480_sps() {
    let mut writer = BitWriter::default();
    write_common_header(&mut writer, 66, 30, 0);
    writer.write_ue(0); // log2_max_frame_num_minus4
    writer.write_ue(0); // pic_order_cnt_type
    writer.write_ue(0); // log2_max_pic_order_cnt_lsb_minus4
    writer.write_ue(1); // max_num_ref_frames
    writer.write_flag(false); // gaps
    writer.write_ue(39); // 40 macroblocks wide
    writer.write_ue(29); // 30 map units high
    writer.write_flag(true); // frame_mbs_only
    writer.write_flag(true); // direct_8x8_inference
    writer.write_flag(false); // cropping
    writer.write_flag(false); // VUI
    let rbsp = writer.finish_rbsp();

    let sps = SequenceParameterSet::parse(&rbsp).unwrap();

    assert_eq!(sps.profile, Profile::Baseline);
    assert_eq!(sps.id, 0);
    assert_eq!(sps.coded_size, Size::new(640, 480));
    assert_eq!(sps.visible_rect.size(), Size::new(640, 480));
    assert_eq!(sps.display_size, Size::new(640, 480));
    assert_eq!(sps.log2_max_frame_num, 4);
    assert_eq!(
        sps.pic_order_count,
        PicOrderCount::Type0 {
            log2_max_pic_order_cnt_lsb: 4
        }
    );
}

#[test]
fn parses_high_profile_crop_color_and_timing() {
    let mut writer = BitWriter::default();
    write_common_header(&mut writer, 100, 40, 3);
    writer.write_ue(1); // chroma_format_idc = 4:2:0
    writer.write_ue(0); // bit_depth_luma_minus8
    writer.write_ue(0); // bit_depth_chroma_minus8
    writer.write_flag(false); // transform bypass
    writer.write_flag(false); // scaling matrices
    writer.write_ue(0); // log2_max_frame_num_minus4
    writer.write_ue(0); // pic_order_cnt_type
    writer.write_ue(2); // log2_max_pic_order_cnt_lsb_minus4
    writer.write_ue(4); // max_num_ref_frames
    writer.write_flag(false); // gaps
    writer.write_ue(119); // 1920 / 16 - 1
    writer.write_ue(67); // 1088 / 16 - 1
    writer.write_flag(true); // frame_mbs_only
    writer.write_flag(true); // direct_8x8_inference
    writer.write_flag(true); // cropping
    writer.write_ue(0);
    writer.write_ue(0);
    writer.write_ue(0);
    writer.write_ue(4); // crop eight luma rows
    writer.write_flag(true); // VUI
    writer.write_flag(true); // aspect ratio
    writer.write_bits(1, 8); // square pixels
    writer.write_flag(false); // overscan
    writer.write_flag(true); // video signal
    writer.write_bits(5, 3); // unspecified video format
    writer.write_flag(false); // limited range
    writer.write_flag(true); // colour description
    writer.write_bits(1, 8); // BT.709 primaries
    writer.write_bits(1, 8); // BT.709 transfer
    writer.write_bits(1, 8); // BT.709 matrix
    writer.write_flag(false); // chroma location
    writer.write_flag(true); // timing
    writer.write_bits(1_001, 32);
    writer.write_bits(60_000, 32);
    writer.write_flag(true);
    writer.write_flag(false); // NAL HRD
    writer.write_flag(false); // VCL HRD
    writer.write_flag(false); // pic_struct_present
    writer.write_flag(false); // bitstream restrictions
    let rbsp = writer.finish_rbsp();

    let sps = SequenceParameterSet::parse(&rbsp).unwrap();
    let vui = sps.vui.unwrap();

    assert_eq!(sps.profile, Profile::High);
    assert_eq!(sps.coded_size, Size::new(1920, 1088));
    assert_eq!(sps.visible_rect.size(), Size::new(1920, 1080));
    assert_eq!(sps.display_size, Size::new(1920, 1080));
    assert_eq!(vui.sample_aspect_ratio, Some(SampleAspectRatio::default()));
    assert_eq!(vui.color.range, ColorRange::Limited);
    assert_eq!(vui.color.matrix, ColorMatrix::Bt709);
    assert_eq!(vui.color.primaries, ColorPrimaries::Bt709);
    assert_eq!(vui.color.transfer, TransferFunction::Bt709);
    assert_eq!(vui.timing.unwrap().num_units_in_tick, 1_001);
    assert_eq!(vui.timing.unwrap().time_scale, 60_000);
}

#[test]
fn parses_scaling_lists_and_non_square_sar() {
    let mut writer = BitWriter::default();
    write_common_header(&mut writer, 100, 31, 1);
    writer.write_ue(1);
    writer.write_ue(0);
    writer.write_ue(0);
    writer.write_flag(false);
    writer.write_flag(true); // sequence scaling matrix
    writer.write_flag(true); // first 4x4 list
    for _ in 0..16 {
        writer.write_se(0);
    }
    for _ in 1..8 {
        writer.write_flag(false);
    }
    writer.write_ue(0);
    writer.write_ue(2); // POC type 2
    writer.write_ue(1);
    writer.write_flag(false);
    writer.write_ue(44); // 720
    writer.write_ue(35); // 576
    writer.write_flag(true);
    writer.write_flag(true);
    writer.write_flag(false);
    writer.write_flag(true); // VUI
    writer.write_flag(true); // SAR
    writer.write_bits(14, 8); // 4:3 sample aspect ratio
    writer.write_flag(false); // overscan
    writer.write_flag(false); // video signal
    writer.write_flag(false); // chroma location
    writer.write_flag(false); // timing
    writer.write_flag(false); // NAL HRD
    writer.write_flag(false); // VCL HRD
    writer.write_flag(false); // pic struct
    writer.write_flag(false); // restrictions
    let rbsp = writer.finish_rbsp();

    let sps = SequenceParameterSet::parse(&rbsp).unwrap();
    let matrices = sps.scaling_matrices.unwrap();

    assert_eq!(matrices.lists.len(), 8);
    assert_eq!(matrices.lists[0].as_ref().unwrap().values, vec![8; 16]);
    assert_eq!(sps.visible_rect.size(), Size::new(720, 576));
    assert_eq!(sps.display_size, Size::new(960, 576));
    assert_eq!(
        sps.vui.unwrap().sample_aspect_ratio,
        Some(SampleAspectRatio {
            width: 4,
            height: 3
        })
    );
}

#[test]
fn preserves_unspecified_sample_aspect_ratio() {
    let mut reader = BitReader::new(&[0]);

    assert_eq!(parse_sample_aspect_ratio(&mut reader), Ok(None));
}

#[test]
fn parses_type_one_poc_interlacing_and_hrd() {
    let mut writer = BitWriter::default();
    write_common_header(&mut writer, 77, 32, 2);
    writer.write_ue(0); // log2_max_frame_num_minus4
    writer.write_ue(1); // POC type 1
    writer.write_flag(false); // delta_pic_order_always_zero
    writer.write_se(-1); // non-reference offset
    writer.write_se(2); // top-to-bottom offset
    writer.write_ue(2); // reference cycle
    writer.write_se(1);
    writer.write_se(-1);
    writer.write_ue(2); // max_num_ref_frames
    writer.write_flag(true); // gaps allowed
    writer.write_ue(19); // 320 pixels
    writer.write_ue(14); // 15 map units * two fields = 480 pixels
    writer.write_flag(false); // frame_mbs_only
    writer.write_flag(true); // MBAFF
    writer.write_flag(true); // direct_8x8
    writer.write_flag(false); // crop
    writer.write_flag(true); // VUI
    writer.write_flag(false); // SAR unspecified
    writer.write_flag(true); // overscan info
    writer.write_flag(false); // overscan not appropriate
    writer.write_flag(false); // video signal unspecified
    writer.write_flag(true); // chroma location
    writer.write_ue(2);
    writer.write_ue(3);
    writer.write_flag(false); // timing
    writer.write_flag(true); // NAL HRD
    writer.write_ue(0); // one CPB
    writer.write_bits(0, 4); // bit-rate scale
    writer.write_bits(0, 4); // CPB-size scale
    writer.write_ue(0); // bit-rate value
    writer.write_ue(0); // CPB-size value
    writer.write_flag(true); // CBR
    for _ in 0..4 {
        writer.write_bits(23, 5);
    }
    writer.write_flag(false); // VCL HRD
    writer.write_flag(true); // low-delay HRD
    writer.write_flag(true); // pic_struct_present
    writer.write_flag(true); // restrictions
    writer.write_flag(true); // MVs over boundaries
    writer.write_ue(2);
    writer.write_ue(1);
    writer.write_ue(16);
    writer.write_ue(16);
    writer.write_ue(1);
    writer.write_ue(2);
    let rbsp = writer.finish_rbsp();

    let sps = SequenceParameterSet::parse(&rbsp).unwrap();
    let vui = sps.vui.unwrap();

    assert_eq!(sps.coded_size, Size::new(320, 480));
    assert!(sps.mb_adaptive_frame_field);
    assert_eq!(vui.sample_aspect_ratio, None);
    assert_eq!(vui.chroma_sample_loc_type_top_field, Some(2));
    assert_eq!(vui.chroma_sample_loc_type_bottom_field, Some(3));
    assert!(vui.pic_struct_present);
    assert_eq!(
        sps.pic_order_count,
        PicOrderCount::Type1 {
            delta_pic_order_always_zero: false,
            offset_for_non_ref_pic: -1,
            offset_for_top_to_bottom_field: 2,
            offset_for_ref_frame: vec![1, -1],
        }
    );
    assert_eq!(
        vui.bitstream_restrictions.unwrap().max_num_reorder_frames,
        1
    );
}

#[test]
fn rejects_unsupported_or_invalid_sps_values() {
    let mut unsupported = BitWriter::default();
    write_common_header(&mut unsupported, 110, 40, 0);
    assert!(SequenceParameterSet::parse(&unsupported.finish_rbsp()).is_err());

    let mut invalid_reserved = BitWriter::default();
    invalid_reserved.write_bits(66, 8);
    invalid_reserved.write_bits(1, 8);
    invalid_reserved.write_bits(30, 8);
    invalid_reserved.write_ue(0);
    assert!(SequenceParameterSet::parse(&invalid_reserved.finish_rbsp()).is_err());
}

fn write_common_header(writer: &mut BitWriter, profile_idc: u8, level_idc: u8, sps_id: u32) {
    writer.write_bits(u64::from(profile_idc), 8);
    writer.write_bits(0, 8);
    writer.write_bits(u64::from(level_idc), 8);
    writer.write_ue(sps_id);
}

#[derive(Default)]
struct BitWriter {
    bits: Vec<u8>,
}

impl BitWriter {
    fn write_flag(&mut self, value: bool) {
        self.bits.push(u8::from(value));
    }

    fn write_bits(&mut self, value: u64, count: u32) {
        for shift in (0..count).rev() {
            self.bits.push(((value >> shift) & 1) as u8);
        }
    }

    fn write_ue(&mut self, value: u32) {
        let code_num = u64::from(value) + 1;
        let width = 64 - code_num.leading_zeros();
        self.bits.extend(std::iter::repeat_n(0, width as usize - 1));
        self.write_bits(code_num, width);
    }

    fn write_se(&mut self, value: i32) {
        let code_num = if value <= 0 {
            value.unsigned_abs() * 2
        } else {
            value as u32 * 2 - 1
        };
        self.write_ue(code_num);
    }

    fn finish_rbsp(mut self) -> Vec<u8> {
        self.bits.push(1);
        while !self.bits.len().is_multiple_of(8) {
            self.bits.push(0);
        }

        let mut bytes = vec![0; self.bits.len() / 8];
        for (position, bit) in self.bits.into_iter().enumerate() {
            bytes[position / 8] |= bit << (7 - position % 8);
        }
        bytes
    }
}
