use std::borrow::Cow;

use decv::h264::bits::BitReader;
use decv::h264::error::H264Error;
use decv::h264::nal::{AnnexBNalUnit, NalHeader, NalUnit, NalUnitType};
use decv::h264::parallelism::{
    auto_cap, H264Parallelism, ReconstructionExecutor, ThreadCount,
};
use decv::h264::profiling::InterPredictionProfile;
use decv::h264::quantization::{
    derive_chroma_qp, MacroblockQuantizer, MacroblockQuantizerState,
};
use decv::h264::rbsp::{consume_rbsp_trailing_bits, decode_rbsp, more_rbsp_data};
use decv::h264::reorder::PictureReorderBuffer;
use decv::media::Size;

#[test]
fn parses_common_nal_headers() {
    assert_eq!(
        NalHeader::parse(0x67),
        Ok(NalHeader {
            nal_ref_idc: 3,
            unit_type: NalUnitType::Sps,
        })
    );
    assert_eq!(
        NalHeader::parse(0x65),
        Ok(NalHeader {
            nal_ref_idc: 3,
            unit_type: NalUnitType::IdrSlice,
        })
    );
    assert!(NalUnitType::IdrSlice.is_vcl());
    assert!(!NalUnitType::Sps.is_vcl());
}

#[test]
fn rejects_a_set_forbidden_zero_bit() {
    assert_eq!(NalHeader::parse(0xe7), Err(H264Error::InvalidNalHeader));
}

#[test]
fn retains_unknown_type_values() {
    let unit_type = NalUnitType::from_value(31);

    assert_eq!(unit_type, NalUnitType::Unknown(31));
    assert_eq!(unit_type.value(), 31);
}

#[test]
fn separates_the_header_from_ebsp() {
    let data = [0, 0, 1, 0x67, 0x42, 0x00, 0x1f];
    let annex_b_unit = AnnexBNalUnit::new(&data[3..], 3);
    let nal = NalUnit::try_from(annex_b_unit).unwrap();

    assert_eq!(nal.header.unit_type, NalUnitType::Sps);
    assert_eq!(nal.ebsp, &[0x42, 0x00, 0x1f]);
    assert_eq!(nal.stream_offset, 3);
}

#[test]
fn derives_luma_wraparound_and_chroma_mapping() {
    let mut state = MacroblockQuantizerState::new(26, 0, 0, false).unwrap();
    assert_eq!(
        state.with_macroblock(25, Ok),
        Ok(MacroblockQuantizer {
            luma: 51,
            chroma_cb: 39,
            chroma_cr: 39,
            transform_bypass: false,
        })
    );
    assert_eq!(state.previous_luma(), 51);
    assert_eq!(
        state.with_macroblock(1, Ok),
        Ok(MacroblockQuantizer {
            luma: 0,
            chroma_cb: 0,
            chroma_cr: 0,
            transform_bypass: false,
        })
    );
    assert_eq!(state.previous_luma(), 0);
    assert_eq!(state.derive(-26).unwrap().luma, 26);
}

#[test]
fn applies_independent_chroma_offsets_and_clipping() {
    let state = MacroblockQuantizerState::new(40, 12, -12, false).unwrap();
    assert_eq!(
        state.derive(0),
        Ok(MacroblockQuantizer {
            luma: 40,
            chroma_cb: 39,
            chroma_cr: 28,
            transform_bypass: false,
        })
    );
    assert_eq!(derive_chroma_qp(30, 0), 29);
    assert_eq!(derive_chroma_qp(44, 0), 37);
    assert_eq!(derive_chroma_qp(51, 12), 39);
    assert_eq!(derive_chroma_qp(0, -12), 0);
}

#[test]
fn commits_only_after_a_successful_macroblock() {
    let mut state = MacroblockQuantizerState::new(20, 0, 0, false).unwrap();
    let result: decv::h264::error::Result<()> = state.with_macroblock(5, |_| Err(H264Error::UnexpectedEof));
    assert_eq!(result, Err(H264Error::UnexpectedEof));
    assert_eq!(state.previous_luma(), 20);

    assert_eq!(state.with_macroblock(5, |_| Ok("done")), Ok("done"));
    assert_eq!(state.previous_luma(), 25);
}

#[test]
fn derives_transform_bypass_at_zero_luma_qp() {
    let mut state = MacroblockQuantizerState::new(1, 0, 0, true).unwrap();
    assert!(state.with_macroblock(-1, Ok).unwrap().transform_bypass);
    assert!(!state.with_macroblock(1, Ok).unwrap().transform_bypass);
}

#[test]
fn rejects_invalid_initial_values_and_delta() {
    assert!(matches!(
        MacroblockQuantizerState::new(52, 0, 0, false),
        Err(H264Error::InvalidSyntax(_))
    ));
    assert!(matches!(
        MacroblockQuantizerState::new(26, 13, 0, false),
        Err(H264Error::InvalidSyntax(_))
    ));
    let state = MacroblockQuantizerState::new(26, 0, 0, false).unwrap();
    assert!(matches!(state.derive(26), Err(H264Error::InvalidSyntax(_))));
}

#[test]
fn releases_decode_order_immediately_when_reordering_is_disabled() {
    let mut buffer = PictureReorderBuffer::new(0);
    assert_eq!(buffer.push(0, "I"), Ok(Some("I")));
    assert_eq!(buffer.push(2, "P"), Ok(Some("P")));
    assert!(buffer.drain().is_empty());
}

#[test]
fn releases_b_pictures_in_poc_order_with_bounded_delay() {
    let mut buffer = PictureReorderBuffer::new(2);
    assert_eq!(buffer.push(0, "I"), Ok(None));
    assert_eq!(buffer.push(6, "P"), Ok(None));
    assert_eq!(buffer.push(2, "B0"), Ok(Some("I")));
    assert_eq!(buffer.push(4, "B1"), Ok(Some("B0")));
    assert_eq!(buffer.drain(), ["B1", "P"]);
}

#[test]
fn preserves_decode_order_for_equal_picture_order_counts() {
    let mut buffer = PictureReorderBuffer::new(3);
    assert_eq!(buffer.push(5, 0), Ok(None));
    assert_eq!(buffer.push(5, 1), Ok(None));
    assert_eq!(buffer.push(5, 2), Ok(None));
    assert_eq!(buffer.drain(), [0, 1, 2]);
}

#[test]
fn clear_discards_delayed_pictures_and_resets_the_sequence() {
    let mut buffer = PictureReorderBuffer::new(1);
    assert_eq!(buffer.push(4, "old"), Ok(None));
    buffer.clear();
    assert!(buffer.drain().is_empty());
    assert_eq!(buffer.push(0, "new"), Ok(None));
    assert_eq!(buffer.drain(), ["new"]);
}

#[test]
fn borrows_an_unescaped_payload() {
    let ebsp = [0x42, 0x00, 0x1f, 0x80];
    let rbsp = decode_rbsp(&ebsp).unwrap();

    assert!(matches!(rbsp, Cow::Borrowed(_)));
    assert_eq!(rbsp.as_ptr(), ebsp.as_ptr());
    assert_eq!(rbsp.as_ref(), ebsp);
}

#[test]
fn removes_one_or_more_emulation_prevention_bytes() {
    let ebsp = [
        0x11, 0x00, 0x00, 0x03, 0x01, 0x22, 0x00, 0x00, 0x03, 0x03, 0x80,
    ];
    let rbsp = decode_rbsp(&ebsp).unwrap();

    assert!(matches!(rbsp, Cow::Owned(_)));
    assert_eq!(
        rbsp.as_ref(),
        &[0x11, 0x00, 0x00, 0x01, 0x22, 0x00, 0x00, 0x03, 0x80]
    );
}

#[test]
fn rejects_invalid_escape_sequences() {
    for ebsp in [&[0x00, 0x00, 0x03][..], &[0x00, 0x00, 0x03, 0x04]] {
        assert_eq!(decode_rbsp(ebsp), Err(H264Error::InvalidRbspEscape));
    }

    for ebsp in [
        &[0x00, 0x00, 0x00][..],
        &[0x00, 0x00, 0x01],
        &[0x00, 0x00, 0x02],
    ] {
        assert_eq!(decode_rbsp(ebsp), Err(H264Error::InvalidRbspEscape));
    }
}

#[test]
fn consumes_valid_rbsp_trailing_bits() {
    let mut aligned = BitReader::new(&[0x80]);
    assert_eq!(consume_rbsp_trailing_bits(&mut aligned), Ok(()));

    let mut unaligned = BitReader::new(&[0b1011_0000]);
    assert_eq!(unaligned.read_bits(3), Ok(0b101));
    assert_eq!(consume_rbsp_trailing_bits(&mut unaligned), Ok(()));
}

#[test]
fn rejects_invalid_or_missing_trailing_bits() {
    let mut missing_stop_bit = BitReader::new(&[0x00]);
    assert_eq!(
        consume_rbsp_trailing_bits(&mut missing_stop_bit),
        Err(H264Error::InvalidTrailingBits)
    );

    let mut nonzero_alignment = BitReader::new(&[0b1100_0000]);
    assert_eq!(
        consume_rbsp_trailing_bits(&mut nonzero_alignment),
        Err(H264Error::InvalidTrailingBits)
    );

    let mut empty = BitReader::new(&[]);
    assert_eq!(
        consume_rbsp_trailing_bits(&mut empty),
        Err(H264Error::UnexpectedEof)
    );
}

#[test]
fn distinguishes_payload_from_rbsp_trailing_bits() {
    let trailing_only = BitReader::new(&[0x80]);
    assert!(!more_rbsp_data(&trailing_only));

    let mut unaligned_tail = BitReader::new(&[0b1011_0000]);
    assert_eq!(unaligned_tail.read_bits(3), Ok(0b101));
    assert!(!more_rbsp_data(&unaligned_tail));

    let payload_then_tail = BitReader::new(&[0b0100_0000]);
    assert!(more_rbsp_data(&payload_then_tail));
}

fn percentages(profile: &InterPredictionProfile) -> Vec<String> {
    profile
        .shares()
        .into_iter()
        .map(|(part, whole)| {
            let share = if whole == 0 {
                0.0
            } else {
                part as f64 * 100.0 / whole as f64
            };
            format!("{share:.1}")
        })
        .collect()
}

#[test]
fn empty_profile_formats_without_dividing_by_zero() {
    let profile = InterPredictionProfile::default();
    let formatted = profile.to_string(&percentages(&profile));
    assert!(formatted.contains("0 calls"));
    assert!(formatted.contains("(0.0%)"));
    assert!(formatted.contains("spatial Direct: macroblocks=0"));
    assert!(formatted.contains("zero-neighbour-triplet=0"));
    assert!(formatted.contains("CABAC decisions: total=0"));
}

#[test]
fn auto_uses_a_larger_cap_only_for_4k_class_pictures() {
    for available in [1usize, 2, 3, 8] {
        let threads = ThreadCount::new(available).unwrap();
        let hd = ReconstructionExecutor::try_new_for_coded_size(
            H264Parallelism::Auto,
            threads,
            Size::new(1920, 1088),
        )
        .unwrap();
        let uhd = ReconstructionExecutor::try_new_for_coded_size(
            H264Parallelism::Auto,
            threads,
            Size::new(3840, 2176),
        )
        .unwrap();
        assert_eq!(hd.worker_count(), available.min(2));
        assert_eq!(uhd.worker_count(), available.min(4));
        let asked = |executor: &ReconstructionExecutor| {
            executor.pool().map_or(1, |pool| pool.current_num_threads())
        };
        assert_eq!(asked(&hd), hd.worker_count());
        assert_eq!(asked(&uhd), uhd.worker_count());
    }
    assert_eq!(auto_cap(Size::new(1920, 1088)), 2);
    assert_eq!(auto_cap(Size::new(3840, 2176)), 4);
}

#[test]
fn worker_pools_run_on_as_many_threads_as_they_say() {
    let executor = ReconstructionExecutor::try_new(
        H264Parallelism::Threads(ThreadCount::new(3).unwrap()),
        ThreadCount::new(8).unwrap(),
    )
    .unwrap();
    let pool = executor.pool().unwrap();
    assert_eq!(pool.current_num_threads(), executor.worker_count());
    assert_eq!(pool.current_num_threads(), 3);
    assert!(ReconstructionExecutor::serial().pool().is_none());
    assert_eq!(executor.share().worker_count(), 3);
}

/// The bytes that stand for a payload.
fn escape(payload: &[u8]) -> Vec<u8> {
    let mut bytes = Vec::new();
    let mut zeros = 0;
    for &byte in payload {
        if zeros == 2 && byte <= 3 {
            bytes.push(3);
            zeros = 0;
        }
        bytes.push(byte);
        zeros = if byte == 0 { zeros + 1 } else { 0 };
    }
    bytes
}

#[test]
fn escaped_payloads_are_read_back() {
    for payload in [
        &[][..],
        &[0, 0][..],
        &[0, 0, 0][..],
        &[0, 0, 3, 0, 0, 1][..],
        &[1, 0, 0, 0, 0, 0, 0, 2][..],
        &[0, 0, 4, 0, 0, 255][..],
    ] {
        assert_eq!(decode_rbsp(&escape(payload)).unwrap().as_ref(), payload);
    }
}

#[test]
fn profiles_count_what_was_recorded() {
    let mut profile = InterPredictionProfile::default();
    profile.record_inter_prediction(16, 8, 0, 0, false, 1, 0, true);
    profile.record_inter_prediction(4, 4, 2, 1, true, 0, 0, false);
    profile.record_spatial_direct_uniform_prediction(true, true, false);
    profile.record_spatial_direct_col_zero_grid(16, 0xffff);
    profile.record_spatial_direct_col_zero_grid(4, 5);
    profile.record_spatial_direct_zero_neighbour_triplet();
    profile.record_cabac_decision(true, true);
    profile.record_cabac_decision(false, true);
    let text = profile.to_string(&percentages(&profile));
    assert!(text.contains("2 calls, 144 luma pixels, 72 chroma pixels"));
    assert!(text.contains("widths: 4=1 8=0 16=1"));
    assert!(text.contains("integer=128 (88.9%)"));
    assert!(text.contains("2d=16 (11.1%) clipped=16 (11.1%)"));
    assert!(text.contains("bilinear=64 (88.9%)"));
    assert!(text.contains("macroblocks=3 prediction-uniform=1"));
    assert!(text.contains("col-zero-clear=0 col-zero-set=1 col-zero-mixed=1"));
    assert!(text.contains("both-zero=1 list0-zero=1 list1-zero=1"));
    assert!(text.contains("zero-neighbour-triplet=1"));
    assert!(text.contains("CABAC decisions: total=2"));
    profile.reset();
    assert_eq!(profile, InterPredictionProfile::default());
}
