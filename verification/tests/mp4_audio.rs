use decv::media::ChannelLayout;
use decv::mp4::audio::parse_audio_specific_config;
use decv::mp4::error::Mp4Error;

#[test]
fn parses_common_aac_lc_audio_specific_configs() {
    let stereo = parse_audio_specific_config(&[0x12, 0x10, 0x56, 0xe5, 0x00]).unwrap();
    assert_eq!(stereo.sample_rate, 44_100);
    assert_eq!(stereo.channel_layout, ChannelLayout::Stereo);

    let mono = parse_audio_specific_config(&[0x11, 0x88]).unwrap();
    assert_eq!(mono.sample_rate, 48_000);
    assert_eq!(mono.channel_layout, ChannelLayout::Mono);
}

#[test]
fn rejects_unsupported_or_truncated_audio_specific_configs() {
    assert!(matches!(
        parse_audio_specific_config(&[0x2a, 0x10]),
        Err(Mp4Error::UnsupportedFeature(
            "AAC object type is not AAC-LC"
        ))
    ));
    assert!(matches!(
        parse_audio_specific_config(&[0x12]),
        Err(Mp4Error::InvalidData(
            "AAC AudioSpecificConfig is truncated"
        ))
    ));
}
