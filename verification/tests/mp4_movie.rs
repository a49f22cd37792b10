use std::io;

use decv::input::MediaInput;
use decv::media::{BitstreamFormat, MediaTime, VideoCodec};
use decv::mp4::boxes::Mp4File;
use decv::mp4::demuxer::Mp4Demuxer;
use decv::mp4::entry::SampleDescription;
use decv::mp4::error::Mp4Error;
use decv::mp4::fourcc::FourCc;
use decv::mp4::movie::Movie;

#[derive(Debug)]
struct MemoryInput(Vec<u8>);

impl MediaInput for MemoryInput {
    fn len(&self) -> io::Result<Option<u64>> {
        Ok(Some(u64::try_from(self.0.len()).unwrap()))
    }

    fn prefetch(&self, _offset: u64, _length: usize) -> io::Result<()> {
        Ok(())
    }

    fn read_at(&self, offset: u64, buffer: &mut [u8]) -> io::Result<usize> {
        let offset = usize::try_from(offset).unwrap_or(usize::MAX);
        let Some(source) = self.0.get(offset..) else {
            return Ok(0);
        };
        let count = source.len().min(buffer.len()).min(3);
        buffer[..count].copy_from_slice(&source[..count]);
        Ok(count)
    }
}

fn boxed(kind: [u8; 4], payload: &[u8]) -> Vec<u8> {
    let mut bytes = Vec::from(u32::try_from(8 + payload.len()).unwrap().to_be_bytes());
    bytes.extend_from_slice(&kind);
    bytes.extend_from_slice(payload);
    bytes
}

fn full(version: u8, flags: u32, body: &[u8]) -> Vec<u8> {
    let mut bytes = vec![
        version,
        u8::try_from(flags >> 16).unwrap(),
        u8::try_from(flags >> 8 & 0xff).unwrap(),
        u8::try_from(flags & 0xff).unwrap(),
    ];
    bytes.extend_from_slice(body);
    bytes
}

fn synthetic_movie() -> Vec<u8> {
    let mut mvhd = vec![0; 8];
    mvhd.extend_from_slice(&1_000u32.to_be_bytes());
    mvhd.extend_from_slice(&5_000u32.to_be_bytes());
    mvhd.extend_from_slice(&[0; 80]);

    let mut tkhd = vec![0; 8];
    tkhd.extend_from_slice(&7u32.to_be_bytes());
    tkhd.extend_from_slice(&0u32.to_be_bytes());
    tkhd.extend_from_slice(&5_000u32.to_be_bytes());
    tkhd.extend_from_slice(&[0; 52]);
    tkhd.extend_from_slice(&(1_920u32 << 16).to_be_bytes());
    tkhd.extend_from_slice(&(1_080u32 << 16).to_be_bytes());

    let mut mdhd = vec![0; 8];
    mdhd.extend_from_slice(&90_000u32.to_be_bytes());
    mdhd.extend_from_slice(&450_000u32.to_be_bytes());
    mdhd.extend_from_slice(&[0; 4]);

    let mut hdlr = vec![0; 4];
    hdlr.extend_from_slice(b"vide");
    hdlr.extend_from_slice(&[0; 12]);
    hdlr.extend_from_slice(b"Video\0");

    let avcc = boxed(
        *b"avcC",
        &[
            1, 100, 0, 40, 0xff, 0xe1, 0, 3, 0x67, 1, 2, 1, 0, 2, 0x68, 3,
        ],
    );
    let mut avc1 = vec![0; 6];
    avc1.extend_from_slice(&1u16.to_be_bytes());
    avc1.extend_from_slice(&[0; 16]);
    avc1.extend_from_slice(&1_920u16.to_be_bytes());
    avc1.extend_from_slice(&1_080u16.to_be_bytes());
    avc1.extend_from_slice(&[0; 50]);
    avc1.extend_from_slice(&avcc);
    let avc1 = boxed(*b"avc1", &avc1);

    let mut stsd = full(0, 0, &1u32.to_be_bytes());
    stsd.extend_from_slice(&avc1);
    let stts = boxed(
        *b"stts",
        &full(0, 0, &[1u32, 3, 3_000].map(u32::to_be_bytes).concat()),
    );
    let stsc = boxed(
        *b"stsc",
        &full(0, 0, &[1u32, 1, 3, 1].map(u32::to_be_bytes).concat()),
    );
    let stsz = boxed(
        *b"stsz",
        &full(0, 0, &[1u32, 3].map(u32::to_be_bytes).concat()),
    );
    let stco = boxed(
        *b"stco",
        &full(0, 0, &[1u32, 0].map(u32::to_be_bytes).concat()),
    );
    let stss = boxed(
        *b"stss",
        &full(0, 0, &[2u32, 1, 3].map(u32::to_be_bytes).concat()),
    );
    let mut stbl_payload = boxed(*b"stsd", &stsd);
    stbl_payload.extend_from_slice(&stts);
    stbl_payload.extend_from_slice(&stsc);
    stbl_payload.extend_from_slice(&stsz);
    stbl_payload.extend_from_slice(&stco);
    stbl_payload.extend_from_slice(&stss);
    let stbl = boxed(*b"stbl", &stbl_payload);
    let minf = boxed(*b"minf", &stbl);

    let mut mdia = boxed(*b"mdhd", &full(0, 0, &mdhd));
    mdia.extend_from_slice(&boxed(*b"hdlr", &full(0, 0, &hdlr)));
    mdia.extend_from_slice(&minf);

    let mut elst = Vec::from(1u32.to_be_bytes());
    elst.extend_from_slice(&5_000u32.to_be_bytes());
    elst.extend_from_slice(&9_000i32.to_be_bytes());
    elst.extend_from_slice(&1i16.to_be_bytes());
    elst.extend_from_slice(&0i16.to_be_bytes());
    let edts = boxed(*b"edts", &boxed(*b"elst", &full(0, 0, &elst)));

    let mut trak = boxed(*b"tkhd", &full(0, 3, &tkhd));
    trak.extend_from_slice(&edts);
    trak.extend_from_slice(&boxed(*b"mdia", &mdia));

    let mut moov = boxed(*b"mvhd", &full(0, 0, &mvhd));
    moov.extend_from_slice(&boxed(*b"trak", &trak));
    let mut file = boxed(*b"ftyp", b"isom\0\0\0\0isom");
    file.extend_from_slice(&boxed(*b"moov", &moov));
    file
}

#[test]
fn parses_movie_video_track_and_avc_configuration() {
    let input = MemoryInput(synthetic_movie());
    let movie = Movie::parse(&Mp4File::open(&input).unwrap()).unwrap();
    assert_eq!(movie.timescale().get(), 1_000);
    assert_eq!(movie.duration(), Some(5_000));
    assert_eq!(movie.tracks().len(), 1);

    let track = &movie.tracks()[0];
    assert_eq!(track.id(), 7);
    assert_eq!(track.flags(), 3);
    assert_eq!(track.handler(), FourCc::new(*b"vide"));
    assert_eq!(track.media_timescale().get(), 90_000);
    assert_eq!(track.media_duration(), Some(450_000));
    assert_eq!(track.display_width_16_16(), 1_920 << 16);
    assert_eq!(track.display_height_16_16(), 1_080 << 16);
    assert_eq!(track.samples().len(), 3);
    assert_eq!(track.sync_sample_indices(), [0, 2]);
    assert_eq!(track.edits().len(), 1);
    assert_eq!(track.edits()[0].media_time(), Some(9_000));
    assert_eq!(
        track.presentation_time_offset().unwrap(),
        MediaTime::from_parts(-9_000, 90_000).unwrap()
    );
    assert_eq!(
        track
            .keyframe_at_or_before(MediaTime::from_parts(-9_001, 90_000).unwrap())
            .unwrap(),
        None
    );
    assert_eq!(
        track
            .keyframe_at_or_before(MediaTime::from_parts(-5_000, 90_000).unwrap())
            .unwrap(),
        Some(0)
    );
    assert_eq!(
        track
            .keyframe_at_or_before(MediaTime::from_parts(-1, 30).unwrap())
            .unwrap(),
        Some(2)
    );
    assert_eq!(
        track
            .keyframe_at_or_after(MediaTime::from_parts(-9_001, 90_000).unwrap())
            .unwrap(),
        Some(0)
    );
    assert_eq!(
        track
            .keyframe_at_or_after(MediaTime::from_parts(-5_000, 90_000).unwrap())
            .unwrap(),
        Some(2)
    );
    assert_eq!(
        track
            .keyframe_at_or_after(MediaTime::from_parts(-1, 30).unwrap())
            .unwrap(),
        Some(2)
    );
    assert_eq!(
        track
            .keyframe_at_or_after(MediaTime::from_parts(0, 1).unwrap())
            .unwrap(),
        None
    );
    assert_eq!(
        track
            .keyframe_nearest(MediaTime::from_parts(-9_001, 90_000).unwrap())
            .unwrap(),
        Some(0)
    );
    assert_eq!(
        track
            .keyframe_nearest(MediaTime::from_parts(-7_000, 90_000).unwrap())
            .unwrap(),
        Some(0)
    );
    assert_eq!(
        track
            .keyframe_nearest(MediaTime::from_parts(-1, 15).unwrap())
            .unwrap(),
        Some(0),
        "an equidistant target prefers the earlier keyframe"
    );
    assert_eq!(
        track
            .keyframe_nearest(MediaTime::from_parts(-5_000, 90_000).unwrap())
            .unwrap(),
        Some(2)
    );
    assert_eq!(
        track
            .keyframe_nearest(MediaTime::from_parts(0, 1).unwrap())
            .unwrap(),
        Some(2)
    );

    let SampleDescription::Avc(entry) = &track.sample_descriptions()[0] else {
        panic!("expected AVC sample entry");
    };
    assert_eq!(entry.format(), FourCc::new(*b"avc1"));
    assert_eq!(entry.data_reference_index(), 1);
    assert_eq!((entry.width(), entry.height()), (1_920, 1_080));
    assert_eq!(
        entry.codec_configuration().as_slice(),
        [
            1, 100, 0, 40, 0xff, 0xe1, 0, 3, 0x67, 1, 2, 1, 0, 2, 0x68, 3,
        ]
    );
    let config = track.decoder_config_for_sample(0).unwrap();
    assert_eq!(config.codec, VideoCodec::H264);
    assert_eq!(
        config.bitstream_format,
        BitstreamFormat::LengthPrefixed { length_size: 4 }
    );
    assert_eq!(
        config.codec_data.unwrap().as_slice(),
        entry.codec_configuration().as_slice()
    );

    let packet = track.read_packet(&input, 0).unwrap();
    assert_eq!(packet.data.as_slice(), [0]);
    assert_eq!(packet.pts, MediaTime::from_parts(-9_000, 90_000));
    assert_eq!(packet.dts, MediaTime::from_parts(-9_000, 90_000));
    assert_eq!(packet.duration, MediaTime::from_parts(3_000, 90_000));
    assert!(packet.keyframe);
}

#[test]
fn rejects_missing_movie_and_zero_timescale() {
    let input = MemoryInput(boxed(*b"ftyp", b"isom"));
    assert!(matches!(
        Movie::parse(&Mp4File::open(&input).unwrap()),
        Err(Mp4Error::InvalidData("MP4 has no moov box"))
    ));

    let mut mvhd = vec![0; 16];
    mvhd.extend_from_slice(&[0; 80]);
    let input = MemoryInput(boxed(*b"moov", &boxed(*b"mvhd", &full(0, 0, &mvhd))));
    assert!(matches!(
        Movie::parse(&Mp4File::open(&input).unwrap()),
        Err(Mp4Error::InvalidData("movie/media timescale is zero"))
    ));
}

#[test]
fn rejects_declared_sample_description_count_mismatch() {
    let mut bytes = synthetic_movie();
    let position = bytes
        .windows(4)
        .position(|window| window == b"stsd")
        .unwrap();
    let entry_count = position + 8;
    bytes[entry_count..entry_count + 4].copy_from_slice(&2u32.to_be_bytes());
    let input = MemoryInput(bytes);
    assert!(matches!(
        Movie::parse(&Mp4File::open(&input).unwrap()),
        Err(Mp4Error::InvalidData(
            "stsd has fewer entries than declared"
        ))
    ));
}

#[test]
fn owned_demuxer_reads_indexed_packets() {
    let demuxer = Mp4Demuxer::open(MemoryInput(synthetic_movie())).unwrap();
    assert_eq!(demuxer.movie().tracks().len(), 1);
    assert_eq!(demuxer.read_packet(0, 0).unwrap().data.as_slice(), [0]);
    assert!(matches!(
        demuxer.read_packet(1, 0),
        Err(Mp4Error::IndexOutOfRange {
            kind: "track",
            index: 1
        })
    ));

    let mut cursor = demuxer.packet_cursor(0).unwrap();
    assert_eq!(cursor.next_sample_index(), 0);
    assert_eq!(
        cursor.decoder_config().unwrap().unwrap().bitstream_format,
        BitstreamFormat::LengthPrefixed { length_size: 4 }
    );
    assert!(cursor.next_packet().unwrap().is_some());
    assert_eq!(cursor.next_sample_index(), 1);
    assert_eq!(
        cursor
            .seek_to_keyframe(MediaTime::from_parts(-5_000, 90_000).unwrap())
            .unwrap(),
        Some(0)
    );
    assert_eq!(cursor.next_sample_index(), 0);
    assert_eq!(
        cursor
            .seek_to_keyframe(MediaTime::from_parts(-3_000, 90_000).unwrap())
            .unwrap(),
        Some(2)
    );
    assert_eq!(cursor.next_sample_index(), 2);
    assert_eq!(
        cursor
            .seek_to_keyframe_at_or_after(MediaTime::from_parts(-8_999, 90_000).unwrap())
            .unwrap(),
        Some(2)
    );
    assert_eq!(cursor.next_sample_index(), 2);
    assert_eq!(
        cursor
            .seek_to_nearest_keyframe(MediaTime::from_parts(-7_000, 90_000).unwrap())
            .unwrap(),
        Some(0)
    );
    assert_eq!(cursor.next_sample_index(), 0);
    assert_eq!(
        cursor
            .seek_to_nearest_keyframe(MediaTime::from_parts(-5_000, 90_000).unwrap())
            .unwrap(),
        Some(2)
    );
    assert_eq!(cursor.next_sample_index(), 2);
    assert!(cursor.next_packet().unwrap().is_some());
    assert!(cursor.next_packet().unwrap().is_none());
    assert!(cursor.decoder_config().unwrap().is_none());
    cursor.seek_to_sample(1).unwrap();
    assert_eq!(cursor.next_sample_index(), 1);
    assert!(cursor.next_packet().unwrap().is_some());
    assert_eq!(cursor.next_sample_index(), 2);
    cursor.seek_to_sample(3).unwrap();
    assert!(cursor.next_packet().unwrap().is_none());
    assert!(matches!(
        cursor.seek_to_sample(4),
        Err(Mp4Error::IndexOutOfRange {
            kind: "sample cursor",
            index: 4
        })
    ));
    cursor.rewind();
    assert_eq!(cursor.next_sample_index(), 0);
}

fn exercise_demuxer(bytes: Vec<u8>) {
    let Ok(demuxer) = Mp4Demuxer::open(MemoryInput(bytes)) else {
        return;
    };

    for (track_index, track) in demuxer.movie().tracks().iter().enumerate() {
        for sample_index in 0..track.samples().len() {
            let _ = track.decoder_config_for_sample(sample_index);
            let _ = demuxer.read_packet(track_index, sample_index);
        }
    }
}

#[test]
fn truncated_or_single_byte_corrupted_movies_do_not_panic() {
    let valid = synthetic_movie();

    for end in 0..=valid.len() {
        exercise_demuxer(valid[..end].to_vec());
    }

    for index in 0..valid.len() {
        for mask in [0x01, 0x80, 0xff] {
            let mut corrupted = valid.clone();
            corrupted[index] ^= mask;
            exercise_demuxer(corrupted);
        }
    }
}
