use std::io;
use std::sync::{Arc, Mutex};

use decv::input::MediaInput;
use decv::media::{AudioCodec, ChannelLayout, MediaTime};
use decv::mp4::boxes::Mp4File;
use decv::mp4::demuxer::{prefetch_range, Mp4Demuxer, PrefetchRange};
use decv::mp4::entry::SampleDescription;
use decv::mp4::error::Mp4Error;
use decv::mp4::fourcc::FourCc;
use decv::mp4::movie::Movie;
use decv::mp4::sample_table::Sample;
use decv::mp4::track::TrackKind;

fn boxed(kind: &[u8; 4], payload: &[u8]) -> Vec<u8> {
    let mut bytes = Vec::from(u32::try_from(8 + payload.len()).unwrap().to_be_bytes());
    bytes.extend_from_slice(kind);
    bytes.extend_from_slice(payload);
    bytes
}

fn words(values: &[u32]) -> Vec<u8> {
    values.iter().flat_map(|value| value.to_be_bytes()).collect()
}

fn join(parts: &[Vec<u8>]) -> Vec<u8> {
    parts.concat()
}

const AVC_CONFIGURATION: [u8; 16] = [
    1, 100, 0, 40, 0xff, 0xe1, 0, 3, 0x67, 1, 2, 1, 0, 2, 0x68, 3,
];

fn movie_header() -> Vec<u8> {
    join(&[words(&[0, 0, 0, 1_000, 5_000]), vec![0; 80]])
}

fn track_header(id: u32) -> Vec<u8> {
    join(&[
        words(&[3, 0, 0, id, 0, 5_000]),
        vec![0; 52],
        words(&[16 << 16, 16 << 16]),
    ])
}

fn handler(kind: &[u8; 4]) -> Vec<u8> {
    join(&[words(&[0, 0]), kind.to_vec(), vec![0; 13]])
}

fn video_entry() -> Vec<u8> {
    let body = join(&[
        vec![0, 0, 0, 0, 0, 0, 0, 1],
        vec![0; 16],
        vec![0, 16, 0, 16],
        vec![0; 50],
        boxed(b"avcC", &AVC_CONFIGURATION),
    ]);
    boxed(b"avc1", &body)
}

fn audio_entry() -> Vec<u8> {
    let decoder = join(&[
        vec![0x40, 0x15, 0, 0, 0],
        words(&[0, 0]),
        vec![0x05, 2, 0x12, 0x10],
    ]);
    let stream = join(&[
        vec![0, 1, 0, 0x04, u8::try_from(decoder.len()).unwrap()],
        decoder,
        vec![0x06, 1, 2],
    ]);
    let descriptor = join(&[
        words(&[0]),
        vec![0x03, u8::try_from(stream.len()).unwrap()],
        stream,
    ]);
    let body = join(&[
        vec![0, 0, 0, 0, 0, 0, 0, 1],
        vec![0; 8],
        vec![0, 2, 0, 16, 0, 0, 0, 0],
        words(&[44_100 << 16]),
        boxed(b"esds", &descriptor),
    ]);
    boxed(b"mp4a", &body)
}

fn track(id: u32, kind: &[u8; 4], timescale: u32, stbl: Vec<u8>) -> Vec<u8> {
    let mdia = join(&[
        boxed(b"mdhd", &words(&[0, 0, 0, timescale, 9_000, 0])),
        boxed(b"hdlr", &handler(kind)),
        boxed(b"minf", &boxed(b"stbl", &stbl)),
    ]);
    boxed(
        b"trak",
        &join(&[boxed(b"tkhd", &track_header(id)), boxed(b"mdia", &mdia)]),
    )
}

fn description(entry: Vec<u8>) -> Vec<u8> {
    boxed(b"stsd", &join(&[words(&[0, 1]), entry]))
}

fn no_samples() -> Vec<u8> {
    join(&[
        boxed(b"stts", &words(&[0, 0])),
        boxed(b"stsc", &words(&[0, 0])),
        boxed(b"stsz", &words(&[0, 0, 0])),
        boxed(b"stco", &words(&[0, 0])),
    ])
}

/// Samples of one byte each, of which the sync samples come out of order.
fn video_samples(offset: u32) -> Vec<u8> {
    join(&[
        boxed(b"stts", &words(&[0, 1, 3, 3_000])),
        boxed(b"ctts", &words(&[0, 2, 1, 9_000, 2, 0])),
        boxed(b"stsc", &words(&[0, 1, 1, 3, 1])),
        boxed(b"stsz", &words(&[0, 1, 3])),
        boxed(b"stco", &words(&[0, 1, offset])),
        boxed(b"stss", &words(&[0, 2, 1, 3])),
    ])
}

fn audio_samples(offset: u32) -> Vec<u8> {
    join(&[
        boxed(b"stts", &words(&[0, 1, 2, 1_024])),
        boxed(b"stsc", &words(&[0, 1, 1, 2, 1])),
        boxed(b"stsz", &words(&[0, 2, 2])),
        boxed(b"stco", &words(&[0, 1, offset])),
    ])
}

/// A video and an audio track behind a box of sample data.
fn two_tracks() -> Vec<u8> {
    let data = boxed(b"mdat", b"vidaudi!");
    let video = track(
        1,
        b"vide",
        90_000,
        join(&[description(video_entry()), video_samples(8)]),
    );
    let audio = track(
        2,
        b"soun",
        44_100,
        join(&[description(audio_entry()), audio_samples(11)]),
    );
    join(&[
        data,
        boxed(b"moov", &join(&[boxed(b"mvhd", &movie_header()), video, audio])),
    ])
}

#[derive(Debug)]
struct TrackingInput {
    bytes: Arc<[u8]>,
    prefetches: Mutex<Vec<(u64, usize)>>,
}

impl MediaInput for TrackingInput {
    fn len(&self) -> io::Result<Option<u64>> {
        Ok(Some(u64::try_from(self.bytes.as_ref().len()).unwrap()))
    }

    fn prefetch(&self, offset: u64, length: usize) -> io::Result<()> {
        self.prefetches.lock().unwrap().push((offset, length));
        Ok(())
    }

    fn read_at(&self, offset: u64, buffer: &mut [u8]) -> io::Result<usize> {
        self.bytes.to_vec().read_at(offset, buffer)
    }
}

#[test]
fn packet_cursor_prefetches_upcoming_sample_span() {
    let input = TrackingInput {
        bytes: Arc::from(two_tracks()),
        prefetches: Mutex::new(Vec::new()),
    };
    let demuxer = Mp4Demuxer::open(input).unwrap();
    let track_index = demuxer
        .movie()
        .tracks()
        .iter()
        .position(|track| track.kind() == TrackKind::Video)
        .unwrap();
    let first_sample = demuxer.movie().tracks()[track_index].samples()[0];

    let cursor = demuxer.packet_cursor(track_index).unwrap();
    let packet_count = cursor.prefetch_next_bytes(1024).unwrap();
    assert!(packet_count >= 1);

    let prefetches = demuxer.input().prefetches.lock().unwrap();
    assert_eq!(prefetches.len(), 1);
    let (offset, length) = prefetches[0];
    assert!(offset <= first_sample.offset());
    assert!(
        offset + u64::try_from(length).unwrap()
            >= first_sample.offset() + u64::from(first_sample.size())
    );
}

fn sample(offset: u64, size: u32) -> Sample {
    Sample {
        offset,
        size,
        decode_time: 0,
        presentation_time: 0,
        duration: 1,
        description_index: 0,
        sync: true,
    }
}

#[test]
fn spans_hold_as_many_samples_as_the_budget_allows() {
    let samples = [sample(100, 10), sample(120, 5), sample(90, 10), sample(300, 1)];
    let range = |first, budget| prefetch_range(&samples, first, budget).unwrap();
    let found = |offset, length, sample_count| {
        Some(PrefetchRange {
            offset,
            length,
            sample_count,
        })
    };
    assert_eq!(range(0, 0), None);
    assert_eq!(range(4, 9), None);
    assert_eq!(range(0, 1), found(100, 10, 1));
    assert_eq!(range(0, 25), found(100, 25, 2));
    assert_eq!(range(0, 35), found(90, 35, 3));
    assert_eq!(range(0, 1_000), found(90, 211, 4));
    assert!(matches!(
        prefetch_range(&samples, 5, 1),
        Err(Mp4Error::IndexOutOfRange {
            kind: "sample cursor",
            index: 5
        })
    ));
    assert!(matches!(
        prefetch_range(&[sample(u64::MAX, 1)], 0, 1),
        Err(Mp4Error::IntegerOverflow)
    ));
}

#[test]
fn keyframes_are_sought_in_presentation_order() {
    let bytes = two_tracks();
    let movie = Movie::parse(&Mp4File::open(&bytes).unwrap()).unwrap();
    let video = &movie.tracks()[0];
    assert_eq!(video.sync_sample_indices(), [0, 2]);
    let times: Vec<i64> = video
        .samples()
        .iter()
        .map(|sample| sample.presentation_time())
        .collect();
    assert_eq!(times, [9_000, 3_000, 6_000]);
    let at = |value| MediaTime::from_parts(value, 90_000).unwrap();
    assert_eq!(video.keyframe_at_or_before(at(8_999)).unwrap(), Some(2));
    assert_eq!(video.keyframe_at_or_before(at(9_000)).unwrap(), Some(0));
    assert_eq!(video.keyframe_at_or_before(at(5_999)).unwrap(), None);
    assert_eq!(video.keyframe_at_or_after(at(6_001)).unwrap(), Some(0));
    assert_eq!(video.keyframe_nearest(at(7_500)).unwrap(), Some(2));
    assert_eq!(video.keyframe_nearest(at(7_501)).unwrap(), Some(0));
}

#[test]
fn audio_tracks_deliver_their_packets() {
    let demuxer = Mp4Demuxer::open(two_tracks()).unwrap();
    assert_eq!(demuxer.movie().tracks()[1].kind(), TrackKind::Audio);
    let SampleDescription::Aac(entry) = &demuxer.movie().tracks()[1].sample_descriptions()[0]
    else {
        panic!("expected an AAC sample entry");
    };
    assert_eq!(entry.channel_count(), 2);
    assert_eq!(entry.audio_specific_config().as_slice(), [0x12, 0x10]);

    let mut cursor = demuxer.audio_packet_cursor(1).unwrap();
    let config = cursor.decoder_config().unwrap().unwrap();
    assert_eq!(config.codec, AudioCodec::Aac);
    assert_eq!(config.sample_rate, 44_100);
    assert_eq!(config.channel_layout, ChannelLayout::Stereo);
    assert_eq!(cursor.prefetch_next_bytes(3).unwrap(), 1);
    let first = cursor.next_packet().unwrap().unwrap();
    assert_eq!(first.data.as_slice(), b"au");
    let second = cursor.next_packet().unwrap().unwrap();
    assert_eq!(second.data.as_slice(), b"di");
    assert_eq!(second.pts, MediaTime::from_parts(1_024, 44_100));
    assert!(cursor.next_packet().unwrap().is_none());
    assert_eq!(
        cursor
            .seek_to_time(MediaTime::from_parts(1_023, 44_100).unwrap())
            .unwrap(),
        Some(0)
    );
    assert_eq!(cursor.next_sample_index(), 0);
    cursor.rewind();
    assert_eq!(demuxer.read_audio_packet(1, 1).unwrap().data.as_slice(), b"di");
    assert!(demuxer.read_packet(1, 0).is_err());
    assert!(demuxer.read_audio_packet(0, 0).is_err());
    assert_eq!(demuxer.into_input(), two_tracks());
}

/// A movie without samples of its own, and one fragment of three samples.
fn fragmented(run_flags: u32, run: &[u32]) -> Vec<u8> {
    let video = track(
        1,
        b"vide",
        90_000,
        join(&[description(video_entry()), no_samples()]),
    );
    let extends = boxed(
        b"mvex",
        &boxed(b"trex", &words(&[0, 1, 1, 3_000, 2, 0x0001_0000])),
    );
    let moov = boxed(
        b"moov",
        &join(&[boxed(b"mvhd", &movie_header()), video, extends]),
    );
    let traf = join(&[
        boxed(b"tfhd", &words(&[0x0002_0000, 1])),
        boxed(b"tfdt", &words(&[0, 6_000])),
        boxed(b"trun", &join(&[words(&[run_flags]), words(run)])),
    ]);
    let moof = boxed(b"moof", &boxed(b"traf", &traf));
    join(&[moov, moof, boxed(b"mdat", b"aabbcc")])
}

#[test]
fn fragments_add_their_samples() {
    let probe = fragmented(0x0005, &[3, 0, 0]);
    let moof = probe
        .windows(4)
        .position(|window| window == b"moof")
        .unwrap()
        - 4;
    let data = probe
        .windows(4)
        .position(|window| window == b"mdat")
        .unwrap()
        + 4;
    let offset = u32::try_from(data - moof).unwrap();
    let bytes = fragmented(0x0005, &[3, offset, 0]);
    let demuxer = Mp4Demuxer::open(bytes).unwrap();
    let samples = demuxer.movie().tracks()[0].samples();
    assert_eq!(samples.len(), 3);
    let described: Vec<(u64, u32, i64, u32, bool)> = samples
        .iter()
        .map(|sample| {
            (
                sample.offset(),
                sample.size(),
                sample.decode_time(),
                sample.duration(),
                sample.is_sync(),
            )
        })
        .collect();
    let start = data as u64;
    assert_eq!(
        described,
        [
            (start, 2, 6_000, 3_000, true),
            (start + 2, 2, 9_000, 3_000, false),
            (start + 4, 2, 12_000, 3_000, false),
        ]
    );
    assert_eq!(demuxer.movie().tracks()[0].sync_sample_indices(), [0]);
    assert_eq!(demuxer.read_packet(0, 1).unwrap().data.as_slice(), b"bb");
}

#[test]
fn malformed_fragments_are_refused() {
    let failure = |flags, run: &[u32]| Mp4Demuxer::open(fragmented(flags, run)).unwrap_err();
    assert!(matches!(
        failure(0x0000, &[1]),
        Mp4Error::UnsupportedFeature("first trun has no data offset")
    ));
    assert!(matches!(
        failure(0x0405, &[1, 0, 0, 0]),
        Mp4Error::InvalidData("trun has both first-sample and per-sample flags")
    ));
    assert!(matches!(
        failure(0x0201, &[1, 0, 0]),
        Mp4Error::InvalidData("fragment sample size is zero")
    ));
    assert!(matches!(
        failure(0x0001, &[1, 0x0100_0000]),
        Mp4Error::InvalidData(_)
    ));
}

#[test]
fn errors_say_what_failed() {
    let cases = [
        (
            Mp4Error::from(io::Error::new(io::ErrorKind::Other, "offline")),
            "MP4 input error: offline",
        ),
        (Mp4Error::InvalidData("odd"), "invalid MP4 data: odd"),
        (
            Mp4Error::UnsupportedFeature("odd"),
            "unsupported MP4 feature: odd",
        ),
        (
            Mp4Error::IndexOutOfRange {
                kind: "sample",
                index: 120,
            },
            "MP4 sample index 120 is out of range",
        ),
        (Mp4Error::IntegerOverflow, "MP4 integer overflow"),
        (
            Mp4Error::UnknownInputLength,
            "MP4 top-level parsing requires a known input length",
        ),
    ];
    for (error, text) in cases {
        assert_eq!(error.to_string(), text);
    }
}

#[derive(Debug)]
struct BrokenInput;

impl MediaInput for BrokenInput {
    fn len(&self) -> io::Result<Option<u64>> {
        Ok(Some(64))
    }

    fn prefetch(&self, _offset: u64, _length: usize) -> io::Result<()> {
        Ok(())
    }

    fn read_at(&self, _offset: u64, _buffer: &mut [u8]) -> io::Result<usize> {
        Err(io::Error::new(io::ErrorKind::Other, "offline"))
    }
}

#[test]
fn failures_of_the_input_are_passed_on() {
    assert!(matches!(
        Mp4Demuxer::open(BrokenInput),
        Err(Mp4Error::Io(_))
    ));
}

#[test]
fn codes_keep_their_bytes() {
    for bytes in [*b"moov", [0, 1, 2, 3], [0xff, 0, 0xff, 0]] {
        assert_eq!(FourCc::new(bytes).bytes(), bytes);
    }
    assert_ne!(FourCc::new(*b"moov"), FourCc::new(*b"moof"));
}
