use std::cell::RefCell;
use std::io;
use std::ops::Range;
use std::sync::atomic::{AtomicUsize, Ordering};
use std::sync::Arc;

use decv::input::MediaInput;
use decv::mp4::demuxer::Mp4Demuxer;
use decv::mp4::track::TrackKind;
use decv::network::cache::{CacheAction, CacheEvent, CacheState, RangeCacheConfig};
use decv::network::content_range::{parse_content_range, ParsedContentRange};
use decv::network::error::{ErrorKind, NetworkError};
use decv::network::http::{
    check_body, redacted_name, HttpObject, HttpRangeInputBuilder, ResponseHead,
};
use decv::network::range::{block_range, clipped_length, CachedRangeInput, RangeFetcher};
use ureq::http::{HeaderMap, HeaderName, HeaderValue};

#[derive(Debug)]
struct MemoryFetcher {
    bytes: Arc<[u8]>,
    requests: AtomicUsize,
}

impl MemoryFetcher {
    fn new(bytes: impl Into<Arc<[u8]>>) -> Self {
        Self {
            bytes: bytes.into(),
            requests: AtomicUsize::new(0),
        }
    }
}

impl RangeFetcher for MemoryFetcher {
    fn len(&self) -> io::Result<u64> {
        Ok(u64::try_from(self.bytes.as_ref().len()).unwrap())
    }

    fn fetch_range(&self, range: Range<u64>) -> io::Result<Vec<u8>> {
        self.requests.fetch_add(1, Ordering::SeqCst);
        let start = usize::try_from(range.start).unwrap();
        let end = usize::try_from(range.end).unwrap();
        Ok(self.bytes[start..end].to_vec())
    }
}

fn config(block_size: usize, maximum_blocks: usize) -> RangeCacheConfig {
    RangeCacheConfig::new(block_size, maximum_blocks).unwrap()
}

#[test]
fn reads_across_blocks_and_reuses_cached_bytes() {
    let mut input =
        CachedRangeInput::new(MemoryFetcher::new(*b"abcdefghijkl"), config(4, 2)).unwrap();
    let mut output = [0; 7];
    assert_eq!(input.read_at(2, &mut output).unwrap(), 7);
    assert_eq!(&output, b"cdefghi");
    assert_eq!(input.stats().snapshot().range_requests, 3);

    let mut cached = [0; 2];
    assert_eq!(input.read_at(5, &mut cached).unwrap(), 2);
    assert_eq!(&cached, b"fg");
    assert_eq!(input.stats().snapshot().range_requests, 3);
    assert!(input.stats().snapshot().cache_hits > 0);
}

#[test]
fn clips_reads_and_prefetch_to_the_known_length() {
    let mut input = CachedRangeInput::new(MemoryFetcher::new(*b"abcdef"), config(4, 4)).unwrap();
    input.prefetch(4, 20).unwrap();
    let mut output = [0; 8];
    assert_eq!(input.read_at(4, &mut output).unwrap(), 2);
    assert_eq!(&output[..2], b"ef");
    assert_eq!(input.read_at(7, &mut output).unwrap(), 0);
}

#[test]
fn lru_eviction_retains_the_recently_read_block() {
    let mut input =
        CachedRangeInput::new(MemoryFetcher::new(*b"abcdefghijkl"), config(4, 2)).unwrap();
    let mut byte = [0; 1];
    input.read_at(0, &mut byte).unwrap();
    input.read_at(4, &mut byte).unwrap();
    input.read_at(0, &mut byte).unwrap();
    input.read_at(8, &mut byte).unwrap();
    input.read_at(4, &mut byte).unwrap();
    assert_eq!(input.stats().snapshot().range_requests, 4);
    assert_eq!(input.stats().snapshot().evicted_blocks, 2);
}

#[derive(Debug)]
struct SharedInput(RefCell<CachedRangeInput<MemoryFetcher>>);

impl MediaInput for SharedInput {
    fn len(&self) -> io::Result<Option<u64>> {
        Ok(Some(self.0.borrow().content_length()))
    }

    fn prefetch(&self, offset: u64, length: usize) -> io::Result<()> {
        self.0
            .borrow_mut()
            .prefetch(offset, length)
            .map_err(|error| io::Error::new(io::ErrorKind::Other, error.to_string()))
    }

    fn read_at(&self, offset: u64, buffer: &mut [u8]) -> io::Result<usize> {
        self.0
            .borrow_mut()
            .read_at(offset, buffer)
            .map_err(|error| io::Error::new(io::ErrorKind::Other, error.to_string()))
    }
}

fn boxed(kind: &[u8; 4], payload: &[u8]) -> Vec<u8> {
    let mut bytes = Vec::from(u32::try_from(8 + payload.len()).unwrap().to_be_bytes());
    bytes.extend_from_slice(kind);
    bytes.extend_from_slice(payload);
    bytes
}

fn words(values: &[u32]) -> Vec<u8> {
    values.iter().flat_map(|value| value.to_be_bytes()).collect()
}

/// A movie of one video track with three samples of one byte each.
fn movie_bytes() -> Vec<u8> {
    let mut mvhd = words(&[0, 0, 0, 1_000, 5_000]);
    mvhd.extend_from_slice(&[0; 80]);
    let mut tkhd = words(&[3, 0, 0, 7, 0, 5_000]);
    tkhd.extend_from_slice(&[0; 52]);
    tkhd.extend_from_slice(&words(&[16 << 16, 16 << 16]));
    let mdhd = words(&[0, 0, 0, 90_000, 9_000, 0]);
    let mut hdlr = words(&[0, 0]);
    hdlr.extend_from_slice(b"vide");
    hdlr.extend_from_slice(&[0; 13]);
    let configuration = [
        1, 100, 0, 40, 0xff, 0xe1, 0, 3, 0x67, 1, 2, 1, 0, 2, 0x68, 3,
    ];
    let mut avc1 = vec![0, 0, 0, 0, 0, 0, 0, 1];
    avc1.extend_from_slice(&[0; 16]);
    avc1.extend_from_slice(&[0, 16, 0, 16]);
    avc1.extend_from_slice(&[0; 50]);
    avc1.extend_from_slice(&boxed(b"avcC", &configuration));
    let mut stsd = words(&[0, 1]);
    stsd.extend_from_slice(&boxed(b"avc1", &avc1));
    let mut stbl = boxed(b"stsd", &stsd);
    stbl.extend_from_slice(&boxed(b"stts", &words(&[0, 1, 3, 3_000])));
    stbl.extend_from_slice(&boxed(b"stsc", &words(&[0, 1, 1, 3, 1])));
    stbl.extend_from_slice(&boxed(b"stsz", &words(&[0, 1, 3])));
    stbl.extend_from_slice(&boxed(b"stco", &words(&[0, 1, 4])));
    let mut mdia = boxed(b"mdhd", &mdhd);
    mdia.extend_from_slice(&boxed(b"hdlr", &hdlr));
    mdia.extend_from_slice(&boxed(b"minf", &boxed(b"stbl", &stbl)));
    let mut trak = boxed(b"tkhd", &tkhd);
    trak.extend_from_slice(&boxed(b"mdia", &mdia));
    let mut moov = boxed(b"mvhd", &mvhd);
    moov.extend_from_slice(&boxed(b"trak", &trak));
    let mut file = boxed(b"ftyp", b"isom\0\0\0\0isom");
    file.extend_from_slice(&boxed(b"moov", &moov));
    file
}

#[test]
fn cached_range_input_drives_the_mp4_demuxer() {
    let input = CachedRangeInput::new(MemoryFetcher::new(movie_bytes()), config(64, 4)).unwrap();
    let demuxer = Mp4Demuxer::open(SharedInput(RefCell::new(input))).unwrap();
    let video_track = demuxer
        .movie()
        .tracks()
        .iter()
        .position(|track| track.kind() == TrackKind::Video)
        .unwrap();

    let packet = demuxer.read_packet(video_track, 0).unwrap();
    assert!(!packet.data.is_empty());
    assert_eq!(packet.data.as_slice(), b"f");
    assert_eq!(demuxer.read_packet(video_track, 2).unwrap().data.as_slice(), b"y");
    assert!(demuxer.input().0.borrow().stats().snapshot().range_requests > 0);
}

#[test]
fn a_block_that_is_used_twice_is_fetched_once() {
    let mut input = CachedRangeInput::new(b"abcdefgh".to_vec(), config(4, 1)).unwrap();
    input.prefetch(0, 4).unwrap();
    assert_eq!(input.stats().snapshot().cache_misses, 1);
    let mut output = [0; 4];
    assert_eq!(input.read_at(0, &mut output).unwrap(), 4);
    assert_eq!(&output, b"abcd");
    let stats = input.stats().snapshot();
    assert_eq!((stats.cache_hits, stats.cache_misses), (1, 1));
    assert_eq!((stats.range_requests, stats.fetched_bytes), (1, 4));

    input.clear();
    assert_eq!(input.read_at(0, &mut output).unwrap(), 4);
    assert_eq!(input.stats().snapshot().range_requests, 2);
    input.reset_stats();
    assert_eq!(input.stats().snapshot().range_requests, 0);
}

#[derive(Debug)]
struct FailingFetcher {
    length: usize,
}

impl RangeFetcher for FailingFetcher {
    fn len(&self) -> io::Result<u64> {
        Ok(8)
    }

    fn fetch_range(&self, _range: Range<u64>) -> io::Result<Vec<u8>> {
        if self.length == 0 {
            Err(io::Error::new(io::ErrorKind::Other, "offline"))
        } else {
            Ok(vec![0; self.length])
        }
    }
}

#[test]
fn failed_and_short_blocks_are_errors_and_are_not_kept() {
    let mut offline = CachedRangeInput::new(FailingFetcher { length: 0 }, config(4, 2)).unwrap();
    let mut output = [0; 2];
    let error = offline.read_at(0, &mut output).unwrap_err();
    assert_eq!(error.kind(), ErrorKind::Source);
    assert_eq!(error.to_string(), "offline");
    assert!(offline.read_at(0, &mut output).is_err());
    assert_eq!(offline.stats().snapshot().range_requests, 2);

    let mut short = CachedRangeInput::new(FailingFetcher { length: 3 }, config(4, 2)).unwrap();
    assert!(matches!(
        short.read_at(4, &mut output),
        Err(NetworkError::BlockLength {
            returned: 3,
            expected: 4
        })
    ));
}

#[test]
fn blocks_in_flight_are_evicted_only_once_they_are_ready() {
    let mut cache: CacheState<u8> = CacheState::new();
    for index in 0..2 {
        let (hit, recency) = cache.touch(index);
        assert!(!hit);
        assert_eq!(cache.evict(0), 0);
        cache.insert(index, 10 + index as u8, true, recency);
    }
    assert_eq!(cache.len(), 2);
    assert_eq!(cache.oldest_ready_block(), None);
    cache.set_ready(0);
    cache.set_ready(1);
    assert_eq!(cache.oldest_ready_block(), Some(0));
    assert!(cache.touch(0).0);
    assert_eq!(cache.evict(1), 1);
    assert_eq!(cache.entry(0), Some(&10));
    assert_eq!(cache.entry(1), None);
    cache.remove(0);
    assert_eq!(cache.len(), 0);
}

#[test]
fn steps_share_one_fetch_and_trim_afterwards() {
    let mut cache: CacheState<u8> = CacheState::new();
    let wanted = |entry| CacheEvent::Wanted { entry };
    assert_eq!(cache.step(0, wanted(10), 1), (CacheAction::Fetch, 0));
    assert_eq!(cache.step(0, wanted(11), 1), (CacheAction::Wait, 0));
    assert_eq!(cache.entry(0), Some(&10));
    assert_eq!(cache.step(1, wanted(20), 1), (CacheAction::Fetch, 0));
    assert_eq!(cache.len(), 2);
    let fetched = CacheEvent::Fetched { current: true };
    assert_eq!(cache.step(0, fetched, 1), (CacheAction::Deliver, 1));
    assert_eq!(cache.entry(0), None);
    let stale = CacheEvent::Failed { current: false };
    assert_eq!(cache.step(1, stale, 1), (CacheAction::Deliver, 0));
    assert_eq!(cache.len(), 1);
    let failed = CacheEvent::Failed { current: true };
    assert_eq!(cache.step(1, failed, 1), (CacheAction::Deliver, 0));
    assert_eq!(cache.len(), 0);
}

#[test]
fn cache_limits_are_positive_and_saturate() {
    assert!(RangeCacheConfig::new(0, 1).is_none());
    assert!(RangeCacheConfig::new(1, 0).is_none());
    let standard = RangeCacheConfig::default();
    assert_eq!(standard.block_size(), 262_144);
    assert_eq!(standard.maximum_blocks(), 32);
    assert_eq!(standard.maximum_cached_bytes(), 8_388_608);
    assert_eq!(config(usize::MAX, 2).maximum_cached_bytes(), usize::MAX);
}

#[test]
fn block_ranges_end_with_the_object() {
    assert_eq!(clipped_length(10, 8, 5), 2);
    assert_eq!(clipped_length(10, 11, 5), 0);
    assert_eq!(block_range(10, 4, 2).unwrap(), 8..10);
    assert!(matches!(
        block_range(10, 4, u64::MAX),
        Err(NetworkError::IntegerOverflow)
    ));
}

#[test]
fn parses_content_range() {
    assert_eq!(
        parse_content_range("bytes 20-29/100").unwrap(),
        ParsedContentRange {
            start: 20,
            end: 30,
            total: 100,
        }
    );
    assert!(parse_content_range("items 20-29/100").is_err());
    assert!(parse_content_range("bytes 29-20/100").is_err());
    assert!(parse_content_range("bytes 20-100/100").is_err());
    assert!(parse_content_range("bytes */100").is_err());
}

#[test]
fn content_ranges_of_any_size_are_read_back() {
    for (start, inclusive_end, total) in [(0, 0, 1), (5, 9, 10), (0, u64::MAX - 2, u64::MAX - 1)] {
        let text = format!("bytes {start}-{inclusive_end}/{total}");
        assert_eq!(
            parse_content_range(&text).unwrap(),
            ParsedContentRange {
                start,
                end: inclusive_end + 1,
                total,
            }
        );
    }
    for text in ["bytes 1-2", "bytes 1/2", "bytes a-2/9", "bytes 1-2/x", ""] {
        assert_eq!(
            parse_content_range(text).unwrap_err().kind(),
            ErrorKind::InvalidData
        );
    }
}

#[test]
fn rejects_headers_owned_by_the_range_transport() {
    let error = HttpRangeInputBuilder::new("http://example.invalid/video.mp4".to_string())
        .header("Range", "bytes=10-20")
        .err()
        .unwrap();
    assert_eq!(error.kind(), ErrorKind::InvalidInput);
}

#[test]
fn rejects_malformed_header_names_and_values() {
    let builder = HttpRangeInputBuilder::new("http://example.invalid/".to_string());
    assert!(builder.header("bad name", "value").is_err());
    let builder = HttpRangeInputBuilder::new("http://example.invalid/".to_string());
    assert!(builder.header("name", "two\nlines").is_err());
    for name in ["if-range", "Accept-Encoding", "RANGE"] {
        let builder = HttpRangeInputBuilder::new("http://example.invalid/".to_string());
        assert!(builder.header(name, "value").is_err());
    }
}

fn partial(headers: &[(&str, &str)]) -> ResponseHead {
    let mut map = HeaderMap::new();
    for (name, value) in headers {
        map.append(
            HeaderName::from_bytes(name.as_bytes()).unwrap(),
            HeaderValue::from_str(value).unwrap(),
        );
    }
    ResponseHead {
        status: 206,
        headers: map,
    }
}

#[test]
fn requests_carry_the_range_the_version_and_the_own_headers() {
    let builder = HttpRangeInputBuilder::new("http://example.invalid/video.mp4".to_string())
        .header("Authorization", "Bearer test-secret")
        .unwrap()
        .header("X-Custom", "7")
        .unwrap()
        .header("x-custom", "\u{e9}")
        .unwrap()
        .cache_config(config(4, 2));
    assert_eq!(builder.url(), "http://example.invalid/video.mp4");
    assert_eq!(builder.configured_cache().block_size(), 4);
    assert_eq!(builder.headers().len(), 3);

    let probe = builder.request_headers(0..1, None).unwrap();
    assert_eq!(probe["range"], "bytes=0-0");
    assert!(!probe.contains_key("if-range"));

    let object = HttpObject::probe(&partial(&[
        ("Content-Range", "bytes 0-0/12"),
        ("ETag", "\"fixture-v1\""),
        ("ETag", "\"fixture-v2\""),
    ]))
    .unwrap();
    assert_eq!(object.content_length(), 12);

    let sent = builder.request_headers(0..4, Some(&object)).unwrap();
    assert_eq!(sent.len(), 6);
    assert_eq!(sent["range"], "bytes=0-3");
    assert_eq!(sent["authorization"], "Bearer test-secret");
    assert_eq!(sent["if-range"], "\"fixture-v1\"");
    assert_eq!(sent["accept-encoding"], "identity");
    let custom: Vec<&[u8]> = sent
        .get_all("x-custom")
        .iter()
        .map(|value| value.as_bytes())
        .collect();
    assert_eq!(custom, [&b"7"[..], "\u{e9}".as_bytes()]);
    assert!(matches!(
        builder.request_headers(0..0, None),
        Err(NetworkError::InvalidInput("HTTP range is empty"))
    ));
}

#[test]
fn versions_are_told_by_strong_tags_or_dates() {
    let validator = |headers: &[(&str, &str)]| {
        let mut all = vec![("content-range", "bytes 0-0/12")];
        all.extend_from_slice(headers);
        let object = HttpObject::probe(&partial(&all)).unwrap();
        object
            .validator()
            .map(|validator| (validator.name.clone(), validator.value.clone()))
    };
    assert_eq!(validator(&[]), None);
    assert_eq!(
        validator(&[("last-modified", "today"), ("etag", "W/\"1\"")]),
        Some(("last-modified".to_string(), b"today".to_vec()))
    );
    assert_eq!(
        validator(&[("last-modified", "today"), ("etag", "\"1\"")]),
        Some(("etag".to_string(), b"\"1\"".to_vec()))
    );
    let encoded = partial(&[
        ("content-range", "bytes 0-0/12"),
        ("content-encoding", "gzip"),
    ]);
    assert!(HttpObject::probe(&encoded).is_err());
    let plain = partial(&[
        ("content-range", "bytes 0-0/12"),
        ("content-encoding", "Identity"),
    ]);
    assert!(HttpObject::probe(&plain).is_ok());
}

#[test]
fn only_the_requested_range_of_the_same_version_is_taken() {
    let object = HttpObject::probe(&partial(&[
        ("content-range", "bytes 0-0/12"),
        ("etag", "\"v1\""),
    ]))
    .unwrap();
    assert!(object.check_request(0..12).is_ok());
    assert!(object.check_request(4..13).is_err());
    assert!(object
        .check_response(
            4..8,
            &partial(&[("content-range", "bytes 4-7/12"), ("etag", "\"v1\"")])
        )
        .is_ok());
    for headers in [
        [("content-range", "bytes 0-3/12"), ("etag", "\"v1\"")],
        [("content-range", "bytes 4-7/13"), ("etag", "\"v1\"")],
        [("content-range", "bytes 4-7/12"), ("etag", "\"v2\"")],
    ] {
        assert!(object.check_response(4..8, &partial(&headers)).is_err());
    }
    let whole = ResponseHead {
        status: 200,
        headers: HeaderMap::new(),
    };
    assert!(object.check_response(4..8, &whole).is_err());
    assert!(HttpObject::probe(&whole).is_err());
    assert!(check_body(4, 4).is_ok());
    assert!(check_body(3, 4).is_err());
}

#[test]
fn sensitive_headers_are_not_shown() {
    for name in ["authorization", "proxy-authorization", "cookie"] {
        assert_eq!(redacted_name(name), "<sensitive>");
    }
    assert_eq!(redacted_name("x-custom"), "x-custom");
}
