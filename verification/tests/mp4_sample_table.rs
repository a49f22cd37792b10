use std::io;

use decv::input::MediaInput;
use decv::mp4::boxes::{BoxHeader, Mp4File};
use decv::mp4::error::{Mp4Error, Result};
use decv::mp4::sample_table::{parse_sample_sizes, parse_sample_table};

#[derive(Debug)]
struct MemoryInput(Vec<u8>);

impl MediaInput for MemoryInput {
    fn len(&self) -> io::Result<Option<u64>> {
        Ok(Some(u64::try_from(self.0.len()).unwrap()))
    }

    fn prefetch(&self, _offset: u64, _length: usize) -> io::Result<()> {
        Ok(())
    }

    fn read_at(&self, offset: u64, buffer: &mut [u8]) -> io::Result<usize> {
        self.0.read_at(offset, buffer)
    }
}

fn boxed(kind: [u8; 4], payload: &[u8]) -> Vec<u8> {
    let mut bytes = Vec::from(u32::try_from(8 + payload.len()).unwrap().to_be_bytes());
    bytes.extend_from_slice(&kind);
    bytes.extend_from_slice(payload);
    bytes
}

fn full(body: &[u8]) -> Vec<u8> {
    let mut bytes = vec![0; 4];
    bytes.extend_from_slice(body);
    bytes
}

fn table_box(kind: [u8; 4], entries: &[[u32; 3]]) -> Vec<u8> {
    let mut body = Vec::from(u32::try_from(entries.len()).unwrap().to_be_bytes());
    for entry in entries {
        for value in entry {
            body.extend_from_slice(&value.to_be_bytes());
        }
    }
    boxed(kind, &full(&body))
}

fn synthetic_table() -> (MemoryInput, BoxHeader) {
    let mut stts_body = Vec::from(2u32.to_be_bytes());
    stts_body.extend_from_slice(&3u32.to_be_bytes());
    stts_body.extend_from_slice(&100u32.to_be_bytes());
    stts_body.extend_from_slice(&2u32.to_be_bytes());
    stts_body.extend_from_slice(&50u32.to_be_bytes());
    let stts = boxed(*b"stts", &full(&stts_body));
    let mut ctts_body = Vec::from(2u32.to_be_bytes());
    ctts_body.extend_from_slice(&2u32.to_be_bytes());
    ctts_body.extend_from_slice(&10u32.to_be_bytes());
    ctts_body.extend_from_slice(&3u32.to_be_bytes());
    ctts_body.extend_from_slice(&20u32.to_be_bytes());
    let ctts = boxed(*b"ctts", &full(&ctts_body));
    let stsc = table_box(*b"stsc", &[[1, 2, 1], [2, 3, 1]]);
    let mut stsz_body = Vec::from(0u32.to_be_bytes());
    stsz_body.extend_from_slice(&5u32.to_be_bytes());
    for size in [10u32, 11, 12, 13, 14] {
        stsz_body.extend_from_slice(&size.to_be_bytes());
    }
    let stsz = boxed(*b"stsz", &full(&stsz_body));
    let mut stco_body = Vec::from(2u32.to_be_bytes());
    stco_body.extend_from_slice(&1_000u32.to_be_bytes());
    stco_body.extend_from_slice(&2_000u32.to_be_bytes());
    let stco = boxed(*b"stco", &full(&stco_body));
    let mut stss_body = Vec::from(2u32.to_be_bytes());
    stss_body.extend_from_slice(&1u32.to_be_bytes());
    stss_body.extend_from_slice(&4u32.to_be_bytes());
    let stss = boxed(*b"stss", &full(&stss_body));

    let mut payload = stts;
    payload.extend_from_slice(&ctts);
    payload.extend_from_slice(&stsc);
    payload.extend_from_slice(&stsz);
    payload.extend_from_slice(&stco);
    payload.extend_from_slice(&stss);
    let mut bytes = boxed(*b"stbl", &payload);
    bytes.resize(4_096, 0);
    let input = MemoryInput(bytes);
    let file = Mp4File::open(&input).unwrap();
    let header = file.boxes().next().unwrap().unwrap();
    (input, header)
}

fn parse_compact_sizes(field_size: u8, sample_count: u32, packed: &[u8]) -> Result<Vec<u64>> {
    let mut body = vec![0, 0, 0, field_size];
    body.extend_from_slice(&sample_count.to_be_bytes());
    body.extend_from_slice(packed);
    let input = MemoryInput(boxed(*b"stz2", &full(&body)));
    let file = Mp4File::open(&input)?;
    let header = file
        .boxes()
        .next()
        .ok_or(Mp4Error::InvalidData("missing test stz2 box"))??;
    parse_sample_sizes(&file, header)
}

#[test]
fn combines_timing_chunks_sizes_and_sync_samples() {
    let (input, header) = synthetic_table();
    let samples = parse_sample_table(&Mp4File::open(&input).unwrap(), header, 1).unwrap();
    assert_eq!(samples.len(), 5);
    assert_eq!(
        samples
            .iter()
            .map(|sample| (
                sample.offset(),
                sample.size(),
                sample.decode_time(),
                sample.presentation_time(),
                sample.duration(),
                sample.is_sync(),
            ))
            .collect::<Vec<_>>(),
        [
            (1_000, 10, 0, 10, 100, true),
            (1_010, 11, 100, 110, 100, false),
            (2_000, 12, 200, 220, 100, false),
            (2_012, 13, 300, 320, 50, true),
            (2_025, 14, 350, 370, 50, false),
        ]
    );
}

#[test]
fn supports_signed_composition_offsets() {
    let (mut input, _) = synthetic_table();
    let position = input
        .0
        .windows(4)
        .position(|window| window == b"ctts")
        .unwrap();
    input.0[position + 4] = 1;
    input.0[position + 16..position + 20].copy_from_slice(&(-10i32).to_be_bytes());
    let file = Mp4File::open(&input).unwrap();
    let header = file.boxes().next().unwrap().unwrap();
    let samples = parse_sample_table(&file, header, 1).unwrap();
    assert_eq!(samples[0].presentation_time(), -10);
    assert_eq!(samples[1].presentation_time(), 90);
}

#[test]
fn parses_each_compact_sample_size_width() {
    assert_eq!(
        parse_compact_sizes(4, 5, &[0x12, 0xf0, 0x70]).unwrap(),
        [1, 2, 15, 0, 7]
    );
    assert_eq!(
        parse_compact_sizes(8, 3, &[1, 200, 0]).unwrap(),
        [1, 200, 0]
    );
    assert_eq!(
        parse_compact_sizes(16, 3, &[0, 1, 1, 44, 0xff, 0xff]).unwrap(),
        [1, 300, 65_535]
    );
}

#[test]
fn rejects_invalid_or_trailing_compact_sample_sizes() {
    assert!(matches!(
        parse_compact_sizes(12, 1, &[0]),
        Err(Mp4Error::InvalidData(
            "stz2 field size is not 4, 8, or 16 bits"
        ))
    ));
    assert!(matches!(
        parse_compact_sizes(8, 1, &[7, 8]),
        Err(Mp4Error::InvalidData("stz2 has trailing bytes"))
    ));
    assert!(parse_compact_sizes(16, 1, &[0]).is_err());
}

#[test]
fn supports_an_empty_sample_table() {
    let empty_count = full(&0u32.to_be_bytes());
    let mut stsz_body = Vec::from(0u32.to_be_bytes());
    stsz_body.extend_from_slice(&0u32.to_be_bytes());

    let mut payload = boxed(*b"stts", &empty_count);
    payload.extend_from_slice(&boxed(*b"stsc", &empty_count));
    payload.extend_from_slice(&boxed(*b"stsz", &full(&stsz_body)));
    payload.extend_from_slice(&boxed(*b"stco", &empty_count));
    let input = MemoryInput(boxed(*b"stbl", &payload));
    let file = Mp4File::open(&input).unwrap();
    let header = file.boxes().next().unwrap().unwrap();
    assert!(parse_sample_table(&file, header, 1).unwrap().is_empty());
}

#[test]
fn rejects_missing_sample_descriptions() {
    let (input, header) = synthetic_table();
    let file = Mp4File::open(&input).unwrap();
    assert!(matches!(
        parse_sample_table(&file, header, 0),
        Err(Mp4Error::InvalidData(
            "sample table has no sample descriptions"
        ))
    ));
}

#[test]
fn samples_follow_each_other_and_lie_inside_the_file() {
    let (mut input, header) = synthetic_table();
    let samples = parse_sample_table(&Mp4File::open(&input).unwrap(), header, 1).unwrap();
    for pair in samples.windows(2) {
        assert_eq!(
            pair[1].decode_time(),
            pair[0].decode_time() + i64::from(pair[0].duration())
        );
    }
    input.0.truncate(2_038);
    let file = Mp4File::open(&input).unwrap();
    assert!(parse_sample_table(&file, header, 1).is_err());
    input.0.push(0);
    let file = Mp4File::open(&input).unwrap();
    assert!(parse_sample_table(&file, header, 1).is_ok());
}
