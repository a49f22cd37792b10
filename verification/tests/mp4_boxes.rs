use std::io;

use decv::input::MediaInput;
use decv::mp4::boxes::{BoxHeader, BoxIter, Mp4File};
use decv::mp4::error::{Mp4Error, Result};
use decv::mp4::fourcc::FourCc;

#[derive(Debug)]
struct MemoryInput {
    bytes: Vec<u8>,
    max_read: usize,
    known_length: bool,
}

impl MemoryInput {
    fn new(bytes: Vec<u8>) -> Self {
        Self {
            bytes,
            max_read: usize::MAX,
            known_length: true,
        }
    }
}

impl MediaInput for MemoryInput {
    fn len(&self) -> io::Result<Option<u64>> {
        Ok(self
            .known_length
            .then_some(u64::try_from(self.bytes.len()).unwrap()))
    }

    fn prefetch(&self, _offset: u64, _length: usize) -> io::Result<()> {
        Ok(())
    }

    fn read_at(&self, offset: u64, buffer: &mut [u8]) -> io::Result<usize> {
        let offset = usize::try_from(offset)
            .map_err(|_| io::Error::new(io::ErrorKind::InvalidInput, "offset"))?;
        let Some(source) = self.bytes.get(offset..) else {
            return Ok(0);
        };
        let count = source.len().min(buffer.len()).min(self.max_read);
        buffer[..count].copy_from_slice(&source[..count]);
        Ok(count)
    }
}

fn all(iter: BoxIter<'_, MemoryInput>) -> Result<Vec<BoxHeader>> {
    let listing = iter.collect();
    match listing.error {
        Some(error) => Err(error),
        None => Ok(listing.boxes),
    }
}

fn ordinary(kind: [u8; 4], payload: &[u8]) -> Vec<u8> {
    let size = u32::try_from(8 + payload.len()).unwrap();
    let mut bytes = Vec::from(size.to_be_bytes());
    bytes.extend_from_slice(&kind);
    bytes.extend_from_slice(payload);
    bytes
}

fn extended(kind: [u8; 4], payload: &[u8]) -> Vec<u8> {
    let size = u64::try_from(16 + payload.len()).unwrap();
    let mut bytes = Vec::from(1u32.to_be_bytes());
    bytes.extend_from_slice(&kind);
    bytes.extend_from_slice(&size.to_be_bytes());
    bytes.extend_from_slice(payload);
    bytes
}

#[test]
fn walks_ordinary_and_extended_top_level_boxes() {
    let mut bytes = ordinary(*b"ftyp", b"isom");
    bytes.extend_from_slice(&extended(*b"mdat", b"payload"));
    let input = MemoryInput::new(bytes);
    let file = Mp4File::open(&input).unwrap();
    let boxes = all(file.boxes()).unwrap();

    assert_eq!(file.length(), 35);
    assert_eq!(
        boxes,
        [
            BoxHeader {
                kind: FourCc::new(*b"ftyp"),
                offset: 0,
                size: 12,
                header_size: 8,
            },
            BoxHeader {
                kind: FourCc::new(*b"mdat"),
                offset: 12,
                size: 23,
                header_size: 16,
            },
        ]
    );
    assert_eq!(boxes[1].payload_range().unwrap(), 28..35);
}

#[test]
fn size_zero_extends_to_the_parent_end() {
    let mut bytes = Vec::from(0u32.to_be_bytes());
    bytes.extend_from_slice(b"free");
    bytes.extend_from_slice(b"rest");
    let input = MemoryInput::new(bytes);
    let boxes = all(Mp4File::open(&input).unwrap().boxes()).unwrap();
    assert_eq!(boxes[0].size(), 12);
    assert_eq!(boxes[0].payload_size(), 4);
}

#[test]
fn traverses_children_within_the_parent_payload() {
    let child0 = ordinary(*b"trak", &[]);
    let child1 = ordinary(*b"mvhd", b"data");
    let mut payload = child0;
    payload.extend_from_slice(&child1);
    let input = MemoryInput::new(ordinary(*b"moov", &payload));
    let file = Mp4File::open(&input).unwrap();
    let parent = file.boxes().next().unwrap().unwrap();
    let children = all(file.children(parent).unwrap()).unwrap();
    assert_eq!(
        children
            .iter()
            .map(|child| child.kind())
            .collect::<Vec<_>>(),
        [FourCc::new(*b"trak"), FourCc::new(*b"mvhd")]
    );
    assert_eq!(children[0].offset(), 8);
    assert_eq!(children[1].offset(), 16);
}

#[test]
fn accounts_for_uuid_user_type_in_the_header() {
    let mut bytes = Vec::from(28u32.to_be_bytes());
    bytes.extend_from_slice(b"uuid");
    bytes.extend_from_slice(&[7; 16]);
    bytes.extend_from_slice(b"data");
    let input = MemoryInput::new(bytes);
    let header = Mp4File::open(&input)
        .unwrap()
        .boxes()
        .next()
        .unwrap()
        .unwrap();
    assert_eq!(header.header_size(), 24);
    assert_eq!(header.payload_size(), 4);
}

#[test]
fn supports_inputs_that_return_short_reads() {
    let mut input = MemoryInput::new(extended(*b"mdat", b"data"));
    input.max_read = 2;
    let header = Mp4File::open(&input)
        .unwrap()
        .boxes()
        .next()
        .unwrap()
        .unwrap();
    assert_eq!(header.size(), 20);
}

#[test]
fn rejects_unknown_top_level_length() {
    let mut input = MemoryInput::new(Vec::new());
    input.known_length = false;
    assert!(matches!(
        Mp4File::open(&input),
        Err(Mp4Error::UnknownInputLength)
    ));
}

#[test]
fn rejects_truncated_and_out_of_parent_boxes() {
    for bytes in [
        vec![0; 7],
        {
            let mut bytes = Vec::from(4u32.to_be_bytes());
            bytes.extend_from_slice(b"free");
            bytes
        },
        {
            let mut bytes = Vec::from(20u32.to_be_bytes());
            bytes.extend_from_slice(b"free");
            bytes
        },
        {
            let mut bytes = Vec::from(1u32.to_be_bytes());
            bytes.extend_from_slice(b"free");
            bytes
        },
    ] {
        let input = MemoryInput::new(bytes);
        assert!(matches!(
            Mp4File::open(&input).unwrap().boxes().next().unwrap(),
            Err(Mp4Error::InvalidData(_))
        ));
    }
}

#[test]
fn size_hints_tell_the_end() {
    let input = MemoryInput::new(ordinary(*b"free", b""));
    let mut boxes = Mp4File::open(&input).unwrap().boxes();
    assert_eq!(boxes.size_hint(), (0, None));
    assert!(boxes.next().unwrap().is_ok());
    assert_eq!(boxes.size_hint(), (0, Some(0)));
    assert!(boxes.next().is_none());

    let broken = MemoryInput::new(vec![0; 7]);
    let mut boxes = Mp4File::open(&broken).unwrap().boxes();
    assert!(boxes.next().unwrap().is_err());
    assert!(boxes.next().is_none());
    assert!(all(boxes).unwrap().is_empty());
}

#[test]
fn payloads_lie_behind_their_headers() {
    let mut bytes = ordinary(*b"ftyp", b"isom");
    bytes.extend_from_slice(&extended(*b"mdat", b"payload"));
    bytes.extend_from_slice(&ordinary(*b"uuid", &[7; 19]));
    bytes.extend_from_slice(&extended(*b"uuid", &[7; 16]));
    let end = u64::try_from(bytes.len()).unwrap();
    let input = MemoryInput::new(bytes);
    let boxes = all(Mp4File::open(&input).unwrap().boxes()).unwrap();
    let sizes: Vec<_> = boxes.iter().map(|header| header.header_size).collect();
    assert_eq!(sizes, [8, 16, 24, 32]);
    for header in &boxes {
        let payload = header.payload_range().unwrap();
        assert_eq!(payload.start, header.offset + header.header_size);
        assert_eq!(payload.end, header.offset + header.size);
        assert!(payload.end <= end);
    }
    assert_eq!(boxes[2].payload_size(), 3);
    assert_eq!(boxes[3].payload_range().unwrap(), end..end);
}
