use decv::media::Timescale;
use decv::mp4::boxes::Mp4File;
use decv::mp4::edit::{linear_timeline_offset, parse_edit_container, Edit};
use decv::mp4::error::{Mp4Error, Result};

fn boxed(kind: [u8; 4], payload: &[u8]) -> Vec<u8> {
    let mut bytes = Vec::from(u32::try_from(8 + payload.len()).unwrap().to_be_bytes());
    bytes.extend_from_slice(&kind);
    bytes.extend_from_slice(payload);
    bytes
}

fn edit_container(version: u8, entries: &[(u64, i64, i16, i16)]) -> Vec<u8> {
    let mut payload = vec![version, 0, 0, 0];
    payload.extend_from_slice(&u32::try_from(entries.len()).unwrap().to_be_bytes());
    for &(duration, time, integer, fraction) in entries {
        if version == 0 {
            payload.extend_from_slice(&u32::try_from(duration).unwrap().to_be_bytes());
            payload.extend_from_slice(&i32::try_from(time).unwrap().to_be_bytes());
        } else {
            payload.extend_from_slice(&duration.to_be_bytes());
            payload.extend_from_slice(&time.to_be_bytes());
        }
        payload.extend_from_slice(&integer.to_be_bytes());
        payload.extend_from_slice(&fraction.to_be_bytes());
    }
    boxed(*b"edts", &boxed(*b"elst", &payload))
}

fn parse(bytes: Vec<u8>) -> Result<Vec<Edit>> {
    let file = Mp4File::open(&bytes)?;
    let header = file
        .boxes()
        .next()
        .ok_or(Mp4Error::InvalidData("missing test box"))??;
    parse_edit_container(&file, header)
}

#[test]
fn parses_version_zero_and_one_edit_lists() {
    for version in [0, 1] {
        let bytes = edit_container(version, &[(600, -1, 1, 0), (1_200, 25, 1, 0)]);
        assert_eq!(
            parse(bytes).unwrap(),
            [
                Edit {
                    segment_duration: 600,
                    media_time: None,
                    media_rate_integer: 1,
                    media_rate_fraction: 0,
                },
                Edit {
                    segment_duration: 1_200,
                    media_time: Some(25),
                    media_rate_integer: 1,
                    media_rate_fraction: 0,
                },
            ]
        );
    }
}

#[test]
fn maps_a_linear_edit_into_media_time() {
    let edits = parse(edit_container(0, &[(500, -1, 1, 0), (1_000, 1_024, 1, 0)])).unwrap();
    assert_eq!(
        linear_timeline_offset(
            &edits,
            Timescale::new(1_000).unwrap(),
            Timescale::new(12_000).unwrap()
        )
        .unwrap(),
        4_976
    );
}

#[test]
fn rejects_lossy_and_non_linear_mappings() {
    let lossy = parse(edit_container(0, &[(1, -1, 1, 0), (1, 0, 1, 0)])).unwrap();
    assert!(matches!(
        linear_timeline_offset(
            &lossy,
            Timescale::new(3).unwrap(),
            Timescale::new(2).unwrap()
        ),
        Err(Mp4Error::InvalidData(
            "edit-list offset is not exact in the media time scale"
        ))
    ));

    let repeated = parse(edit_container(0, &[(10, 0, 1, 0), (10, 0, 1, 0)])).unwrap();
    assert!(matches!(
        linear_timeline_offset(
            &repeated,
            Timescale::new(1).unwrap(),
            Timescale::new(1).unwrap()
        ),
        Err(Mp4Error::InvalidData(
            "repeated media edits are not supported"
        ))
    ));
}

#[test]
fn plain_timelines_start_with_their_media() {
    let scale = |ticks| Timescale::new(ticks).unwrap();
    assert_eq!(
        linear_timeline_offset(&[], scale(1_000), scale(12_000)).unwrap(),
        0
    );
    let edits = parse(edit_container(1, &[(500, 1_024, 1, 0)])).unwrap();
    assert_eq!(
        linear_timeline_offset(&edits, scale(1_000), scale(12_000)).unwrap(),
        -1_024
    );
}
