use decv::h264::error::H264Error;
use decv::h264::parameter_sets::ParameterSetStore;

#[test]
fn resolves_a_pps_with_the_sps_version_it_was_parsed_against() {
    let mut store = ParameterSetStore::new();
    store.parse_sps(&sps_rbsp(0, 4)).unwrap();
    store.parse_pps(&pps_rbsp(3, 0)).unwrap();

    let first = store.resolve(3).unwrap();
    assert_eq!(first.sequence.pic_width_in_mbs, 4);

    store.parse_sps(&sps_rbsp(0, 8)).unwrap();
    let still_first = store.resolve(3).unwrap();
    assert_eq!(still_first.sequence.pic_width_in_mbs, 4);

    store.parse_pps(&pps_rbsp(3, 0)).unwrap();
    let replaced = store.resolve(3).unwrap();
    assert_eq!(replaced.sequence.pic_width_in_mbs, 8);
}

#[test]
fn reports_missing_and_out_of_range_parameter_sets() {
    let mut store = ParameterSetStore::new();

    assert!(matches!(store.resolve(9), Err(H264Error::MissingPps(9))));
    assert!(matches!(store.sequence(2), Err(H264Error::MissingSps(2))));
    assert!(matches!(
        store.parse_pps(&pps_rbsp(0, 1)),
        Err(H264Error::MissingSps(1))
    ));

    store.parse_sps(&sps_rbsp(0, 4)).unwrap();
    store.parse_pps(&pps_rbsp(0, 0)).unwrap();
    store.clear();
    assert!(matches!(store.resolve(0), Err(H264Error::MissingPps(0))));
}

#[test]
fn a_resolved_set_outlives_every_call_but_its_own_replacement() {
    let mut store = ParameterSetStore::new();
    store.parse_sps(&sps_rbsp(0, 4)).unwrap();
    store.parse_pps(&pps_rbsp(3, 0)).unwrap();

    store.parse_sps(&sps_rbsp(0, 8)).unwrap();
    store.parse_sps(&sps_rbsp(1, 6)).unwrap();
    store.parse_pps(&pps_rbsp(4, 0)).unwrap();
    assert!(store.parse_pps(&pps_rbsp(3, 2)).is_err());
    assert!(store.parse_sps(&[]).is_err());
    let kept = store.resolve(3).unwrap();
    assert_eq!(kept.picture.id, 3);
    assert_eq!(kept.sequence.pic_width_in_mbs, 4);
    assert_eq!(store.resolve(4).unwrap().sequence.pic_width_in_mbs, 8);
    assert!(matches!(store.resolve(5), Err(H264Error::MissingPps(5))));

    store.clear();
    store.parse_sps(&sps_rbsp(0, 4)).unwrap();
    store.parse_pps(&pps_rbsp(4, 0)).unwrap();
    assert!(matches!(store.resolve(3), Err(H264Error::MissingPps(3))));
}

fn sps_rbsp(id: u32, width_in_mbs: u32) -> Vec<u8> {
    let mut writer = BitWriter::default();
    writer.write_bits(66, 8);
    writer.write_bits(0, 8);
    writer.write_bits(30, 8);
    writer.write_ue(id);
    writer.write_ue(0);
    writer.write_ue(0);
    writer.write_ue(0);
    writer.write_ue(1);
    writer.write_flag(false);
    writer.write_ue(width_in_mbs - 1);
    writer.write_ue(2);
    writer.write_flag(true);
    writer.write_flag(true);
    writer.write_flag(false);
    writer.write_flag(false);
    writer.finish_rbsp()
}

fn pps_rbsp(id: u32, sps_id: u32) -> Vec<u8> {
    let mut writer = BitWriter::default();
    writer.write_ue(id);
    writer.write_ue(sps_id);
    writer.write_flag(false);
    writer.write_flag(false);
    writer.write_ue(0);
    writer.write_ue(0);
    writer.write_ue(0);
    writer.write_flag(false);
    writer.write_bits(0, 2);
    writer.write_se(0);
    writer.write_se(0);
    writer.write_se(0);
    writer.write_flag(true);
    writer.write_flag(false);
    writer.write_flag(false);
    writer.finish_rbsp()
}

#[derive(Default)]
struct BitWriter {
    bytes: Vec<u8>,
    current: u8,
    bits: u8,
}

impl BitWriter {
    fn write_flag(&mut self, value: bool) {
        self.write_bits(u64::from(value), 1);
    }

    fn write_bits(&mut self, value: u64, count: u8) {
        for shift in (0..count).rev() {
            self.current = (self.current << 1) | ((value >> shift) as u8 & 1);
            self.bits += 1;
            if self.bits == 8 {
                self.bytes.push(self.current);
                self.current = 0;
                self.bits = 0;
            }
        }
    }

    fn write_ue(&mut self, value: u32) {
        let code_num = u64::from(value) + 1;
        let width = 64 - code_num.leading_zeros() as u8;
        self.write_bits(0, width - 1);
        self.write_bits(code_num, width);
    }

    fn write_se(&mut self, value: i32) {
        let code_num = if value <= 0 {
            u32::try_from(-i64::from(value) * 2).unwrap()
        } else {
            u32::try_from(i64::from(value) * 2 - 1).unwrap()
        };
        self.write_ue(code_num);
    }

    fn finish_rbsp(mut self) -> Vec<u8> {
        self.write_flag(true);
        if self.bits != 0 {
            self.current <<= 8 - self.bits;
            self.bytes.push(self.current);
        }
        self.bytes
    }
}
