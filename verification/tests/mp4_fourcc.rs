use decv::mp4::fourcc::FourCc;

#[test]
fn formats_printable_and_binary_codes_without_loss() {
    assert_eq!(FourCc::new(*b"moov").to_string(), "moov");
    assert_eq!(
        FourCc::new([0, b'\\', b'"', 0xff]).to_string(),
        "\\x00\\\\\\\"\\xff"
    );
    assert_eq!(FourCc::new(*b"avc1").to_debug_string(), "FourCc(\"avc1\")");
}
