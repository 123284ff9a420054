use probe_flasher::frames::{
    address_frame, cmd_frame, ext_erase_trailer, legacy_erase_trailer, write_payload_frame,
    xor_checksum,
};

#[test]
fn cmd_frame_is_byte_and_complement() {
    assert_eq!(cmd_frame(0x00), vec![0x00, 0xFF]);
    assert_eq!(cmd_frame(0x02), vec![0x02, 0xFD]);
    assert_eq!(cmd_frame(0x44), vec![0x44, 0xBB]);
    assert_eq!(cmd_frame(0x43), vec![0x43, 0xBC]);
    for c in 0..=255u8 {
        let f = cmd_frame(c);
        assert_eq!(f.len(), 2);
        assert_eq!(f[0], c);
        assert_eq!(f[1], c ^ 0xFF);
    }
}

#[test]
fn address_frame_carries_big_endian_bytes_and_xor() {
    assert_eq!(address_frame(0x08000000), vec![0x08, 0x00, 0x00, 0x00, 0x08]);
    assert_eq!(address_frame(0x08000100), vec![0x08, 0x00, 0x01, 0x00, 0x09]);
    for a in [0u32, 1, 0xDEADBEEF, 0xFFFFFFFF, 0x08010000] {
        let f = address_frame(a);
        assert_eq!(f.len(), 5);
        assert_eq!(f[0], (a >> 24) as u8);
        assert_eq!(f[1], (a >> 16) as u8);
        assert_eq!(f[2], (a >> 8) as u8);
        assert_eq!(f[3], a as u8);
        assert_eq!(f[4], f[0] ^ f[1] ^ f[2] ^ f[3]);
    }
}

#[test]
fn write_payload_frame_is_length_data_and_xor() {
    let f = write_payload_frame(&[0x01, 0x02]);
    assert_eq!(f, vec![0x01, 0x01, 0x02, 0x02]);
    let data = [0xABu8; 44];
    let f = write_payload_frame(&data);
    assert_eq!(f.len(), 46);
    assert_eq!(f[0], 0x2B);
    assert!(f[1..45].iter().all(|b| *b == 0xAB));
    let xor = f[..45].iter().fold(0u8, |acc, b| acc ^ b);
    assert_eq!(f[45], xor);
    let full = [0x55u8; 256];
    let f = write_payload_frame(&full);
    assert_eq!(f.len(), 258);
    assert_eq!(f[0], 0xFF);
}

#[test]
fn erase_trailers_match_the_protocol() {
    assert_eq!(ext_erase_trailer(), vec![0xFF, 0xFF, 0x00]);
    assert_eq!(legacy_erase_trailer(), vec![0xFF, 0x00]);
}

#[test]
fn xor_checksum_folds_from_zero() {
    assert_eq!(xor_checksum(&[]), 0);
    assert_eq!(xor_checksum(&[0xAB]), 0xAB);
    assert_eq!(xor_checksum(&[0x08, 0x00, 0x00, 0x00]), 0x08);
    assert_eq!(xor_checksum(&[0x01, 0x02, 0x04]), 0x07);
}
