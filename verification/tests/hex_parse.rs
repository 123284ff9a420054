use probe_flasher::errors::Error;
use probe_flasher::hex::parse_hex_to_image;
use probe_flasher::image::image_to_blocks;

fn record(offset: u16, rtype: u8, data: &[u8]) -> String {
    let mut bytes = vec![data.len() as u8, (offset >> 8) as u8, offset as u8, rtype];
    bytes.extend_from_slice(data);
    let sum = bytes.iter().fold(0u8, |acc, b| acc.wrapping_add(*b));
    bytes.push(0u8.wrapping_sub(sum));
    let mut s = String::from(":");
    for b in bytes {
        s.push_str(&format!("{:02X}", b));
    }
    s.push('\n');
    s
}

#[test]
fn extended_linear_address_places_data_high() {
    let text = ":020000040801F1\n:0400000012345678E8\n:00000001FF\n";
    let img = parse_hex_to_image(text.as_bytes()).unwrap();
    assert_eq!(img.len(), 4);
    assert_eq!(img.entry(0), (0x08010000, 0x12));
    assert_eq!(img.entry(1), (0x08010001, 0x34));
    assert_eq!(img.entry(2), (0x08010002, 0x56));
    assert_eq!(img.entry(3), (0x08010003, 0x78));
}

#[test]
fn later_data_records_overwrite_earlier_bytes() {
    let mut text = record(0x0000, 0x00, &[0x11, 0x22]);
    text.push_str(&record(0x0001, 0x00, &[0x99]));
    text.push_str(&record(0x0000, 0x01, &[]));
    let img = parse_hex_to_image(text.as_bytes()).unwrap();
    assert_eq!(img.len(), 2);
    assert_eq!(img.entry(0), (0x0000, 0x11));
    assert_eq!(img.entry(1), (0x0001, 0x99));
}

#[test]
fn blank_lines_and_crlf_are_tolerated() {
    let text = ":0100000041BE\r\n\r\n   \n:00000001FF\r\n";
    let img = parse_hex_to_image(text.as_bytes()).unwrap();
    assert_eq!(img.len(), 1);
    assert_eq!(img.entry(0), (0x0000, 0x41));
}

#[test]
fn records_after_end_of_file_are_ignored() {
    let mut text = record(0x0000, 0x00, &[0x01]);
    text.push_str(&record(0x0000, 0x01, &[]));
    text.push_str(&record(0x0010, 0x00, &[0x02]));
    let img = parse_hex_to_image(text.as_bytes()).unwrap();
    assert_eq!(img.len(), 1);
}

#[test]
fn unrecognised_but_valid_record_types_are_skipped() {
    let mut text = record(0x0000, 0x02, &[0x10, 0x00]);
    text.push_str(&record(0x0000, 0x03, &[0x00, 0x00, 0x10, 0x00]));
    text.push_str(&record(0x0000, 0x05, &[0x08, 0x00, 0x00, 0x00]));
    text.push_str(&record(0x0000, 0x00, &[0x7F]));
    let img = parse_hex_to_image(text.as_bytes()).unwrap();
    assert_eq!(img.len(), 1);
    assert_eq!(img.entry(0), (0x0000, 0x7F));
}

#[test]
fn missing_start_code_is_rejected() {
    let e = parse_hex_to_image(b"0100000041BE\n").unwrap_err();
    assert_eq!(e, Error::Hex("missing start code ':'".to_string()));
}

#[test]
fn non_hex_characters_are_rejected() {
    let e = parse_hex_to_image(b":01000000Z1BE\n").unwrap_err();
    assert_eq!(e, Error::Hex("invalid characters encountered in record".to_string()));
}

#[test]
fn short_records_are_rejected() {
    let e = parse_hex_to_image(b":0000\n").unwrap_err();
    assert_eq!(e, Error::Hex("too short".to_string()));
}

#[test]
fn odd_length_records_are_rejected() {
    let e = parse_hex_to_image(b":00000001FF0\n").unwrap_err();
    assert_eq!(
        e,
        Error::Hex("record does not contain a whole number of bytes".to_string()),
    );
}

#[test]
fn checksum_mismatch_names_both_values() {
    let e = parse_hex_to_image(b":0000000200\n").unwrap_err();
    assert_eq!(
        e,
        Error::Hex("invalid checksum 'FE', expecting '00'".to_string()),
    );
}

#[test]
fn unsupported_record_types_are_rejected() {
    let text = record(0x0000, 0x06, &[]);
    let e = parse_hex_to_image(text.as_bytes()).unwrap_err();
    assert_eq!(
        e,
        Error::Hex("unsupported IHEX record type '06'".to_string()),
    );
}

#[test]
fn wrong_payload_length_for_type_is_rejected() {
    let text = record(0x0000, 0x04, &[0x08]);
    let e = parse_hex_to_image(text.as_bytes()).unwrap_err();
    assert_eq!(
        e,
        Error::Hex("payload length invalid for record type".to_string()),
    );
}

#[test]
fn length_field_must_match_payload() {
    // length byte says 2 but only one data byte is present
    let e = parse_hex_to_image(b":0200000041BD\n").unwrap_err();
    assert_eq!(
        e,
        Error::Hex("payload length does not match record header".to_string()),
    );
}

#[test]
fn empty_image_is_rejected() {
    assert_eq!(parse_hex_to_image(b"").unwrap_err(), Error::HexFileEmpty);
    assert_eq!(
        parse_hex_to_image(b":00000001FF\n").unwrap_err(),
        Error::HexFileEmpty,
    );
    let text = record(0x0000, 0x00, &[]);
    assert_eq!(parse_hex_to_image(text.as_bytes()).unwrap_err(), Error::HexFileEmpty);
}

#[test]
fn contiguous_runs_coalesce_into_blocks() {
    let mut text = record(0x0000, 0x00, &[0x01, 0x02]);
    text.push_str(&record(0x0002, 0x00, &[0x03]));
    text.push_str(&record(0x0010, 0x00, &[0x04]));
    let img = parse_hex_to_image(text.as_bytes()).unwrap();
    let blocks = image_to_blocks(&img);
    assert_eq!(blocks.len(), 2);
    assert_eq!(blocks[0].base, 0x0000);
    assert_eq!(blocks[0].data, vec![0x01, 0x02, 0x03]);
    assert_eq!(blocks[1].base, 0x0010);
    assert_eq!(blocks[1].data, vec![0x04]);
}

#[test]
fn error_texts_match_their_variants() {
    assert_eq!(
        Error::Timeout.text(),
        "bootloader: timeout waiting for response",
    );
    assert_eq!(Error::Nack.text(), "bootloader: device returned NACK");
    assert_eq!(
        Error::NoEraseSupport.text(),
        "bootloader: no supported erase command",
    );
    assert_eq!(
        Error::UnexpectedResponse(0xAB).text(),
        "bootloader: unexpected response byte 0xAB",
    );
    assert_eq!(
        Error::PortNotFound("COM5".to_string()).text(),
        "port 'COM5' not found or cannot be opened",
    );
    assert_eq!(
        Error::HexFileNotFound("fw.hex".to_string()).text(),
        "hex file 'fw.hex' not found",
    );
    assert_eq!(
        Error::HexFileEmpty.text(),
        "hex file is empty or contains no valid data",
    );
    assert_eq!(
        Error::Serial("busy".to_string()).text(),
        "serial port error: busy",
    );
    assert_eq!(Error::Io("pipe".to_string()).text(), "io error: pipe");
    assert_eq!(
        Error::Hex("too long".to_string()).text(),
        "hex parse error: too long",
    );
}

#[test]
fn record_parser_agrees_with_a_reference_reader() {
    let lines = [
        ":020000040801F1",
        ":0400000012345678E8",
        ":00000001FF",
        ":0400100012345678D8",
        ":0200000041BD",
        ":0000000200",
        ":0000",
        "0400000012345678E8",
        ":01000006FF",
        ":00000001FF0",
    ];
    for line in lines {
        let ours = probe_flasher::hex::parse_record(&line.as_bytes().to_vec());
        let theirs = ihex::Record::from_record_string(line);
        match (ours, theirs) {
            (Ok(_), Ok(_)) => {}
            (Err(e_ours), Err(e_theirs)) => {
                assert_eq!(e_ours, Error::Hex(e_theirs.to_string()), "line {line}");
            }
            (o, t) => panic!("parsers disagree on {line}: {o:?} vs {t:?}"),
        }
    }
    let ours = probe_flasher::hex::parse_record(&b":0400100012345678D8".to_vec()).unwrap();
    let theirs = ihex::Record::from_record_string(":0400100012345678D8").unwrap();
    match (ours, theirs) {
        (
            probe_flasher::hex::Rec::Data { offset, value },
            ihex::Record::Data { offset: ref_offset, value: ref_value },
        ) => {
            assert_eq!(offset, ref_offset);
            assert_eq!(value, ref_value);
        }
        _ => panic!("expected matching data records"),
    }
}
