use probe_flasher::errors::Error;
use probe_flasher::session::{flash_hex, step, FlashOptions, Outcome, Session};
use probe_flasher::wire::{Action, Event, LogLevel, LogNote};

fn record(offset: u16, rtype: u8, data: &[u8]) -> String {
    let mut bytes = vec![data.len() as u8, (offset >> 8) as u8, offset as u8, rtype];
    bytes.extend_from_slice(data);
    let sum = bytes.iter().fold(0u8, |acc, b| acc.wrapping_add(*b));
    bytes.push(0u8.wrapping_sub(sum));
    let mut s = String::from(":");
    for b in bytes {
        s.push_str(&format!("{:02X}", b));
    }
    s.push('\n');
    s
}

/// An image of three hundred 0xAB bytes at 0x08000000, as a HEX text.
fn three_hundred_bytes_hex() -> String {
    let mut text = record(0x0000, 0x04, &[0x08, 0x00]);
    let chunk = [0xABu8; 32];
    for i in 0..9 {
        text.push_str(&record(i * 32, 0x00, &chunk));
    }
    text.push_str(&record(9 * 32, 0x00, &[0xAB; 12]));
    text.push_str(&record(0x0000, 0x01, &[]));
    text
}

fn writes(acts: &[Action]) -> Vec<Vec<u8>> {
    acts.iter()
        .filter_map(|a| match a {
            Action::Write(v) => Some(v.clone()),
            _ => None,
        })
        .collect()
}

/// Runs the flash session up to the point where the command set just
/// arrived: replies to the wake and the GET exchange.
fn through_discovery(text: &str, o: &FlashOptions, cmds: &[u8]) -> (Session, Vec<Action>) {
    let (s, _) = flash_hex(text.as_bytes(), o).unwrap();
    let (s, _) = step(s, Event::Byte(0x79));
    let (s, _) = step(s, Event::Byte(0x79));
    let (s, _) = step(s, Event::Byte(cmds.len() as u8));
    let (s, _) = step(s, Event::Byte(0x31));
    let (s, _) = step(s, Event::Bytes(cmds.to_vec()));
    step(s, Event::Byte(0x79))
}

#[test]
fn extended_erase_sends_command_and_mass_trailer() {
    let text = three_hundred_bytes_hex();
    let (s, acts) = through_discovery(&text, &FlashOptions::default(), &[0x44]);
    assert_eq!(writes(&acts), vec![vec![0x44, 0xBB]]);
    let (_, acts) = step(s, Event::Byte(0x79));
    assert_eq!(writes(&acts), vec![vec![0xFF, 0xFF, 0x00]]);
    // the mass-erase acknowledgement gets the extended deadline
    assert!(acts.iter().any(|a| matches!(a, Action::Read(25_000))));
}

#[test]
fn legacy_erase_is_chosen_without_extended_support() {
    let text = three_hundred_bytes_hex();
    let (s, acts) = through_discovery(&text, &FlashOptions::default(), &[0x43]);
    assert_eq!(writes(&acts), vec![vec![0x43, 0xBC]]);
    let (_, acts) = step(s, Event::Byte(0x79));
    assert_eq!(writes(&acts), vec![vec![0xFF, 0x00]]);
    assert!(acts.iter().any(|a| matches!(a, Action::Read(25_000))));
}

#[test]
fn extended_erase_wins_when_both_are_supported() {
    let text = three_hundred_bytes_hex();
    let (_, acts) = through_discovery(&text, &FlashOptions::default(), &[0x43, 0x44]);
    assert_eq!(writes(&acts), vec![vec![0x44, 0xBB]]);
}

#[test]
fn missing_erase_support_fails_without_an_erase_frame() {
    let text = three_hundred_bytes_hex();
    let (s, acts) = through_discovery(&text, &FlashOptions::default(), &[0x31]);
    assert!(writes(&acts).is_empty());
    assert!(s.is_done());
    match s.outcome() {
        Some(Outcome::Failed(Error::NoEraseSupport)) => {},
        _ => panic!("expected a missing-erase failure"),
    }
}

#[test]
fn a_300_byte_image_writes_in_two_chunks() {
    let text = three_hundred_bytes_hex();
    let (s, _) = through_discovery(&text, &FlashOptions::default(), &[0x44]);
    let (s, _) = step(s, Event::Byte(0x79));
    // erase acknowledged: the first write-memory command goes out
    let (s, acts) = step(s, Event::Byte(0x79));
    assert_eq!(writes(&acts), vec![vec![0x31, 0xCE]]);
    let (s, acts) = step(s, Event::Byte(0x79));
    assert_eq!(writes(&acts), vec![vec![0x08, 0x00, 0x00, 0x00, 0x08]]);
    let (s, acts) = step(s, Event::Byte(0x79));
    let w = writes(&acts);
    assert_eq!(w.len(), 1);
    assert_eq!(w[0].len(), 258);
    assert_eq!(w[0][0], 0xFF);
    assert!(w[0][1..257].iter().all(|b| *b == 0xAB));
    // first chunk acknowledged: progress, then the second command
    let (s, acts) = step(s, Event::Byte(0x79));
    assert!(acts.iter().any(|a| matches!(a, Action::Progress(256, 300))));
    assert_eq!(writes(&acts), vec![vec![0x31, 0xCE]]);
    let (s, acts) = step(s, Event::Byte(0x79));
    assert_eq!(writes(&acts), vec![vec![0x08, 0x00, 0x01, 0x00, 0x09]]);
    let (s, acts) = step(s, Event::Byte(0x79));
    let w = writes(&acts);
    assert_eq!(w[0].len(), 46);
    assert_eq!(w[0][0], 0x2B);
    let (s, acts) = step(s, Event::Byte(0x79));
    assert!(acts.iter().any(|a| matches!(a, Action::Progress(300, 300))));
    assert!(s.is_done());
    match s.outcome() {
        Some(Outcome::Flashed) => {},
        _ => panic!("expected a flashed outcome"),
    }
}

/// Runs a session through erase and both write chunks of the
/// three-hundred-byte image, acknowledging everything.
fn through_writes(o: &FlashOptions, cmds: &[u8]) -> (Session, Vec<Action>) {
    let text = three_hundred_bytes_hex();
    let (s, _) = through_discovery(&text, o, cmds);
    let (s, _) = step(s, Event::Byte(0x79));
    let (s, _) = step(s, Event::Byte(0x79));
    let (s, _) = step(s, Event::Byte(0x79));
    let (s, _) = step(s, Event::Byte(0x79));
    let (s, _) = step(s, Event::Byte(0x79));
    let (s, _) = step(s, Event::Byte(0x79));
    let (s, _) = step(s, Event::Byte(0x79));
    step(s, Event::Byte(0x79))
}

#[test]
fn launch_goes_out_after_writing_when_requested() {
    let o = FlashOptions { reset_after: true, ..FlashOptions::default() };
    let (s, acts) = through_writes(&o, &[0x44, 0x21]);
    assert_eq!(writes(&acts), vec![vec![0x21, 0xDE]]);
    let (s, acts) = step(s, Event::Byte(0x79));
    assert_eq!(writes(&acts), vec![vec![0x08, 0x00, 0x00, 0x00, 0x08]]);
    let (s, acts) = step(s, Event::Byte(0x79));
    assert!(acts.iter().any(
        |a| matches!(a, Action::Note(LogLevel::Info, LogNote::ProgramStarted)),
    ));
    assert!(s.is_done());
    match s.outcome() {
        Some(Outcome::Flashed) => {},
        _ => panic!("expected a flashed outcome"),
    }
}

#[test]
fn nacked_launch_falls_back_to_hardware_reset() {
    let o = FlashOptions { reset_after: true, ..FlashOptions::default() };
    let (s, _) = through_writes(&o, &[0x44, 0x21]);
    let (s, acts) = step(s, Event::Byte(0x1F));
    assert!(acts.iter().any(
        |a| matches!(a, Action::Note(LogLevel::Warn, LogNote::GoFailed(Error::Nack))),
    ));
    assert!(acts.iter().any(|a| matches!(a, Action::SetRts(false))));
    assert_eq!(
        acts.iter().filter(|a| matches!(a, Action::SetDtr(_))).count(),
        3,
    );
    assert!(!s.is_done());
    let (s, _) = step(s, Event::Completed);
    assert!(s.is_done());
    match s.outcome() {
        Some(Outcome::Flashed) => {},
        _ => panic!("the flash still succeeds after the fallback"),
    }
}

#[test]
fn without_launch_support_the_reset_pulse_runs() {
    let o = FlashOptions { reset_after: true, ..FlashOptions::default() };
    let (s, acts) = through_writes(&o, &[0x44]);
    assert!(writes(&acts).is_empty());
    assert!(acts.iter().any(
        |a| matches!(a, Action::Note(LogLevel::Info, LogNote::ResettingToRun)),
    ));
    assert!(acts.iter().any(|a| matches!(a, Action::SetRts(false))));
    let (s, _) = step(s, Event::Completed);
    match s.outcome() {
        Some(Outcome::Flashed) => {},
        _ => panic!("expected a flashed outcome"),
    }
}

#[test]
fn every_command_read_uses_the_configured_deadline() {
    let o = FlashOptions { read_timeout_ms: 123, ..FlashOptions::default() };
    let text = three_hundred_bytes_hex();
    let (s, acts) = flash_hex(text.as_bytes(), &o).unwrap();
    assert!(acts.iter().any(|a| matches!(a, Action::Read(123))));
    let (_, acts) = step(s, Event::Byte(0x79));
    assert!(acts.iter().any(|a| matches!(a, Action::Read(123))));
}

#[test]
fn verify_request_is_acknowledged_and_skipped() {
    let o = FlashOptions { verify: true, ..FlashOptions::default() };
    let (s, acts) = through_writes(&o, &[0x44]);
    assert!(acts.iter().any(
        |a| matches!(a, Action::Note(LogLevel::Warn, LogNote::VerifySkipped)),
    ));
    let (s, _) = step(s, Event::Completed);
    assert!(s.is_done());
}

#[test]
fn flash_rejects_a_hexless_text() {
    let e = flash_hex(b"not hex", &FlashOptions::default()).unwrap_err();
    assert_eq!(e, Error::Hex("missing start code ':'".to_string()));
    let e = flash_hex(b":00000001FF\n", &FlashOptions::default()).unwrap_err();
    assert_eq!(e, Error::HexFileEmpty);
}

#[test]
fn hard_failures_during_flash_carry_the_error() {
    let text = three_hundred_bytes_hex();
    let (s, _) = through_discovery(&text, &FlashOptions::default(), &[0x44]);
    let (s, _) = step(s, Event::Failed(Error::Io("pipe closed".to_string())));
    assert!(s.is_done());
    match s.outcome() {
        Some(Outcome::Failed(Error::Io(m))) => assert_eq!(m, "pipe closed"),
        _ => panic!("expected the I/O failure to surface"),
    }
}
