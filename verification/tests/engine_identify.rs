use probe_flasher::boot::BootMode;
use probe_flasher::session::{identify, step, FlashOptions, Outcome, Session};
use probe_flasher::wire::{Action, Event};

fn writes(acts: &[Action]) -> Vec<Vec<u8>> {
    acts.iter()
        .filter_map(|a| match a {
            Action::Write(v) => Some(v.clone()),
            _ => None,
        })
        .collect()
}

fn wake_count(acts: &[Action]) -> usize {
    writes(acts).iter().filter(|w| w.as_slice() == [0x7F]).count()
}

fn opts() -> FlashOptions {
    FlashOptions::default()
}

/// Drives a session through one event, asserting nothing.
fn drive(s: Session, ev: Event) -> (Session, Vec<Action>) {
    step(s, ev)
}

#[test]
fn identify_reports_version_commands_and_missing_product_id() {
    let (s, acts) = identify(&opts());
    assert_eq!(wake_count(&acts), 1);
    // wake acknowledged: GET goes out
    let (s, acts) = drive(s, Event::Byte(0x79));
    assert_eq!(writes(&acts), vec![vec![0x00, 0xFF]]);
    let (s, _) = drive(s, Event::Byte(0x79));
    let (s, _) = drive(s, Event::Byte(0x03));
    let (s, acts) = drive(s, Event::Byte(0x31));
    assert!(acts.iter().any(|a| matches!(a, Action::ReadExact(3))));
    let (s, _) = drive(s, Event::Bytes(vec![0x00, 0x31, 0x43]));
    // trailing ACK: GET ID goes out
    let (s, acts) = drive(s, Event::Byte(0x79));
    assert_eq!(writes(&acts), vec![vec![0x02, 0xFD]]);
    // the peer stays silent on GET ID: not fatal
    let (s, _) = drive(s, Event::TimedOut);
    assert!(s.is_done());
    match s.outcome() {
        Some(Outcome::Identified(r)) => {
            assert!(r.ok);
            assert_eq!(r.bootloader_version, Some(0x31));
            assert_eq!(r.supported_commands, vec![0x00, 0x31, 0x43]);
            assert_eq!(r.product_id, None);
            assert_eq!(r.error, None);
        },
        _ => panic!("expected an identify report"),
    }
}

#[test]
fn autobaud_recovers_on_the_third_attempt() {
    let (s, acts) = identify(&opts());
    let mut total_wakes = wake_count(&acts);
    let (s, acts) = drive(s, Event::TimedOut);
    total_wakes += wake_count(&acts);
    let (s, acts) = drive(s, Event::TimedOut);
    total_wakes += wake_count(&acts);
    assert_eq!(total_wakes, 3);
    // third attempt succeeds: the GET command goes out
    let (_, acts) = drive(s, Event::Byte(0x79));
    assert_eq!(writes(&acts), vec![vec![0x00, 0xFF]]);
}

#[test]
fn autobaud_gives_up_after_five_attempts() {
    let (mut s, acts) = identify(&opts());
    let mut total_wakes = wake_count(&acts);
    for _ in 0..4 {
        let (s2, acts) = drive(s, Event::TimedOut);
        total_wakes += wake_count(&acts);
        s = s2;
    }
    assert_eq!(total_wakes, 5);
    let (s, acts) = drive(s, Event::TimedOut);
    assert_eq!(wake_count(&acts), 0);
    assert!(s.is_done());
    match s.outcome() {
        Some(Outcome::Identified(r)) => {
            assert!(!r.ok);
            assert_eq!(
                r.error.as_deref(),
                Some("bootloader: timeout waiting for response"),
            );
        },
        _ => panic!("expected a failed identify report"),
    }
}

#[test]
fn noise_during_autobaud_clears_input_and_retries() {
    let (s, _) = identify(&opts());
    let (_, acts) = drive(s, Event::Byte(0x55));
    assert!(acts.iter().any(|a| matches!(a, Action::ClearInput)));
    assert_eq!(wake_count(&acts), 1);
}

#[test]
fn product_id_two_bytes_is_big_endian() {
    let (s, _) = identify(&opts());
    let (s, _) = drive(s, Event::Byte(0x79));
    let (s, _) = drive(s, Event::Byte(0x79));
    let (s, _) = drive(s, Event::Byte(0x01));
    let (s, _) = drive(s, Event::Byte(0x22));
    let (s, _) = drive(s, Event::Bytes(vec![0x44]));
    let (s, _) = drive(s, Event::Byte(0x79));
    // GET ID: ACK, count 1, two id bytes, trailing ACK
    let (s, _) = drive(s, Event::Byte(0x79));
    let (s, acts) = drive(s, Event::Byte(0x01));
    assert!(acts.iter().any(|a| matches!(a, Action::ReadExact(2))));
    let (s, _) = drive(s, Event::Bytes(vec![0x04, 0x13]));
    let (s, _) = drive(s, Event::Byte(0x79));
    match s.outcome() {
        Some(Outcome::Identified(r)) => {
            assert!(r.ok);
            assert_eq!(r.product_id, Some(0x0413));
        },
        _ => panic!("expected an identify report"),
    }
}

#[test]
fn product_id_single_byte_is_zero_extended() {
    let (s, _) = identify(&opts());
    let (s, _) = drive(s, Event::Byte(0x79));
    let (s, _) = drive(s, Event::Byte(0x79));
    let (s, _) = drive(s, Event::Byte(0x01));
    let (s, _) = drive(s, Event::Byte(0x22));
    let (s, _) = drive(s, Event::Bytes(vec![0x44]));
    let (s, _) = drive(s, Event::Byte(0x79));
    let (s, _) = drive(s, Event::Byte(0x79));
    let (s, _) = drive(s, Event::Byte(0x00));
    let (s, _) = drive(s, Event::Bytes(vec![0x69]));
    let (s, _) = drive(s, Event::Byte(0x79));
    match s.outcome() {
        Some(Outcome::Identified(r)) => {
            assert_eq!(r.product_id, Some(0x0069));
        },
        _ => panic!("expected an identify report"),
    }
}

#[test]
fn identify_twice_with_the_same_replies_reports_the_same() {
    let script = || {
        let (s, _) = identify(&opts());
        let (s, _) = drive(s, Event::Byte(0x79));
        let (s, _) = drive(s, Event::Byte(0x79));
        let (s, _) = drive(s, Event::Byte(0x02));
        let (s, _) = drive(s, Event::Byte(0x31));
        let (s, _) = drive(s, Event::Bytes(vec![0x00, 0x44]));
        let (s, _) = drive(s, Event::Byte(0x79));
        let (s, _) = drive(s, Event::TimedOut);
        match s.outcome() {
            Some(Outcome::Identified(r)) => (
                r.ok,
                r.bootloader_version,
                r.supported_commands.clone(),
                r.product_id,
            ),
            _ => panic!("expected an identify report"),
        }
    };
    assert_eq!(script(), script());
}

#[test]
fn nack_to_a_framed_request_fails_the_session() {
    let (s, _) = identify(&opts());
    let (s, _) = drive(s, Event::Byte(0x79));
    let (s, _) = drive(s, Event::Byte(0x1F));
    assert!(s.is_done());
    match s.outcome() {
        Some(Outcome::Identified(r)) => {
            assert!(!r.ok);
            assert_eq!(r.error.as_deref(), Some("bootloader: device returned NACK"));
        },
        _ => panic!("expected a failed identify report"),
    }
}

#[test]
fn boot_mode_pulses_precede_the_handshake() {
    let o = FlashOptions { boot_mode: BootMode::DtrHighOnly, ..FlashOptions::default() };
    let (_, acts) = identify(&o);
    assert!(matches!(acts[0], Action::SetDtr(false)));
    assert!(matches!(acts[1], Action::Sleep(100)));
    assert!(matches!(acts[2], Action::SetDtr(true)));
    assert!(matches!(acts[3], Action::Sleep(100)));
    assert!(matches!(acts[4], Action::SetDtr(false)));
    assert!(matches!(acts[5], Action::Sleep(200)));
    assert!(matches!(acts[6], Action::ClearInput));
}
