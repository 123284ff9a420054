use probe_flasher::boot::{apply_boot_mode, BootLineConfig, BootMode, Level};
use probe_flasher::log::{Logger, StdoutLogger};
use probe_flasher::ports::PortInfo;
use probe_flasher::session::FlashOptions;
use probe_flasher::wire::Action;

#[test]
fn default_options_match_the_documented_values() {
    let o = FlashOptions::default();
    assert_eq!(o.baud_rate, 115_200);
    assert_eq!(o.boot_mode, BootMode::NoAction);
    assert!(!o.verify);
    assert!(!o.reset_after);
    assert_eq!(o.read_timeout_ms, 800);
    assert_eq!(o.lines.boot_level, Level::High);
    assert_eq!(o.lines.reset_assert_level, Level::Low);
}

#[test]
fn no_action_mode_touches_no_lines() {
    let acts = apply_boot_mode(BootMode::NoAction, BootLineConfig::default());
    assert!(acts.is_empty());
}

#[test]
fn dtr_low_rts_high_pulse_pattern_is_fixed() {
    let acts = apply_boot_mode(BootMode::DtrLowRtsHigh, BootLineConfig::default());
    assert_eq!(acts.len(), 9);
    assert!(matches!(acts[0], Action::SetDtr(true)));
    assert!(matches!(acts[1], Action::SetRts(false)));
    assert!(matches!(acts[2], Action::Sleep(100)));
    assert!(matches!(acts[3], Action::SetRts(true)));
    assert!(matches!(acts[4], Action::Sleep(50)));
    assert!(matches!(acts[5], Action::SetDtr(false)));
    assert!(matches!(acts[6], Action::Sleep(100)));
    assert!(matches!(acts[7], Action::SetDtr(true)));
    assert!(matches!(acts[8], Action::Sleep(200)));
}

#[test]
fn rts_only_patterns_never_touch_dtr() {
    for mode in [BootMode::RtsLowOnly, BootMode::RtsHighOnly] {
        let acts = apply_boot_mode(mode, BootLineConfig::default());
        assert!(acts.iter().all(|a| !matches!(a, Action::SetDtr(_))));
    }
}

#[test]
fn stdout_logger_accepts_lines() {
    let logger = StdoutLogger;
    logger.line("info", "ready");
    logger.line("warn", "reserved");
}

#[test]
fn port_info_carries_the_enumerated_fields() {
    let p = PortInfo {
        id: "/dev/ttyUSB0".to_string(),
        label: "/dev/ttyUSB0 - USB Serial".to_string(),
        port_name: "/dev/ttyUSB0".to_string(),
        vid: Some(0x0403),
        pid: Some(0x6001),
        serial: Some("A1B2C3".to_string()),
    };
    assert_eq!(p.port_name, p.id);
    assert_eq!(p.vid, Some(0x0403));
    assert_eq!(p.pid, Some(0x6001));
    assert_eq!(p.serial.as_deref(), Some("A1B2C3"));
    assert!(p.label.starts_with(&p.port_name));
}
