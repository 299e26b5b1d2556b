use openworld::advanced_logging::{AdvancedLog, Logger, UninitLogger};

#[test]
fn uninit_logger_rejects_everything() {
    let mut log = UninitLogger {};
    assert!(!log.push_new_channel("render"));
    assert_eq!(log.write_to_channel("render", String::from("frame 1")), None);
    assert!(!log.flush_all());
}

#[test]
fn advanced_log_registers_and_writes() {
    let mut log = AdvancedLog::new();
    assert!(log.push_new_channel("render"));
    assert_eq!(log.write_to_channel("render", String::from("frame 1")), Some(()));
    assert_eq!(log.write_to_channel("render", String::from("frame 2")), Some(()));
    let lines = log.read_channel("render").unwrap();
    assert_eq!(lines.len(), 2);
    assert_eq!(lines[0], "frame 1");
    assert_eq!(lines[1], "frame 2");
}

#[test]
fn advanced_log_rejects_unknown_channel() {
    let mut log = AdvancedLog::new();
    assert!(log.push_new_channel("render"));
    assert_eq!(log.write_to_channel("physics", String::from("tick")), None);
    assert!(log.read_channel("physics").is_none());
}

#[test]
fn advanced_log_flush_empties_but_keeps_channels() {
    let mut log = AdvancedLog::new();
    assert!(log.push_new_channel("render"));
    assert!(log.push_new_channel("physics"));
    assert_eq!(log.write_to_channel("render", String::from("a")), Some(()));
    assert_eq!(log.write_to_channel("physics", String::from("b")), Some(()));
    assert!(log.flush_all());
    assert_eq!(log.read_channel("render").unwrap().len(), 0);
    assert_eq!(log.read_channel("physics").unwrap().len(), 0);
    // the channels are still registered and writable
    assert_eq!(log.write_to_channel("render", String::from("c")), Some(()));
    assert_eq!(log.read_channel("render").unwrap().len(), 1);
}

#[test]
fn advanced_log_reregistering_resets_a_channel() {
    let mut log = AdvancedLog::new();
    assert!(log.push_new_channel("render"));
    assert_eq!(log.write_to_channel("render", String::from("x")), Some(()));
    assert!(log.push_new_channel("render"));
    assert_eq!(log.read_channel("render").unwrap().len(), 0);
}
