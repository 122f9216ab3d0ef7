use chips_display::discovery::{
    contains_bytes, get_chips_id, get_chips_serial_port_info, DeviceEntry,
};

fn entry(enabled: bool, id: &str) -> DeviceEntry {
    DeviceEntry { enabled, id: id.to_string() }
}

#[test]
fn contains_bytes_finds_a_run() {
    assert!(contains_bytes(b"abcdef", b"cde"));
    assert!(contains_bytes(b"abcdef", b"abcdef"));
    assert!(contains_bytes(b"abcdef", b"f"));
    assert!(contains_bytes(b"abcdef", b"a"));
    assert!(contains_bytes(b"aab", b"ab"));
    assert!(!contains_bytes(b"abcdef", b"ce"));
    assert!(!contains_bytes(b"abc", b"abcd"));
    assert!(!contains_bytes(b"", b"a"));
}

#[test]
fn every_text_contains_the_empty_run() {
    assert!(contains_bytes(b"abc", b""));
    assert!(contains_bytes(b"", b""));
}

#[test]
fn contains_bytes_agrees_with_str_contains() {
    let texts = ["", "a", "ab", "aba", "USB\\VID_1A86&PID_5722\\USB35INCHIPSV2", "héllo", "llo"];
    for hay in texts {
        for needle in texts {
            assert_eq!(contains_bytes(hay.as_bytes(), needle.as_bytes()), hay.contains(needle));
        }
    }
}

#[test]
fn the_first_enabled_device_with_the_marker_is_chosen() {
    let devices = [
        entry(true, "USB\\VID_0000\\KEYBOARD"),
        entry(false, "USB\\VID_1A86\\USB35INCHIPSV2_A"),
        entry(true, "USB\\VID_1A86\\USB35INCHIPSV2_B"),
        entry(true, "USB\\VID_1A86\\USB35INCHIPSV2_C"),
    ];
    assert_eq!(get_chips_id(&devices), Some(2));
}

#[test]
fn no_device_with_the_marker() {
    assert_eq!(get_chips_id(&[]), None);
    let devices = [entry(true, "USB35INCHIPSV"), entry(false, "USB35INCHIPSV2")];
    assert_eq!(get_chips_id(&devices), None);
}

#[test]
fn the_port_whose_serial_number_is_in_the_identifier() {
    let id = "USB\\VID_1A86&PID_5722\\USB35INCHIPSV2";
    let ports = [
        None,
        Some("OTHER".to_string()),
        Some("USB35INCHIPSV2".to_string()),
        Some("PID_5722".to_string()),
    ];
    assert_eq!(get_chips_serial_port_info(&ports, id), Some(2));
    assert_eq!(get_chips_serial_port_info(&ports[..2], id), None);
    assert_eq!(get_chips_serial_port_info(&[], id), None);
}
