use snappy_agent::transport::{
    find_bulk_in_endpoint, needs_configuration, parse_string_descriptor, select_endpoint,
    string_descriptor_value, sysfs_serial_path, trim_serial, EndpointInfo,
    DEFAULT_BULK_IN_ENDPOINT,
};

fn ep(interface_number: u8, bulk: bool, inbound: bool, address: u8) -> EndpointInfo {
    EndpointInfo { interface_number, bulk, inbound, address }
}

#[test]
fn endpoint_of_claimed_interface() {
    let eps = [ep(0, true, true, 0x81), ep(1, true, false, 0x02), ep(1, true, true, 0x83)];
    assert_eq!(find_bulk_in_endpoint(&eps, 1), Some(0x83));
    assert_eq!(select_endpoint(&eps, 1), 0x83);
}

#[test]
fn endpoint_falls_back_to_interface_zero_then_default() {
    let eps = [ep(0, true, true, 0x84), ep(1, false, true, 0x85)];
    assert_eq!(select_endpoint(&eps, 1), 0x84);
    let none = [ep(2, true, true, 0x86)];
    assert_eq!(select_endpoint(&none, 1), DEFAULT_BULK_IN_ENDPOINT);
    assert_eq!(select_endpoint(&[], 0), 0x81);
}

#[test]
fn configuration_switch() {
    assert!(!needs_configuration(Some(1)));
    assert!(needs_configuration(Some(2)));
    assert!(needs_configuration(None));
}

#[test]
fn descriptor_request_value() {
    assert_eq!(string_descriptor_value(3), 0x0303);
    assert_eq!(string_descriptor_value(0xff), 0x03ff);
}

#[test]
fn parses_utf16_serial() {
    let d = [12u8, 3, b' ', 0, b'S', 0, b'N', 0, b'1', 0, b' ', 0];
    assert_eq!(parse_string_descriptor(&d), Some("SN1".to_string()));
}

#[test]
fn descriptor_length_caps_the_text() {
    let d = [6u8, 3, b'A', 0, b'B', 0, b'C', 0];
    assert_eq!(parse_string_descriptor(&d), Some("AB".to_string()));
}

#[test]
fn zero_units_and_surrogates_are_skipped() {
    let d = [10u8, 3, 0, 0, b'X', 0, 0x00, 0xd8, 0xe9, 0x00];
    assert_eq!(parse_string_descriptor(&d), Some("X\u{e9}".to_string()));
}

#[test]
fn rejects_other_descriptors() {
    assert_eq!(parse_string_descriptor(&[4, 2, b'A', 0]), None);
    assert_eq!(parse_string_descriptor(&[2, 3]), None);
    assert_eq!(parse_string_descriptor(&[4, 3, 0, 0]), None);
    assert_eq!(parse_string_descriptor(&[]), None);
}

#[test]
fn sysfs_path_of_port() {
    assert_eq!(sysfs_serial_path("/dev/ttyACM0"), "/sys/class/tty/ttyACM0/device/../serial");
    assert_eq!(sysfs_serial_path("ttyUSB1"), "/sys/class/tty/ttyUSB1/device/../serial");
}

#[test]
fn serial_attribute_is_trimmed() {
    assert_eq!(trim_serial("  SN0001\n"), "SN0001");
    assert_eq!(trim_serial("SN0001"), "SN0001");
}
