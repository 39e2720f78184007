use snappy_agent::models::{PIDS, VID};
use snappy_agent::status::{
    connection_event, device_info_response, start_response, stop_response, version_response,
    PresenceState,
};

#[test]
fn connected_event_text() {
    let e = connection_event(&Some((0x8055, "/dev/ttyACM0".to_string())));
    assert_eq!(e.event, "device-connection");
    assert_eq!(e.status, "true,pid:0x8055,device:/dev/ttyACM0");
}

#[test]
fn disconnected_event_text() {
    let e = connection_event(&None);
    assert_eq!(e.event, "device-connection");
    assert_eq!(e.status, "false");
}

#[test]
fn presence_emits_on_change_only() {
    let mut p = PresenceState::new();
    let e = p.step(false, &None).expect("first report");
    assert_eq!(e.status, "false");
    assert!(p.step(false, &None).is_none());
    let dev = Some((0x5508, "/dev/ttyACM0".to_string()));
    assert_eq!(p.step(true, &dev).unwrap().status, "true,pid:0x5508,device:/dev/ttyACM0");
    assert!(p.step(true, &dev).is_none());
    let other = Some((0x8055, "/dev/ttyACM0".to_string()));
    assert_eq!(p.step(true, &other).unwrap().status, "true,pid:0x8055,device:/dev/ttyACM0");
    assert_eq!(p.step(false, &None).unwrap().status, "false");
}

#[test]
fn device_info_lists_ids() {
    let r = device_info_response(VID, &PIDS);
    assert!(r.success);
    assert_eq!(r.command, "device-info");
    assert_eq!(r.message, "VID: 0xb1b0, Supported PIDs: [0x5508, 0x8055]");
    assert!(r.error.is_none());
}

#[test]
fn start_echoes_ids() {
    let r = start_response(&PIDS);
    assert!(r.success);
    assert_eq!(r.command, "start-snappy");
    assert_eq!(r.message, "Snappy data collection started for PIDs: [\"0x5508\", \"0x8055\"]");
    assert_eq!(start_response(&[]).message, "Snappy data collection started for PIDs: []");
}

#[test]
fn stop_and_version_answers() {
    let s = stop_response();
    assert!(s.success);
    assert_eq!(s.command, "stop-snappy");
    assert_eq!(s.message, "Snappy data collection stopped for all devices");
    let v = version_response("1.2.3");
    assert_eq!(v.command, "version");
    assert_eq!(v.message, "1.2.3");
}
