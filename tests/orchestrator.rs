use snappy_agent::cipher::chacha20_encrypt;
use snappy_agent::framing::FrameAccumulator;
use snappy_agent::keys::{hash_serial, DEFAULT_KEY_VECTOR};
use snappy_agent::orchestrator::{
    advance, identity_bytes, ingest, on_report, plan, serial_needs_fallback, KeyCache, PollAction,
    PollState, ReadAction, ReadOutcome, SessionState, OPEN_RETRY_MS, READ_RETRY_MS,
};

fn plain_message() -> Vec<u8> {
    vec![0x53, 0x4e, 0x41, 0x50, 0x50, 0x59, 0x3a, 1, 2, 3, 4, 5, 6, 0, 42]
}

#[test]
fn identity_takes_sixteen_low_bytes() {
    assert_eq!(identity_bytes("SN0001"), b"SN0001".to_vec());
    assert_eq!(identity_bytes("ABCDEFGHIJKLMNOPQRS"), b"ABCDEFGHIJKLMNOP".to_vec());
    assert_eq!(identity_bytes("\u{e9}\u{100}"), vec![0xe9, 0x00]);
    assert_eq!(identity_bytes(""), Vec::<u8>::new());
}

#[test]
fn placeholder_serial_needs_fallback() {
    assert!(serial_needs_fallback(&None));
    assert!(serial_needs_fallback(&Some("6".to_string())));
    assert!(!serial_needs_fallback(&Some("66".to_string())));
    assert!(!serial_needs_fallback(&Some("SN0001".to_string())));
}

#[test]
fn key_cache_matches_direct_derivation() {
    let mut cache = KeyCache::new(DEFAULT_KEY_VECTOR);
    let mut expected = [0u8; 32];
    hash_serial(&DEFAULT_KEY_VECTOR, b"SN0001", &mut expected);
    assert_eq!(cache.key_for(b"SN0001"), expected);
    assert_eq!(cache.key_for(b"SN0001"), expected);
    let mut other = [0u8; 32];
    hash_serial(&DEFAULT_KEY_VECTOR, b"SN0002", &mut other);
    assert_eq!(cache.key_for(b"SN0002"), other);
}

#[test]
fn poll_reports_changes_only() {
    let mut poll = PollState::new();
    let dev = Some(("/dev/ttyACM0".to_string(), 0x8055u16));
    match poll.step(true, dev.clone()) {
        PollAction::Send(name, pid) => {
            assert_eq!(name, "/dev/ttyACM0");
            assert_eq!(pid, 0x8055);
        }
        other => panic!("unexpected {:?}", other),
    }
    assert!(matches!(poll.step(true, dev.clone()), PollAction::Wait));
    match poll.step(true, None) {
        PollAction::Send(name, pid) => {
            assert_eq!(name, "");
            assert_eq!(pid, 0);
        }
        other => panic!("unexpected {:?}", other),
    }
    assert!(matches!(poll.step(true, None), PollAction::Wait));
    let other_pid = Some(("/dev/ttyACM0".to_string(), 0x5508u16));
    assert!(matches!(poll.step(true, other_pid), PollAction::Send(_, 0x5508)));
}

#[test]
fn stop_ends_both_loops() {
    let mut poll = PollState::new();
    assert!(matches!(poll.step(false, Some(("x".to_string(), 1))), PollAction::Exit));
    assert!(poll.last.is_none());
    for state in [SessionState::Unbound, SessionState::Open(0x8055), SessionState::Closed(250)] {
        assert_eq!(plan(state, false), ReadAction::Stop);
    }
}

#[test]
fn session_lifecycle() {
    let mut s = SessionState::Unbound;
    assert_eq!(plan(s, true), ReadAction::OpenSession);
    s = advance(s, ReadOutcome::OpenFailed);
    assert_eq!(s, SessionState::Closed(OPEN_RETRY_MS));
    assert_eq!(plan(s, true), ReadAction::Wait(OPEN_RETRY_MS));
    s = advance(s, ReadOutcome::Waited);
    assert_eq!(s, SessionState::Unbound);
    s = advance(s, ReadOutcome::Opened(0x8055));
    assert_eq!(s, SessionState::Open(0x8055));
    assert_eq!(plan(s, true), ReadAction::Read);
    s = advance(s, ReadOutcome::Received(0));
    assert_eq!(s, SessionState::Open(0x8055));
    s = advance(s, ReadOutcome::Received(12));
    assert_eq!(s, SessionState::Open(0x8055));
    s = advance(s, ReadOutcome::ReadFailed);
    assert_eq!(s, SessionState::Closed(READ_RETRY_MS));
    assert_eq!(plan(s, true), ReadAction::Wait(READ_RETRY_MS));
}

#[test]
fn product_change_drops_the_session() {
    assert_eq!(on_report(SessionState::Open(0x8055), 0x5508), SessionState::Unbound);
    assert_eq!(on_report(SessionState::Open(0x8055), 0x8055), SessionState::Open(0x8055));
    assert_eq!(on_report(SessionState::Open(0x8055), 0), SessionState::Open(0x8055));
    assert_eq!(on_report(SessionState::Unbound, 0x5508), SessionState::Unbound);
}

#[test]
fn ingest_decrypts_and_decodes_frames() {
    let mut key = [0u8; 32];
    hash_serial(&DEFAULT_KEY_VECTOR, b"SN0001", &mut key);
    let plain = plain_message();
    let mut cipher = vec![0u8; plain.len()];
    chacha20_encrypt(&key, &key, 0, &plain, &mut cipher);
    assert_eq!(cipher, vec![228, 67, 7, 218, 81, 218, 209, 244, 168, 191, 130, 246, 131, 57, 156]);
    let mut stream = cipher.clone();
    stream.extend_from_slice(b"\r\n");
    stream.extend_from_slice(b"noise\r\n");
    let mut acc = FrameAccumulator::new();
    let first = ingest(&mut acc, &key, &stream[..5]);
    assert!(first.readings.is_empty());
    assert!(!first.overflowed);
    let second = ingest(&mut acc, &key, &stream[5..]);
    assert_eq!(second.readings.len(), 2);
    let reading = second.readings[0].as_ref().expect("first frame decodes");
    assert_eq!(reading.mac, "01:02:03:04:05:06");
    assert_eq!(reading.value, 42);
    assert!(second.readings[1].is_none());
    assert_eq!(acc.len(), 0);
}

#[test]
fn ingest_reports_overflow() {
    let key = [0u8; 32];
    let mut acc = FrameAccumulator::new();
    let r = ingest(&mut acc, &key, &vec![1u8; 5000]);
    assert!(r.overflowed);
    assert!(r.readings.is_empty());
    assert_eq!(acc.len(), 0);
}
