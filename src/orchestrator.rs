use vstd::prelude::*;
use crate::cipher::{chacha20_decrypt, decrypt_bytes};
use crate::decoder::{decode_message, is_reading, mac_text, reading_value, SnapReading};
use crate::framing::{after_feed, drain_all, overflows, FrameAccumulator, FrameError};
use crate::keys::{derive_key, hash_serial};

verus! {

/// Block counter every frame is decrypted from.
pub const FRAME_COUNTER: u32 = 0;

/// Pause between discovery polls, in milliseconds.
pub const POLL_INTERVAL_MS: u64 = 10;

/// Pause after a failed session open, in milliseconds.
pub const OPEN_RETRY_MS: u64 = 500;

/// Pause after a read error, in milliseconds.
pub const READ_RETRY_MS: u64 = 250;

/// Capacity of the channel from the poll task to the read task.
pub const CHANNEL_CAPACITY: usize = 100;

/// Most identity characters used for key derivation.
pub const IDENTITY_LEN: usize = 16;

// ---------------------------------------------------------------- identity

/// The identity bytes of a serial number: its first 16 characters, each
/// truncated to its low byte.
pub open spec fn identity_of(serial: Seq<char>) -> Seq<u8> {
    let n = if serial.len() < 16 {
        serial.len()
    } else {
        16
    };
    Seq::new(n, |i: int| serial[i] as u32 as u8)
}

/// The identity bytes used to derive a device's key from its serial number.
pub fn identity_bytes(serial: &str) -> (r: Vec<u8>)
    ensures
        r@ == identity_of(serial@),
{
    let len = serial.unicode_len();
    let n = if len < IDENTITY_LEN {
        len
    } else {
        IDENTITY_LEN
    };
    let mut out: Vec<u8> = Vec::new();
    let mut i: usize = 0;
    while i < n
        invariant
            len == serial@.len(),
            n <= len,
            n == identity_of(serial@).len(),
            i <= n,
            out@ == identity_of(serial@).subrange(0, i as int),
        decreases n - i,
    {
        let c = serial.get_char(i);
        out.push(c as u32 as u8);
        i += 1;
        assert(out@ =~= identity_of(serial@).subrange(0, i as int));
    }
    assert(out@ =~= identity_of(serial@));
    out
}

/// Some firmware reports the serial number `6` as a placeholder.
pub open spec fn is_placeholder_serial(s: Seq<char>) -> bool {
    s == seq!['6']
}

/// The port-level serial number is absent or the placeholder, so another
/// source must be asked.
pub fn serial_needs_fallback(serial: &Option<String>) -> (r: bool)
    ensures
        r == match serial {
            Some(s) => is_placeholder_serial(s@),
            None => true,
        },
{
    match serial {
        Some(s) => {
            let t = s.as_str();
            let n = t.unicode_len();
            if n == 1 {
                let c = t.get_char(0);
                assert(c == '6' ==> t@ =~= seq!['6']);
                c == '6'
            } else {
                false
            }
        },
        None => true,
    }
}

/// The derived key for the current identity, recomputed only when the
/// identity bytes change.
pub struct KeyCache {
    vector: [u32; 8],
    identity: Option<Vec<u8>>,
    key: [u8; 32],
}

impl KeyCache {
    /// The cached key is the one derived from the cached identity.
    pub closed spec fn wf(&self) -> bool {
        self.identity matches Some(id) ==> self.key@ == derive_key(self.vector@, id@)
    }

    /// The key vector keys are derived from.
    pub closed spec fn key_vector(&self) -> Seq<u32> {
        self.vector@
    }

    /// The identity the cached key belongs to, if any.
    pub closed spec fn cached_identity(&self) -> Option<Seq<u8>> {
        match self.identity {
            Some(id) => Some(id@),
            None => None,
        }
    }

    /// An empty cache for key vector `vector`.
    pub fn new(vector: [u32; 8]) -> (r: KeyCache)
        ensures
            r.wf(),
            r.key_vector() == vector@,
            r.cached_identity() is None,
    {
        KeyCache { vector, identity: None, key: [0u8; 32] }
    }

    /// The key for `identity`, from the cache when the identity is the cached one.
    pub fn key_for(&mut self, identity: &[u8]) -> (r: [u8; 32])
        requires
            old(self).wf(),
        ensures
            final(self).wf(),
            final(self).key_vector() == old(self).key_vector(),
            final(self).cached_identity() == Some(identity@),
            r@ == derive_key(old(self).key_vector(), identity@),
    {
        let same = match &self.identity {
            Some(id) => bytes_equal(id.as_slice(), identity),
            None => false,
        };
        if !same {
            let mut key = [0u8; 32];
            hash_serial(&self.vector, identity, &mut key);
            let mut copy: Vec<u8> = Vec::new();
            let mut i: usize = 0;
            while i < identity.len()
                invariant
                    i <= identity@.len(),
                    copy@ == identity@.subrange(0, i as int),
                decreases identity@.len() - i,
            {
                copy.push(identity[i]);
                i += 1;
            }
            assert(copy@ =~= identity@);
            self.identity = Some(copy);
            self.key = key;
        }
        self.key
    }
}

fn bytes_equal(a: &[u8], b: &[u8]) -> (r: bool)
    ensures
        r == (a@ == b@),
{
    if a.len() != b.len() {
        return false;
    }
    let mut i: usize = 0;
    while i < a.len()
        invariant
            a@.len() == b@.len(),
            i <= a@.len(),
            forall|j: int| 0 <= j < i ==> a@[j] == b@[j],
        decreases a@.len() - i,
    {
        if a[i] != b[i] {
            return false;
        }
        i += 1;
    }
    assert(a@ =~= b@);
    true
}

// ---------------------------------------------------------------- poll task

/// What the poll task does next.
#[derive(Clone, Debug)]
pub enum PollAction {
    /// Collection stopped: leave the loop.
    Exit,
    /// The observed device changed: send this report on the channel
    /// (an empty name with product id 0 means no device).
    Send(String, u16),
    /// Nothing changed: wait for the next poll.
    Wait,
}

/// What the poll task remembers between polls.
pub struct PollState {
    pub last: Option<(String, u16)>,
}

/// Two observations name the same device (by name and product id).
pub open spec fn same_device(a: Option<(String, u16)>, b: Option<(String, u16)>) -> bool {
    match (a, b) {
        (Some(x), Some(y)) => x.0@ == y.0@ && x.1 == y.1,
        (None, None) => true,
        _ => false,
    }
}

fn same_observation(a: &Option<(String, u16)>, b: &Option<(String, u16)>) -> (r: bool)
    ensures
        r == same_device(*a, *b),
{
    match (a, b) {
        (Some(x), Some(y)) => x.0 == y.0 && x.1 == y.1,
        (None, None) => true,
        _ => false,
    }
}

impl PollState {
    /// Nothing observed yet.
    pub fn new() -> (r: PollState)
        ensures
            r.last is None,
    {
        PollState { last: None }
    }

    /// One poll: given whether collection is on and what discovery found,
    /// decide whether to leave, report a change, or wait.
    pub fn step(&mut self, collecting: bool, detected: Option<(String, u16)>) -> (r: PollAction)
        ensures
            !collecting ==> r is Exit && final(self).last == old(self).last,
            collecting && same_device(detected, old(self).last) ==> r is Wait
                && final(self).last == old(self).last,
            collecting && !same_device(detected, old(self).last) ==> final(self).last == detected
                && match detected {
                Some(d) => r matches PollAction::Send(name, pid) && name@ == d.0@ && pid == d.1,
                None => r matches PollAction::Send(name, pid) && name@.len() == 0 && pid == 0,
            },
    {
        if !collecting {
            return PollAction::Exit;
        }
        if same_observation(&detected, &self.last) {
            return PollAction::Wait;
        }
        let action = match &detected {
            Some(d) => PollAction::Send(d.0.clone(), d.1),
            None => PollAction::Send(String::new(), 0),
        };
        self.last = detected;
        action
    }
}

// ---------------------------------------------------------------- read task

/// The transport session as the read task sees it.
#[derive(Clone, Copy, Debug, PartialEq, Eq, Structural)]
pub enum SessionState {
    /// No handle: one must be opened.
    Unbound,
    /// A handle is open for this product id.
    Open(u16),
    /// The last open or read failed: wait this many milliseconds, then retry.
    Closed(u64),
}

/// What the read task does next.
#[derive(Clone, Copy, Debug, PartialEq, Eq, Structural)]
pub enum ReadAction {
    /// Collection stopped: release any handle and leave the loop.
    Stop,
    /// Open a session for the reported device.
    OpenSession,
    /// Perform one bounded read.
    Read,
    /// Wait this many milliseconds.
    Wait(u64),
}

/// What came of the last action.
#[derive(Clone, Copy, Debug, PartialEq, Eq, Structural)]
pub enum ReadOutcome {
    /// A session was opened for this product id.
    Opened(u16),
    /// Opening failed.
    OpenFailed,
    /// A read returned this many bytes (zero on timeout).
    Received(usize),
    /// A read failed.
    ReadFailed,
    /// A wait elapsed.
    Waited,
}

/// The action the read task takes in `state`.
pub open spec fn plan_of(state: SessionState, collecting: bool) -> ReadAction {
    if !collecting {
        ReadAction::Stop
    } else {
        match state {
            SessionState::Unbound => ReadAction::OpenSession,
            SessionState::Open(_) => ReadAction::Read,
            SessionState::Closed(ms) => ReadAction::Wait(ms),
        }
    }
}

/// The state after `outcome` in `state`.
pub open spec fn advance_of(state: SessionState, outcome: ReadOutcome) -> SessionState {
    match (state, outcome) {
        (SessionState::Unbound, ReadOutcome::Opened(pid)) => SessionState::Open(pid),
        (SessionState::Unbound, ReadOutcome::OpenFailed) => SessionState::Closed(OPEN_RETRY_MS),
        (SessionState::Open(_), ReadOutcome::ReadFailed) => SessionState::Closed(READ_RETRY_MS),
        (SessionState::Closed(_), ReadOutcome::Waited) => SessionState::Unbound,
        _ => state,
    }
}

/// The state after discovery reports device `pid` (0: no device).
pub open spec fn on_report_of(state: SessionState, pid: u16) -> SessionState {
    match state {
        SessionState::Open(p) => if pid != 0 && p != pid {
            SessionState::Unbound
        } else {
            state
        },
        _ => state,
    }
}

/// The next action of the read task.
pub fn plan(state: SessionState, collecting: bool) -> (r: ReadAction)
    ensures
        r == plan_of(state, collecting),
{
    if !collecting {
        return ReadAction::Stop;
    }
    match state {
        SessionState::Unbound => ReadAction::OpenSession,
        SessionState::Open(_) => ReadAction::Read,
        SessionState::Closed(ms) => ReadAction::Wait(ms),
    }
}

/// The session state after the outcome of the last action.
pub fn advance(state: SessionState, outcome: ReadOutcome) -> (r: SessionState)
    ensures
        r == advance_of(state, outcome),
{
    match (state, outcome) {
        (SessionState::Unbound, ReadOutcome::Opened(pid)) => SessionState::Open(pid),
        (SessionState::Unbound, ReadOutcome::OpenFailed) => SessionState::Closed(OPEN_RETRY_MS),
        (SessionState::Open(_), ReadOutcome::ReadFailed) => SessionState::Closed(READ_RETRY_MS),
        (SessionState::Closed(_), ReadOutcome::Waited) => SessionState::Unbound,
        _ => state,
    }
}

/// The session state after discovery reports device `pid` (0: no device):
/// a session bound to another product id is dropped so that a new one opens.
pub fn on_report(state: SessionState, pid: u16) -> (r: SessionState)
    ensures
        r == on_report_of(state, pid),
{
    match state {
        SessionState::Open(p) => if pid != 0 && p != pid {
            SessionState::Unbound
        } else {
            state
        },
        _ => state,
    }
}

/// Once collection is off, the read task stops at its next step whatever
/// its state, and performs no further read, so nothing more is decoded or
/// emitted.
pub proof fn lemma_stop_is_prompt(state: SessionState)
    ensures
        plan_of(state, false) == ReadAction::Stop,
        plan_of(state, false) != ReadAction::Read,
{
}

/// What one chunk of transport bytes produced.
pub struct Ingested {
    /// One entry per complete frame, oldest first: the reading it carried
    /// once decrypted, or `None`.
    pub readings: Vec<Option<SnapReading>>,
    /// The accumulator overflowed and was cleared.
    pub overflowed: bool,
}

/// The plaintext of the `i`-th frame that `bytes` completes.
pub open spec fn frame_plaintext(buf: Seq<u8>, bytes: Seq<u8>, key: Seq<u8>, i: int) -> Seq<u8> {
    decrypt_bytes(key, FRAME_COUNTER, drain_all(after_feed(buf, bytes)).0[i])
}

/// Feeds `bytes` into the session's accumulator, takes out every complete
/// frame, decrypts it with `key`, and decodes it.
pub fn ingest(acc: &mut FrameAccumulator, key: &[u8; 32], bytes: &[u8]) -> (r: Ingested)
    ensures
        r.overflowed == overflows(old(acc)@, bytes@),
        final(acc)@ == drain_all(after_feed(old(acc)@, bytes@)).1,
        r.readings@.len() == drain_all(after_feed(old(acc)@, bytes@)).0.len(),
        forall|i: int|
            0 <= i < r.readings@.len() ==> {
                let p = #[trigger] frame_plaintext(old(acc)@, bytes@, key@, i);
                match r.readings@[i] {
                    Some(reading) => is_reading(p) && reading.mac@ == mac_text(p.subrange(7, 13))
                        && reading.value as int == reading_value(p),
                    None => !is_reading(p),
                }
            },
{
    let ghost start = acc@;
    let fed = acc.feed(bytes);
    let overflowed = match fed {
        Ok(()) => false,
        Err(FrameError::Overflow) => true,
    };
    let frames = acc.extract_frames();
    let mut readings: Vec<Option<SnapReading>> = Vec::new();
    let mut i: usize = 0;
    while i < frames.len()
        invariant
            i <= frames@.len(),
            readings@.len() == i,
            frames@.len() == drain_all(after_feed(start, bytes@)).0.len(),
            forall|k: int|
                0 <= k < frames@.len() ==> frames@[k]@ == drain_all(after_feed(start, bytes@)).0[k],
            forall|k: int|
                0 <= k < i ==> {
                    let p = #[trigger] frame_plaintext(start, bytes@, key@, k);
                    match readings@[k] {
                        Some(reading) => is_reading(p) && reading.mac@ == mac_text(
                            p.subrange(7, 13),
                        ) && reading.value as int == reading_value(p),
                        None => !is_reading(p),
                    }
                },
        decreases frames@.len() - i,
    {
        let frame = &frames[i];
        let mut plain: Vec<u8> = vec![0u8; frame.len()];
        chacha20_decrypt(key, FRAME_COUNTER, frame.as_slice(), plain.as_mut_slice());
        assert(plain@ == frame_plaintext(start, bytes@, key@, i as int));
        readings.push(decode_message(plain.as_slice()));
        i += 1;
    }
    Ingested { readings, overflowed }
}

} // verus!
