use vstd::prelude::*;
use crate::models::{EventResponse, SerialResponse};
use crate::text::{hex_u16, push_hex_u16, push_str, string_from_chars};

verus! {

/// The text of `s` as an owned string.
pub fn string_of(s: &str) -> (r: String)
    ensures
        r@ == s@,
{
    let mut out: Vec<char> = Vec::new();
    push_str(&mut out, s);
    assert(out@ =~= s@);
    string_from_chars(&out)
}

/// Status text for a connected device.
pub open spec fn connected_status(pid: u16, name: Seq<char>) -> Seq<char> {
    "true,pid:0x"@ + hex_u16(pid) + ",device:"@ + name
}

/// Status text for what discovery found.
pub open spec fn status_text(info: Option<(u16, String)>) -> Seq<char> {
    match info {
        Some(found) => connected_status(found.0, found.1@),
        None => "false"@,
    }
}

/// The connection event for what discovery found.
pub fn connection_event(info: &Option<(u16, String)>) -> (r: EventResponse)
    ensures
        r.event@ == "device-connection"@,
        r.status@ == status_text(*info),
{
    let event = string_of("device-connection");
    let status = match info {
        Some(found) => {
            let mut out: Vec<char> = Vec::new();
            push_str(&mut out, "true,pid:0x");
            push_hex_u16(&mut out, found.0);
            push_str(&mut out, ",device:");
            push_str(&mut out, found.1.as_str());
            assert(out@ =~= connected_status(found.0, found.1@));
            string_from_chars(&out)
        },
        None => string_of("false"),
    };
    EventResponse { event, status }
}

/// What the connection watcher last reported.
pub struct PresenceState {
    pub last_status: Option<bool>,
    pub last_pid: Option<u16>,
}

/// The product id of what discovery found.
pub open spec fn found_pid(info: Option<(u16, String)>) -> Option<u16> {
    match info {
        Some(found) => Some(found.0),
        None => None,
    }
}

impl PresenceState {
    /// Nothing reported yet.
    pub fn new() -> (r: PresenceState)
        ensures
            r.last_status is None,
            r.last_pid is None,
    {
        PresenceState { last_status: None, last_pid: None }
    }

    /// One watch: returns the event to emit when presence or the connected
    /// product id changed since the last report, and records it.
    pub fn step(&mut self, connected: bool, info: &Option<(u16, String)>) -> (r: Option<
        EventResponse,
    >)
        ensures
            ({
                let changed = old(self).last_status != Some(connected) || old(self).last_pid
                    != found_pid(*info);
                &&& changed ==> (r matches Some(e) && e.event@ == "device-connection"@
                    && e.status@ == status_text(*info))
                &&& changed ==> final(self).last_status == Some(connected) && final(self).last_pid
                    == found_pid(*info)
                &&& !changed ==> r is None && final(self).last_status == old(self).last_status
                    && final(self).last_pid == old(self).last_pid
            }),
    {
        let pid = match info {
            Some(found) => Some(found.0),
            None => None,
        };
        let same_status = match self.last_status {
            Some(s) => s == connected,
            None => false,
        };
        let same_pid = match (self.last_pid, pid) {
            (Some(a), Some(b)) => a == b,
            (None, None) => true,
            _ => false,
        };
        if same_status && same_pid {
            return None;
        }
        let event = connection_event(info);
        self.last_status = Some(connected);
        self.last_pid = pid;
        Some(event)
    }
}

/// A product id as `0x....`, optionally in double quotes.
pub open spec fn pid_item(pid: u16, quoted: bool) -> Seq<char> {
    if quoted {
        seq!['"'] + "0x"@ + hex_u16(pid) + seq!['"']
    } else {
        "0x"@ + hex_u16(pid)
    }
}

/// Product ids as items joined by `, `.
pub open spec fn pid_list(pids: Seq<u16>, quoted: bool) -> Seq<char>
    decreases pids.len(),
{
    if pids.len() == 0 {
        Seq::empty()
    } else if pids.len() == 1 {
        pid_item(pids[0], quoted)
    } else {
        pid_list(pids.drop_last(), quoted) + ", "@ + pid_item(pids.last(), quoted)
    }
}

fn push_pid_item(out: &mut Vec<char>, pid: u16, quoted: bool)
    ensures
        final(out)@ == old(out)@ + pid_item(pid, quoted),
{
    if quoted {
        out.push('"');
    }
    push_str(out, "0x");
    push_hex_u16(out, pid);
    if quoted {
        out.push('"');
    }
    assert(final(out)@ =~= old(out)@ + pid_item(pid, quoted));
}

fn push_pid_list(out: &mut Vec<char>, pids: &[u16], quoted: bool)
    ensures
        final(out)@ == old(out)@ + pid_list(pids@, quoted),
{
    let ghost start = out@;
    let mut i: usize = 0;
    while i < pids.len()
        invariant
            i <= pids@.len(),
            out@ == start + pid_list(pids@.subrange(0, i as int), quoted),
        decreases pids@.len() - i,
    {
        let ghost next = pids@.subrange(0, i as int + 1);
        assert(next.drop_last() =~= pids@.subrange(0, i as int));
        if i > 0 {
            push_str(out, ", ");
        }
        push_pid_item(out, pids[i], quoted);
        if i == 0 {
            assert(pid_list(pids@.subrange(0, 0), quoted) =~= Seq::<char>::empty());
        }
        assert(out@ =~= start + pid_list(next, quoted));
        i += 1;
    }
    assert(pids@.subrange(0, pids@.len() as int) =~= pids@);
}

/// A successful acknowledgement of `command` with `message`.
pub fn ack(command: &str, message: String) -> (r: SerialResponse)
    ensures
        r.success,
        r.message == message,
        r.command@ == command@,
        r.error is None,
{
    SerialResponse { success: true, message, command: string_of(command), error: None }
}

/// The answer to `version`.
pub fn version_response(version: &str) -> (r: SerialResponse)
    ensures
        r.success && r.error is None,
        r.command@ == "version"@,
        r.message@ == version@,
{
    ack("version", string_of(version))
}

/// The `device-info` message text.
pub open spec fn device_info_text(vid: u16, pids: Seq<u16>) -> Seq<char> {
    "VID: 0x"@ + hex_u16(vid) + ", Supported PIDs: ["@ + pid_list(pids, false) + "]"@
}

/// The answer to `device-info`: the vendor id and the supported product ids.
pub fn device_info_response(vid: u16, pids: &[u16]) -> (r: SerialResponse)
    ensures
        r.success && r.error is None,
        r.command@ == "device-info"@,
        r.message@ == device_info_text(vid, pids@),
{
    let mut out: Vec<char> = Vec::new();
    push_str(&mut out, "VID: 0x");
    push_hex_u16(&mut out, vid);
    push_str(&mut out, ", Supported PIDs: [");
    push_pid_list(&mut out, pids, false);
    push_str(&mut out, "]");
    assert(out@ =~= device_info_text(vid, pids@));
    ack("device-info", string_from_chars(&out))
}

/// The `start-snappy` message text.
pub open spec fn start_text(pids: Seq<u16>) -> Seq<char> {
    "Snappy data collection started for PIDs: ["@ + pid_list(pids, true) + "]"@
}

/// The answer to `start-snappy`: the product ids collection covers.
pub fn start_response(pids: &[u16]) -> (r: SerialResponse)
    ensures
        r.success && r.error is None,
        r.command@ == "start-snappy"@,
        r.message@ == start_text(pids@),
{
    let mut out: Vec<char> = Vec::new();
    push_str(&mut out, "Snappy data collection started for PIDs: [");
    push_pid_list(&mut out, pids, true);
    push_str(&mut out, "]");
    assert(out@ =~= start_text(pids@));
    ack("start-snappy", string_from_chars(&out))
}

/// The answer to `stop-snappy`.
pub fn stop_response() -> (r: SerialResponse)
    ensures
        r.success && r.error is None,
        r.command@ == "stop-snappy"@,
        r.message@ == "Snappy data collection stopped for all devices"@,
{
    ack("stop-snappy", string_of("Snappy data collection stopped for all devices"))
}

} // verus!
