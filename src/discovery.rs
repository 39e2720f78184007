use vstd::prelude::*;
use crate::text::{hex_u16, push_hex_u16, push_str, string_from_chars};

verus! {

/// USB metadata of an enumerated serial port.
#[derive(Clone, Debug)]
pub struct UsbPortInfo {
    pub vid: u16,
    pub pid: u16,
    pub serial_number: Option<String>,
}

/// How an enumerated port is attached.
#[derive(Clone, Debug)]
pub enum PortKind {
    Usb(UsbPortInfo),
    Other,
}

/// One enumerated port (or USB device): its name and how it is attached.
#[derive(Clone, Debug)]
pub struct PortEntry {
    pub port_name: String,
    pub port_type: PortKind,
}

/// `port` is a USB device with vendor `vid` and a product id in `pids`.
pub open spec fn port_matches(port: PortEntry, vid: u16, pids: Seq<u16>) -> bool {
    match port.port_type {
        PortKind::Usb(info) => info.vid == vid && pids.contains(info.pid),
        PortKind::Other => false,
    }
}

/// `port` is a USB device with vendor `vid` and product `pid`.
pub open spec fn port_is(port: PortEntry, vid: u16, pid: u16) -> bool {
    match port.port_type {
        PortKind::Usb(info) => info.vid == vid && info.pid == pid,
        PortKind::Other => false,
    }
}

/// The product id of a USB port.
pub open spec fn port_pid(port: PortEntry) -> u16 {
    match port.port_type {
        PortKind::Usb(info) => info.pid,
        PortKind::Other => 0,
    }
}

/// `i` is the first index of `ports` whose entry matches.
pub open spec fn is_first_match(ports: Seq<PortEntry>, vid: u16, pids: Seq<u16>, i: int) -> bool {
    0 <= i < ports.len() && port_matches(ports[i], vid, pids) && forall|j: int|
        0 <= j < i ==> !port_matches(#[trigger] ports[j], vid, pids)
}

/// Whether `pid` is in the allow-list.
pub fn pid_allowed(pids: &[u16], pid: u16) -> (r: bool)
    ensures
        r == pids@.contains(pid),
{
    let mut i: usize = 0;
    while i < pids.len()
        invariant
            i <= pids@.len(),
            forall|j: int| 0 <= j < i ==> pids@[j] != pid,
        decreases pids@.len() - i,
    {
        if pids[i] == pid {
            assert(pids@[i as int] == pid);
            return true;
        }
        i += 1;
    }
    false
}

fn entry_matches(port: &PortEntry, vid: u16, pids: &[u16]) -> (r: bool)
    ensures
        r == port_matches(*port, vid, pids@),
{
    match &port.port_type {
        PortKind::Usb(info) => info.vid == vid && pid_allowed(pids, info.pid),
        PortKind::Other => false,
    }
}

/// The index of the first port that is a supported device.
pub fn find_connected_port(ports: &[PortEntry], vid: u16, pids: &[u16]) -> (r: Option<usize>)
    ensures
        r is None <==> forall|i: int| 0 <= i < ports@.len() ==> !port_matches(#[trigger] ports@[i], vid, pids@),
        r matches Some(i) ==> is_first_match(ports@, vid, pids@, i as int),
{
    let mut i: usize = 0;
    while i < ports.len()
        invariant
            i <= ports@.len(),
            forall|j: int| 0 <= j < i ==> !port_matches(#[trigger] ports@[j], vid, pids@),
        decreases ports@.len() - i,
    {
        if entry_matches(&ports[i], vid, pids) {
            return Some(i);
        }
        i += 1;
    }
    None
}

/// The first port that is a supported device: its product id and name.
pub fn find_connected_device_info(ports: &[PortEntry], vid: u16, pids: &[u16]) -> (r: Option<
    (u16, String),
>)
    ensures
        r is None <==> forall|i: int| 0 <= i < ports@.len() ==> !port_matches(#[trigger] ports@[i], vid, pids@),
        r matches Some(found) ==> exists|i: int|
            is_first_match(ports@, vid, pids@, i) && found.0 == port_pid(#[trigger] ports@[i])
                && found.1@ == ports@[i].port_name@,
{
    let mut i: usize = 0;
    while i < ports.len()
        invariant
            i <= ports@.len(),
            forall|j: int| 0 <= j < i ==> !port_matches(#[trigger] ports@[j], vid, pids@),
        decreases ports@.len() - i,
    {
        let port = &ports[i];
        if entry_matches(port, vid, pids) {
            match &port.port_type {
                PortKind::Usb(info) => {
                    let name = port.port_name.clone();
                    assert(is_first_match(ports@, vid, pids@, i as int));
                    return Some((info.pid, name));
                },
                PortKind::Other => {},
            }
        }
        i += 1;
    }
    None
}

/// Whether some port is the device `vid`/`pid`.
pub fn is_device_connected(ports: &[PortEntry], vid: u16, pid: u16) -> (r: bool)
    ensures
        r == exists|i: int| 0 <= i < ports@.len() && port_is(#[trigger] ports@[i], vid, pid),
{
    let mut i: usize = 0;
    while i < ports.len()
        invariant
            i <= ports@.len(),
            forall|j: int| 0 <= j < i ==> !port_is(#[trigger] ports@[j], vid, pid),
        decreases ports@.len() - i,
    {
        match &ports[i].port_type {
            PortKind::Usb(info) => {
                if info.vid == vid && info.pid == pid {
                    assert(port_is(ports@[i as int], vid, pid));
                    return true;
                }
            },
            PortKind::Other => {},
        }
        i += 1;
    }
    false
}

/// Whether some port is a device of vendor `vid` with a product id in `pids`.
pub fn is_any_device_connected(ports: &[PortEntry], vid: u16, pids: &[u16]) -> (r: bool)
    ensures
        r == exists|i: int| 0 <= i < ports@.len() && port_matches(#[trigger] ports@[i], vid, pids@),
{
    let mut k: usize = 0;
    while k < pids.len()
        invariant
            k <= pids@.len(),
            forall|i: int, m: int|
                0 <= i < ports@.len() && 0 <= m < k ==> !port_is(#[trigger] ports@[i], vid, #[trigger] pids@[m]),
        decreases pids@.len() - k,
    {
        if is_device_connected(ports, vid, pids[k]) {
            let ghost i = choose|i: int| 0 <= i < ports@.len() && port_is(#[trigger] ports@[i], vid, pids@[k as int]);
            assert(port_matches(ports@[i], vid, pids@));
            return true;
        }
        k += 1;
    }
    assert forall|i: int| 0 <= i < ports@.len() implies !port_matches(#[trigger] ports@[i], vid, pids@) by {
        if port_matches(ports@[i], vid, pids@) {
            let m = pids@.index_of(port_pid(ports@[i]));
            assert(port_is(ports@[i], vid, pids@[m]));
        }
    }
    false
}

/// The name given to a device found by USB descriptor enumeration.
pub open spec fn usb_device_name_text(pid: u16) -> Seq<char> {
    "USB Device (PID: 0x"@ + hex_u16(pid) + ")"@
}

/// Names a device found by USB descriptor enumeration: `USB Device (PID: 0x....)`.
pub fn usb_device_name(pid: u16) -> (r: String)
    ensures
        r@ == usb_device_name_text(pid),
{
    let mut out: Vec<char> = Vec::new();
    push_str(&mut out, "USB Device (PID: 0x");
    push_hex_u16(&mut out, pid);
    push_str(&mut out, ")");
    assert(out@ =~= usb_device_name_text(pid));
    string_from_chars(&out)
}

} // verus!
