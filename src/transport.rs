use vstd::prelude::*;
use crate::text::{push_str, string_from_chars};

verus! {

/// Baud rate of the serial transport.
pub const SERIAL_BAUD_RATE: u32 = 230400;

/// Read timeout of the serial transport, in milliseconds.
pub const SERIAL_TIMEOUT_MS: u64 = 2000;

/// Timeout of one USB bulk or control read, in milliseconds.
pub const USB_TIMEOUT_MS: u64 = 1000;

/// Size of the buffer one read fills.
pub const READ_BUFFER_SIZE: usize = 64;

/// USB configuration the device is switched to.
pub const PREFERRED_CONFIG: u8 = 1;

/// USB interface claimed first; interface 0 is the fallback.
pub const PREFERRED_INTERFACE: u8 = 1;

/// Bulk-IN endpoint used when descriptors name none.
pub const DEFAULT_BULK_IN_ENDPOINT: u8 = 0x81;

/// `GET_DESCRIPTOR` request code.
pub const GET_DESCRIPTOR: u8 = 0x06;

/// String descriptor type.
pub const STRING_DESCRIPTOR: u8 = 0x03;

/// Language id of string descriptor requests (US English).
pub const LANGUAGE_ID: u16 = 0x0409;

/// One endpoint descriptor of the active configuration.
#[derive(Clone, Copy, Debug)]
pub struct EndpointInfo {
    pub interface_number: u8,
    pub bulk: bool,
    pub inbound: bool,
    pub address: u8,
}

/// `e` is a bulk-IN endpoint of interface `iface`.
pub open spec fn is_bulk_in_of(e: EndpointInfo, iface: u8) -> bool {
    e.interface_number == iface && e.bulk && e.inbound
}

/// The address of the first bulk-IN endpoint of interface `iface`.
pub open spec fn first_bulk_in(endpoints: Seq<EndpointInfo>, iface: u8) -> Option<u8>
    decreases endpoints.len(),
{
    if endpoints.len() == 0 {
        None
    } else if is_bulk_in_of(endpoints[0], iface) {
        Some(endpoints[0].address)
    } else {
        first_bulk_in(endpoints.drop_first(), iface)
    }
}

/// The endpoint a session reads from: the first bulk-IN endpoint of the
/// claimed interface, else of interface 0, else the default address.
pub open spec fn chosen_endpoint(endpoints: Seq<EndpointInfo>, claimed: u8) -> u8 {
    match first_bulk_in(endpoints, claimed) {
        Some(a) => a,
        None => match first_bulk_in(endpoints, 0) {
            Some(a) => a,
            None => DEFAULT_BULK_IN_ENDPOINT,
        },
    }
}

/// The address of the first bulk-IN endpoint of interface `iface`.
pub fn find_bulk_in_endpoint(endpoints: &[EndpointInfo], iface: u8) -> (r: Option<u8>)
    ensures
        r == first_bulk_in(endpoints@, iface),
{
    assert(endpoints@.subrange(0, endpoints@.len() as int) =~= endpoints@);
    let mut i: usize = 0;
    while i < endpoints.len()
        invariant
            i <= endpoints@.len(),
            first_bulk_in(endpoints@, iface) == first_bulk_in(
                endpoints@.subrange(i as int, endpoints@.len() as int),
                iface,
            ),
        decreases endpoints@.len() - i,
    {
        let ghost rest = endpoints@.subrange(i as int, endpoints@.len() as int);
        assert(rest.drop_first() =~= endpoints@.subrange(i as int + 1, endpoints@.len() as int));
        let e = endpoints[i];
        if e.interface_number == iface && e.bulk && e.inbound {
            return Some(e.address);
        }
        i += 1;
    }
    None
}

/// The endpoint a session on interface `claimed` reads from.
pub fn select_endpoint(endpoints: &[EndpointInfo], claimed: u8) -> (r: u8)
    ensures
        r == chosen_endpoint(endpoints@, claimed),
{
    match find_bulk_in_endpoint(endpoints, claimed) {
        Some(a) => a,
        None => match find_bulk_in_endpoint(endpoints, 0) {
            Some(a) => a,
            None => DEFAULT_BULK_IN_ENDPOINT,
        },
    }
}

/// The device must be switched to the preferred configuration: its active
/// one is unknown or another.
pub fn needs_configuration(active: Option<u8>) -> (r: bool)
    ensures
        r == (active != Some(PREFERRED_CONFIG)),
{
    match active {
        Some(c) => c != PREFERRED_CONFIG,
        None => true,
    }
}

/// The `wValue` of a request for string descriptor `index`.
pub fn string_descriptor_value(index: u8) -> (r: u16)
    ensures
        r as int == 0x0300 + index as int,
{
    let r = ((STRING_DESCRIPTOR as u16) << 8u16) | (index as u16);
    assert(((3u16 << 8u16) | (index as u16)) as int == 0x0300 + index as int) by (bit_vector);
    r
}

/// A UTF-16 code unit that stands for a character by itself.
pub open spec fn is_scalar_unit(code: u16) -> bool {
    !(0xd800 <= code <= 0xdfff)
}

/// The little-endian code unit `k` of a string descriptor (after its
/// two header bytes).
pub open spec fn code_unit(d: Seq<u8>, k: int) -> u16 {
    (d[2 + 2 * k] as u16) | ((d[3 + 2 * k] as u16) << 8u16)
}

/// Number of bytes of a descriptor read that belong to it: its stated
/// length, capped by what was read.
pub open spec fn descriptor_extent(d: Seq<u8>) -> int {
    if (d[0] as int) < d.len() {
        d[0] as int
    } else {
        d.len() as int
    }
}

/// Number of whole code units in a descriptor of `extent` bytes.
pub open spec fn unit_count(extent: int) -> int {
    if extent <= 2 {
        0
    } else {
        (extent - 2) / 2
    }
}

/// The code units among the first `k` that are kept: not zero, and not
/// half of a surrogate pair.
pub open spec fn kept_units(d: Seq<u8>, k: int) -> Seq<u16>
    decreases k,
{
    if k <= 0 {
        Seq::empty()
    } else {
        let prev = kept_units(d, k - 1);
        let c = code_unit(d, k - 1);
        if c != 0 && is_scalar_unit(c) {
            prev.push(c)
        } else {
            prev
        }
    }
}

/// The characters of a string descriptor read.
pub open spec fn descriptor_units(d: Seq<u8>) -> Seq<u16> {
    kept_units(d, unit_count(descriptor_extent(d)))
}

/// `cs` are the characters of the code units `us`.
pub open spec fn chars_of_units(cs: Seq<char>, us: Seq<u16>) -> bool {
    cs.len() == us.len() && forall|i: int| 0 <= i < cs.len() ==> cs[i] as u32 == us[i] as u32
}

/// `t` is a contiguous part of `s`.
pub open spec fn is_part_of(t: Seq<char>, s: Seq<char>) -> bool {
    exists|i: int, j: int| 0 <= i <= j <= s.len() && t == s.subrange(i, j)
}

/// The text `str::trim` leaves of `s`.
pub uninterp spec fn trimmed(s: Seq<char>) -> Seq<char>;

/// Relies on `str::trim`: the result is `s` without leading and trailing
/// whitespace, a contiguous part of `s`.
#[verifier::external_body]
fn trim_text(s: &str) -> (r: String)
    ensures
        r@ == trimmed(s@),
        is_part_of(r@, s@),
{
    s.trim().to_string()
}

/// Relies on `char::from_u32`: a character for every value that is not a
/// surrogate and at most `char::MAX`.
#[verifier::external_body]
fn char_from_u32(v: u32) -> (r: Option<char>)
    ensures
        r is Some <==> (v <= 0x10ffff && !(0xd800 <= v <= 0xdfff)),
        r matches Some(c) ==> c as u32 == v,
{
    char::from_u32(v)
}

/// `content` without leading and trailing whitespace.
pub fn trim_serial(content: &str) -> (r: String)
    ensures
        r@ == trimmed(content@),
{
    trim_text(content)
}

/// The serial number in a string descriptor read (`data`: the bytes
/// received): `None` unless it is a string descriptor longer than its
/// header with at least one kept character; else the characters, trimmed.
pub fn parse_string_descriptor(data: &[u8]) -> (r: Option<String>)
    ensures
        r is Some <==> (data@.len() > 2 && data@[1] == STRING_DESCRIPTOR
            && descriptor_units(data@).len() > 0),
        r matches Some(s) ==> exists|cs: Seq<char>|
            chars_of_units(cs, descriptor_units(data@)) && s@ == trimmed(cs),
{
    if data.len() <= 2 || data[1] != STRING_DESCRIPTOR {
        return None;
    }
    let extent: usize = if (data[0] as usize) < data.len() {
        data[0] as usize
    } else {
        data.len()
    };
    let units: usize = if extent <= 2 {
        0
    } else {
        (extent - 2) / 2
    };
    assert(units as int == unit_count(descriptor_extent(data@)));
    let mut chars: Vec<char> = Vec::new();
    let mut k: usize = 0;
    while k < units
        invariant
            k <= units,
            units as int == unit_count(descriptor_extent(data@)),
            2 + 2 * units <= data@.len(),
            chars_of_units(chars@, kept_units(data@, k as int)),
        decreases units - k,
    {
        let lo = data[2 + 2 * k];
        let hi = data[3 + 2 * k];
        let code: u16 = (lo as u16) | ((hi as u16) << 8u16);
        assert(code == code_unit(data@, k as int));
        if code != 0 {
            match char_from_u32(code as u32) {
                Some(c) => {
                    chars.push(c);
                },
                None => {},
            }
        }
        k += 1;
    }
    if chars.len() == 0 {
        return None;
    }
    let text = string_from_chars(&chars);
    let s = trim_text(text.as_str());
    Some(s)
}

/// The device name of a port path: the path without a leading `/dev/`.
pub open spec fn device_name(dev: Seq<char>) -> Seq<char> {
    if dev.len() >= 5 && dev.subrange(0, 5) == seq!['/', 'd', 'e', 'v', '/'] {
        dev.subrange(5, dev.len() as int)
    } else {
        dev
    }
}

/// The sysfs attribute holding the serial number of a tty device.
pub open spec fn sysfs_serial_text(dev: Seq<char>) -> Seq<char> {
    "/sys/class/tty/"@ + device_name(dev) + "/device/../serial"@
}

/// Path of the sysfs attribute that holds the serial number of the USB
/// device behind serial port `dev`.
pub fn sysfs_serial_path(dev: &str) -> (r: String)
    ensures
        r@ == sysfs_serial_text(dev@),
{
    let n = dev.unicode_len();
    let mut prefixed = n >= 5;
    if prefixed {
        let mut i: usize = 0;
        while i < 5
            invariant
                i <= 5,
                n == dev@.len(),
                n >= 5,
                prefixed == forall|j: int|
                    0 <= j < i ==> dev@[j] == seq!['/', 'd', 'e', 'v', '/'][j],
            decreases 5 - i,
        {
            let expected: [char; 5] = ['/', 'd', 'e', 'v', '/'];
            assert(expected@ =~= seq!['/', 'd', 'e', 'v', '/']);
            if dev.get_char(i) != expected[i] {
                prefixed = false;
            }
            i += 1;
        }
        assert(prefixed == (dev@.subrange(0, 5) =~= seq!['/', 'd', 'e', 'v', '/']));
    }
    let name = if prefixed {
        dev.substring_char(5, n)
    } else {
        dev
    };
    let mut out: Vec<char> = Vec::new();
    push_str(&mut out, "/sys/class/tty/");
    push_str(&mut out, name);
    push_str(&mut out, "/device/../serial");
    assert(out@ =~= sysfs_serial_text(dev@));
    string_from_chars(&out)
}

} // verus!
