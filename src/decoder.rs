use vstd::prelude::*;
use crate::models::{EXPECTED_PREFIX, SnapDataEvent};
use crate::text::{hex_byte, push_hex_byte, string_from_chars};

verus! {

/// The magic prefix `SNAPPY:`.
pub open spec fn magic_prefix() -> Seq<u8> {
    seq![0x53u8, 0x4eu8, 0x41u8, 0x50u8, 0x50u8, 0x59u8, 0x3au8]
}

/// A decrypted message carries a reading: it starts with the magic prefix
/// and is long enough to hold the identifier and the 16-bit value.
pub open spec fn is_reading(m: Seq<u8>) -> bool {
    m.len() >= 15 && m.subrange(0, 7) == magic_prefix()
}

/// Six bytes as colon-separated pairs of lowercase hex digits.
pub open spec fn mac_text(b: Seq<u8>) -> Seq<char> {
    Seq::new(
        17,
        |j: int|
            if j % 3 == 2 {
                ':'
            } else {
                hex_byte(b[j / 3])[j % 3]
            },
    )
}

/// The big-endian value in bytes 13 and 14.
pub open spec fn reading_value(m: Seq<u8>) -> int {
    m[13] as int * 256 + m[14] as int
}

/// The identifier and value carried by a decrypted message.
#[derive(Clone, Debug)]
pub struct SnapReading {
    pub mac: String,
    pub value: u16,
}

fn has_prefix(message: &[u8]) -> (r: bool)
    requires
        message@.len() >= 7,
    ensures
        r == (message@.subrange(0, 7) == magic_prefix()),
{
    let prefix = EXPECTED_PREFIX;
    assert(prefix@ =~= magic_prefix());
    let mut i: usize = 0;
    while i < 7
        invariant
            i <= 7,
            message@.len() >= 7,
            prefix@ == magic_prefix(),
            forall|j: int| 0 <= j < i ==> message@[j] == prefix@[j],
        decreases 7 - i,
    {
        if message[i] != prefix[i] {
            assert(message@.subrange(0, 7)[i as int] != magic_prefix()[i as int]);
            return false;
        }
        i += 1;
    }
    assert(message@.subrange(0, 7) =~= magic_prefix());
    true
}

/// Formats six bytes as `aa:bb:cc:dd:ee:ff`.
pub fn format_mac(b: &[u8]) -> (r: String)
    requires
        b@.len() == 6,
    ensures
        r@ == mac_text(b@),
{
    let mut out: Vec<char> = Vec::new();
    let mut i: usize = 0;
    while i < 6
        invariant
            i <= 6,
            b@.len() == 6,
            out@.len() == if i == 0 { 0 } else { 3 * i - 1 },
            forall|j: int| 0 <= j < out@.len() ==> out@[j] == mac_text(b@)[j],
        decreases 6 - i,
    {
        if i > 0 {
            out.push(':');
        }
        push_hex_byte(&mut out, b[i]);
        assert forall|j: int| 0 <= j < out@.len() implies out@[j] == mac_text(b@)[j] by {
            if j >= 3 * i {
                assert(j / 3 == i as int);
                assert(j % 3 == j - 3 * i);
            }
        }
        i += 1;
    }
    assert(out@ =~= mac_text(b@));
    string_from_chars(&out)
}

/// Decodes a decrypted message: the identifier in bytes 7..13 and the
/// big-endian value in bytes 13..15, when the message carries a reading.
pub fn decode_message(message: &[u8]) -> (r: Option<SnapReading>)
    ensures
        r is Some <==> is_reading(message@),
        r matches Some(reading) ==> reading.mac@ == mac_text(message@.subrange(7, 13))
            && reading.value as int == reading_value(message@),
{
    if message.len() < 15 || !has_prefix(message) {
        return None;
    }
    let mac_bytes = &message[7..13];
    let mac = format_mac(mac_bytes);
    let hi = message[13];
    let lo = message[14];
    let value = ((hi as u16) << 8u16) | (lo as u16);
    assert(value as int == hi as int * 256 + lo as int) by (bit_vector)
        requires
            value == ((hi as u16) << 8u16) | (lo as u16),
    ;
    Some(SnapReading { mac, value })
}

/// The event for a decrypted message from device `device_pid`, stamped with
/// `timestamp`; `None` when the message carries no reading.
pub fn process_serial_message(message: &[u8], device_pid: u16, timestamp: String) -> (r: Option<
    SnapDataEvent,
>)
    ensures
        r is Some <==> is_reading(message@),
        r matches Some(e) ==> e.mac@ == mac_text(message@.subrange(7, 13)) && e.value as int
            == reading_value(message@) && e.pid == device_pid && e.timestamp == timestamp,
{
    match decode_message(message) {
        Some(reading) => Some(
            SnapDataEvent { mac: reading.mac, value: reading.value, timestamp, pid: device_pid },
        ),
        None => None,
    }
}

} // verus!
