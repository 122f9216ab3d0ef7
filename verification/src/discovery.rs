//! Device discovery: which of the devices that the host lists is the
//! peripheral, and which serial port belongs to it.
//!
//! Listing devices and ports is the caller's part. What is decided here is
//! the match: the peripheral's identifier carries a fixed marker, and its
//! port is the one whose serial number occurs in that identifier.

use vstd::prelude::*;

verus! {

/// Whether `needle` stands in `hay` at `at`.
pub open spec fn occurs_at(hay: Seq<u8>, needle: Seq<u8>, at: int) -> bool {
    0 <= at && at + needle.len() <= hay.len() && hay.subrange(at, at + needle.len()) == needle
}

/// Whether `needle` stands somewhere in `hay`, byte for byte.
pub open spec fn occurs(hay: Seq<u8>, needle: Seq<u8>) -> bool {
    exists|at: int| occurs_at(hay, needle, at)
}

/// The marker that the peripheral's identifier carries: `USB35INCHIPSV2`.
pub open spec fn chips_marker() -> Seq<u8> {
    seq![85u8, 83, 66, 51, 53, 73, 78, 67, 72, 73, 80, 83, 86, 50]
}

/// A device as the host lists it.
#[derive(Debug)]
pub struct DeviceEntry {
    pub enabled: bool,
    pub id: String,
}

/// The bytes of a text: its UTF-8 encoding.
pub open spec fn text_bytes(text: Seq<char>) -> Seq<u8> {
    vstd::utf8::encode_utf8(text)
}

/// Whether a listed device is the peripheral: it is enabled and its
/// identifier carries the marker.
pub open spec fn is_chips(entry: DeviceEntry) -> bool {
    entry.enabled && occurs(text_bytes(entry.id@), chips_marker())
}

/// Whether a port with this serial number belongs to the device with this
/// identifier: it has a serial number, and the identifier carries it.
pub open spec fn is_port_of(serial_number: Option<String>, device_id: Seq<char>) -> bool {
    serial_number is Some && occurs(text_bytes(device_id), text_bytes(serial_number->Some_0@))
}

fn matches_at(hay: &[u8], needle: &[u8], at: usize) -> (same: bool)
    requires
        at + needle@.len() <= hay@.len(),
    ensures
        same == occurs_at(hay@, needle@, at as int),
{
    let hay_len = hay.len();
    let mut k: usize = 0;
    while k < needle.len()
        invariant
            k <= needle@.len(),
            hay_len == hay@.len(),
            at + needle@.len() <= hay_len,
            hay@.subrange(at as int, at + k) == needle@.subrange(0, k as int),
        decreases needle@.len() - k,
    {
        if hay[at + k] != needle[k] {
            assert(hay@.subrange(at as int, at + needle@.len())[k as int] != needle@[k as int]);
            return false;
        }
        k = k + 1;
        assert(hay@.subrange(at as int, at + k) =~= needle@.subrange(0, k as int));
    }
    assert(needle@.subrange(0, needle@.len() as int) =~= needle@);
    true
}

/// Whether `needle` stands somewhere in `hay`.
pub fn contains_bytes(hay: &[u8], needle: &[u8]) -> (found: bool)
    ensures
        found == occurs(hay@, needle@),
{
    if needle.len() > hay.len() {
        return false;
    }
    let last = hay.len() - needle.len();
    let mut at: usize = 0;
    loop
        invariant
            at <= last,
            last + needle@.len() == hay@.len(),
            forall|i: int| 0 <= i < at ==> !occurs_at(hay@, needle@, i),
        decreases last - at,
    {
        if matches_at(hay, needle, at) {
            return true;
        }
        if at == last {
            return false;
        }
        at = at + 1;
    }
}

/// The first of the listed devices that is the peripheral.
pub fn get_chips_id(devices: &[DeviceEntry]) -> (found: Option<usize>)
    ensures
        match found {
            Some(i) => i < devices@.len() && is_chips(devices@[i as int]) && forall|j: int|
                0 <= j < i ==> !is_chips(#[trigger] devices@[j]),
            None => forall|j: int| 0 <= j < devices@.len() ==> !is_chips(#[trigger] devices@[j]),
        },
{
    let marker: [u8; 14] = [85, 83, 66, 51, 53, 73, 78, 67, 72, 73, 80, 83, 86, 50];
    assert(marker@ =~= chips_marker());
    let mut i: usize = 0;
    while i < devices.len()
        invariant
            i <= devices@.len(),
            marker@ == chips_marker(),
            forall|j: int| 0 <= j < i ==> !is_chips(#[trigger] devices@[j]),
        decreases devices@.len() - i,
    {
        let id = devices[i].id.as_str().as_bytes();
        if devices[i].enabled && contains_bytes(id, marker.as_slice()) {
            return Some(i);
        }
        i = i + 1;
    }
    None
}

/// The first of the listed ports, given by their serial numbers, that
/// belongs to the device with this identifier.
pub fn get_chips_serial_port_info(
    serial_numbers: &[Option<String>],
    chips_device_id: &str,
) -> (found: Option<usize>)
    ensures
        match found {
            Some(i) => i < serial_numbers@.len() && is_port_of(
                serial_numbers@[i as int],
                chips_device_id@,
            ) && forall|j: int|
                0 <= j < i ==> !is_port_of(
                    #[trigger] serial_numbers@[j],
                    chips_device_id@,
                ),
            None => forall|j: int|
                0 <= j < serial_numbers@.len() ==> !is_port_of(
                    #[trigger] serial_numbers@[j],
                    chips_device_id@,
                ),
        },
{
    let id = chips_device_id.as_bytes();
    let mut i: usize = 0;
    while i < serial_numbers.len()
        invariant
            i <= serial_numbers@.len(),
            id@ == text_bytes(chips_device_id@),
            forall|j: int|
                0 <= j < i ==> !is_port_of(
                    #[trigger] serial_numbers@[j],
                    chips_device_id@,
                ),
        decreases serial_numbers@.len() - i,
    {
        let matched = match &serial_numbers[i] {
            Some(serial_number) => contains_bytes(id, serial_number.as_str().as_bytes()),
            None => false,
        };
        if matched {
            return Some(i);
        }
        i = i + 1;
    }
    None
}

} // verus!
