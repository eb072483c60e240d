//! Raw signal extraction from CAN frames for the vehicle source, and the
//! gear that an OBD-II adapter reports.

use vstd::prelude::*;
use vstd::string::StringSliceAdditionalSpecFns;

verus! {

/// The unsigned value of the `len` bytes of `data` at `start` (1, 2 or 4
/// bytes, in the given byte order); 0 when they do not fit in the frame or
/// `len` is another width.
pub open spec fn raw_signal(data: Seq<u8>, start: int, len: int, big_endian: bool) -> int {
    if start + len > data.len() {
        0
    } else if len == 1 {
        data[start] as int
    } else if len == 2 {
        if big_endian {
            data[start] * 256 + data[start + 1]
        } else {
            data[start + 1] * 256 + data[start]
        }
    } else if len == 4 {
        if big_endian {
            ((data[start] * 256 + data[start + 1]) * 256 + data[start + 2]) * 256 + data[start + 3]
        } else {
            ((data[start + 3] * 256 + data[start + 2]) * 256 + data[start + 1]) * 256 + data[start]
        }
    } else {
        0
    }
}

/// A signal's bytes are its value's base-256 digits: in little-endian
/// order the first byte is the least significant, in big-endian order the
/// last one is; a signal that does not fit in the frame reads 0.
pub proof fn law_signal_bytes(data: Seq<u8>, start: int, big_endian: bool)
    requires
        0 <= start,
    ensures
        start + 1 <= data.len() ==> raw_signal(data, start, 1, big_endian) == data[start],
        start + 2 <= data.len() ==> {
            let v = raw_signal(data, start, 2, big_endian);
            let (lo, hi) = if big_endian { (data[start + 1], data[start]) } else { (data[start], data[start + 1]) };
            v % 256 == lo && v / 256 == hi
        },
        start + 4 <= data.len() ==> {
            let v = raw_signal(data, start, 4, big_endian);
            let b = if big_endian {
                seq![data[start + 3], data[start + 2], data[start + 1], data[start]]
            } else {
                seq![data[start], data[start + 1], data[start + 2], data[start + 3]]
            };
            &&& v % 256 == b[0]
            &&& (v / 256) % 256 == b[1]
            &&& (v / 65536) % 256 == b[2]
            &&& v / 16777216 == b[3]
        },
        forall|len: int| start + len > data.len() ==> raw_signal(data, start, len, big_endian) == 0,
{
    if start + 4 <= data.len() {
        let b = if big_endian {
            seq![data[start + 3], data[start + 2], data[start + 1], data[start]]
        } else {
            seq![data[start], data[start + 1], data[start + 2], data[start + 3]]
        };
        let v = raw_signal(data, start, 4, big_endian);
        let (b0, b1, b2, b3) = (b[0] as int, b[1] as int, b[2] as int, b[3] as int);
        assert(v == ((b3 * 256 + b2) * 256 + b1) * 256 + b0);
        assert(v % 256 == b0 && (v / 256) % 256 == b1 && (v / 65536) % 256 == b2 && v / 16777216
            == b3) by (nonlinear_arith)
            requires
                v == ((b3 * 256 + b2) * 256 + b1) * 256 + b0,
                0 <= b0 < 256,
                0 <= b1 < 256,
                0 <= b2 < 256,
                0 <= b3 < 256,
        ;
    }
}

/// Extracts the raw unsigned value of a CAN signal: 1, 2 or 4 bytes at
/// `start`, in the given byte order.
pub fn extract_value(data: &[u8], start: usize, len: usize, big_endian: bool) -> (r: u32)
    requires
        start + len <= usize::MAX,
    ensures
        r as int == raw_signal(data@, start as int, len as int, big_endian),
{
    if start + len > data.len() {
        return 0;
    }
    if len == 1 {
        data[start] as u32
    } else if len == 2 {
        let (hi, lo) = if big_endian {
            (data[start], data[start + 1])
        } else {
            (data[start + 1], data[start])
        };
        (hi as u32) * 256 + lo as u32
    } else if len == 4 {
        let (b3, b2, b1, b0) = if big_endian {
            (data[start], data[start + 1], data[start + 2], data[start + 3])
        } else {
            (data[start + 3], data[start + 2], data[start + 1], data[start])
        };
        (((b3 as u32) * 256 + b2 as u32) * 256 + b1 as u32) * 256 + b0 as u32
    } else {
        0
    }
}

} // verus!

verus! {

/// The gear an OBD-II adapter reports.
#[derive(Clone, Copy, Debug, PartialEq, Eq, Structural)]
pub enum GearState {
    Unknown,
    Park,
    Reverse,
    Neutral,
    Drive,
    Manual,
}

/// What `i32::from_str_radix(.., 16)` gives for the two bytes `b0 b1`: an
/// optional sign followed by hexadecimal digits.
pub open spec fn signed_hex_two(b0: u8, b1: u8) -> Option<int> {
    if b0 == 43 {
        match crate::text::hex_value(b1) {
            Some(v) => Some(v as int),
            None => None,
        }
    } else if b0 == 45 {
        match crate::text::hex_value(b1) {
            Some(v) => Some(-(v as int)),
            None => None,
        }
    } else {
        match (crate::text::hex_value(b0), crate::text::hex_value(b1)) {
            (Some(h), Some(l)) => Some(h * 16 + l),
            _ => None,
        }
    }
}

/// Reads two characters as `i32::from_str_radix(.., 16)` does: an optional
/// sign followed by hexadecimal digits.
pub fn signed_hex_two_value(b0: u8, b1: u8) -> (r: Option<i32>)
    ensures
        match r {
            Some(v) => signed_hex_two(b0, b1) == Some(v as int),
            None => signed_hex_two(b0, b1) is None,
        },
{
    if b0 == 43 {
        match crate::text::hex_digit_value(b1) {
            Some(v) => Some(v as i32),
            None => None,
        }
    } else if b0 == 45 {
        match crate::text::hex_digit_value(b1) {
            Some(v) => Some(-(v as i32)),
            None => None,
        }
    } else {
        match (crate::text::hex_digit_value(b0), crate::text::hex_digit_value(b1)) {
            (Some(h), Some(l)) => Some((h as i32) * 16 + (l as i32)),
            _ => None,
        }
    }
}

/// The gear that a response reports in its fourth byte (characters 6 and
/// 7, in hexadecimal): 0 to 4 are park, reverse, neutral, drive and
/// manual; anything else, or a response too short, is unknown.
pub open spec fn gear_of(response: Seq<u8>) -> GearState {
    if response.len() < 8 {
        GearState::Unknown
    } else {
        match signed_hex_two(response[6], response[7]) {
            Some(v) => if v == 0 {
                GearState::Park
            } else if v == 1 {
                GearState::Reverse
            } else if v == 2 {
                GearState::Neutral
            } else if v == 3 {
                GearState::Drive
            } else if v == 4 {
                GearState::Manual
            } else {
                GearState::Unknown
            },
            None => GearState::Unknown,
        }
    }
}

/// The gears of the OBD-II gear codes 0 to 4, in code order.
pub open spec fn obd_gear_table() -> Seq<GearState> {
    seq![GearState::Park, GearState::Reverse, GearState::Neutral, GearState::Drive, GearState::Manual]
}

/// A response whose fourth byte is written with the decimal digits `h l`
/// reports the gear of code `0x hl`: park, reverse, neutral, drive and
/// manual for codes 0 to 4, unknown for any other; a response too short to
/// hold the byte reports unknown.
pub proof fn law_gear_codes(response: Seq<u8>, h: int, l: int)
    requires
        0 <= h <= 9,
        0 <= l <= 9,
        response.len() >= 8,
        response[6] == ('0' as u8) + h,
        response[7] == ('0' as u8) + l,
    ensures
        gear_of(response) == if h == 0 && l < 5 {
            obd_gear_table()[l]
        } else {
            GearState::Unknown
        },
        forall|short: Seq<u8>| short.len() < 8 ==> gear_of(short) == GearState::Unknown,
{
}

/// Reads the gear from the response to the gear request.
pub fn parse_gear_state(response: &str) -> (r: GearState)
    requires
        response.spec_bytes().len() >= 8 ==> vstd::utf8::is_char_boundary(response.spec_bytes(), 6)
            && vstd::utf8::is_char_boundary(response.spec_bytes(), 8),
    ensures
        r == gear_of(response.spec_bytes()),
{
    let bytes = response.as_bytes();
    if bytes.len() < 8 {
        return GearState::Unknown;
    }
    let value = signed_hex_two_value(bytes[6], bytes[7]);
    match value {
        Some(0) => GearState::Park,
        Some(1) => GearState::Reverse,
        Some(2) => GearState::Neutral,
        Some(3) => GearState::Drive,
        Some(4) => GearState::Manual,
        _ => GearState::Unknown,
    }
}

} // verus!
