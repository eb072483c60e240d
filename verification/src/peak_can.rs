//! Configuration decoding for PEAK-System PCAN adapters.

use vstd::prelude::*;
use crate::text::{chars_of, occurs_at, parse_unsigned, parse_unsigned_range, str_equals};

verus! {

/// PCAN handle of the first USB channel.
pub const PCAN_USBBUS1: u16 = 0x51;
/// PCAN handle of the second USB channel.
pub const PCAN_USBBUS2: u16 = 0x52;
/// PCAN handle of the third USB channel.
pub const PCAN_USBBUS3: u16 = 0x53;
/// PCAN handle of the fourth USB channel.
pub const PCAN_USBBUS4: u16 = 0x54;

/// BTR0BTR1 value for 1 Mbit/s.
pub const PCAN_BAUD_1M: u16 = 0x0014;
/// BTR0BTR1 value for 500 kbit/s.
pub const PCAN_BAUD_500K: u16 = 0x001C;
/// BTR0BTR1 value for 250 kbit/s.
pub const PCAN_BAUD_250K: u16 = 0x011C;
/// BTR0BTR1 value for 125 kbit/s.
pub const PCAN_BAUD_125K: u16 = 0x031C;
/// BTR0BTR1 value for 100 kbit/s.
pub const PCAN_BAUD_100K: u16 = 0x432F;

/// The handle that a channel name stands for: one of the four USB bus names,
/// else a number (hexadecimal after `0x`, decimal otherwise), else the first
/// USB bus.
pub open spec fn channel_handle(s: Seq<char>) -> u16 {
    if s == "PCAN_USBBUS1"@ {
        PCAN_USBBUS1
    } else if s == "PCAN_USBBUS2"@ {
        PCAN_USBBUS2
    } else if s == "PCAN_USBBUS3"@ {
        PCAN_USBBUS3
    } else if s == "PCAN_USBBUS4"@ {
        PCAN_USBBUS4
    } else {
        let parsed = if occurs_at(s, "0x"@, 0) {
            parse_unsigned(s.skip(2), 16, 0xffff)
        } else {
            parse_unsigned(s, 10, 0xffff)
        };
        match parsed {
            Some(v) => v as u16,
            None => PCAN_USBBUS1,
        }
    }
}

/// Each USB bus name `PCAN_USBBUSk`, for k from 1 to 4, names the PCAN
/// handle `0x50 + k`, so distinct bus names give distinct handles.
pub proof fn law_usb_bus_handles(k: int)
    requires
        1 <= k <= 4,
    ensures
        channel_handle("PCAN_USBBUS"@.push(('0' as int + k) as char)) == 0x50 + k,
{
    reveal_strlit("PCAN_USBBUS");
    reveal_strlit("PCAN_USBBUS1");
    reveal_strlit("PCAN_USBBUS2");
    reveal_strlit("PCAN_USBBUS3");
    reveal_strlit("PCAN_USBBUS4");
    let name = "PCAN_USBBUS"@.push(('0' as int + k) as char);
    if k == 1 {
        assert(name =~= "PCAN_USBBUS1"@);
    } else if k == 2 {
        assert(name =~= "PCAN_USBBUS2"@);
        assert(name[11] != "PCAN_USBBUS1"@[11]);
    } else if k == 3 {
        assert(name =~= "PCAN_USBBUS3"@);
        assert(name[11] != "PCAN_USBBUS1"@[11]);
        assert(name[11] != "PCAN_USBBUS2"@[11]);
    } else {
        assert(name =~= "PCAN_USBBUS4"@);
        assert(name[11] != "PCAN_USBBUS1"@[11]);
        assert(name[11] != "PCAN_USBBUS2"@[11]);
        assert(name[11] != "PCAN_USBBUS3"@[11]);
    }
}

/// A channel given as a number in decimal (without leading zeros) names
/// the handle of that number.
pub proof fn law_numeric_channel(n: nat)
    requires
        n <= 0xffff,
    ensures
        channel_handle(crate::file_logger::decimal_text(n)) == n,
{
    let t = crate::file_logger::decimal_text(n);
    crate::file_logger::law_decimal_text(n);
    reveal_strlit("PCAN_USBBUS1");
    reveal_strlit("PCAN_USBBUS2");
    reveal_strlit("PCAN_USBBUS3");
    reveal_strlit("PCAN_USBBUS4");
    reveal_strlit("0x");
    assert(crate::text::digit_value(t[0], 10) is Some);
    assert(t[0] != 'P');
    assert(t != "PCAN_USBBUS1"@ && t != "PCAN_USBBUS2"@ && t != "PCAN_USBBUS3"@ && t != "PCAN_USBBUS4"@) by {
        if t.len() > 0 {
            assert("PCAN_USBBUS1"@[0] == 'P');
        }
    }
    if occurs_at(t, "0x"@, 0) {
        assert(t.subrange(0, 2)[1] == t[1]);
        assert(crate::text::digit_value(t[1], 10) is Some);
    }
    assert(t[0] != '+');
}

/// Convert a channel name string to the PCAN handle constant.
pub fn parse_channel(s: &str) -> (r: u16)
    ensures
        r == channel_handle(s@),
{
    if str_equals(s, "PCAN_USBBUS1") {
        return PCAN_USBBUS1;
    }
    if str_equals(s, "PCAN_USBBUS2") {
        return PCAN_USBBUS2;
    }
    if str_equals(s, "PCAN_USBBUS3") {
        return PCAN_USBBUS3;
    }
    if str_equals(s, "PCAN_USBBUS4") {
        return PCAN_USBBUS4;
    }
    let v = chars_of(s);
    let prefix = chars_of("0x");
    proof {
        reveal_strlit("0x");
    }
    let parsed = if crate::text::chars_occur_at(&v, &prefix, 0) {
        assert(v@.subrange(2, v.len() as int) =~= v@.skip(2));
        parse_unsigned_range(&v, 2, v.len(), 16, 0xffff)
    } else {
        assert(v@.subrange(0, v.len() as int) =~= v@);
        parse_unsigned_range(&v, 0, v.len(), 10, 0xffff)
    };
    match parsed {
        Some(n) => n as u16,
        None => PCAN_USBBUS1,
    }
}

/// The BTR0BTR1 value for a bit rate, 500 kbit/s for unsupported rates.
pub open spec fn pcan_baud_of(baud: u64) -> u16 {
    if baud == 1_000_000 {
        PCAN_BAUD_1M
    } else if baud == 500_000 {
        PCAN_BAUD_500K
    } else if baud == 250_000 {
        PCAN_BAUD_250K
    } else if baud == 125_000 {
        PCAN_BAUD_125K
    } else if baud == 100_000 {
        PCAN_BAUD_100K
    } else {
        PCAN_BAUD_500K
    }
}

/// The bit rates that PCAN supports, in bits/s, and their BTR0BTR1 codes
/// in the same order: 1 Mbit/s, 500, 250, 125 and 100 kbit/s.
pub open spec fn pcan_rate_table() -> Seq<(u64, u16)> {
    seq![(1_000_000u64, 0x0014u16), (500_000, 0x001C), (250_000, 0x011C), (125_000, 0x031C), (100_000, 0x432F)]
}

/// Each supported bit rate maps to its own BTR0BTR1 code; any other rate
/// falls back to the 500 kbit/s code.
pub proof fn law_pcan_bit_rates(k: int, baud: u64)
    requires
        0 <= k < 5,
    ensures
        pcan_baud_of(pcan_rate_table()[k].0) == pcan_rate_table()[k].1,
        (forall|j: int| 0 <= j < 5 ==> pcan_rate_table()[j].0 != baud) ==> pcan_baud_of(baud) == 0x001C,
{
    if !(forall|j: int| 0 <= j < 5 ==> pcan_rate_table()[j].0 != baud) {
    } else {
        assert(pcan_rate_table()[0].0 != baud);
        assert(pcan_rate_table()[1].0 != baud);
        assert(pcan_rate_table()[2].0 != baud);
        assert(pcan_rate_table()[3].0 != baud);
        assert(pcan_rate_table()[4].0 != baud);
    }
}

/// Convert a baudrate in bits/s to the PCAN BTR0BTR1 constant.
pub fn baudrate_to_pcan(baud: u64) -> (r: u16)
    ensures
        r == pcan_baud_of(baud),
{
    match baud {
        1_000_000 => PCAN_BAUD_1M,
        500_000 => PCAN_BAUD_500K,
        250_000 => PCAN_BAUD_250K,
        125_000 => PCAN_BAUD_125K,
        100_000 => PCAN_BAUD_100K,
        _ => PCAN_BAUD_500K,
    }
}

} // verus!
