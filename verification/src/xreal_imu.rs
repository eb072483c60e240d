//! Sample decoding for the XREAL Air 2 Ultra headset IMU.

use vstd::prelude::*;
use crate::text::{find_first, find_from};

verus! {

/// Full-scale count of the 24-bit IMU samples (2^23).
pub const FULL_SCALE_COUNTS: u32 = 8388608;
/// Gyroscope full scale in degrees per second.
pub const GYRO_FULL_SCALE_DPS: u32 = 2000;
/// Accelerometer full scale in g.
pub const ACCEL_FULL_SCALE_G: u32 = 16;

/// The little-endian 24-bit two's-complement number made of `b0 b1 b2`.
pub open spec fn signed_24(b0: u8, b1: u8, b2: u8) -> int {
    let v = b0 as int + 256 * (b1 as int) + 65536 * (b2 as int);
    if b2 >= 128 {
        v - 16777216
    } else {
        v
    }
}

/// A 24-bit sample is the one number in [-2^23, 2^23) whose low 24 bits,
/// little-endian, are `b0 b1 b2`.
pub proof fn law_signed_24(b0: u8, b1: u8, b2: u8)
    ensures
        -8388608 <= signed_24(b0, b1, b2) < 8388608,
        (signed_24(b0, b1, b2) - (b0 + 256 * b1 + 65536 * b2)) % 16777216 == 0,
{
}

proof fn lemma_sign_extend(b0: u8, b1: u8, b2: u8)
    ensures
        ({
            let u0 = b0 as u32;
            let u1 = (b1 as u32) << 8u32;
            let u2 = (b2 as u32) << 16u32;
            let sign: u32 = if b2 & 0x80u8 != 0 { 0xFFu32 << 24u32 } else { 0u32 };
            ((sign | u2 | u1 | u0) as i32) as int == signed_24(b0, b1, b2)
        }),
{
    let u0 = b0 as u32;
    let u1 = (b1 as u32) << 8u32;
    let u2 = (b2 as u32) << 16u32;
    let sign: u32 = if b2 & 0x80u8 != 0 { 0xFFu32 << 24u32 } else { 0u32 };
    let w: u32 = sign | u2 | u1 | u0;
    assert(w == (if b2 >= 128 { 0xFF000000u32 } else { 0u32 }) + (b2 as u32) * 65536 + (b1 as u32)
        * 256 + (b0 as u32)) by (bit_vector)
        requires
            u0 == b0 as u32,
            u1 == (b1 as u32) << 8u32,
            u2 == (b2 as u32) << 16u32,
            sign == if b2 & 0x80u8 != 0 { 0xFFu32 << 24u32 } else { 0u32 },
            w == sign | u2 | u1 | u0,
    ;
    assert((w as i32) as int == if w >= 0x80000000u32 { w as int - 0x100000000 } else { w as int })
        by (bit_vector);
}

/// Parse a 24-bit signed integer from a little-endian byte buffer at the
/// given offset.  Returns an `i32` with proper sign extension.
pub fn read_24bit_signed(data: &[u8], offset: usize) -> (r: i32)
    requires
        offset < data@.len(),
        data@.len() - offset >= 3,
    ensures
        r as int == signed_24(data@[offset as int], data@[offset + 1], data@[offset + 2]),
{
    let b0 = data[offset] as u32;
    let b1 = (data[offset + 1] as u32) << 8u32;
    let b2 = (data[offset + 2] as u32) << 16u32;
    let sign: u32 = if data[offset + 2] & 0x80 != 0 {
        0xFFu32 << 24u32
    } else {
        0u32
    };
    proof {
        lemma_sign_extend(data@[offset as int], data@[offset + 1], data@[offset + 2]);
    }
    (sign | b2 | b1 | b0) as i32
}

/// The HID interface of the headset that carries the IMU reports.
pub const PREFERRED_INTERFACE: i32 = 2;

/// The interface the worker opens, among the headset's interfaces in the
/// order the HID enumeration lists them: the first numbered 2, else the
/// first of all; none when there is none.
pub open spec fn chosen_interface(ifaces: Seq<i32>) -> Option<int> {
    if ifaces.len() == 0 {
        None
    } else if find_first(ifaces, PREFERRED_INTERFACE) >= 0 {
        Some(find_first(ifaces, PREFERRED_INTERFACE))
    } else {
        Some(0)
    }
}

/// The interface opened is the first one numbered 2 when the headset has
/// one, else its first interface; a headset without interfaces opens none.
pub proof fn law_interface_choice(ifaces: Seq<i32>)
    ensures
        ifaces.contains(2) ==> (chosen_interface(ifaces) matches Some(i) && 0 <= i < ifaces.len()
            && ifaces[i] == 2 && forall|j: int| 0 <= j < i ==> ifaces[j] != 2),
        !ifaces.contains(2) && ifaces.len() > 0 ==> chosen_interface(ifaces) == Some(0int),
        ifaces.len() == 0 ==> chosen_interface(ifaces) is None,
{
    crate::text::lemma_find_from_range(ifaces, PREFERRED_INTERFACE, 0);
    if ifaces.contains(2) {
        let k = choose|k: int| 0 <= k < ifaces.len() && ifaces[k] == 2;
        assert(find_first(ifaces, PREFERRED_INTERFACE) != -1);
    }
}

/// Picks the interface to open: the position in `ifaces` of the first
/// interface numbered 2, else of the first one.
pub fn pick_interface(ifaces: &[i32]) -> (r: Option<usize>)
    ensures
        match r {
            Some(i) => chosen_interface(ifaces@) == Some(i as int),
            None => chosen_interface(ifaces@) is None,
        },
{
    let mut i: usize = 0;
    while i < ifaces.len()
        invariant
            i <= ifaces.len(),
            find_first(ifaces@, PREFERRED_INTERFACE) == find_from(
                ifaces@,
                PREFERRED_INTERFACE,
                i as int,
            ),
        decreases ifaces.len() - i,
    {
        if ifaces[i] == PREFERRED_INTERFACE {
            return Some(i);
        }
        i = i + 1;
    }
    if ifaces.len() == 0 {
        None
    } else {
        Some(0)
    }
}

/// The little-endian unsigned number made of the eight bytes of `b` at
/// `off`.
pub open spec fn le_u64_at(b: Seq<u8>, off: int) -> int {
    b[off] + 256 * (b[off + 1] + 256 * (b[off + 2] + 256 * (b[off + 3] + 256 * (b[off + 4]
        + 256 * (b[off + 5] + 256 * (b[off + 6] + 256 * b[off + 7]))))))
}

/// The raw contents of one IMU report: the device tick in nanoseconds and
/// the 24-bit counts of the three gyroscope and accelerometer axes.
#[derive(Clone, Copy, Debug, PartialEq, Eq, Structural)]
pub struct XrealRawSample {
    pub tick: u64,
    pub gyro_x: i32,
    pub gyro_y: i32,
    pub gyro_z: i32,
    pub acc_x: i32,
    pub acc_y: i32,
    pub acc_z: i32,
}

/// Size of one IMU report.
pub const REPORT_LEN: usize = 64;

/// The sample that a full report `b` carries: the tick at bytes 4 to 11,
/// the gyroscope at 18, 21 and 24, the accelerometer at 33, 36 and 39.
pub open spec fn report_sample(b: Seq<u8>) -> XrealRawSample {
    XrealRawSample {
        tick: le_u64_at(b, 4) as u64,
        gyro_x: signed_24(b[18], b[19], b[20]) as i32,
        gyro_y: signed_24(b[21], b[22], b[23]) as i32,
        gyro_z: signed_24(b[24], b[25], b[26]) as i32,
        acc_x: signed_24(b[33], b[34], b[35]) as i32,
        acc_y: signed_24(b[36], b[37], b[38]) as i32,
        acc_z: signed_24(b[39], b[40], b[41]) as i32,
    }
}

/// `v` is the 24-bit two's-complement number whose little-endian bytes
/// are `b[off..off + 3]`.
pub open spec fn is_sample_at(v: i32, b: Seq<u8>, off: int) -> bool {
    -8388608 <= v < 8388608 && (v - (b[off] + 256 * b[off + 1] + 65536 * b[off + 2])) % 16777216 == 0
}

/// A full report's tick has byte 4 as its least significant byte and byte
/// 11 as its most significant one; the gyroscope axes are the 24-bit
/// numbers at bytes 18, 21 and 24 and the accelerometer axes those at
/// bytes 33, 36 and 39.
pub proof fn law_report_fields(b: Seq<u8>)
    requires
        b.len() >= 64,
    ensures
        ({
            let s = report_sample(b);
            &&& s.tick % 256 == b[4]
            &&& s.tick / 72057594037927936 == b[11]
            &&& is_sample_at(s.gyro_x, b, 18)
            &&& is_sample_at(s.gyro_y, b, 21)
            &&& is_sample_at(s.gyro_z, b, 24)
            &&& is_sample_at(s.acc_x, b, 33)
            &&& is_sample_at(s.acc_y, b, 36)
            &&& is_sample_at(s.acc_z, b, 39)
        }),
{
    let t = le_u64_at(b, 4);
    let (c0, c1, c2, c3, c4, c5, c6, c7) = (b[4] as int, b[5] as int, b[6] as int, b[7] as int, b[8] as int, b[9] as int, b[10] as int, b[11] as int);
    let rest = c1 + 256 * (c2 + 256 * (c3 + 256 * (c4 + 256 * (c5 + 256 * (c6 + 256 * c7)))));
    assert(0 <= rest < 72057594037927936) by (nonlinear_arith)
        requires
            rest == c1 + 256 * (c2 + 256 * (c3 + 256 * (c4 + 256 * (c5 + 256 * (c6 + 256 * c7))))),
            0 <= c1 < 256, 0 <= c2 < 256, 0 <= c3 < 256, 0 <= c4 < 256, 0 <= c5 < 256, 0 <= c6 < 256, 0 <= c7 < 256,
    ;
    assert(t == c0 + 256 * rest);
    assert(t % 256 == c0 && 0 <= t < 18446744073709551616) by (nonlinear_arith)
        requires
            t == c0 + 256 * rest,
            0 <= c0 < 256,
            0 <= rest < 72057594037927936,
    ;
    assert(t / 72057594037927936 == c7) by (nonlinear_arith)
        requires
            t == c0 + 256 * (c1 + 256 * (c2 + 256 * (c3 + 256 * (c4 + 256 * (c5 + 256 * (c6 + 256 * c7)))))),
            0 <= c0 < 256, 0 <= c1 < 256, 0 <= c2 < 256, 0 <= c3 < 256, 0 <= c4 < 256, 0 <= c5 < 256, 0 <= c6 < 256, 0 <= c7 < 256,
    ;
}

proof fn lemma_le_u64(b0: u8, b1: u8, b2: u8, b3: u8, b4: u8, b5: u8, b6: u8, b7: u8)
    ensures
        ((b0 as u64) | (b1 as u64) << 8u64 | (b2 as u64) << 16u64 | (b3 as u64) << 24u64
            | (b4 as u64) << 32u64 | (b5 as u64) << 40u64 | (b6 as u64) << 48u64 | (b7 as u64)
            << 56u64) as int == b0 + 256 * (b1 + 256 * (b2 + 256 * (b3 + 256 * (b4 + 256 * (b5
            + 256 * (b6 + 256 * b7)))))),
{
    assert(((b0 as u64) | (b1 as u64) << 8u64 | (b2 as u64) << 16u64 | (b3 as u64) << 24u64
        | (b4 as u64) << 32u64 | (b5 as u64) << 40u64 | (b6 as u64) << 48u64 | (b7 as u64) << 56u64)
        == b0 + 256 * (b1 + 256 * (b2 + 256 * (b3 + 256 * (b4 + 256 * (b5 + 256 * (b6 + 256
        * b7))))))) by (bit_vector);
}

/// Decodes one IMU report; a read shorter than a full report carries no
/// sample.
pub fn parse_xreal_report(buf: &[u8]) -> (r: Option<XrealRawSample>)
    ensures
        buf@.len() < 64 ==> r is None,
        buf@.len() >= 64 ==> r == Some(report_sample(buf@)),
{
    if buf.len() < REPORT_LEN {
        return None;
    }
    let tick: u64 = (buf[4] as u64) | (buf[5] as u64) << 8u64 | (buf[6] as u64) << 16u64 | (
    buf[7] as u64) << 24u64 | (buf[8] as u64) << 32u64 | (buf[9] as u64) << 40u64 | (
    buf[10] as u64) << 48u64 | (buf[11] as u64) << 56u64;
    proof {
        lemma_le_u64(buf@[4], buf@[5], buf@[6], buf@[7], buf@[8], buf@[9], buf@[10], buf@[11]);
    }
    Some(
        XrealRawSample {
            tick,
            gyro_x: read_24bit_signed(buf, 18),
            gyro_y: read_24bit_signed(buf, 21),
            gyro_z: read_24bit_signed(buf, 24),
            acc_x: read_24bit_signed(buf, 33),
            acc_y: read_24bit_signed(buf, 36),
            acc_z: read_24bit_signed(buf, 39),
        },
    )
}

impl XrealRawSample {
    /// The sample in the hub's axes: (-x, z, y) for both sensors.
    pub fn to_hub_axes(&self) -> (r: XrealRawSample)
        requires
            self.gyro_x > i32::MIN,
            self.acc_x > i32::MIN,
        ensures
            r == (XrealRawSample {
                tick: self.tick,
                gyro_x: (-self.gyro_x) as i32,
                gyro_y: self.gyro_z,
                gyro_z: self.gyro_y,
                acc_x: (-self.acc_x) as i32,
                acc_y: self.acc_z,
                acc_z: self.acc_y,
            }),
    {
        XrealRawSample {
            tick: self.tick,
            gyro_x: -self.gyro_x,
            gyro_y: self.gyro_z,
            gyro_z: self.gyro_y,
            acc_x: -self.acc_x,
            acc_y: self.acc_z,
            acc_z: self.acc_y,
        }
    }
}

} // verus!
