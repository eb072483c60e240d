//! Sequencing and configuration for the HID IMU source: axis remapping
//! strings, vendor/product ids written in hexadecimal, and the buffer that
//! hands out the three samples of each USB report in sequence order while
//! widening their 32-bit timestamps.

use vstd::prelude::*;
use vstd::string::StringSliceAdditionalSpecFns;
use crate::text::{chars_of, parse_unsigned, parse_unsigned_range};

verus! {

/// The forward distance from `last` to `s` on an 8-bit wrapping counter,
/// `(s - last) mod 256`, as the byte truncation of the difference computes it.
pub open spec fn seq_step(s: i32, last: i32) -> int {
    ((s - last) as u8) as int
}

/// Slot `i` holds a sample that comes after `last` (one to 128 steps on).
pub open spec fn is_successor(seq: [i32; 3], last: i32, i: int) -> bool {
    0 < seq_step(seq@[i], last) <= 128
}

/// Every slot index differs from `last` by an amount that fits an `i32`.
pub open spec fn steps_fit(seq: [i32; 3], last: i32) -> bool {
    forall|i: int| 0 <= i < 3 ==> i32::MIN <= #[trigger] seq@[i] - last <= i32::MAX
}

/// Find the index into `seq` that points to the entry immediately after
/// `last_seq`, treating values as 8-bit counters that wrap from 255 to 0.
/// Returns `None` if all three slots have been consumed.
pub fn next_index(seq: &[i32; 3], last_seq: i32) -> (r: Option<usize>)
    requires
        steps_fit(*seq, last_seq),
    ensures
        match r {
            Some(i) => {
                &&& i < 3
                &&& is_successor(*seq, last_seq, i as int)
                &&& forall|j: int|
                    0 <= j < i ==> !is_successor(*seq, last_seq, j) || seq_step(seq@[j], last_seq)
                        > seq_step(seq@[i as int], last_seq)
                &&& forall|j: int|
                    i < j < 3 ==> !is_successor(*seq, last_seq, j) || seq_step(seq@[j], last_seq)
                        >= seq_step(seq@[i as int], last_seq)
            },
            None => forall|j: int| 0 <= j < 3 ==> !is_successor(*seq, last_seq, j),
        },
{
    let mut min_val: i32 = i32::MAX;
    let mut min_idx: Option<usize> = None;
    let mut i: usize = 0;
    while i < 3
        invariant
            i <= 3,
            steps_fit(*seq, last_seq),
            min_idx is Some ==> {
                let k = min_idx.unwrap() as int;
                &&& k < i
                &&& is_successor(*seq, last_seq, k)
                &&& min_val as int == seq_step(seq@[k], last_seq)
                &&& forall|j: int|
                    0 <= j < k ==> !is_successor(*seq, last_seq, j) || seq_step(seq@[j], last_seq)
                        > min_val
                &&& forall|j: int|
                    k < j < i ==> !is_successor(*seq, last_seq, j) || seq_step(seq@[j], last_seq)
                        >= min_val
            },
            min_idx is None ==> min_val == i32::MAX,
            min_idx is None ==> forall|j: int| 0 <= j < i ==> !is_successor(*seq, last_seq, j),
        decreases 3 - i,
    {
        assert(i32::MIN <= seq@[i as int] - last_seq <= i32::MAX);
        let diff: i32 = seq[i] - last_seq;
        let d = (#[verifier::truncate] (diff as u8)) as i32;
        assert(d as int == seq_step(seq@[i as int], last_seq));
        if d > 0 && d <= 128 && d < min_val {
            min_val = d;
            min_idx = Some(i);
        }
        i = i + 1;
    }
    min_idx
}

/// Characters that `char::is_whitespace` accepts (Unicode `White_Space`).
pub open spec fn is_unicode_whitespace(c: char) -> bool {
    ||| '\u{9}' <= c <= '\u{d}'
    ||| c == ' '
    ||| c == '\u{85}'
    ||| c == '\u{a0}'
    ||| c == '\u{1680}'
    ||| '\u{2000}' <= c <= '\u{200a}'
    ||| c == '\u{2028}'
    ||| c == '\u{2029}'
    ||| c == '\u{202f}'
    ||| c == '\u{205f}'
    ||| c == '\u{3000}'
}

/// `s` without its leading and trailing whitespace, as `str::trim` gives it.
pub open spec fn trim_chars(s: Seq<char>) -> Seq<char>
    decreases s.len(),
{
    if s.len() > 0 && is_unicode_whitespace(s[0]) {
        trim_chars(s.drop_first())
    } else if s.len() > 0 && is_unicode_whitespace(s.last()) {
        trim_chars(s.drop_last())
    } else {
        s
    }
}

/// `s` without any number of leading copies of the two characters `a b`, as
/// `str::trim_start_matches` gives it.
pub open spec fn strip_repeated(s: Seq<char>, a: char, b: char) -> Seq<char>
    decreases s.len(),
{
    if s.len() >= 2 && s[0] == a && s[1] == b {
        strip_repeated(s.skip(2), a, b)
    } else {
        s
    }
}

/// The id that `parse_hex_u16` reads from `s`: trimmed, stripped of leading
/// `0x` and then `0X` prefixes, parsed as hexadecimal, 0 when that fails.
pub open spec fn hex_id_of(s: Seq<char>) -> u16 {
    match parse_unsigned(strip_repeated(strip_repeated(trim_chars(s), '0', 'x'), '0', 'X'), 16, 0xffff) {
        Some(v) => v as u16,
        None => 0,
    }
}

pub fn is_whitespace_char(c: char) -> (r: bool)
    ensures
        r == is_unicode_whitespace(c),
{
    ('\u{9}' <= c && c <= '\u{d}') || c == ' ' || c == '\u{85}' || c == '\u{a0}' || c == '\u{1680}'
        || ('\u{2000}' <= c && c <= '\u{200a}') || c == '\u{2028}' || c == '\u{2029}' || c
        == '\u{202f}' || c == '\u{205f}' || c == '\u{3000}'
}

/// Parse a hexadecimal string like `"0x0BB4"` or `"0BB4"` into a `u16`.
pub fn parse_hex_u16(s: &str) -> (r: u16)
    ensures
        r == hex_id_of(s@),
{
    let v = chars_of(s);
    let mut lo: usize = 0;
    let mut hi: usize = v.len();
    assert(v@.subrange(0, v.len() as int) =~= v@);
    while lo < hi && (is_whitespace_char(v[lo]) || is_whitespace_char(v[hi - 1]))
        invariant
            lo <= hi <= v.len(),
            trim_chars(v@) == trim_chars(v@.subrange(lo as int, hi as int)),
        decreases hi - lo,
    {
        let ghost t = v@.subrange(lo as int, hi as int);
        if is_whitespace_char(v[lo]) {
            assert(t.drop_first() =~= v@.subrange(lo + 1, hi as int));
            lo = lo + 1;
        } else {
            assert(t.drop_last() =~= v@.subrange(lo as int, hi - 1));
            hi = hi - 1;
        }
    }
    proof {
        let t = v@.subrange(lo as int, hi as int);
        if t.len() > 0 {
            assert(t[0] == v@[lo as int]);
            assert(t.last() == v@[hi - 1]);
        }
        assert(trim_chars(t) == t);
    }
    let ghost trimmed = v@.subrange(lo as int, hi as int);
    while hi - lo >= 2 && v[lo] == '0' && v[lo + 1] == 'x'
        invariant
            lo <= hi <= v.len(),
            strip_repeated(trimmed, '0', 'x') == strip_repeated(
                v@.subrange(lo as int, hi as int),
                '0',
                'x',
            ),
        decreases hi - lo,
    {
        assert(v@.subrange(lo as int, hi as int).skip(2) =~= v@.subrange(lo + 2, hi as int));
        lo = lo + 2;
    }
    let ghost once = v@.subrange(lo as int, hi as int);
    assert(strip_repeated(once, '0', 'x') == once);
    while hi - lo >= 2 && v[lo] == '0' && v[lo + 1] == 'X'
        invariant
            lo <= hi <= v.len(),
            strip_repeated(once, '0', 'X') == strip_repeated(
                v@.subrange(lo as int, hi as int),
                '0',
                'X',
            ),
        decreases hi - lo,
    {
        assert(v@.subrange(lo as int, hi as int).skip(2) =~= v@.subrange(lo + 2, hi as int));
        lo = lo + 2;
    }
    assert(strip_repeated(v@.subrange(lo as int, hi as int), '0', 'X') == v@.subrange(
        lo as int,
        hi as int,
    ));
    match parse_unsigned_range(&v, lo, hi, 16, 0xffff) {
        Some(n) => n as u16,
        None => 0,
    }
}

/// Mapping of sensor axes onto output axes, parsed from strings such as
/// `"+X+Y+Z"` or `"-Z+X+Y"`: output axis `p` is `direction[p]` (+1 or -1)
/// times input axis `assignment[p]`.
#[derive(Clone, Copy, Debug, PartialEq, Eq)]
pub struct AxisConfig {
    pub axis_assignment: [usize; 3],
    pub axis_direction: [i8; 3],
}

/// The axis that the letter `b` names (`X`, `Y`, `Z` in either case), with
/// `p` when it names none.
pub open spec fn axis_of_letter(b: u8, p: usize) -> usize {
    if b == 88 || b == 120 {
        0
    } else if b == 89 || b == 121 {
        1
    } else if b == 90 || b == 122 {
        2
    } else {
        p
    }
}

/// The letters `X`, `Y` and `Z`, in either case, name input axes 0, 1
/// and 2; any other byte keeps the default axis `p`.
pub proof fn law_axis_letters(i: int, b: u8, p: usize)
    requires
        0 <= i < 3,
    ensures
        axis_of_letter("XYZ"@[i] as u8, p) == i,
        axis_of_letter("xyz"@[i] as u8, p) == i,
        (forall|j: int| 0 <= j < 3 ==> b != "XYZ"@[j] as u8 && b != "xyz"@[j] as u8) ==> axis_of_letter(b, p) == p,
{
    reveal_strlit("XYZ");
    reveal_strlit("xyz");
    if forall|j: int| 0 <= j < 3 ==> b != "XYZ"@[j] as u8 && b != "xyz"@[j] as u8 {
        assert(b != "XYZ"@[0] as u8 && b != "xyz"@[0] as u8);
        assert(b != "XYZ"@[1] as u8 && b != "xyz"@[1] as u8);
        assert(b != "XYZ"@[2] as u8 && b != "xyz"@[2] as u8);
    }
}

/// The direction that a sign byte gives: +1 for `+`, -1 for anything else.
pub open spec fn axis_sign(b: u8) -> i8 {
    if b == 43 {
        1i8
    } else {
        -1i8
    }
}

/// The mapping that `AxisConfig::parse` reads from the bytes `b`.
pub open spec fn axis_config_of(b: Seq<u8>) -> AxisConfig {
    if b.len() >= 6 {
        AxisConfig {
            axis_assignment: [
                axis_of_letter(b[1], 0),
                axis_of_letter(b[3], 1),
                axis_of_letter(b[5], 2),
            ],
            axis_direction: [axis_sign(b[0]), axis_sign(b[2]), axis_sign(b[4])],
        }
    } else {
        AxisConfig { axis_assignment: [0usize, 1, 2], axis_direction: [1i8, 1, 1] }
    }
}

impl AxisConfig {
    /// The identity mapping.
    pub fn identity() -> (r: AxisConfig)
        ensures
            r.axis_assignment@ == seq![0usize, 1, 2],
            r.axis_direction@ == seq![1i8, 1, 1],
    {
        AxisConfig { axis_assignment: [0, 1, 2], axis_direction: [1, 1, 1] }
    }

    /// Parses `"+X+Y+Z"`-style strings: when there are at least six bytes,
    /// byte `2p` gives the sign of output axis `p` (`+` for +1, anything else
    /// for -1) and byte `2p+1` the input axis; shorter strings give the
    /// identity.
    pub fn parse(s: &str) -> (r: AxisConfig)
        ensures
            s.spec_bytes().len() >= 6 ==> forall|p: int|
                0 <= p < 3 ==> {
                    &&& r.axis_direction@[p] == if s.spec_bytes()[2 * p] == 43 { 1i8 } else { -1i8 }
                    &&& r.axis_assignment@[p] == axis_of_letter(s.spec_bytes()[2 * p + 1], p as usize)
                },
            s.spec_bytes().len() < 6 ==> r.axis_assignment@ == seq![0usize, 1, 2]
                && r.axis_direction@ == seq![1i8, 1, 1],
            r == axis_config_of(s.spec_bytes()),
    {
        let bytes = s.as_bytes();
        let mut cfg = AxisConfig::identity();
        if bytes.len() >= 6 {
            let mut p: usize = 0;
            while p < 3
                invariant
                    p <= 3,
                    bytes@ == s.spec_bytes(),
                    bytes@.len() >= 6,
                    forall|q: int|
                        0 <= q < p ==> {
                            &&& cfg.axis_direction@[q] == if bytes@[2 * q] == 43 { 1i8 } else { -1i8 }
                            &&& cfg.axis_assignment@[q] == axis_of_letter(bytes@[2 * q + 1], q as usize)
                        },
                decreases 3 - p,
            {
                cfg.axis_direction[p] = if bytes[2 * p] == 43 {
                    1
                } else {
                    -1
                };
                let b = bytes[2 * p + 1];
                cfg.axis_assignment[p] = if b == 88 || b == 120 {
                    0
                } else if b == 89 || b == 121 {
                    1
                } else if b == 90 || b == 122 {
                    2
                } else {
                    p
                };
                p = p + 1;
            }
        }
        proof {
            broadcast use vstd::array::axiom_array_ext_equal;
            let want = axis_config_of(bytes@);
            assert(cfg.axis_assignment =~= want.axis_assignment);
            assert(cfg.axis_direction =~= want.axis_direction);
        }
        cfg
    }
}

} // verus!

verus! {

/// The first slot (lowest index) among the successors of `last` in the first
/// `n` slots with the smallest forward step, if any: the slot `next_index`
/// picks.
pub open spec fn best_slot(seq: [i32; 3], last: i32, n: int) -> Option<int>
    decreases n,
{
    if n <= 0 {
        None
    } else {
        let prev = best_slot(seq, last, n - 1);
        if is_successor(seq, last, n - 1) && (prev is None || seq_step(seq@[n - 1], last)
            < seq_step(seq@[prev.unwrap()], last)) {
            Some(n - 1)
        } else {
            prev
        }
    }
}

proof fn lemma_best_slot(seq: [i32; 3], last: i32, r: Option<usize>)
    requires
        match r {
            Some(i) => {
                &&& i < 3
                &&& is_successor(seq, last, i as int)
                &&& forall|j: int|
                    0 <= j < i ==> !is_successor(seq, last, j) || seq_step(seq@[j], last)
                        > seq_step(seq@[i as int], last)
                &&& forall|j: int|
                    i < j < 3 ==> !is_successor(seq, last, j) || seq_step(seq@[j], last)
                        >= seq_step(seq@[i as int], last)
            },
            None => forall|j: int| 0 <= j < 3 ==> !is_successor(seq, last, j),
        },
    ensures
        best_slot(seq, last, 3) == match r {
            Some(i) => Some(i as int),
            None => None::<int>,
        },
{
    reveal_with_fuel(best_slot, 4);
}

/// Slot `a` was taken before slot `b` on the 8-bit counter: their
/// difference, truncated to a signed byte, is negative.
pub open spec fn is_behind(a: i32, b: i32) -> bool {
    ((a - b) as i8) < 0
}

/// The slot that holds the oldest sample of a report.
pub open spec fn oldest_slot(seq: [i32; 3]) -> int {
    let first = if is_behind(seq@[1], seq@[0]) { 1int } else { 0int };
    if is_behind(seq@[2], seq@[first]) { 2 } else { first }
}

/// The full timestamp for the 32-bit value `raw` that follows `lt`: the high
/// bits of `lt` with the low 32 bits of `raw`, moved up by 2^32 when that
/// would go back in time.
pub open spec fn widen_timestamp(lt: i64, raw: i64) -> int {
    let c = (lt & !0xFFFF_FFFFi64) | (raw & 0xFFFF_FFFFi64);
    if c < lt {
        c + 0x1_0000_0000
    } else {
        c as int
    }
}

/// The widened timestamp is the one value at or after `lt`, and less than
/// 2^32 after it, whose low 32 bits are those of `raw`.
pub proof fn lemma_widen_timestamp(lt: i64, raw: i64)
    requires
        lt <= i64::MAX - 0x1_0000_0000,
    ensures
        lt <= widen_timestamp(lt, raw) < lt + 0x1_0000_0000,
        (widen_timestamp(lt, raw) as i64) & 0xFFFF_FFFFi64 == raw & 0xFFFF_FFFFi64,
{
    let c = (lt & !0xFFFF_FFFFi64) | (raw & 0xFFFF_FFFFi64);
    assert(c <= lt + 0xFFFF_FFFFi64 && (c < lt ==> lt - c < 0x1_0000_0000i64) && (c >= lt ==> c
        - lt < 0x1_0000_0000i64) && c & 0xFFFF_FFFFi64 == raw & 0xFFFF_FFFFi64 && (c < lt ==> ((c
        + 0x1_0000_0000i64) as i64) & 0xFFFF_FFFFi64 == raw & 0xFFFF_FFFFi64)) by (bit_vector)
        requires
            c == (lt & !0xFFFF_FFFFi64) | (raw & 0xFFFF_FFFFi64),
            lt <= i64::MAX - 0x1_0000_0000,
    ;
}

/// All differences between the sequence numbers of a report, and between
/// them and `last`, fit an `i32`.
pub open spec fn counters_fit(seq: [i32; 3], last: i32) -> bool {
    &&& forall|i: int, j: int|
        0 <= i < 3 && 0 <= j < 3 ==> i32::MIN <= #[trigger] seq@[i] - #[trigger] seq@[j] <= i32::MAX
    &&& forall|i: int| 0 <= i < 3 ==> i32::MIN <= #[trigger] seq@[i] - last <= i32::MAX
}

/// Sequence numbers, raw 32-bit timestamps and consumption flags of the
/// three samples packed into one USB report.
#[derive(Clone, Copy, Debug)]
pub struct SampleBuffer {
    pub timestamps: [i64; 3],
    pub seq: [i32; 3],
    pub used: [bool; 3],
}

/// Stateful sample buffer consumer that tracks sequence numbers and
/// reconstructs full 48-bit timestamps from 32-bit per-sample values.
#[derive(Clone, Copy, Debug)]
pub struct SampleBufferState {
    pub buffer: Option<SampleBuffer>,
    pub last_time: Option<i64>,
    pub last_seq: i32,
}

impl SampleBufferState {
    pub fn new() -> (r: SampleBufferState)
        ensures
            r.buffer is None,
            r.last_time is None,
            r.last_seq == 0,
    {
        SampleBufferState { buffer: None, last_time: None, last_seq: 0 }
    }

    pub fn set_buffer(&mut self, buf: SampleBuffer)
        ensures
            final(self).buffer == Some(buf),
            final(self).last_time == old(self).last_time,
            final(self).last_seq == old(self).last_seq,
    {
        self.buffer = Some(buf);
    }

    /// Pull the next sample from the buffer in sequence order: the slot it
    /// was in and its widened timestamp.
    #[verifier::rlimit(40)]
    pub fn next_sample(&mut self) -> (r: Option<(usize, i64)>)
        requires
            old(self).buffer matches Some(b) ==> counters_fit(b.seq, old(self).last_seq),
            old(self).last_time matches Some(lt) ==> lt <= i64::MAX - 0x1_0000_0000,
        ensures
            old(self).buffer is None ==> r is None && *final(self) == *old(self),
            old(self).buffer matches Some(b) ==> {
                let k = match old(self).last_time {
                    None => Some(oldest_slot(b.seq)),
                    Some(lt) => best_slot(b.seq, old(self).last_seq, 3),
                };
                match k {
                    None => r is None && *final(self) == *old(self),
                    Some(k) => {
                        let t = match old(self).last_time {
                            None => b.timestamps@[k] as int,
                            Some(lt) => widen_timestamp(lt, b.timestamps@[k]),
                        };
                        let used = match old(self).last_time {
                            None => b.used@.update(k, true),
                            Some(lt) => Seq::new(
                                3,
                                |i: int|
                                    b.used@[i] || ((b.seq@[k] - b.seq@[i]) as u8) <= 128,
                            ),
                        };
                        &&& r == Some((k as usize, t as i64))
                        &&& final(self).last_time == Some(t as i64)
                        &&& final(self).last_seq == b.seq@[k]
                        &&& (used[0] && used[1] && used[2]) ==> final(self).buffer is None
                        &&& !(used[0] && used[1] && used[2]) ==> (final(self).buffer matches Some(
                            nb,
                        ) && nb.used@ == used && nb.seq == b.seq && nb.timestamps
                            == b.timestamps)
                    },
                }
            },
    {
        let mut buf = match self.buffer {
            Some(b) => b,
            None => return None,
        };
        let idx: usize = match self.last_time {
            None => {
                let mut i_smallest: usize = 0;
                let d1: i32 = buf.seq[1] - buf.seq[0];
                if (#[verifier::truncate] (d1 as i8)) < 0 {
                    i_smallest = 1;
                }
                let d2: i32 = buf.seq[2] - buf.seq[i_smallest];
                if (#[verifier::truncate] (d2 as i8)) < 0 {
                    i_smallest = 2;
                }
                self.last_seq = buf.seq[i_smallest];
                buf.used[i_smallest] = true;
                i_smallest
            },
            Some(_) => {
                let idx = match next_index(&buf.seq, self.last_seq) {
                    Some(i) => i,
                    None => {
                        proof {
                            lemma_best_slot(buf.seq, self.last_seq, None);
                        }
                        return None;
                    },
                };
                proof {
                    lemma_best_slot(buf.seq, self.last_seq, Some(idx));
                }
                self.last_seq = buf.seq[idx];
                let ghost before = buf.used@;
                let mut i: usize = 0;
                while i < 3
                    invariant
                        i <= 3,
                        old(self).buffer is Some,
                        idx < 3,
                        buf.seq == old(self).buffer.unwrap().seq,
                        buf.timestamps == old(self).buffer.unwrap().timestamps,
                        before == old(self).buffer.unwrap().used@,
                        self.last_seq == buf.seq@[idx as int],
                        counters_fit(buf.seq, old(self).last_seq),
                        forall|j: int|
                            0 <= j < 3 ==> #[trigger] buf.used@[j] == if j < i {
                                before[j] || ((self.last_seq - buf.seq@[j]) as u8) <= 128
                            } else {
                                before[j]
                            },
                    decreases 3 - i,
                {
                    assert(i32::MIN <= buf.seq@[idx as int] - buf.seq@[i as int] <= i32::MAX);
                    let diff: i32 = self.last_seq - buf.seq[i];
                    if (#[verifier::truncate] (diff as u8)) <= 128 {
                        buf.used[i] = true;
                    }
                    i = i + 1;
                }
                idx
            },
        };
        let raw = buf.timestamps[idx];
        let t: i64 = match self.last_time {
            Some(lt) => {
                let mut current = (lt & !0xFFFF_FFFFi64) | (raw & 0xFFFF_FFFFi64);
                proof {
                    lemma_widen_timestamp(lt, raw);
                }
                if current < lt {
                    current = current + 0x1_0000_0000i64;
                }
                current
            },
            None => raw,
        };
        self.last_time = Some(t);
        if buf.used[0] && buf.used[1] && buf.used[2] {
            self.buffer = None;
        } else {
            self.buffer = Some(buf);
        }
        Some((idx, t))
    }
}

} // verus!

verus! {

/// The little-endian `i16` made of `lo hi`.
pub open spec fn le_i16(lo: u8, hi: u8) -> int {
    let v = lo as int + 256 * (hi as int);
    if hi >= 128 {
        v - 65536
    } else {
        v
    }
}

/// A 16-bit count is the one number in [-2^15, 2^15) whose low 16 bits,
/// little-endian, are `lo hi`.
pub proof fn law_le_i16(lo: u8, hi: u8)
    ensures
        -32768 <= le_i16(lo, hi) < 32768,
        (le_i16(lo, hi) - (lo + 256 * hi)) % 65536 == 0,
{
}

/// The little-endian `u32` made of four bytes.
pub open spec fn le_u32(b0: u8, b1: u8, b2: u8, b3: u8) -> int {
    b0 as int + 256 * (b1 as int) + 65536 * (b2 as int) + 16777216 * (b3 as int)
}

/// The raw values of one of the three samples packed into an IMU report:
/// accelerometer and gyroscope counts, a 32-bit timestamp and an 8-bit
/// sequence number.
#[derive(Clone, Copy, Debug, PartialEq, Eq)]
pub struct RawSample {
    pub acc: [i16; 3],
    pub gyro: [i16; 3],
    pub timestamp: i64,
    pub seq: i32,
}

/// The sample that starts at byte `p` of a report: six `i16` counts, the
/// timestamp and the sequence number, 17 bytes in all.
pub open spec fn sample_at(r: Seq<u8>, p: int) -> RawSample {
    RawSample {
        acc: [
            le_i16(r[p], r[p + 1]) as i16,
            le_i16(r[p + 2], r[p + 3]) as i16,
            le_i16(r[p + 4], r[p + 5]) as i16,
        ],
        gyro: [
            le_i16(r[p + 6], r[p + 7]) as i16,
            le_i16(r[p + 8], r[p + 9]) as i16,
            le_i16(r[p + 10], r[p + 11]) as i16,
        ],
        timestamp: le_u32(r[p + 12], r[p + 13], r[p + 14], r[p + 15]) as i64,
        seq: r[p + 16] as i32,
    }
}

/// `v` is the 16-bit two's-complement number whose little-endian bytes are
/// `r[p..p + 2]`.
pub open spec fn is_count_at(v: i16, r: Seq<u8>, p: int) -> bool {
    (v - (r[p] + 256 * r[p + 1])) % 65536 == 0
}

/// A packed sample holds, from its first byte on, the accelerometer and
/// then the gyroscope counts (two bytes each, little-endian), a 32-bit
/// little-endian timestamp and a one-byte sequence number.
pub proof fn law_sample_fields(r: Seq<u8>, p: int)
    requires
        0 <= p,
        p + 17 <= r.len(),
    ensures
        ({
            let s = sample_at(r, p);
            &&& is_count_at(s.acc[0], r, p) && is_count_at(s.acc[1], r, p + 2) && is_count_at(s.acc[2], r, p + 4)
            &&& is_count_at(s.gyro[0], r, p + 6) && is_count_at(s.gyro[1], r, p + 8) && is_count_at(s.gyro[2], r, p + 10)
            &&& s.timestamp % 256 == r[p + 12]
            &&& s.timestamp / 16777216 == r[p + 15]
            &&& s.seq == r[p + 16]
        }),
{
    let (c0, c1, c2, c3) = (r[p + 12] as int, r[p + 13] as int, r[p + 14] as int, r[p + 15] as int);
    let t = le_u32(r[p + 12], r[p + 13], r[p + 14], r[p + 15]);
    assert(t % 256 == c0 && t / 16777216 == c3 && 0 <= t < 4294967296) by (nonlinear_arith)
        requires
            t == c0 + 256 * c1 + 65536 * c2 + 16777216 * c3,
            0 <= c0 < 256, 0 <= c1 < 256, 0 <= c2 < 256, 0 <= c3 < 256,
    ;
}

fn read_i16(r: &[u8], p: usize) -> (v: i16)
    requires
        p + 1 < r@.len(),
    ensures
        v as int == le_i16(r@[p as int], r@[p + 1]),
{
    let lo = r[p];
    let hi = r[p + 1];
    if hi >= 128 {
        ((lo as i32) + 256 * (hi as i32) - 65536) as i16
    } else {
        ((lo as i32) + 256 * (hi as i32)) as i16
    }
}

fn read_sample(r: &[u8], p: usize) -> (s: RawSample)
    requires
        p <= 35,
        p + 17 <= r@.len(),
    ensures
        s == sample_at(r@, p as int),
{
    let t: i64 = r[p + 12] as i64 + 256 * (r[p + 13] as i64) + 65536 * (r[p + 14] as i64)
        + 16777216 * (r[p + 15] as i64);
    RawSample {
        acc: [read_i16(r, p), read_i16(r, p + 2), read_i16(r, p + 4)],
        gyro: [read_i16(r, p + 6), read_i16(r, p + 8), read_i16(r, p + 10)],
        timestamp: t,
        seq: r[p + 16] as i32,
    }
}

/// Reads an IMU report of the Vive protocol: report id `0x20` and at least
/// 52 bytes, holding three samples of 17 bytes after the id. Other reports
/// give `None`.
pub fn parse_imu_report(report: &[u8]) -> (r: Option<[RawSample; 3]>)
    ensures
        (report@.len() >= 52 && report@[0] == 0x20) ==> r == Some(
            [sample_at(report@, 1), sample_at(report@, 18), sample_at(report@, 35)],
        ),
        !(report@.len() >= 52 && report@[0] == 0x20) ==> r is None,
{
    if report.len() < 52 || report[0] != 0x20 {
        return None;
    }
    Some([read_sample(report, 1), read_sample(report, 18), read_sample(report, 35)])
}

/// The raw counts of a simple (non-Vive) IMU report: accelerometer and
/// gyroscope, three `i16` each, little-endian from byte 4.
pub open spec fn simple_sample(r: Seq<u8>) -> ([i16; 3], [i16; 3]) {
    (
        [
            le_i16(r[4], r[5]) as i16,
            le_i16(r[6], r[7]) as i16,
            le_i16(r[8], r[9]) as i16,
        ],
        [
            le_i16(r[10], r[11]) as i16,
            le_i16(r[12], r[13]) as i16,
            le_i16(r[14], r[15]) as i16,
        ],
    )
}

/// Reads a simple IMU report, the fallback for devices that do not speak
/// the Vive protocol: a report of at least 16 bytes whose id is not
/// `0x20`. Other reports give `None`.
pub fn parse_simple_report(report: &[u8]) -> (r: Option<([i16; 3], [i16; 3])>)
    ensures
        (report@.len() >= 16 && report@[0] != 0x20) ==> r == Some(simple_sample(report@)),
        !(report@.len() >= 16 && report@[0] != 0x20) ==> r is None,
{
    if report.len() < 16 || report[0] == 0x20 {
        return None;
    }
    Some(
        (
            [read_i16(report, 4), read_i16(report, 6), read_i16(report, 8)],
            [read_i16(report, 10), read_i16(report, 12), read_i16(report, 14)],
        ),
    )
}

/// The device the source opens, among those with its vendor and product
/// ids, in enumeration order: the first whose product string is `IMU`,
/// else the first of all; none when there is none.
pub open spec fn chosen_device(is_imu: Seq<bool>) -> Option<int> {
    if is_imu.len() == 0 {
        None
    } else if crate::text::find_first(is_imu, true) >= 0 {
        Some(crate::text::find_first(is_imu, true))
    } else {
        Some(0)
    }
}

/// The device opened is the first that calls itself `IMU` when there is
/// one, else the first matching device; none when no device matches.
pub proof fn law_device_choice(is_imu: Seq<bool>)
    ensures
        is_imu.contains(true) ==> (chosen_device(is_imu) matches Some(i) && 0 <= i < is_imu.len()
            && is_imu[i] && forall|j: int| 0 <= j < i ==> !is_imu[j]),
        !is_imu.contains(true) && is_imu.len() > 0 ==> chosen_device(is_imu) == Some(0int),
        is_imu.len() == 0 ==> chosen_device(is_imu) is None,
{
    crate::text::lemma_find_from_range(is_imu, true, 0);
    if is_imu.contains(true) {
        let k = choose|k: int| 0 <= k < is_imu.len() && is_imu[k] == true;
        assert(crate::text::find_first(is_imu, true) != -1);
    }
}

/// Picks the device to open, from whether each matching device calls
/// itself `IMU`.
pub fn pick_device(is_imu: &[bool]) -> (r: Option<usize>)
    ensures
        match r {
            Some(i) => chosen_device(is_imu@) == Some(i as int),
            None => chosen_device(is_imu@) is None,
        },
{
    let mut i: usize = 0;
    while i < is_imu.len()
        invariant
            i <= is_imu.len(),
            crate::text::find_first(is_imu@, true) == crate::text::find_from(
                is_imu@,
                true,
                i as int,
            ),
        decreases is_imu.len() - i,
    {
        if is_imu[i] {
            return Some(i);
        }
        i = i + 1;
    }
    if is_imu.len() == 0 {
        None
    } else {
        Some(0)
    }
}

/// A fresh sample buffer for the samples of a report: none used yet.
pub fn buffer_of(samples: &[RawSample; 3]) -> (b: SampleBuffer)
    ensures
        b.timestamps@ == seq![samples@[0].timestamp, samples@[1].timestamp, samples@[2].timestamp],
        b.seq@ == seq![samples@[0].seq, samples@[1].seq, samples@[2].seq],
        b.used@ == seq![false, false, false],
{
    SampleBuffer {
        timestamps: [samples[0].timestamp, samples[1].timestamp, samples[2].timestamp],
        seq: [samples[0].seq, samples[1].seq, samples[2].seq],
        used: [false, false, false],
    }
}

/// The measuring ranges that a device's scale report selects: the
/// gyroscope and accelerometer range indices (each below four) when the
/// report has at least three bytes and both are in range.
pub fn imu_scale_modes(report: &[u8]) -> (r: Option<(usize, usize)>)
    ensures
        (report@.len() >= 3 && report@[1] < 4 && report@[2] < 4) ==> r == Some(
            (report@[1] as usize, report@[2] as usize),
        ),
        !(report@.len() >= 3 && report@[1] < 4 && report@[2] < 4) ==> r is None,
{
    if report.len() >= 3 && report[1] < 4 && report[2] < 4 {
        Some((report[1] as usize, report[2] as usize))
    } else {
        None
    }
}

/// The settings of a HID IMU source.
#[derive(Debug)]
pub struct HidImuSettings {
    pub vendor_id: u16,
    pub product_id: u16,
    pub id: String,
    pub axis_config_acc: AxisConfig,
    pub axis_config_gyro: AxisConfig,
}

/// A device id given as a number (cut to 16 bits) or as hexadecimal text;
/// `default` otherwise.
pub open spec fn device_id_of(v: Option<crate::json::JsonValue>, default: u16) -> u16 {
    match v {
        Some(x) => match x.spec_as_u64() {
            Some(n) => n as u16,
            None => match x {
                crate::json::JsonValue::String(s) => hex_id_of(s@),
                _ => default,
            },
        },
        None => default,
    }
}

fn device_id(config: &crate::json::JsonValue, key: &str, default: u16) -> (r: u16)
    ensures
        r == device_id_of(config.spec_get(key@), default),
{
    match config.get(key) {
        Some(v) => match v.as_u64() {
            Some(n) => n as u16,
            None => match v.as_str() {
                Some(s) => parse_hex_u16(s),
                None => default,
            },
        },
        None => default,
    }
}

impl HidImuSettings {
    /// Reads the settings: vendor and product ids (the Vive's 0x28DE and
    /// 0x2300 by default), the sender id (`imu` by default) and the axis
    /// mappings of both sensors (`+X+Y+Z` by default).
    pub fn from_json(config: &crate::json::JsonValue) -> (r: Self)
        ensures
            r.vendor_id == device_id_of(config.spec_get("vendorId"@), 0x28DE),
            r.product_id == device_id_of(config.spec_get("productId"@), 0x2300),
            r.id@ == match config.spec_str_field("id"@) {
                Some(t) => t,
                None => "imu"@,
            },
            r.axis_config_acc == axis_config_of(vstd::utf8::encode_utf8(
                match config.spec_str_field("axisConfigAcc"@) {
                    Some(t) => t,
                    None => "+X+Y+Z"@,
                },
            )),
            r.axis_config_gyro == axis_config_of(vstd::utf8::encode_utf8(
                match config.spec_str_field("axisConfigGyro"@) {
                    Some(t) => t,
                    None => "+X+Y+Z"@,
                },
            )),
    {
        let acc = config.value_str("axisConfigAcc", "+X+Y+Z");
        let gyro = config.value_str("axisConfigGyro", "+X+Y+Z");
        HidImuSettings {
            vendor_id: device_id(config, "vendorId", 0x28DE),
            product_id: device_id(config, "productId", 0x2300),
            id: config.value_str("id", "imu"),
            axis_config_acc: AxisConfig::parse(acc.as_str()),
            axis_config_gyro: AxisConfig::parse(gyro.as_str()),
        }
    }
}

} // verus!
