//! NMEA 0183 framing: the `*hh` checksum that closes every sentence, its
//! verification on received sentences, and the calendar arithmetic used for
//! the date field of `$GPRMC`.

use vstd::prelude::*;
use vstd::string::StringSliceAdditionalSpecFns;
use crate::ntrip::bcc_valid;
use crate::text::{
    find_first, hex_upper, hex_upper_digit, lemma_find_from_at, lemma_find_from_range,
    lemma_hex_roundtrip, lemma_xor_fold_shift, parse_hex_two,
    parse_hex_two_bytes, position_of, push_char, str_equals, xor_fold, xor_range,
};
use crate::json::JsonValue;

verus! {

/// The byte `$` that opens a sentence.
pub const DOLLAR: u8 = 36;
/// The byte `*` that separates a sentence from its checksum.
pub const STAR: u8 = 42;

/// The checksum that `checksum` computes for `s`: the XOR of the bytes after
/// the first `$` (or from the start when there is none) up to the first `*`
/// (or to the end when there is none).
pub open spec fn checksum_of(s: Seq<u8>) -> u8 {
    let d = find_first(s, DOLLAR);
    let t = find_first(s, STAR);
    let start = if d >= 0 { d + 1 } else { 0 };
    let end = if t >= 0 { t } else { s.len() as int };
    xor_fold(s, start, end)
}

/// Inputs on which taking the bytes between `$` and `*` would panic:
/// a `*` that comes before the first `$`.
pub open spec fn star_before_dollar(s: Seq<u8>) -> bool {
    let d = find_first(s, DOLLAR);
    let t = find_first(s, STAR);
    d >= 0 && t >= 0 && t < d
}

/// The checksum written after the `*` at index `t`: the two hexadecimal
/// digits that follow it, `None` when they are not both hexadecimal digits.
pub open spec fn written_checksum(s: Seq<u8>, t: int) -> Option<u8> {
    parse_hex_two(s[t + 1], s[t + 2])
}

/// `verify_nmea_checksum` accepts `s`: it has a `$` and a `*` followed by two
/// hexadecimal digits, and the XOR of the bytes between the first `$` and
/// the first `*` is the number they write.
pub open spec fn nmea_checksum_valid(s: Seq<u8>) -> bool {
    let d = find_first(s, DOLLAR);
    let t = find_first(s, STAR);
    &&& d >= 0
    &&& t >= 0
    &&& t + 3 <= s.len()
    &&& written_checksum(s, t) == Some(xor_fold(s, d + 1, t))
}

/// A line framed as `$body*` (with no `*` inside the body), followed by two
/// bytes and anything else, passes `verify_nmea_checksum` and
/// `bcc_checksum_compare_for_gga` exactly when those two bytes are
/// hexadecimal digits (either case) writing the XOR of the body.
pub proof fn law_framed_checksum(body: Seq<u8>, h0: u8, h1: u8, rest: Seq<u8>)
    requires
        !body.contains(STAR),
    ensures
        ({
            let line = seq![DOLLAR] + body + seq![STAR, h0, h1] + rest;
            let ok = parse_hex_two(h0, h1) == Some(xor_fold(body, 0, body.len() as int));
            &&& nmea_checksum_valid(line) == ok
            &&& bcc_valid(line) == ok
            &&& !star_before_dollar(line)
        }),
{
    let n = body.len() as int;
    let line = seq![DOLLAR] + body + seq![STAR, h0, h1] + rest;
    assert forall|j: int| 0 <= j < n implies line[1 + j] == body[j] && line[1 + j] != STAR by {
        assert(line[1 + j] == body[j]);
        if body[j] == STAR {
            assert(body.contains(STAR));
        }
    }
    assert(line[0] == DOLLAR);
    assert(line[n + 1] == STAR);
    assert(line[n + 2] == h0);
    assert(line[n + 3] == h1);
    lemma_find_from_at(line, DOLLAR, 0, 0);
    lemma_find_from_at(line, STAR, 0, n + 1);
    lemma_find_from_at(line, STAR, 1, n + 1);
    lemma_xor_fold_shift(line, body, 1, n);
}

/// A sentence framed as `$body*` (with no `*` inside the body) and closed
/// by the two digits that `checksum` gives for it passes both
/// `verify_nmea_checksum` and `bcc_checksum_compare_for_gga`; the checksum is
/// the XOR of the body.
pub proof fn lemma_checksum_roundtrip(body: Seq<u8>)
    requires
        !body.contains(STAR),
    ensures
        ({
            let framed = seq![DOLLAR] + body + seq![STAR];
            let x = checksum_of(framed);
            let full = framed + seq![hex_upper(x / 16), hex_upper(x % 16)];
            &&& !star_before_dollar(framed)
            &&& x == xor_fold(body, 0, body.len() as int)
            &&& nmea_checksum_valid(full)
            &&& bcc_valid(full)
        }),
{
    let n = body.len() as int;
    let framed = seq![DOLLAR] + body + seq![STAR];
    assert forall|j: int| 0 <= j < n implies framed[1 + j] == body[j] && framed[1 + j] != STAR by {
        assert(framed[1 + j] == body[j]);
        if body[j] == STAR {
            assert(body.contains(STAR));
        }
    }
    lemma_find_from_at(framed, DOLLAR, 0, 0);
    lemma_find_from_at(framed, STAR, 0, n + 1);
    lemma_xor_fold_shift(framed, body, 1, n);
    let x = checksum_of(framed);
    assert(x == xor_fold(body, 0, n));
    let h0 = hex_upper(x / 16);
    let h1 = hex_upper(x % 16);
    lemma_hex_roundtrip(x);
    law_framed_checksum(body, h0, h1, seq![]);
    assert(framed + seq![h0, h1] =~= seq![DOLLAR] + body + seq![STAR, h0, h1] + seq![]);
}

/// Compute the NMEA checksum: XOR all characters between '$' and '*'.
/// Returns a 2-digit uppercase hex string.
pub fn checksum(sentence: &str) -> (r: String)
    requires
        !star_before_dollar(sentence.spec_bytes()),
    ensures
        r@ == seq![
            hex_upper(checksum_of(sentence.spec_bytes()) / 16) as char,
            hex_upper(checksum_of(sentence.spec_bytes()) % 16) as char,
        ],
{
    let bytes = sentence.as_bytes();
    let start = match position_of(bytes, DOLLAR) {
        Some(i) => i + 1,
        None => 0,
    };
    let end = match position_of(bytes, STAR) {
        Some(i) => i,
        None => bytes.len(),
    };
    proof {
        lemma_find_from_range(bytes@, DOLLAR, 0);
        lemma_find_from_range(bytes@, STAR, 0);
    }
    let x = xor_range(bytes, start, end);
    let mut r = String::new();
    push_char(&mut r, hex_upper_digit(x / 16) as char);
    push_char(&mut r, hex_upper_digit(x % 16) as char);
    r
}

/// Verify NMEA checksum: XOR all chars between '$' and '*', compare with
/// the two hex digits after '*'; anything else there fails.
pub fn verify_nmea_checksum(sentence: &[u8]) -> (r: bool)
    requires
        !(star_before_dollar(sentence@) && find_first(sentence@, STAR) + 3 <= sentence@.len()),
    ensures
        r == nmea_checksum_valid(sentence@),
{
    let start = match position_of(sentence, DOLLAR) {
        Some(i) => i + 1,
        None => return false,
    };
    let star = match position_of(sentence, STAR) {
        Some(i) => i,
        None => return false,
    };
    proof {
        lemma_find_from_range(sentence@, DOLLAR, 0);
        lemma_find_from_range(sentence@, STAR, 0);
    }
    if star >= sentence.len() || sentence.len() - star < 3 {
        return false;
    }
    let x = xor_range(sentence, start, star);
    match parse_hex_two_bytes(sentence[star + 1], sentence[star + 2]) {
        Some(v) => x == v,
        None => false,
    }
}

} // verus!

verus! {

/// Gregorian leap years.
pub open spec fn is_leap_year(y: int) -> bool {
    y % 4 == 0 && (y % 100 != 0 || y % 400 == 0)
}

/// Number of days of month `m` (1 to 12) of year `y`.
pub open spec fn days_in_month(y: int, m: int) -> int {
    if m == 2 {
        if is_leap_year(y) {
            29
        } else {
            28
        }
    } else if m == 4 || m == 6 || m == 9 || m == 11 {
        30
    } else {
        31
    }
}

/// Days from 1970-01-01 to the proleptic Gregorian date `y-m-d`.
pub open spec fn days_from_civil(y: int, m: int, d: int) -> int {
    let yp = if m <= 2 { y - 1 } else { y };
    let era = yp / 400;
    let yoe = yp - era * 400;
    let mp = if m > 2 { m - 3 } else { m + 9 };
    let doy = (153 * mp + 2) / 5 + d - 1;
    let doe = yoe * 365 + yoe / 4 - yoe / 100 + doy;
    era * 146097 + doe - 719468
}

/// The days of the year counted from March 1st of year `yp` back to the
/// start of the calendar's cycle, as `days_from_civil` adds them.
spec fn year_start(yp: int) -> int {
    let era = yp / 400;
    let yoe = yp - era * 400;
    era * 146097 + yoe * 365 + yoe / 4 - yoe / 100
}

proof fn lemma_year_step(yp: int)
    ensures
        year_start(yp + 1) - year_start(yp) == 365 + if is_leap_year(yp + 1) { 1int } else { 0int },
{
    let e = yp / 400;
    let yoe = yp - e * 400;
    vstd::arithmetic::div_mod::lemma_fundamental_div_mod(yp, 400);
    assert(0 <= yp % 400 < 400);
    assert(yoe == yp % 400);
    let q = yp + 1;
    if yoe < 399 {
        vstd::arithmetic::div_mod::lemma_div_multiples_vanish_fancy(e, yoe + 1, 400);
        assert(400 * e + (yoe + 1) == q);
        assert(q / 400 == e);
        assert(year_start(q) == e * 146097 + (yoe + 1) * 365 + (yoe + 1) / 4 - (yoe + 1) / 100);
        vstd::arithmetic::div_mod::lemma_mod_multiples_vanish(100 * e, yoe + 1, 4);
        vstd::arithmetic::div_mod::lemma_mod_multiples_vanish(4 * e, yoe + 1, 100);
        vstd::arithmetic::div_mod::lemma_mod_multiples_vanish(e, yoe + 1, 400);
        assert(4 * (100 * e) + (yoe + 1) == q);
        assert(100 * (4 * e) + (yoe + 1) == q);
        assert(q % 4 == (yoe + 1) % 4);
        assert(q % 100 == (yoe + 1) % 100);
        assert(q % 400 == yoe + 1);
    } else {
        vstd::arithmetic::div_mod::lemma_div_multiples_vanish_fancy(e + 1, 0, 400);
        assert(400 * (e + 1) + 0 == q);
        assert(q / 400 == e + 1);
        vstd::arithmetic::div_mod::lemma_mod_multiples_vanish(e + 1, 0, 400);
        vstd::arithmetic::div_mod::lemma_mod_multiples_vanish(100 * (e + 1), 0, 4);
        assert(4 * (100 * (e + 1)) + 0 == q);
        assert(q % 400 == 0);
        assert(q % 4 == 0);
        assert(year_start(q) == (e + 1) * 146097);
    }
}

/// The lengths of the months of a common year, January first.
pub open spec fn common_month_lengths() -> Seq<int> {
    seq![31, 28, 31, 30, 31, 30, 31, 31, 30, 31, 30, 31]
}

/// The proleptic Gregorian calendar: day 0 is 1970-01-01; each month has
/// its common length, but February of a leap year (every fourth year,
/// except centuries not divisible by 400) has 29 days; and each day of a
/// month is the one after the day before, across the ends of months and
/// years.
pub proof fn law_civil_calendar(y: int, m: int, d: int)
    requires
        1 <= m <= 12,
        1 <= d <= days_in_month(y, m),
    ensures
        days_from_civil(1970, 1, 1) == 0,
        days_in_month(y, m) == common_month_lengths()[m - 1] + if m == 2 && (y % 4 == 0 && (y
            % 100 != 0 || y % 400 == 0)) {
            1int
        } else {
            0int
        },
        d < days_in_month(y, m) ==> days_from_civil(y, m, d + 1) == days_from_civil(y, m, d) + 1,
        d == days_in_month(y, m) && m < 12 ==> days_from_civil(y, m + 1, 1) == days_from_civil(
            y,
            m,
            d,
        ) + 1,
        d == days_in_month(y, m) && m == 12 ==> days_from_civil(y + 1, 1, 1) == days_from_civil(
            y,
            m,
            d,
        ) + 1,
{
    assert(days_from_civil(1970, 1, 1) == 0);
    if m == 2 && d == days_in_month(y, m) {
        lemma_year_step(y - 1);
        assert(year_start(y) - year_start(y - 1) == 365 + if is_leap_year(y) { 1int } else { 0int });
    }
}

/// Within a 400-year era, the day `doe` falls into year `yoe` of the era
/// (years starting on March 1st), at day `doe - start` of that year, and the
/// year has 366 days exactly when the February it contains is a leap one.
proof fn lemma_year_of_era(doe: u32)
    by (bit_vector)
    requires
        doe < 146097,
    ensures
        ({
            let yoe = (doe - doe / 1460 + doe / 36524 - doe / 146096) / 365;
            let start = 365 * yoe + yoe / 4 - yoe / 100;
            &&& yoe <= 399
            &&& start <= doe
            &&& doe - start <= 365
            &&& (doe - start == 365 ==> ((yoe + 1) % 4 == 0 && ((yoe + 1) % 100 != 0 || yoe == 399)))
        }),
{
}

/// Within a year that starts on March 1st, day `doy` falls into month `mp`
/// (0 for March to 11 for February) at day `d` of that month.
proof fn lemma_month_of_year(doy: u32)
    by (bit_vector)
    requires
        doy <= 365,
    ensures
        ({
            let mp = (5 * doy + 2) / 153;
            let d = doy - (153 * mp + 2) / 5 + 1;
            &&& mp <= 11
            &&& 1 <= d <= 31
            &&& (mp == 1 || mp == 3 || mp == 6 || mp == 8) ==> d <= 30
            &&& mp == 11 ==> d <= 29
            &&& (mp == 11 && d == 29) ==> doy == 365
        }),
{
}

/// Reassembling the date that `days_to_date` builds from its parts gives
/// back the day number the parts came from.
proof fn lemma_civil_inverse(era: int, yoe: int, doy: int, mp: int, d: int, m: int)
    requires
        0 <= era,
        0 <= yoe <= 399,
        0 <= mp <= 11,
        d == doy - (153 * mp + 2) / 5 + 1,
        m == if mp < 10 { mp + 3 } else { mp - 9 },
    ensures
        days_from_civil(yoe + era * 400 + if m <= 2 { 1int } else { 0int }, m, d) == era * 146097
            + (365 * yoe + yoe / 4 - yoe / 100 + doy) - 719468,
{
    let y = yoe + era * 400 + if m <= 2 { 1int } else { 0int };
    let yp = if m <= 2 { y - 1 } else { y };
    assert(yp == yoe + era * 400);
    assert(yp / 400 == era) by (nonlinear_arith)
        requires
            yp == yoe + era * 400,
            0 <= yoe < 400,
    ;
    assert(yp - (yp / 400) * 400 == yoe);
}

/// The February of year `yoe + 1` of an era is a leap one exactly when it is
/// in the calendar.
proof fn lemma_era_leap(era: int, yoe: int)
    requires
        0 <= era,
        0 <= yoe <= 399,
        (yoe + 1) % 4 == 0 && ((yoe + 1) % 100 != 0 || yoe == 399),
    ensures
        is_leap_year(yoe + era * 400 + 1),
{
    let y = yoe + era * 400 + 1;
    assert(y % 4 == (yoe + 1) % 4) by (nonlinear_arith)
        requires
            y == yoe + 1 + era * 400,
    ;
    assert(y % 100 == (yoe + 1) % 100) by (nonlinear_arith)
        requires
            y == yoe + 1 + era * 400,
    ;
    assert(y % 400 == (yoe + 1) % 400) by (nonlinear_arith)
        requires
            y == yoe + 1 + era * 400,
    ;
}

/// Simple days-since-epoch to (year, month, day) conversion.
///
/// The result is the proleptic Gregorian date that lies `days_since_epoch`
/// days after 1970-01-01.
pub fn days_to_date(days_since_epoch: u64) -> (r: (u64, u64, u64))
    requires
        days_since_epoch <= i64::MAX - 719468,
    ensures
        1 <= r.1 <= 12,
        1 <= r.2 <= days_in_month(r.0 as int, r.1 as int),
        days_from_civil(r.0 as int, r.1 as int, r.2 as int) == days_since_epoch,
{
    let z: i64 = days_since_epoch as i64 + 719468;
    let era: i64 = z / 146097;
    assert(0 <= z - era * 146097 < 146097) by (nonlinear_arith)
        requires
            z >= 0,
            era == z / 146097,
    ;
    assert(era <= 100_000_000_000_000);
    let doe: u64 = (z - era * 146097) as u64;
    proof {
        lemma_year_of_era(doe as u32);
    }
    let yoe: u64 = (doe - doe / 1460 + doe / 36524 - doe / 146096) / 365;
    let y: i64 = yoe as i64 + era * 400;
    let doy: u64 = doe - (365 * yoe + yoe / 4 - yoe / 100);
    proof {
        lemma_month_of_year(doy as u32);
    }
    let mp: u64 = (5 * doy + 2) / 153;
    let d: u64 = doy - (153 * mp + 2) / 5 + 1;
    let m: u64 = if mp < 10 {
        mp + 3
    } else {
        mp - 9
    };
    let y: i64 = if m <= 2 {
        y + 1
    } else {
        y
    };
    proof {
        lemma_civil_inverse(era as int, yoe as int, doy as int, mp as int, d as int, m as int);
        if m == 2 && d == 29 {
            lemma_era_leap(era as int, yoe as int);
        }
    }
    (y as u64, m, d)
}

} // verus!

verus! {

/// The decimal digit character for `d` (below ten).
pub open spec fn digit_char(d: int) -> char {
    ((d + 48) as u8) as char
}

/// `n` (below 100) as two decimal digits, as `{:02}` writes it.
pub open spec fn two_digits(n: int) -> Seq<char> {
    seq![digit_char(n / 10), digit_char(n % 10)]
}

fn push_two_digits(s: &mut String, n: u64)
    requires
        n < 100,
    ensures
        final(s)@ == old(s)@ + two_digits(n as int),
{
    let hi: u8 = (n / 10) as u8 + 48;
    let lo: u8 = (n % 10) as u8 + 48;
    push_char(s, hi as char);
    push_char(s, lo as char);
    assert(final(s)@ =~= old(s)@ + two_digits(n as int));
}

/// The UTC time-of-day field of a sentence for `secs` seconds since the
/// epoch: hours, minutes and seconds as two digits each, then `.00`.
pub open spec fn nmea_time_text(secs: int) -> Seq<char> {
    two_digits((secs % 86400) / 3600) + two_digits((secs % 3600) / 60) + two_digits(secs % 60)
        + seq!['.', '0', '0']
}

/// The value of the decimal digit character `c`.
pub open spec fn digit_value_of(c: char) -> int {
    c as int - '0' as int
}

/// The time-of-day field reads `hhmmss.00` in decimal digits: hours below
/// 24, minutes and seconds below 60, which together count the seconds of
/// `secs` since the last midnight.
pub proof fn law_nmea_time_fields(secs: int)
    requires
        0 <= secs,
    ensures
        ({
            let t = nmea_time_text(secs);
            let hh = 10 * digit_value_of(t[0]) + digit_value_of(t[1]);
            let mm = 10 * digit_value_of(t[2]) + digit_value_of(t[3]);
            let ss = 10 * digit_value_of(t[4]) + digit_value_of(t[5]);
            &&& t.len() == 9
            &&& forall|i: int| 0 <= i < 6 ==> 0 <= #[trigger] digit_value_of(t[i]) <= 9
            &&& t[6] == '.' && t[7] == '0' && t[8] == '0'
            &&& hh < 24 && mm < 60 && ss < 60
            &&& hh * 3600 + mm * 60 + ss == secs % 86400
        }),
{
    let x = secs % 86400;
    let h = x / 3600;
    let m = (secs % 3600) / 60;
    let s = secs % 60;
    assert(secs % 3600 == x % 3600 && secs % 60 == x % 60 && 0 <= x < 86400) by (nonlinear_arith)
        requires
            x == secs % 86400,
            0 <= secs,
    {
        vstd::arithmetic::div_mod::lemma_fundamental_div_mod(secs, 86400);
        vstd::arithmetic::div_mod::lemma_mod_multiples_vanish(24 * (secs / 86400), x, 3600);
        vstd::arithmetic::div_mod::lemma_mod_multiples_vanish(1440 * (secs / 86400), x, 60);
    }
    assert(h * 3600 + m * 60 + s == x && h < 24 && m < 60 && s < 60) by (nonlinear_arith)
        requires
            0 <= x < 86400,
            h == x / 3600,
            m == (x % 3600) / 60,
            s == x % 60,
    {
        vstd::arithmetic::div_mod::lemma_fundamental_div_mod(x, 3600);
        vstd::arithmetic::div_mod::lemma_fundamental_div_mod(x % 3600, 60);
        vstd::arithmetic::div_mod::lemma_fundamental_div_mod(x, 60);
        vstd::arithmetic::div_mod::lemma_mod_multiples_vanish(60 * h, x % 3600, 60);
    }
    let t = nmea_time_text(secs);
    assert forall|i: int| 0 <= i < 6 implies 0 <= #[trigger] digit_value_of(t[i]) <= 9 by {}
}

/// Formats the UTC time of day of `secs` seconds since the epoch as
/// `hhmmss.00`.
pub fn nmea_time(secs: u64) -> (r: String)
    ensures
        r@ == nmea_time_text(secs as int),
{
    let mut r = String::new();
    push_two_digits(&mut r, (secs % 86400) / 3600);
    push_two_digits(&mut r, (secs % 3600) / 60);
    push_two_digits(&mut r, secs % 60);
    push_char(&mut r, '.');
    push_char(&mut r, '0');
    push_char(&mut r, '0');
    assert(r@ =~= nmea_time_text(secs as int));
    r
}

/// Formats the UTC date of `secs` seconds since the epoch as `ddmmyy`: day,
/// month and the last two digits of the year, the day being the calendar
/// day that `days_to_date` gives for the whole days elapsed.
pub fn nmea_date(secs: u64) -> (r: String)
    ensures
        exists|y: u64, m: u64, d: u64|
            {
                &&& 1 <= m <= 12
                &&& 1 <= d <= days_in_month(y as int, m as int)
                &&& days_from_civil(y as int, m as int, d as int) == secs / 86400
                &&& r@ == two_digits(d as int) + two_digits(m as int) + two_digits((y % 100) as int)
            },
{
    let days = secs / 86400;
    let (y, m, d) = days_to_date(days);
    let mut r = String::new();
    push_two_digits(&mut r, d);
    push_two_digits(&mut r, m);
    push_two_digits(&mut r, y % 100);
    assert(r@ =~= two_digits(d as int) + two_digits(m as int) + two_digits((y % 100) as int));
    r
}

/// Output transport for NMEA sentences.
#[allow(inconsistent_fields)]
#[derive(Clone, Debug, PartialEq, Eq)]
pub enum NmeaTransport {
    Serial { port: String, baud_rate: u32 },
    Tcp { host: String, port: u16 },
    Udp { host: String, port: u16 },
}

impl Default for NmeaTransport {
    /// UDP to port 10110 of the local host.
    fn default() -> (r: Self)
        ensures
            r matches NmeaTransport::Udp { host, port } && host@ == "127.0.0.1"@ && port == 10110,
    {
        NmeaTransport::Udp { host: "127.0.0.1".to_owned(), port: 10110 }
    }
}

/// The transport that a sink's configuration asks for: `transport` names
/// it (`serial`, `tcp`, anything else or nothing meaning UDP); a serial
/// port takes `port` (empty by default) and `baudRate` (4800 by default,
/// cut to 32 bits); a network transport takes `host` (`127.0.0.1` by
/// default) and `nmeaPort` (10110 by default, cut to 16 bits).
pub open spec fn transport_of(config: JsonValue) -> (Seq<char>, Seq<char>, u64) {
    let kind = match config.spec_str_field("transport"@) {
        Some(t) => t,
        None => "udp"@,
    };
    let port_name = match config.spec_str_field("port"@) {
        Some(t) => t,
        None => seq![],
    };
    let baud = match config.spec_u64_field("baudRate"@) {
        Some(n) => n,
        None => 4800,
    };
    let host = match config.spec_str_field("host"@) {
        Some(t) => t,
        None => "127.0.0.1"@,
    };
    let port = match config.spec_u64_field("nmeaPort"@) {
        Some(n) => n,
        None => 10110,
    };
    if kind == "serial"@ {
        (kind, port_name, baud)
    } else {
        (kind, host, port)
    }
}

/// Reads the output transport from a sink's configuration.
pub fn parse_transport(config: &JsonValue) -> (r: NmeaTransport)
    ensures
        ({
            let (kind, name, number) = transport_of(*config);
            if kind == "serial"@ {
                r matches NmeaTransport::Serial { port, baud_rate } && port@ == name && baud_rate
                    == number as u32
            } else if kind == "tcp"@ {
                r matches NmeaTransport::Tcp { host, port } && host@ == name && port == number as u16
            } else {
                r matches NmeaTransport::Udp { host, port } && host@ == name && port == number as u16
            }
        }),
{
    proof {
        reveal_strlit("");
        assert(""@ =~= Seq::<char>::empty());
    }
    let kind = config.value_str("transport", "udp");
    if str_equals(kind.as_str(), "serial") {
        let port = config.value_str("port", "");
        let baud = config.value_u64("baudRate", 4800);
        NmeaTransport::Serial { port, baud_rate: baud as u32 }
    } else if str_equals(kind.as_str(), "tcp") {
        let host = config.value_str("host", "127.0.0.1");
        let port = config.value_u64("nmeaPort", 10110);
        NmeaTransport::Tcp { host, port: port as u16 }
    } else {
        let host = config.value_str("host", "127.0.0.1");
        let port = config.value_u64("nmeaPort", 10110);
        NmeaTransport::Udp { host, port: port as u16 }
    }
}

} // verus!
