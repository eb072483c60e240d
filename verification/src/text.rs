//! Character-level helpers shared by the parsers of this crate.

use vstd::prelude::*;

verus! {

broadcast use vstd::string::group_string_axioms;

/// Appends one character to a string.
///
/// Calls `String::push`; the contract claims that the new contents are the
/// old contents followed by `c`, which is what its documentation says.
#[verifier::external_body]
pub(crate) fn push_char(s: &mut String, c: char)
    ensures
        final(s)@ == old(s)@.push(c),
{
    s.push(c);
}

/// The characters of `s`, in order.
pub fn chars_of(s: &str) -> (r: Vec<char>)
    ensures
        r@ == s@,
{
    let mut r: Vec<char> = Vec::new();
    for c in it: s.chars()
        invariant
            r@ == it.seq().take(it.index() as int),
            it.seq() == s@,
    {
        r.push(c);
    }
    r
}

} // verus!

verus! {

/// The value of an ASCII hexadecimal digit (either case), if `b` is one.
pub open spec fn hex_value(b: u8) -> Option<u8> {
    if 48 <= b <= 57 {
        Some((b - 48) as u8)
    } else if 65 <= b <= 70 {
        Some((b - 55) as u8)
    } else if 97 <= b <= 102 {
        Some((b - 87) as u8)
    } else {
        None
    }
}

/// The uppercase hexadecimal digit for a value below 16.
pub open spec fn hex_upper(n: u8) -> u8
    recommends
        n < 16,
{
    if n < 10 {
        (n + 48) as u8
    } else {
        (n + 55) as u8
    }
}

/// The value of two hexadecimal digits (either case), most significant
/// first; `None` unless both bytes are hexadecimal digits.
pub open spec fn parse_hex_two(b0: u8, b1: u8) -> Option<u8> {
    match (hex_value(b0), hex_value(b1)) {
        (Some(h), Some(l)) => Some((h * 16 + l) as u8),
        _ => None,
    }
}

pub fn hex_digit_value(b: u8) -> (r: Option<u8>)
    ensures
        r == hex_value(b),
{
    if 48 <= b && b <= 57 {
        Some(b - 48)
    } else if 65 <= b && b <= 70 {
        Some(b - 55)
    } else if 97 <= b && b <= 102 {
        Some(b - 87)
    } else {
        None
    }
}

pub fn hex_upper_digit(n: u8) -> (r: u8)
    requires
        n < 16,
    ensures
        r == hex_upper(n),
{
    if n < 10 {
        n + 48
    } else {
        n + 55
    }
}

/// Reads two hexadecimal digits.
pub fn parse_hex_two_bytes(b0: u8, b1: u8) -> (r: Option<u8>)
    ensures
        r == parse_hex_two(b0, b1),
{
    match (hex_digit_value(b0), hex_digit_value(b1)) {
        (Some(h), Some(l)) => Some(h * 16 + l),
        _ => None,
    }
}

/// Index of the first occurrence of `b` in `s` at or after `i`, or -1.
pub open spec fn find_from<T>(s: Seq<T>, b: T, i: int) -> int
    decreases s.len() - i,
{
    if i < 0 || i >= s.len() {
        -1
    } else if s[i] == b {
        i
    } else {
        find_from(s, b, i + 1)
    }
}

/// Index of the first occurrence of `b` in `s`, or -1.
pub open spec fn find_first<T>(s: Seq<T>, b: T) -> int {
    find_from(s, b, 0)
}

pub proof fn lemma_find_from_range<T>(s: Seq<T>, b: T, i: int)
    requires
        0 <= i,
    ensures
        find_from(s, b, i) == -1 || (i <= find_from(s, b, i) < s.len() && s[find_from(s, b, i)]
            == b),
        forall|j: int| i <= j < s.len() && (find_from(s, b, i) == -1 || j < find_from(s, b, i))
            ==> s[j] != b,
    decreases s.len() - i,
{
    if i < s.len() && s[i] != b {
        lemma_find_from_range(s, b, i + 1);
    }
}

/// When `s[i] == b` and no earlier byte from `k` on is `b`, the search from
/// `k` stops at `i`.
pub proof fn lemma_find_from_at<T>(s: Seq<T>, b: T, k: int, i: int)
    requires
        0 <= k <= i < s.len(),
        s[i] == b,
        forall|j: int| k <= j < i ==> s[j] != b,
    ensures
        find_from(s, b, k) == i,
    decreases i - k,
{
    if k < i {
        lemma_find_from_at(s, b, k + 1, i);
    }
}

/// Finds the first occurrence of `b` in `s`.
pub fn position_of(s: &[u8], b: u8) -> (r: Option<usize>)
    ensures
        match r {
            Some(i) => i < s.len() && find_first(s@, b) == i as int,
            None => find_first(s@, b) == -1,
        },
{
    let mut i: usize = 0;
    while i < s.len()
        invariant
            i <= s.len(),
            find_first(s@, b) == find_from(s@, b, i as int),
        decreases s.len() - i,
    {
        if s[i] == b {
            return Some(i);
        }
        i = i + 1;
    }
    None
}

/// The hexadecimal digits in upper case, digit 0 first.
pub open spec fn upper_hex_digits() -> Seq<char> {
    "0123456789ABCDEF"@
}

/// The hexadecimal digits in lower case, digit 0 first.
pub open spec fn lower_hex_digits() -> Seq<char> {
    "0123456789abcdef"@
}

/// The digit written for a value below 16 is its upper-case hexadecimal
/// digit; both cases of each digit read back as its value; and a byte
/// reads as a value only when it is that value's digit in one of the two
/// cases.
pub proof fn law_hex_digits(n: u8, b: u8)
    requires
        n < 16,
    ensures
        hex_upper(n) == upper_hex_digits()[n as int] as u8,
        hex_value(upper_hex_digits()[n as int] as u8) == Some(n),
        hex_value(lower_hex_digits()[n as int] as u8) == Some(n),
        hex_value(b) matches Some(v) ==> v < 16 && (b == upper_hex_digits()[v as int] as u8 || b
            == lower_hex_digits()[v as int] as u8),
{
    reveal_strlit("0123456789ABCDEF");
    reveal_strlit("0123456789abcdef");
}

/// XOR of the bytes `s[lo..hi]`.
pub open spec fn xor_fold(s: Seq<u8>, lo: int, hi: int) -> u8
    decreases hi - lo,
{
    if hi <= lo {
        0
    } else {
        xor_fold(s, lo, hi - 1) ^ s[hi - 1]
    }
}

/// The XOR of a range does not depend on what lies outside it.
pub proof fn lemma_xor_fold_shift(s: Seq<u8>, t: Seq<u8>, off: int, n: int)
    requires
        0 <= off,
        0 <= n,
        off + n <= s.len(),
        n <= t.len(),
        forall|j: int| 0 <= j < n ==> s[off + j] == t[j],
    ensures
        xor_fold(s, off, off + n) == xor_fold(t, 0, n),
    decreases n,
{
    if n > 0 {
        lemma_xor_fold_shift(s, t, off, n - 1);
    }
}

/// Reading back the two uppercase digits of a byte gives the byte.
pub proof fn lemma_hex_roundtrip(x: u8)
    ensures
        parse_hex_two(hex_upper(x / 16), hex_upper(x % 16)) == Some(x),
{
}

/// XOR of the bytes `s[lo..hi]`.
pub fn xor_range(s: &[u8], lo: usize, hi: usize) -> (r: u8)
    requires
        lo <= hi <= s.len(),
    ensures
        r == xor_fold(s@, lo as int, hi as int),
{
    let mut acc: u8 = 0;
    let mut i = lo;
    while i < hi
        invariant
            lo <= i <= hi <= s.len(),
            acc == xor_fold(s@, lo as int, i as int),
        decreases hi - i,
    {
        acc = acc ^ s[i];
        i = i + 1;
    }
    acc
}

} // verus!

verus! {

/// Finds the first occurrence of `c` in `s` at or after `from`.
pub fn char_position_from(s: &Vec<char>, c: char, from: usize) -> (r: Option<usize>)
    requires
        from <= s.len(),
    ensures
        match r {
            Some(i) => from <= i < s.len() && find_from(s@, c, from as int) == i as int,
            None => find_from(s@, c, from as int) == -1,
        },
{
    let mut i = from;
    while i < s.len()
        invariant
            from <= i <= s.len(),
            find_from(s@, c, from as int) == find_from(s@, c, i as int),
        decreases s.len() - i,
    {
        if s[i] == c {
            return Some(i);
        }
        i = i + 1;
    }
    None
}

/// Index of the last occurrence of `c` in `s[..end]`, or -1.
pub open spec fn rfind_before<T>(s: Seq<T>, c: T, end: int) -> int
    decreases end,
{
    if end <= 0 {
        -1
    } else if s[end - 1] == c {
        end - 1
    } else {
        rfind_before(s, c, end - 1)
    }
}

/// Index of the last occurrence of `c` in `s`, or -1.
pub open spec fn rfind<T>(s: Seq<T>, c: T) -> int {
    rfind_before(s, c, s.len() as int)
}

pub proof fn lemma_rfind_before_range<T>(s: Seq<T>, c: T, end: int)
    requires
        end <= s.len(),
    ensures
        rfind_before(s, c, end) == -1 || (0 <= rfind_before(s, c, end) < end && s[rfind_before(
            s,
            c,
            end,
        )] == c),
    decreases end,
{
    if end > 0 && s[end - 1] != c {
        lemma_rfind_before_range(s, c, end - 1);
    }
}

/// Finds the last occurrence of `c` in `s`.
pub fn char_rposition(s: &Vec<char>, c: char) -> (r: Option<usize>)
    ensures
        match r {
            Some(i) => i < s.len() && rfind(s@, c) == i as int,
            None => rfind(s@, c) == -1,
        },
{
    let mut end = s.len();
    while end > 0
        invariant
            end <= s.len(),
            rfind(s@, c) == rfind_before(s@, c, end as int),
        decreases end,
    {
        if s[end - 1] == c {
            return Some(end - 1);
        }
        end = end - 1;
    }
    None
}

/// `c` is an ASCII decimal digit.
pub open spec fn is_digit(c: char) -> bool {
    '0' <= c <= '9'
}

/// Every character of `s` is an ASCII decimal digit.
pub open spec fn all_digits(s: Seq<char>) -> bool {
    forall|i: int| 0 <= i < s.len() ==> is_digit(#[trigger] s[i])
}

/// The value of a digit of radix 10 or 16 (either case), if `c` is one.
pub open spec fn digit_value(c: char, radix: nat) -> Option<nat> {
    if '0' <= c <= '9' && (c as nat) - 48 < radix {
        Some(((c as nat) - 48) as nat)
    } else if radix == 16 && 'a' <= c <= 'f' {
        Some(((c as nat) - 87) as nat)
    } else if radix == 16 && 'A' <= c <= 'F' {
        Some(((c as nat) - 55) as nat)
    } else {
        None
    }
}

/// Every character of `s` is a digit of `radix`.
pub open spec fn all_radix_digits(s: Seq<char>, radix: nat) -> bool {
    forall|i: int| 0 <= i < s.len() ==> (#[trigger] digit_value(s[i], radix)) is Some
}

/// The number written by the digits `s` in `radix`.
pub open spec fn digits_value(s: Seq<char>, radix: nat) -> nat
    decreases s.len(),
{
    if s.len() == 0 {
        0
    } else {
        digits_value(s.drop_last(), radix) * radix + match digit_value(s.last(), radix) {
            Some(v) => v,
            None => 0,
        }
    }
}

/// What `from_str_radix` gives for an unsigned type whose largest value is
/// `max`: an optional `+`, then at least one digit of `radix`, with a value
/// that fits.
pub open spec fn parse_unsigned(s: Seq<char>, radix: nat, max: nat) -> Option<nat> {
    let digits = if s.len() > 0 && s[0] == '+' { s.drop_first() } else { s };
    if digits.len() == 0 || !all_radix_digits(digits, radix) {
        None
    } else if digits_value(digits, radix) > max {
        None
    } else {
        Some(digits_value(digits, radix))
    }
}

proof fn lemma_digits_value_push(s: Seq<char>, c: char, radix: nat)
    ensures
        digits_value(s.push(c), radix) == digits_value(s, radix) * radix + match digit_value(
            c,
            radix,
        ) {
            Some(v) => v,
            None => 0,
        },
{
    assert(s.push(c).drop_last() =~= s);
}

proof fn lemma_digits_value_mono(s: Seq<char>, t: Seq<char>, radix: nat)
    requires
        radix >= 1,
        s.len() <= t.len(),
        s == t.take(s.len() as int),
    ensures
        digits_value(s, radix) <= digits_value(t, radix),
    decreases t.len(),
{
    if s.len() < t.len() {
        assert(t.drop_last().take(s.len() as int) =~= s);
        lemma_digits_value_mono(s, t.drop_last(), radix);
        let a = digits_value(t.drop_last(), radix);
        assert(a <= a * radix) by (nonlinear_arith)
            requires
                radix >= 1,
        ;
    } else {
        assert(s =~= t);
    }
}

/// The value of `c` as a digit of `radix` (10 or 16).
pub fn digit_of(c: char, radix: u32) -> (r: Option<u32>)
    requires
        radix == 10 || radix == 16,
    ensures
        match r {
            Some(d) => digit_value(c, radix as nat) == Some(d as nat) && d < radix,
            None => digit_value(c, radix as nat) is None,
        },
{
    if '0' <= c && c <= '9' && (c as u32) - 48 < radix {
        Some((c as u32) - 48)
    } else if radix == 16 && 'a' <= c && c <= 'f' {
        Some((c as u32) - 87)
    } else if radix == 16 && 'A' <= c && c <= 'F' {
        Some((c as u32) - 55)
    } else {
        None
    }
}

/// Parses the characters `s[lo..hi]` as `from_str_radix` does for an unsigned
/// type whose largest value is `max`.
#[verifier::rlimit(40)]
pub fn parse_unsigned_range(s: &Vec<char>, lo: usize, hi: usize, radix: u32, max: u64) -> (r:
    Option<u64>)
    requires
        lo <= hi <= s.len(),
        radix == 10 || radix == 16,
    ensures
        match r {
            Some(v) => parse_unsigned(s@.subrange(lo as int, hi as int), radix as nat, max as nat)
                == Some(v as nat),
            None => parse_unsigned(s@.subrange(lo as int, hi as int), radix as nat, max as nat)
                is None,
        },
{
    let ghost sub = s@.subrange(lo as int, hi as int);
    let mut i = lo;
    if i < hi && s[i] == '+' {
        i = i + 1;
    }
    let ghost digits = if sub.len() > 0 && sub[0] == '+' { sub.drop_first() } else { sub };
    assert(digits =~= s@.subrange(i as int, hi as int));
    if i == hi {
        return None;
    }
    let mut v: u64 = 0;
    let start = i;
    while i < hi
        invariant
            lo <= start <= i <= hi <= s.len(),
            start < hi,
            radix == 10 || radix == 16,
            digits =~= s@.subrange(start as int, hi as int),
            sub == s@.subrange(lo as int, hi as int),
            digits == if sub.len() > 0 && sub[0] == '+' { sub.drop_first() } else { sub },
            all_radix_digits(s@.subrange(start as int, i as int), radix as nat),
            v as nat == digits_value(s@.subrange(start as int, i as int), radix as nat),
            v <= max,
        decreases hi - i,
    {
        let c = s[i];
        let d: u32 = match digit_of(c, radix) {
            Some(d) => d,
            None => {
                proof {
                    assert(digits[(i - start) as int] == c);
                    assert(digit_value(digits[(i - start) as int], radix as nat) is None);
                    assert(!all_radix_digits(digits, radix as nat));
                    assert(sub =~= s@.subrange(lo as int, hi as int));
                }
                return None;
            },
        };
        proof {
            assert(s@.subrange(start as int, i + 1) =~= s@.subrange(start as int, i as int).push(
                c,
            ));
            lemma_digits_value_push(s@.subrange(start as int, i as int), c, radix as nat);
        }
        let lim: u64 = (u64::MAX - d as u64) / (radix as u64);
        if v > lim {
            proof {
                assert(s@.subrange(start as int, i + 1) =~= digits.take(i + 1 - start));
                lemma_digits_value_mono(s@.subrange(start as int, i + 1), digits, radix as nat);
                let r = radix as int;
                let dd = d as int;
                assert((v as int) * r + dd > u64::MAX) by (nonlinear_arith)
                    requires
                        v > lim,
                        lim == (u64::MAX - dd) / r,
                        r >= 1,
                        dd >= 0,
                ;
                assert(digits_value(digits, radix as nat) > max);
                assert(sub =~= s@.subrange(lo as int, hi as int));
            }
            return None;
        }
        assert((v as int) * (radix as int) + (d as int) <= u64::MAX) by (nonlinear_arith)
            requires
                v <= lim,
                lim == (u64::MAX - d as int) / (radix as int),
                radix >= 1,
        ;
        let w = v * (radix as u64) + d as u64;
        if w > max {
            proof {
                assert(s@.subrange(start as int, i + 1) =~= digits.take(i + 1 - start));
                lemma_digits_value_mono(s@.subrange(start as int, i + 1), digits, radix as nat);
                assert(sub =~= s@.subrange(lo as int, hi as int));
            }
            return None;
        }
        v = w;
        i = i + 1;
    }
    assert(s@.subrange(start as int, i as int) =~= digits);
    Some(v)
}

} // verus!

verus! {

/// `pat` occurs in `s` starting at `pos`.
pub open spec fn occurs_at<T>(s: Seq<T>, pat: Seq<T>, pos: int) -> bool {
    0 <= pos && pos + pat.len() <= s.len() && s.subrange(pos, pos + pat.len()) == pat
}

/// `pat` occurs somewhere in `s`.
pub open spec fn contains_seq<T>(s: Seq<T>, pat: Seq<T>) -> bool {
    exists|k: int| occurs_at(s, pat, k)
}

/// Whether `pat` occurs in `s` starting at `pos`.
pub fn chars_occur_at(s: &Vec<char>, pat: &Vec<char>, pos: usize) -> (r: bool)
    ensures
        r == occurs_at(s@, pat@, pos as int),
{
    if pos > s.len() || s.len() - pos < pat.len() {
        return false;
    }
    let mut i: usize = 0;
    while i < pat.len()
        invariant
            pos + pat.len() <= s.len(),
            i <= pat.len(),
            forall|j: int| 0 <= j < i ==> s@[pos + j] == pat@[j],
        decreases pat.len() - i,
    {
        if s[pos + i] != pat[i] {
            assert(s@.subrange(pos as int, pos + pat.len())[i as int] != pat@[i as int]);
            return false;
        }
        i = i + 1;
    }
    assert(s@.subrange(pos as int, pos + pat.len()) =~= pat@);
    true
}

/// Whether `pat` occurs anywhere in `s`.
pub fn chars_contain(s: &Vec<char>, pat: &Vec<char>) -> (r: bool)
    ensures
        r == contains_seq(s@, pat@),
{
    if pat.len() > s.len() {
        return false;
    }
    if pat.len() == 0 {
        assert(s@.subrange(0, 0) =~= pat@);
        assert(occurs_at(s@, pat@, 0));
        return true;
    }
    let last = s.len() - pat.len();
    let mut k: usize = 0;
    while k <= last
        invariant
            last == s.len() - pat.len(),
            pat.len() >= 1,
            forall|j: int| 0 <= j < k ==> !occurs_at(s@, pat@, j),
        decreases last + 1 - k,
    {
        if chars_occur_at(s, pat, k) {
            return true;
        }
        k = k + 1;
    }
    false
}

/// The characters `s[lo..hi]` as a new vector.
pub fn chars_range(s: &Vec<char>, lo: usize, hi: usize) -> (r: Vec<char>)
    requires
        lo <= hi <= s.len(),
    ensures
        r@ == s@.subrange(lo as int, hi as int),
{
    let mut r: Vec<char> = Vec::new();
    let mut i = lo;
    while i < hi
        invariant
            lo <= i <= hi <= s.len(),
            r@ == s@.subrange(lo as int, i as int),
        decreases hi - i,
    {
        r.push(s[i]);
        i = i + 1;
    }
    r
}

/// The first position at or after `i` where the non-empty `pat` occurs
/// in `s`, or -1.
pub open spec fn first_occurrence_from(s: Seq<char>, pat: Seq<char>, i: int) -> int
    decreases s.len() - i,
{
    if i < 0 || i >= s.len() || i + pat.len() > s.len() {
        -1
    } else if occurs_at(s, pat, i) {
        i
    } else {
        first_occurrence_from(s, pat, i + 1)
    }
}

/// Where `first_occurrence_from` stops: nowhere, or at an occurrence.
pub proof fn lemma_first_occurrence_range(s: Seq<char>, pat: Seq<char>, i: int)
    requires
        0 <= i,
    ensures
        first_occurrence_from(s, pat, i) == -1 || (i <= first_occurrence_from(s, pat, i)
            < s.len() && first_occurrence_from(s, pat, i) + pat.len() <= s.len() && occurs_at(
            s,
            pat,
            first_occurrence_from(s, pat, i),
        )),
    decreases s.len() - i,
{
    if 0 <= i < s.len() && i + pat.len() <= s.len() && !occurs_at(s, pat, i) {
        lemma_first_occurrence_range(s, pat, i + 1);
    }
}

/// No occurrence of `pat` starts between `i` and where
/// `first_occurrence_from` stops (or anywhere after `i` when it finds none).
pub proof fn lemma_first_occurrence_min(s: Seq<char>, pat: Seq<char>, i: int, j: int)
    requires
        0 <= i <= j,
        j < first_occurrence_from(s, pat, i) || first_occurrence_from(s, pat, i) == -1,
        pat.len() > 0,
    ensures
        !occurs_at(s, pat, j),
    decreases j - i,
{
    if i < j {
        if 0 <= i < s.len() && i + pat.len() <= s.len() && !occurs_at(s, pat, i) {
            lemma_first_occurrence_min(s, pat, i + 1, j);
        }
    }
}

pub proof fn lemma_first_occurrence_skip(s: Seq<char>, pat: Seq<char>, i: int, k: int)
    requires
        0 <= i <= k,
        k < s.len(),
        k + pat.len() <= s.len(),
        forall|j: int| i <= j < k ==> !occurs_at(s, pat, j),
    ensures
        first_occurrence_from(s, pat, i) == first_occurrence_from(s, pat, k),
    decreases k - i,
{
    if i < k {
        lemma_first_occurrence_skip(s, pat, i + 1, k);
    }
}

pub proof fn lemma_first_occurrence_none(s: Seq<char>, pat: Seq<char>, k: int)
    requires
        0 <= k,
        k >= s.len() || k + pat.len() > s.len(),
        forall|j: int| 0 <= j < k ==> !occurs_at(s, pat, j),
    ensures
        first_occurrence_from(s, pat, 0) == -1,
    decreases k,
{
    if k > 0 {
        let m = k - 1;
        if m >= s.len() || m + pat.len() > s.len() {
            lemma_first_occurrence_none(s, pat, m);
        } else {
            lemma_first_occurrence_skip(s, pat, 0, m);
            assert(!occurs_at(s, pat, m));
            assert(first_occurrence_from(s, pat, m) == first_occurrence_from(s, pat, k));
            assert(first_occurrence_from(s, pat, k) == -1);
        }
    }
}

/// Finds the first occurrence of the non-empty `pat` in `s`.
pub fn find_chars(s: &Vec<char>, pat: &Vec<char>) -> (r: Option<usize>)
    ensures
        match r {
            Some(p) => p as int == first_occurrence_from(s@, pat@, 0) && p + pat@.len() <= s@.len(),
            None => first_occurrence_from(s@, pat@, 0) == -1,
        },
{
    let mut k: usize = 0;
    while k < s.len() && pat.len() <= s.len() - k
        invariant
            k <= s.len(),
            forall|j: int| 0 <= j < k ==> !occurs_at(s@, pat@, j),
        decreases s.len() - k,
    {
        if chars_occur_at(s, pat, k) {
            proof {
                lemma_first_occurrence_skip(s@, pat@, 0, k as int);
            }
            return Some(k);
        }
        k = k + 1;
    }
    proof {
        lemma_first_occurrence_none(s@, pat@, k as int);
    }
    None
}

/// A string holding the characters of `v`.
pub fn string_of(v: &Vec<char>) -> (r: String)
    ensures
        r@ == v@,
{
    let mut r = String::new();
    let mut i: usize = 0;
    while i < v.len()
        invariant
            i <= v.len(),
            r@ == v@.take(i as int),
        decreases v.len() - i,
    {
        push_char(&mut r, v[i]);
        i = i + 1;
    }
    r
}

/// `a` followed by `b`.
pub fn concat_str(a: &str, b: &str) -> (r: String)
    ensures
        r@ == a@ + b@,
{
    let mut r = a.to_owned();
    let tail = chars_of(b);
    let mut i: usize = 0;
    while i < tail.len()
        invariant
            i <= tail@.len(),
            tail@ == b@,
            r@ == a@ + tail@.take(i as int),
        decreases tail.len() - i,
    {
        push_char(&mut r, tail[i]);
        assert(tail@.take(i + 1) =~= tail@.take(i as int).push(tail@[i as int]));
        i = i + 1;
    }
    assert(tail@.take(i as int) =~= tail@);
    r
}

/// The pieces of `s[pos..]` between occurrences of `c`, as `str::split`
/// yields them.
pub open spec fn split_from<T>(s: Seq<T>, c: T, pos: int) -> Seq<Seq<T>>
    decreases s.len() - pos,
{
    let j = find_from(s, c, pos);
    if pos < 0 || pos > s.len() {
        seq![]
    } else if j < 0 {
        seq![s.subrange(pos, s.len() as int)]
    } else {
        proof {
            lemma_find_from_range(s, c, pos);
        }
        seq![s.subrange(pos, j)] + split_from(s, c, j + 1)
    }
}

/// The pieces of `s` between occurrences of `c`, as `str::split` yields them.
pub open spec fn split_on<T>(s: Seq<T>, c: T) -> Seq<Seq<T>> {
    split_from(s, c, 0)
}

} // verus!

verus! {

/// Whether `a` and `b` hold the same characters.
pub fn chars_equal(a: &Vec<char>, b: &Vec<char>) -> (r: bool)
    ensures
        r == (a@ == b@),
{
    if a.len() != b.len() {
        return false;
    }
    let mut i: usize = 0;
    while i < a.len()
        invariant
            a.len() == b.len(),
            i <= a.len(),
            forall|j: int| 0 <= j < i ==> a@[j] == b@[j],
        decreases a.len() - i,
    {
        if a[i] != b[i] {
            return false;
        }
        i = i + 1;
    }
    assert(a@ =~= b@);
    true
}

/// Whether `s` holds exactly the characters of `lit`.
pub fn str_equals(s: &str, lit: &str) -> (r: bool)
    ensures
        r == (s@ == lit@),
{
    let a = chars_of(s);
    let b = chars_of(lit);
    chars_equal(&a, &b)
}

} // verus!
