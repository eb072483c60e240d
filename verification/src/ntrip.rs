//! Helpers of the NTRIP client: the Base64 credentials of its HTTP request
//! and the check of the GGA sentences it forwards to the caster.

use vstd::prelude::*;
use vstd::string::StringSliceAdditionalSpecFns;
use crate::nmea::{written_checksum, DOLLAR, STAR};
use crate::text::{concat_str, find_from, parse_hex_two_bytes, push_char, xor_fold};

verus! {

/// `bcc_checksum_compare_for_gga` accepts `s`: it starts with `$`, has a `*`
/// followed by two hexadecimal digits, and the XOR of the bytes between `$`
/// and `*` is the number they write.
pub open spec fn bcc_valid(s: Seq<u8>) -> bool {
    let t = find_from(s, STAR, 1);
    &&& s.len() > 0
    &&& s[0] == DOLLAR
    &&& t >= 0
    &&& t + 3 <= s.len()
    &&& written_checksum(s, t) == Some(xor_fold(s, 1, t))
}


/// Verify BCC checksum for a GGA sentence.
///
/// Returns true if the checksum embedded after '*' matches the XOR of all bytes
/// between '$' and '*'.
pub fn bcc_checksum_compare_for_gga(line: &str) -> (r: bool)
    ensures
        r == bcc_valid(line.spec_bytes()),
{
    let bytes = line.as_bytes();
    if bytes.len() == 0 || bytes[0] != DOLLAR {
        return false;
    }
    let mut checksum: u8 = 0;
    let mut i: usize = 1;
    while i < bytes.len() && bytes[i] != STAR
        invariant
            1 <= i <= bytes@.len(),
            checksum == xor_fold(bytes@, 1, i as int),
            find_from(bytes@, STAR, 1) == find_from(bytes@, STAR, i as int),
        decreases bytes.len() - i,
    {
        checksum = checksum ^ bytes[i];
        i = i + 1;
    }
    if i >= bytes.len() || bytes[i] != STAR {
        return false;
    }
    i = i + 1;
    if bytes.len() - i < 2 {
        return false;
    }
    match parse_hex_two_bytes(bytes[i], bytes[i + 1]) {
        Some(v) => checksum == v,
        None => false,
    }
}


/// The Base64 alphabet: `A`-`Z`, `a`-`z`, `0`-`9`, `+`, `/`.
pub open spec fn base64_char(n: u8) -> char
    recommends
        n < 64,
{
    if n < 26 {
        ((n + 65) as u8) as char
    } else if n < 52 {
        ((n + 71) as u8) as char
    } else if n < 62 {
        ((n - 4) as u8) as char
    } else if n == 62 {
        '+'
    } else {
        '/'
    }
}

/// Standard Base64 (RFC 4648) of `s`, padded with `=` to a multiple of four
/// characters.
pub open spec fn base64_of(s: Seq<u8>) -> Seq<char>
    decreases s.len(),
{
    if s.len() == 0 {
        seq![]
    } else if s.len() == 1 {
        seq![base64_char(s[0] / 4), base64_char(((s[0] % 4) * 16) as u8), '=', '=']
    } else if s.len() == 2 {
        seq![
            base64_char(s[0] / 4),
            base64_char(((s[0] % 4) * 16 + s[1] / 16) as u8),
            base64_char(((s[1] % 16) * 4) as u8),
            '=',
        ]
    } else {
        seq![
            base64_char(s[0] / 4),
            base64_char(((s[0] % 4) * 16 + s[1] / 16) as u8),
            base64_char(((s[1] % 16) * 4 + s[2] / 64) as u8),
            base64_char(s[2] % 64),
        ] + base64_of(s.skip(3))
    }
}

fn base64_digit(n: u8) -> (r: char)
    requires
        n < 64,
    ensures
        r == base64_char(n),
{
    if n < 26 {
        (n + 65) as char
    } else if n < 52 {
        (n + 71) as char
    } else if n < 62 {
        (n - 4) as char
    } else if n == 62 {
        '+'
    } else {
        '/'
    }
}

proof fn lemma_sextets(a: u8, b: u8, c: u8)
    ensures
        (a & 0xFC) >> 2 == a / 4,
        (a & 0x03) << 4 == (a % 4) * 16,
        (a & 0x03) << 4 | (b & 0xF0) >> 4 == (a % 4) * 16 + b / 16,
        (b & 0x0F) << 2 == (b % 16) * 4,
        (b & 0x0F) << 2 | (c & 0xC0) >> 6 == (b % 16) * 4 + c / 64,
        c & 0x3F == c % 64,
{
    assert((a & 0xFC) >> 2 == a / 4) by (bit_vector);
    assert((a & 0x03) << 4 == (a % 4) * 16) by (bit_vector);
    assert((a & 0x03) << 4 | (b & 0xF0) >> 4 == (a % 4) * 16 + b / 16) by (bit_vector);
    assert((b & 0x0F) << 2 == (b % 16) * 4) by (bit_vector);
    assert((b & 0x0F) << 2 | (c & 0xC0) >> 6 == (b % 16) * 4 + c / 64) by (bit_vector);
    assert(c & 0x3F == c % 64) by (bit_vector);
}

/// Standard Base64 encoding with `=` padding.
pub fn base64_encode(input: &[u8]) -> (r: String)
    ensures
        r@ == base64_of(input@),
{
    let mut out = String::new();
    let len = input.len();
    let mut i: usize = 0;
    assert(input@.skip(0) =~= input@);
    while i < len
        invariant
            len == input@.len(),
            i <= len,
            base64_of(input@) == out@ + base64_of(input@.skip(i as int)),
        decreases len - i,
    {
        let ghost rest = input@.skip(i as int);
        let a = input[i];
        proof {
            lemma_sextets(a, 0, 0);
        }
        push_char(&mut out, base64_digit((a & 0xFC) >> 2));
        if len - i == 1 {
            push_char(&mut out, base64_digit((a & 0x03) << 4));
            push_char(&mut out, '=');
            push_char(&mut out, '=');
            assert(input@.skip(len as int) =~= Seq::<u8>::empty());
            i = len;
        } else {
            let b = input[i + 1];
            proof {
                lemma_sextets(a, b, 0);
            }
            push_char(&mut out, base64_digit((a & 0x03) << 4 | (b & 0xF0) >> 4));
            if len - i == 2 {
                push_char(&mut out, base64_digit((b & 0x0F) << 2));
                push_char(&mut out, '=');
                assert(input@.skip(len as int) =~= Seq::<u8>::empty());
                i = len;
            } else {
                let c = input[i + 2];
                proof {
                    lemma_sextets(a, b, c);
                }
                push_char(&mut out, base64_digit((b & 0x0F) << 2 | (c & 0xC0) >> 6));
                push_char(&mut out, base64_digit(c & 0x3F));
                assert(rest.skip(3) =~= input@.skip(i + 3));
                i = i + 3;
            }
        }
    }
    assert(input@.skip(len as int) =~= Seq::<u8>::empty());
    out
}

/// The Base64 text of `n` bytes has `4 * ceil(n / 3)` characters.
pub proof fn lemma_base64_len(s: Seq<u8>)
    ensures
        base64_of(s).len() == 4 * ((s.len() + 2) / 3),
    decreases s.len(),
{
    if s.len() > 2 {
        lemma_base64_len(s.skip(3));
    }
}


/// The Base64 alphabet of RFC 4648, digit 0 first.
pub open spec fn rfc4648_alphabet() -> Seq<char> {
    "ABCDEFGHIJKLMNOPQRSTUVWXYZabcdefghijklmnopqrstuvwxyz0123456789+/"@
}

/// Every Base64 digit is the character at its value in the RFC 4648
/// alphabet.
pub proof fn law_base64_alphabet(n: u8)
    requires
        n < 64,
    ensures
        base64_char(n) == rfc4648_alphabet()[n as int],
{
    reveal_strlit("ABCDEFGHIJKLMNOPQRSTUVWXYZabcdefghijklmnopqrstuvwxyz0123456789+/");
}

/// `r` spells the Base64 digits `d`, each below 64, in the RFC 4648
/// alphabet.
pub open spec fn spells_digits(r: Seq<char>, d: Seq<int>) -> bool {
    &&& r.len() == d.len()
    &&& forall|k: int| 0 <= k < d.len() ==> 0 <= #[trigger] d[k] < 64 && r[k] == rfc4648_alphabet()[d[k]]
}

/// Base64 writes each three bytes as four digits of six bits that
/// recombine, most significant first, to the 24 bits of the bytes; a last
/// two bytes give three digits and `=`, holding the 16 bits followed by
/// two zero bits; a last byte gives two digits and `==`, holding the 8
/// bits followed by four zero bits.
pub proof fn law_base64_groups(s: Seq<u8>)
    ensures
        s.len() >= 3 ==> {
            &&& base64_of(s).skip(4) == base64_of(s.skip(3))
            &&& exists|d0: int, d1: int, d2: int, d3: int|
                spells_digits(base64_of(s).take(4), seq![d0, d1, d2, d3]) && d0 * 262144 + d1 * 4096
                    + d2 * 64 + d3 == s[0] * 65536 + s[1] * 256 + s[2]
        },
        s.len() == 2 ==> {
            &&& base64_of(s).len() == 4
            &&& base64_of(s)[3] == '='
            &&& exists|d0: int, d1: int, d2: int|
                spells_digits(base64_of(s).take(3), seq![d0, d1, d2]) && d0 * 4096 + d1 * 64 + d2
                    == (s[0] * 256 + s[1]) * 4
        },
        s.len() == 1 ==> {
            &&& base64_of(s).len() == 4
            &&& base64_of(s)[2] == '=' && base64_of(s)[3] == '='
            &&& exists|d0: int, d1: int|
                spells_digits(base64_of(s).take(2), seq![d0, d1]) && d0 * 64 + d1 == s[0] * 16
        },
{
    if s.len() >= 3 {
        let (a, b, c) = (s[0], s[1], s[2]);
        let d: Seq<int> = seq![(a / 4) as int, ((a % 4) * 16 + b / 16) as int, ((b % 16) * 4 + c / 64) as int, (c % 64) as int];
        law_base64_alphabet(a / 4);
        law_base64_alphabet(((a % 4) * 16 + b / 16) as u8);
        law_base64_alphabet(((b % 16) * 4 + c / 64) as u8);
        law_base64_alphabet(c % 64);
        let r = base64_of(s);
        assert(r.skip(4) =~= base64_of(s.skip(3)));
        assert(spells_digits(r.take(4), d));
        assert(d[0] * 262144 + d[1] * 4096 + d[2] * 64 + d[3] == a * 65536 + b * 256 + c);
    } else if s.len() == 2 {
        let (a, b) = (s[0], s[1]);
        let d: Seq<int> = seq![(a / 4) as int, ((a % 4) * 16 + b / 16) as int, ((b % 16) * 4) as int];
        law_base64_alphabet(a / 4);
        law_base64_alphabet(((a % 4) * 16 + b / 16) as u8);
        law_base64_alphabet(((b % 16) * 4) as u8);
        assert(spells_digits(base64_of(s).take(3), d));
        assert(d[0] * 4096 + d[1] * 64 + d[2] == (a * 256 + b) * 4);
    } else if s.len() == 1 {
        let a = s[0];
        let d: Seq<int> = seq![(a / 4) as int, ((a % 4) * 16) as int];
        law_base64_alphabet(a / 4);
        law_base64_alphabet(((a % 4) * 16) as u8);
        assert(spells_digits(base64_of(s).take(2), d));
        assert(d[0] * 64 + d[1] == a * 16);
    }
}

/// The request that opens an NTRIP stream: an HTTP/1.1 `GET` of the mount
/// point with the client's user agent, NTRIP version 2.0, and the user and
/// password as Basic credentials.
pub open spec fn ntrip_request_text(
    mountpoint: Seq<char>,
    user_agent: Seq<char>,
    credentials: Seq<u8>,
) -> Seq<char> {
    "GET /"@ + mountpoint + " HTTP/1.1\r\nUser-Agent: NTRIP "@ + user_agent
        + "\r\nNtrip-Version: Ntrip/2.0\r\nAuthorization: Basic "@ + base64_of(credentials)
        + "\r\n\r\n"@
}

/// Builds the request that opens the stream of `mountpoint`; the
/// credentials are the UTF-8 bytes of `user:password`.
pub fn ntrip_request(mountpoint: &str, user_agent: &str, user: &str, password: &str) -> (r: String)
    ensures
        r@ == ntrip_request_text(
            mountpoint@,
            user_agent@,
            vstd::utf8::encode_utf8(user@ + ":"@ + password@),
        ),
{
    let head = concat_str(user, ":");
    let credentials = concat_str(head.as_str(), password);
    let encoded = base64_encode(credentials.as_str().as_bytes());
    let r = concat_str("GET /", mountpoint);
    let r = concat_str(r.as_str(), " HTTP/1.1\r\nUser-Agent: NTRIP ");
    let r = concat_str(r.as_str(), user_agent);
    let r = concat_str(r.as_str(), "\r\nNtrip-Version: Ntrip/2.0\r\nAuthorization: Basic ");
    let r = concat_str(r.as_str(), encoded.as_str());
    let r = concat_str(r.as_str(), "\r\n\r\n");
    assert(credentials@ =~= user@ + ":"@ + password@);
    assert(r@ =~= ntrip_request_text(mountpoint@, user_agent@, vstd::utf8::encode_utf8(credentials@)));
    r
}

/// The caster accepted the request: its reply holds the text `200 OK`.
pub fn ntrip_reply_accepted(reply: &[u8]) -> (r: bool)
    ensures
        r == crate::text::contains_seq(reply@, "200 OK"@.map_values(|c: char| c as u8)),
{
    let ok: [u8; 6] = [50, 48, 48, 32, 79, 75];
    proof {
        reveal_strlit("200 OK");
        assert(ok@ =~= "200 OK"@.map_values(|c: char| c as u8));
    }
    let mut i: usize = 0;
    while i < reply.len() && reply.len() - i >= 6
        invariant
            i <= reply@.len(),
            ok@ == "200 OK"@.map_values(|c: char| c as u8),
            forall|j: int| 0 <= j < i ==> !crate::text::occurs_at(reply@, ok@, j),
        decreases reply.len() - i,
    {
        let n: usize = reply.len();
        assert(n == reply@.len());
        let mut k: usize = 0;
        let mut same = true;
        while k < 6
            invariant
                k <= 6,
                i + 6 <= reply@.len(),
                reply@.len() <= usize::MAX,
                same == forall|m: int| 0 <= m < k ==> reply@[i + m] == ok@[m],
            decreases 6 - k,
        {
            if reply[i + k] != ok[k] {
                same = false;
            }
            k = k + 1;
        }
        if same {
            assert(reply@.subrange(i as int, i + 6) =~= ok@);
            assert(crate::text::occurs_at(reply@, ok@, i as int));
            return true;
        }
        assert(!crate::text::occurs_at(reply@, ok@, i as int)) by {
            if reply@.subrange(i as int, i + 6) == ok@ {
                let m = choose|m: int| 0 <= m < 6 && reply@[i + m] != ok@[m];
                assert(reply@.subrange(i as int, i + 6)[m] == reply@[i + m]);
            }
        }
        i = i + 1;
    }
    assert(!crate::text::contains_seq(reply@, ok@)) by {
        if crate::text::contains_seq(reply@, ok@) {
            let p = choose|p: int| crate::text::occurs_at(reply@, ok@, p);
            assert(p < i);
        }
    }
    false
}

/// How an NTRIP client goes on after it failed to reach the caster.
#[derive(Clone, Copy, Debug, PartialEq, Eq, Structural)]
pub struct ReconnectPolicy {
    pub attempt: u32,
}

impl ReconnectPolicy {
    /// No failed attempt yet.
    pub fn new() -> (r: Self)
        ensures
            r.attempt == 0,
    {
        ReconnectPolicy { attempt: 0 }
    }

    /// Counts a failed connection and says whether to try again: always
    /// when `max_attempts` is 0, else until the attempts exceed it.
    pub fn connection_failed(&mut self, max_attempts: u32) -> (retry: bool)
        requires
            old(self).attempt < u32::MAX,
        ensures
            final(self).attempt == old(self).attempt + 1,
            retry == (max_attempts == 0 || final(self).attempt <= max_attempts),
    {
        self.attempt = self.attempt + 1;
        max_attempts == 0 || self.attempt <= max_attempts
    }

    /// A connection was made: the count starts over.
    pub fn connected(&mut self)
        ensures
            final(self).attempt == 0,
    {
        self.attempt = 0;
    }
}

} // verus!
