//! The receiving side of an NMEA GNSS source: cutting the serial stream
//! into lines, and deciding per line which sentences of a fix have
//! arrived, when a fix is complete and published, and how the receiver's
//! health moves. Decoding the fields of each sentence, which is floating
//! point, is the application's.

use vstd::prelude::*;
use vstd::string::StringSliceAdditionalSpecFns;
use crate::nmea::{DOLLAR, STAR, nmea_checksum_valid, star_before_dollar, verify_nmea_checksum};
use crate::text::{
    contains_seq, lemma_first_occurrence_min, occurs_at,
    find_first, lemma_find_from_range, position_of, chars_of, chars_range, find_chars, first_occurrence_from, lemma_first_occurrence_range,
    string_of,
};

verus! {

/// How far the source has got with its receiver.
#[derive(Clone, Copy, Debug, PartialEq, Eq, Structural)]
pub enum NmeaState {
    WaitingForFirstParse,
    ParseFailed,
    WaitingForGoodParse,
    Running,
}

/// A single receiver, or a dual-antenna one that also reports a heading.
#[derive(Clone, Copy, Debug, PartialEq, Eq, Structural)]
pub enum GpsType {
    Single,
    Dual,
}

/// The sentences that make up a fix.
#[derive(Clone, Copy, Debug, PartialEq, Eq, Structural)]
pub enum SentenceKind {
    Gga,
    Gsa,
    Vtg,
    Hdt,
}

/// The byte `,` that separates the fields of a sentence.
pub const COMMA: u8 = 44;

/// Where the field that starts at `i` ends: the first `,` before `t`, or
/// `t`.
pub open spec fn field_end(b: Seq<u8>, i: int, t: int) -> int
    decreases t - i,
{
    if i >= t {
        t
    } else if b[i] == COMMA {
        i
    } else {
        field_end(b, i + 1, t)
    }
}

/// The identifier `id` is five characters long and ends in `c2 c3 c4`.
pub open spec fn id_ends_in(id: Seq<u8>, c2: char, c3: char, c4: char) -> bool {
    id.len() == 5 && id[2] == c2 as u8 && id[3] == c3 as u8 && id[4] == c4 as u8
}

/// The sentence a talker and sentence identifier (such as `GPGGA`) names.
pub open spec fn kind_of_id(id: Seq<u8>) -> Option<SentenceKind> {
    if id_ends_in(id, 'G', 'G', 'A') {
        Some(SentenceKind::Gga)
    } else if id_ends_in(id, 'G', 'S', 'A') {
        Some(SentenceKind::Gsa)
    } else if id_ends_in(id, 'V', 'T', 'G') {
        Some(SentenceKind::Vtg)
    } else if id_ends_in(id, 'H', 'D', 'T') {
        Some(SentenceKind::Hdt)
    } else {
        None
    }
}

/// The sentence codes, in the order of `SentenceKind`.
pub open spec fn sentence_codes() -> Seq<(Seq<char>, SentenceKind)> {
    seq![
        ("GGA"@, SentenceKind::Gga),
        ("GSA"@, SentenceKind::Gsa),
        ("VTG"@, SentenceKind::Vtg),
        ("HDT"@, SentenceKind::Hdt),
    ]
}

/// The bytes of an ASCII text.
pub open spec fn ascii_bytes(t: Seq<char>) -> Seq<u8> {
    t.map_values(|c: char| c as u8)
}

/// An identifier of a two-character talker and a three-character code
/// names the sentence of that code, whatever the talker; any identifier of
/// another length names none.
pub proof fn law_sentence_ids(talker: Seq<u8>, i: int, id: Seq<u8>)
    requires
        talker.len() == 2,
        0 <= i < 4,
    ensures
        kind_of_id(talker + ascii_bytes(sentence_codes()[i].0)) == Some(sentence_codes()[i].1),
        id.len() != 5 ==> kind_of_id(id) is None,
{
    reveal_strlit("GGA");
    reveal_strlit("GSA");
    reveal_strlit("VTG");
    reveal_strlit("HDT");
    let full = talker + ascii_bytes(sentence_codes()[i].0);
    assert(full.len() == 5);
    assert(full[2] == sentence_codes()[i].0[0] as u8);
    assert(full[3] == sentence_codes()[i].0[1] as u8);
    assert(full[4] == sentence_codes()[i].0[2] as u8);
}

/// The identifier of a sentence: the first field after the `$`.
pub open spec fn sentence_id(b: Seq<u8>) -> Seq<u8> {
    let d = find_first(b, DOLLAR);
    let t = find_first(b, STAR);
    b.subrange(d + 1, field_end(b, d + 1, t))
}

/// The sentence a received line is: one of the four, when its checksum is
/// right and its identifier names it.
pub open spec fn sentence_kind_of(b: Seq<u8>) -> Option<SentenceKind> {
    if nmea_checksum_valid(b) {
        kind_of_id(sentence_id(b))
    } else {
        None
    }
}

/// The lines on which recognising the sentence does not panic: no checked
/// `*` before the `$`, and an identifier of five or more bytes whose
/// sentence part starts a character.
pub open spec fn sentence_cuttable(b: Seq<u8>) -> bool {
    &&& !(star_before_dollar(b) && find_first(b, STAR) + 3 <= b.len())
    &&& (nmea_checksum_valid(b) && sentence_id(b).len() >= 5) ==> vstd::utf8::is_char_boundary(
        b,
        find_first(b, DOLLAR) + 3,
    )
}

/// Recognises a received line: the sentence it is, or none when its
/// checksum fails or it is none of `GGA`, `GSA`, `VTG` and `HDT`.
pub fn sentence_kind(line: &str) -> (r: Option<SentenceKind>)
    requires
        sentence_cuttable(line.spec_bytes()),
    ensures
        r == sentence_kind_of(line.spec_bytes()),
{
    let b = line.as_bytes();
    if !verify_nmea_checksum(b) {
        return None;
    }
    let d = match position_of(b, DOLLAR) {
        Some(i) => i,
        None => return None,
    };
    let t = match position_of(b, STAR) {
        Some(i) => i,
        None => return None,
    };
    proof {
        lemma_find_from_range(b@, DOLLAR, 0);
        lemma_find_from_range(b@, STAR, 0);
    }
    let mut e = d + 1;
    while e < t && b[e] != COMMA
        invariant
            d < t < b@.len(),
            d + 1 <= e <= t,
            field_end(b@, d + 1, t as int) == field_end(b@, e as int, t as int),
        decreases t - e,
    {
        e = e + 1;
    }
    let ghost id = b@.subrange(d + 1, e as int);
    assert(id == sentence_id(b@));
    if e - (d + 1) != 5 {
        return None;
    }
    let (c2, c3, c4) = (b[d + 3], b[d + 4], b[d + 5]);
    assert(id[2] == c2 && id[3] == c3 && id[4] == c4);
    if c2 == 71 && c3 == 71 && c4 == 65 {
        Some(SentenceKind::Gga)
    } else if c2 == 71 && c3 == 83 && c4 == 65 {
        Some(SentenceKind::Gsa)
    } else if c2 == 86 && c3 == 84 && c4 == 71 {
        Some(SentenceKind::Vtg)
    } else if c2 == 72 && c3 == 68 && c4 == 84 {
        Some(SentenceKind::Hdt)
    } else {
        None
    }
}

/// Readiness bit of a `GGA` sentence.
pub const GGA_READY: u8 = 0x01;
/// Readiness bit of a `GSA` sentence.
pub const GSA_READY: u8 = 0x02;
/// Readiness bit of a `VTG` sentence.
pub const VTG_READY: u8 = 0x04;
/// Readiness bit of an `HDT` sentence.
pub const HDT_READY: u8 = 0x08;
/// The sentences a single receiver's fix needs: GGA, GSA and VTG.
pub const SINGLE_GPS_ALL_READY: u8 = 0x07;
/// The sentences a dual receiver's fix needs: GGA, GSA, VTG and HDT.
pub const DUAL_GPS_ALL_READY: u8 = 0x0F;

/// The readiness bit of a sentence.
pub open spec fn ready_bit(kind: SentenceKind) -> u8 {
    match kind {
        SentenceKind::Gga => GGA_READY,
        SentenceKind::Gsa => GSA_READY,
        SentenceKind::Vtg => VTG_READY,
        SentenceKind::Hdt => HDT_READY,
    }
}

/// The readiness bits a complete fix needs.
pub open spec fn complete_mask(gps: GpsType) -> u8 {
    match gps {
        GpsType::Single => SINGLE_GPS_ALL_READY,
        GpsType::Dual => DUAL_GPS_ALL_READY,
    }
}

/// The receiver's health and the sentences of the current fix seen so far.
#[derive(Clone, Copy, Debug, PartialEq, Eq, Structural)]
pub struct NmeaLoopState {
    pub state: NmeaState,
    pub stage: u8,
}

/// What the application does after a line.
#[derive(Clone, Copy, Debug, PartialEq, Eq, Structural)]
pub struct NmeaActions {
    /// Forward the fix's GPS time as a timestamp.
    pub forward_timestamp: bool,
    /// The fix is complete: keep its quality as the latest one.
    pub record_quality: bool,
    /// The fix is complete: publish it.
    pub publish_gnss: bool,
}

impl NmeaLoopState {
    /// The state before the first line: nothing seen yet.
    pub fn new() -> (r: Self)
        ensures
            r == (NmeaLoopState { state: NmeaState::WaitingForFirstParse, stage: 0 }),
    {
        NmeaLoopState { state: NmeaState::WaitingForFirstParse, stage: 0 }
    }
}

/// What one line does, from the sentence it was recognised as (none when
/// it was not one of the four, or failed its checksum), whether it starts
/// with `$`, the receiver type, and whether the source is enabled:
///
/// - a recognised sentence sets its readiness bit; a `GGA` also forwards
///   the GPS time when enabled;
/// - an unrecognised line that starts with `$` marks the parse as failed;
/// - once every bit the receiver type needs is set, the fix is complete:
///   its quality is kept, it is published when enabled, the bits are
///   cleared, and a source waiting for its first or for a good parse runs;
/// - otherwise a failed parse becomes a wait for a good one.
pub open spec fn nmea_line_transition(
    s: NmeaLoopState,
    kind: Option<SentenceKind>,
    starts_with_dollar: bool,
    gps: GpsType,
    enabled: bool,
) -> (NmeaLoopState, NmeaActions) {
    let stage = match kind {
        Some(k) => s.stage | ready_bit(k),
        None => s.stage,
    };
    let state = if kind is None && starts_with_dollar {
        NmeaState::ParseFailed
    } else {
        s.state
    };
    let forward = kind == Some(SentenceKind::Gga) && enabled;
    let mask = complete_mask(gps);
    if stage & mask == mask {
        let next = match state {
            NmeaState::WaitingForFirstParse => NmeaState::Running,
            NmeaState::WaitingForGoodParse => NmeaState::Running,
            other => other,
        };
        (
            NmeaLoopState { state: next, stage: 0 },
            NmeaActions { forward_timestamp: forward, record_quality: true, publish_gnss: enabled },
        )
    } else {
        let next = if state == NmeaState::ParseFailed {
            NmeaState::WaitingForGoodParse
        } else {
            state
        };
        (
            NmeaLoopState { state: next, stage },
            NmeaActions { forward_timestamp: forward, record_quality: false, publish_gnss: false },
        )
    }
}

/// Decides what one received line does.
pub fn nmea_line_step(
    s: NmeaLoopState,
    kind: Option<SentenceKind>,
    starts_with_dollar: bool,
    gps: GpsType,
    enabled: bool,
) -> (r: (NmeaLoopState, NmeaActions))
    ensures
        r == nmea_line_transition(s, kind, starts_with_dollar, gps, enabled),
{
    let stage = match kind {
        Some(SentenceKind::Gga) => s.stage | GGA_READY,
        Some(SentenceKind::Gsa) => s.stage | GSA_READY,
        Some(SentenceKind::Vtg) => s.stage | VTG_READY,
        Some(SentenceKind::Hdt) => s.stage | HDT_READY,
        None => s.stage,
    };
    let state = if kind.is_none() && starts_with_dollar {
        NmeaState::ParseFailed
    } else {
        s.state
    };
    let forward = match kind {
        Some(SentenceKind::Gga) => enabled,
        _ => false,
    };
    let mask = match gps {
        GpsType::Single => SINGLE_GPS_ALL_READY,
        GpsType::Dual => DUAL_GPS_ALL_READY,
    };
    if stage & mask == mask {
        let next = match state {
            NmeaState::WaitingForFirstParse => NmeaState::Running,
            NmeaState::WaitingForGoodParse => NmeaState::Running,
            other => other,
        };
        (
            NmeaLoopState { state: next, stage: 0 },
            NmeaActions { forward_timestamp: forward, record_quality: true, publish_gnss: enabled },
        )
    } else {
        let next = match state {
            NmeaState::ParseFailed => NmeaState::WaitingForGoodParse,
            other => other,
        };
        (
            NmeaLoopState { state: next, stage },
            NmeaActions { forward_timestamp: forward, record_quality: false, publish_gnss: false },
        )
    }
}

/// Readiness only accumulates until a fix completes: after a line, either
/// the fix was complete (its quality is kept and the bits are clear), or
/// every bit seen before is still set, together with the bit of the
/// sentence just recognised; and the bits never leave the four sentences.
pub proof fn law_readiness_accumulates(
    s: NmeaLoopState,
    kind: Option<SentenceKind>,
    starts_with_dollar: bool,
    gps: GpsType,
    enabled: bool,
)
    requires
        s.stage < 16,
    ensures
        ({
            let (n, a) = nmea_line_transition(s, kind, starts_with_dollar, gps, enabled);
            &&& n.stage < 16
            &&& a.record_quality ==> n.stage == 0
            &&& a.publish_gnss ==> a.record_quality
            &&& !a.record_quality ==> n.stage & s.stage == s.stage
            &&& !a.record_quality ==> (kind matches Some(k) ==> n.stage & ready_bit(k) == ready_bit(
                k,
            ))
        }),
{
    let x = s.stage;
    match kind {
        Some(k) => {
            let b = ready_bit(k);
            assert(b == 1 || b == 2 || b == 4 || b == 8);
            assert((x | b) & x == x) by (bit_vector);
            assert((x | b) & b == b) by (bit_vector);
            assert(x < 16 && (b == 1 || b == 2 || b == 4 || b == 8) ==> (x | b) < 16)
                by (bit_vector);
        },
        None => {
            assert(x & x == x) by (bit_vector);
        },
    }
}

/// The sentences whose readiness bits `stage` holds.
pub open spec fn seen_kinds(stage: u8) -> Set<SentenceKind> {
    Set::new(|k: SentenceKind| stage & ready_bit(k) != 0)
}

/// The sentences a fix needs: GGA, GSA and VTG, and for a dual receiver
/// also HDT.
pub open spec fn needed_kinds(gps: GpsType) -> Set<SentenceKind> {
    match gps {
        GpsType::Single => set![SentenceKind::Gga, SentenceKind::Gsa, SentenceKind::Vtg],
        GpsType::Dual => set![SentenceKind::Gga, SentenceKind::Gsa, SentenceKind::Vtg, SentenceKind::Hdt],
    }
}

proof fn lemma_or_bit(x: u8, b: u8, c: u8)
    ensures
        ((x | b) & c != 0) == ((x & c != 0) || (b & c != 0)),
{
    assert(((x | b) & c != 0) == ((x & c != 0) || (b & c != 0))) by (bit_vector);
}

proof fn lemma_mask_bits(y: u8)
    ensures
        (y & 7 == 7) == (y & 1 != 0 && y & 2 != 0 && y & 4 != 0),
        (y & 15 == 15) == (y & 1 != 0 && y & 2 != 0 && y & 4 != 0 && y & 8 != 0),
{
    assert((y & 7 == 7) == (y & 1 != 0 && y & 2 != 0 && y & 4 != 0)) by (bit_vector);
    assert((y & 15 == 15) == (y & 1 != 0 && y & 2 != 0 && y & 4 != 0 && y & 8 != 0)) by (bit_vector);
}

/// Each sentence has a readiness bit of its own, and a fix is complete
/// exactly on the line after which every sentence it needs has been seen
/// since the last complete fix (the sentences seen before plus the one
/// just recognised).
pub proof fn law_fix_needs_its_sentences(
    s: NmeaLoopState,
    kind: Option<SentenceKind>,
    starts_with_dollar: bool,
    gps: GpsType,
    enabled: bool,
)
    ensures
        forall|k1: SentenceKind, k2: SentenceKind| k1 != k2 ==> #[trigger] ready_bit(k1) & #[trigger] ready_bit(k2) == 0,
        forall|k: SentenceKind| #[trigger] ready_bit(k) & ready_bit(k) != 0,
        ({
            let seen = match kind {
                Some(k) => seen_kinds(s.stage).insert(k),
                None => seen_kinds(s.stage),
            };
            nmea_line_transition(s, kind, starts_with_dollar, gps, enabled).1.record_quality
                <==> needed_kinds(gps).subset_of(seen)
        }),
{
    assert(1u8 & 2u8 == 0 && 1u8 & 4u8 == 0 && 1u8 & 8u8 == 0 && 2u8 & 1u8 == 0 && 2u8 & 4u8 == 0
        && 2u8 & 8u8 == 0 && 4u8 & 1u8 == 0 && 4u8 & 2u8 == 0 && 4u8 & 8u8 == 0 && 8u8 & 1u8 == 0
        && 8u8 & 2u8 == 0 && 8u8 & 4u8 == 0 && 1u8 & 1u8 != 0 && 2u8 & 2u8 != 0 && 4u8 & 4u8 != 0
        && 8u8 & 8u8 != 0) by (bit_vector);
    let stage = match kind {
        Some(k) => s.stage | ready_bit(k),
        None => s.stage,
    };
    let seen = match kind {
        Some(k) => seen_kinds(s.stage).insert(k),
        None => seen_kinds(s.stage),
    };
    assert forall|c: SentenceKind| (stage & #[trigger] ready_bit(c) != 0) == seen.contains(c) by {
        if let Some(k) = kind {
            lemma_or_bit(s.stage, ready_bit(k), ready_bit(c));
        }
    }
    lemma_mask_bits(stage);
    let g = SentenceKind::Gga;
    let a = SentenceKind::Gsa;
    let v = SentenceKind::Vtg;
    let h = SentenceKind::Hdt;
    assert((stage & ready_bit(g) != 0) == seen.contains(g));
    assert((stage & ready_bit(a) != 0) == seen.contains(a));
    assert((stage & ready_bit(v) != 0) == seen.contains(v));
    assert((stage & ready_bit(h) != 0) == seen.contains(h));
    if needed_kinds(gps).subset_of(seen) {
        assert(needed_kinds(gps).contains(g) && needed_kinds(gps).contains(a) && needed_kinds(gps).contains(v));
        if gps == GpsType::Dual {
            assert(needed_kinds(gps).contains(h));
        }
    } else {
        if nmea_line_transition(s, kind, starts_with_dollar, gps, enabled).1.record_quality {
            assert forall|c: SentenceKind| needed_kinds(gps).contains(c) implies seen.contains(c) by {
                assert((stage & ready_bit(c) != 0) == seen.contains(c));
            }
        }
    }
}

/// How the receiver's health moves: a `$` line that is not a recognised
/// sentence never leaves the source running (it is marked failed, or
/// waiting for a good parse); a complete fix on a good line makes a
/// waiting source run; a running source keeps running on good lines; and
/// only a source still waiting for its first parse waits for it.
pub proof fn law_receiver_health(
    s: NmeaLoopState,
    kind: Option<SentenceKind>,
    starts_with_dollar: bool,
    gps: GpsType,
    enabled: bool,
)
    ensures
        ({
            let (n, a) = nmea_line_transition(s, kind, starts_with_dollar, gps, enabled);
            let failed = kind is None && starts_with_dollar;
            &&& failed ==> (n.state == NmeaState::ParseFailed || n.state == NmeaState::WaitingForGoodParse)
            &&& !failed && a.record_quality && (s.state == NmeaState::WaitingForFirstParse
                || s.state == NmeaState::WaitingForGoodParse) ==> n.state == NmeaState::Running
            &&& !failed && s.state == NmeaState::Running ==> n.state == NmeaState::Running
            &&& n.state == NmeaState::WaitingForFirstParse ==> s.state == NmeaState::WaitingForFirstParse
                && !a.record_quality
        }),
{
}

/// The line that brings the last missing sentence of a fix completes it:
/// when the bits seen so far together with that sentence's bit are all
/// that the receiver type needs, the fix is kept.
pub proof fn law_fix_completes_with_last_sentence(
    s: NmeaLoopState,
    kind: SentenceKind,
    starts_with_dollar: bool,
    gps: GpsType,
    enabled: bool,
)
    requires
        s.stage | ready_bit(kind) == complete_mask(gps),
    ensures
        nmea_line_transition(s, Some(kind), starts_with_dollar, gps, enabled).1.record_quality,
{
    let m = complete_mask(gps);
    assert(m & m == m) by (bit_vector);
}

/// The text between the `\r\n` line ends of a stream, in order, and what
/// follows the last of them.
pub open spec fn crlf_lines(s: Seq<char>) -> (Seq<Seq<char>>, Seq<char>)
    decreases s.len(),
{
    let p = first_occurrence_from(s, seq!['\r', '\n'], 0);
    if p < 0 {
        (seq![], s)
    } else {
        proof {
            lemma_first_occurrence_range(s, seq!['\r', '\n'], 0);
        }
        let rest = crlf_lines(s.subrange(p + 2, s.len() as int));
        (seq![s.subrange(0, p)] + rest.0, rest.1)
    }
}

/// The lines put back together, each followed by `\r\n`, then the rest.
pub open spec fn join_crlf(lines: Seq<Seq<char>>, rest: Seq<char>) -> Seq<char>
    decreases lines.len(),
{
    if lines.len() == 0 {
        rest
    } else {
        lines[0] + seq!['\r', '\n'] + join_crlf(lines.drop_first(), rest)
    }
}

/// Cutting a stream into lines loses and adds nothing: the lines, each
/// followed by `\r\n`, and then the rest make up the stream again; no line
/// and not the rest hold a `\r\n`.
pub proof fn law_crlf_lines(s: Seq<char>)
    ensures
        join_crlf(crlf_lines(s).0, crlf_lines(s).1) == s,
        forall|i: int| 0 <= i < crlf_lines(s).0.len() ==> !contains_seq(#[trigger] crlf_lines(s).0[i], seq!['\r', '\n']),
        !contains_seq(crlf_lines(s).1, seq!['\r', '\n']),
    decreases s.len(),
{
    let pat = seq!['\r', '\n'];
    let p = first_occurrence_from(s, pat, 0);
    lemma_first_occurrence_range(s, pat, 0);
    if p < 0 {
        assert forall|k: int| !occurs_at(s, pat, k) by {
            if 0 <= k {
                lemma_first_occurrence_min(s, pat, 0, k);
            }
        }
    } else {
        let tail = s.subrange(p + 2, s.len() as int);
        law_crlf_lines(tail);
        let (ls, rest) = crlf_lines(tail);
        let line = s.subrange(0, p);
        assert(crlf_lines(s).0 == seq![line] + ls);
        assert((seq![line] + ls).drop_first() =~= ls);
        assert(s.subrange(p, p + 2) =~= pat);
        assert(s =~= line + pat + tail);
        assert forall|k: int| !occurs_at(line, pat, k) by {
            if 0 <= k && k + 2 <= line.len() && occurs_at(line, pat, k) {
                assert(s.subrange(k, k + 2) =~= line.subrange(k, k + 2));
                lemma_first_occurrence_min(s, pat, 0, k);
            }
        }
        assert forall|i: int| 0 <= i < crlf_lines(s).0.len() implies !contains_seq(#[trigger] crlf_lines(s).0[i], pat) by {
            if i > 0 {
                assert(crlf_lines(s).0[i] == ls[i - 1]);
            }
        }
    }
}

/// The texts of a list of strings.
pub open spec fn texts(v: Seq<String>) -> Seq<Seq<char>> {
    v.map_values(|l: String| l@)
}

/// Takes the complete lines out of the received text: the lines, without
/// their `\r\n`, and the unfinished rest, which waits for more input.
pub fn take_lines(buffer: &str) -> (r: (Vec<String>, String))
    ensures
        texts(r.0@) == crlf_lines(buffer@).0,
        r.1@ == crlf_lines(buffer@).1,
{
    let crlf = chars_of("\r\n");
    proof {
        reveal_strlit("\r\n");
        assert(crlf@ =~= seq!['\r', '\n']);
    }
    let mut rest = chars_of(buffer);
    let mut lines: Vec<String> = Vec::new();
    loop
        invariant
            crlf@ == seq!['\r', '\n'],
            crlf_lines(buffer@).0 == texts(lines@) + crlf_lines(rest@).0,
            crlf_lines(buffer@).1 == crlf_lines(rest@).1,
        decreases rest.len(),
    {
        let n = rest.len();
        match find_chars(&rest, &crlf) {
            Some(p) => {
                let line = string_of(&chars_range(&rest, 0, p));
                let tail = chars_range(&rest, p + 2, n);
                proof {
                    assert(texts(lines@.push(line)) =~= texts(lines@).push(line@));
                    assert(crlf_lines(rest@).0 =~= seq![rest@.subrange(0, p as int)] + crlf_lines(
                        tail@,
                    ).0);
                    assert(texts(lines@) + crlf_lines(rest@).0 =~= texts(lines@).push(line@)
                        + crlf_lines(tail@).0);
                }
                lines.push(line);
                rest = tail;
            },
            None => {
                proof {
                    assert(texts(lines@) + crlf_lines(rest@).0 =~= texts(lines@));
                }
                return (lines, string_of(&rest));
            },
        }
    }
}

} // verus!
