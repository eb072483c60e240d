//! The OBD-II (ELM327) vehicle-speed source: its settings, the adapter's
//! initialisation sequence, the cleanup of adapter replies, the velocity
//! reply, and the decisions of its polling loop. The serial port itself is
//! driven by the application, which reports each outcome as an event.

use vstd::prelude::*;
use vstd::string::StringSliceAdditionalSpecFns;
use crate::automotive::{GearState, signed_hex_two, signed_hex_two_value};
use crate::json::JsonValue;
use crate::text::{chars_of, chars_range, find_chars, first_occurrence_from, string_of};

verus! {

/// Settings of the source: serial port, baud rate, and whether the
/// adapter must address the Porsche engine ECU.
pub struct Elm327Settings {
    pub port: String,
    pub baudrate: u32,
    pub is_porsche: bool,
}

impl Elm327Settings {
    /// Reads `port` (default `COM10`), `baudrate` (default 115200, kept
    /// to its low 32 bits) and `isPorsche` (default false).
    pub fn from_json(config: &JsonValue) -> (r: Self)
        ensures
            r.port@ == match config.spec_str_field("port"@) {
                Some(t) => t,
                None => "COM10"@,
            },
            r.baudrate == (match config.spec_u64_field("baudrate"@) {
                Some(n) => n,
                None => 115200u64,
            }) as u32,
            r.is_porsche == match config.spec_bool_field("isPorsche"@) {
                Some(b) => b,
                None => false,
            },
    {
        let baud = config.value_u64("baudrate", 115200);
        Elm327Settings {
            port: config.value_str("port", "COM10"),
            baudrate: baud as u32,
            is_porsche: config.value_bool("isPorsche", false),
        }
    }
}

/// One command of the initialisation sequence, the text its reply should
/// hold, and how long to wait for that reply.
pub struct Elm327Command {
    pub command: String,
    pub expected: String,
    pub timeout_ms: u64,
}

/// The initialisation sequence: reset, echo, linefeeds, spaces and headers
/// off, automatic protocol, and, for a Porsche only, the engine ECU header.
pub open spec fn init_sequence(is_porsche: bool) -> Seq<(Seq<char>, Seq<char>, u64)> {
    let common = seq![
        ("ATZ"@, "ELM"@, 3000u64),
        ("ATE0"@, "OK"@, 1000u64),
        ("ATL0"@, "OK"@, 1000u64),
        ("ATS0"@, "OK"@, 1000u64),
        ("ATH0"@, "OK"@, 1000u64),
        ("ATSP0"@, "OK"@, 1000u64),
    ];
    if is_porsche {
        common.push(("AT SH 7E0"@, "OK"@, 1000u64))
    } else {
        common
    }
}

fn command(c: &str, e: &str, t: u64) -> (r: Elm327Command)
    ensures
        r.command@ == c@,
        r.expected@ == e@,
        r.timeout_ms == t,
{
    Elm327Command { command: c.to_owned(), expected: e.to_owned(), timeout_ms: t }
}

/// The commands that initialise the adapter, in the order they are sent.
pub fn init_commands(is_porsche: bool) -> (r: Vec<Elm327Command>)
    ensures
        r@.len() == init_sequence(is_porsche).len(),
        forall|i: int|
            0 <= i < r@.len() ==> (#[trigger] r@[i]).command@ == init_sequence(is_porsche)[i].0
                && r@[i].expected@ == init_sequence(is_porsche)[i].1
                && r@[i].timeout_ms == init_sequence(is_porsche)[i].2,
{
    let mut r: Vec<Elm327Command> = Vec::new();
    r.push(command("ATZ", "ELM", 3000));
    r.push(command("ATE0", "OK", 1000));
    r.push(command("ATL0", "OK", 1000));
    r.push(command("ATS0", "OK", 1000));
    r.push(command("ATH0", "OK", 1000));
    r.push(command("ATSP0", "OK", 1000));
    if is_porsche {
        r.push(command("AT SH 7E0", "OK", 1000));
    }
    r
}

/// Carriage returns, linefeeds, tabs and the `>` prompt, which a reply
/// loses before it is read.
pub open spec fn is_reply_noise(c: char) -> bool {
    c == '\r' || c == '\n' || c == '\t' || c == '>'
}

/// `s` without its noise characters.
pub open spec fn without_noise(s: Seq<char>) -> Seq<char>
    decreases s.len(),
{
    if s.len() == 0 {
        s
    } else if is_reply_noise(s.last()) {
        without_noise(s.drop_last())
    } else {
        without_noise(s.drop_last()).push(s.last())
    }
}

/// `s` with the first occurrence of `pat` taken out, or `s` itself when
/// `pat` does not occur.
pub open spec fn remove_first(s: Seq<char>, pat: Seq<char>) -> Seq<char> {
    let p = first_occurrence_from(s, pat, 0);
    if p < 0 {
        s
    } else {
        s.subrange(0, p) + s.subrange(p + pat.len(), s.len() as int)
    }
}

/// A raw reply of the adapter as it is read: without noise, and with the
/// first `SEARCHING...`, `BUS INIT: ...OK` and `BUS INIT: OK` status
/// messages taken out, in that order.
pub open spec fn cleaned_reply(raw: Seq<char>) -> Seq<char> {
    remove_first(
        remove_first(remove_first(without_noise(raw), "SEARCHING..."@), "BUS INIT: ...OK"@),
        "BUS INIT: OK"@,
    )
}

fn remove_first_chars(s: &Vec<char>, pat: &Vec<char>) -> (r: Vec<char>)
    ensures
        r@ == remove_first(s@, pat@),
{
    let n = s.len();
    match find_chars(s, pat) {
        Some(p) => {
            let mut r = chars_range(s, 0, p);
            let tail = chars_range(s, p + pat.len(), n);
            let mut tail = tail;
            r.append(&mut tail);
            r
        },
        None => s.clone(),
    }
}

proof fn lemma_without_noise(s: Seq<char>)
    ensures
        forall|i: int| 0 <= i < without_noise(s).len() ==> !is_reply_noise(#[trigger] without_noise(s)[i]),
        (forall|i: int| 0 <= i < s.len() ==> !is_reply_noise(#[trigger] s[i])) ==> without_noise(s) == s,
    decreases s.len(),
{
    if s.len() > 0 {
        lemma_without_noise(s.drop_last());
        let w = without_noise(s.drop_last());
        if !is_reply_noise(s.last()) {
            assert forall|i: int| 0 <= i < w.push(s.last()).len() implies !is_reply_noise(#[trigger] w.push(s.last())[i]) by {
                if i < w.len() {
                    assert(w.push(s.last())[i] == w[i]);
                }
            }
        }
        if forall|i: int| 0 <= i < s.len() ==> !is_reply_noise(#[trigger] s[i]) {
            assert(forall|i: int| 0 <= i < s.drop_last().len() ==> !is_reply_noise(#[trigger] s.drop_last()[i])
                ) by {
                assert forall|i: int| 0 <= i < s.drop_last().len() implies !is_reply_noise(#[trigger] s.drop_last()[i]) by {
                    assert(s.drop_last()[i] == s[i]);
                }
            }
            assert(!is_reply_noise(s[s.len() - 1]));
            assert(s.drop_last().push(s.last()) =~= s);
        }
    }
}

proof fn lemma_remove_first(s: Seq<char>, pat: Seq<char>)
    ensures
        forall|c: char| #[trigger] remove_first(s, pat).contains(c) ==> s.contains(c),
        !crate::text::contains_seq(s, pat) ==> remove_first(s, pat) == s,
{
    crate::text::lemma_first_occurrence_range(s, pat, 0);
    let p = first_occurrence_from(s, pat, 0);
    if p >= 0 {
        assert forall|c: char| #[trigger] remove_first(s, pat).contains(c) implies s.contains(c) by {
            let r = remove_first(s, pat);
            let i = choose|i: int| 0 <= i < r.len() && r[i] == c;
            if i < p {
                assert(s[i] == c);
            } else {
                assert(s[i + pat.len()] == c);
            }
        }
    }
}

/// Cleaning keeps no noise character, and leaves a reply that has neither
/// noise nor a status message as it is.
pub proof fn law_clean_reply(raw: Seq<char>)
    ensures
        forall|i: int| 0 <= i < cleaned_reply(raw).len() ==> !is_reply_noise(#[trigger] cleaned_reply(raw)[i]),
        (forall|i: int| 0 <= i < raw.len() ==> !is_reply_noise(#[trigger] raw[i]))
            && !crate::text::contains_seq(raw, "SEARCHING..."@)
            && !crate::text::contains_seq(raw, "BUS INIT: ...OK"@)
            && !crate::text::contains_seq(raw, "BUS INIT: OK"@) ==> cleaned_reply(raw) == raw,
{
    let a = without_noise(raw);
    let b = remove_first(a, "SEARCHING..."@);
    let c = remove_first(b, "BUS INIT: ...OK"@);
    let d = remove_first(c, "BUS INIT: OK"@);
    lemma_without_noise(raw);
    lemma_remove_first(a, "SEARCHING..."@);
    lemma_remove_first(b, "BUS INIT: ...OK"@);
    lemma_remove_first(c, "BUS INIT: OK"@);
    assert forall|i: int| 0 <= i < d.len() implies !is_reply_noise(#[trigger] d[i]) by {
        assert(d.contains(d[i]));
        assert(c.contains(d[i]));
        assert(b.contains(d[i]));
        assert(a.contains(d[i]));
        let j = choose|j: int| 0 <= j < a.len() && a[j] == d[i];
        assert(!is_reply_noise(a[j]));
    }
}

/// Cleans a raw reply of the adapter: noise characters go, then the first
/// of each status message.
pub fn clean_reply(raw: &str) -> (r: String)
    ensures
        r@ == cleaned_reply(raw@),
{
    let chars = chars_of(raw);
    let mut kept: Vec<char> = Vec::new();
    let mut i: usize = 0;
    while i < chars.len()
        invariant
            i <= chars.len(),
            chars@ == raw@,
            kept@ == without_noise(chars@.take(i as int)),
        decreases chars.len() - i,
    {
        let c = chars[i];
        assert(chars@.take(i + 1).drop_last() =~= chars@.take(i as int));
        if !(c == '\r' || c == '\n' || c == '\t' || c == '>') {
            kept.push(c);
        }
        i = i + 1;
    }
    assert(chars@.take(i as int) =~= raw@);
    let searching = chars_of("SEARCHING...");
    let bus_init_dots = chars_of("BUS INIT: ...OK");
    let bus_init = chars_of("BUS INIT: OK");
    let a = remove_first_chars(&kept, &searching);
    let b = remove_first_chars(&a, &bus_init_dots);
    let c = remove_first_chars(&b, &bus_init);
    string_of(&c)
}

/// The reply starts with `410D`, the answer to the velocity request.
pub open spec fn is_velocity_reply(b: Seq<u8>) -> bool {
    b.len() >= 4 && b[0] == 52 && b[1] == 49 && b[2] == 48 && b[3] == 68
}

/// The speed in km/h that a velocity reply carries in its bytes 4 and 5,
/// read as `i32::from_str_radix(.., 16)` reads them; none for another
/// reply, one too short, or digits that do not parse.
pub open spec fn reply_speed(b: Seq<u8>) -> Option<int> {
    if is_velocity_reply(b) && b.len() >= 6 {
        signed_hex_two(b[4], b[5])
    } else {
        None
    }
}

/// The speed field of a velocity reply can be cut out of the text: byte 6
/// starts a character.
pub open spec fn speed_field_cuttable(b: Seq<u8>) -> bool {
    is_velocity_reply(b) && b.len() >= 6 ==> vstd::utf8::is_char_boundary(b, 6)
}

/// Reads the speed, in km/h, from the reply to the velocity request.
pub fn parse_velocity_response(response: &str) -> (r: Option<i32>)
    requires
        speed_field_cuttable(response.spec_bytes()),
    ensures
        match r {
            Some(v) => reply_speed(response.spec_bytes()) == Some(v as int),
            None => reply_speed(response.spec_bytes()) is None,
        },
{
    let bytes = response.as_bytes();
    if bytes.len() < 6 {
        return None;
    }
    if !(bytes[0] == 52 && bytes[1] == 49 && bytes[2] == 48 && bytes[3] == 68) {
        return None;
    }
    signed_hex_two_value(bytes[4], bytes[5])
}

/// How long the source waits after an error before it reopens the port:
/// 15 s, in nanoseconds.
pub const ELM327_RECOVERY_NANOS: u128 = 15_000_000_000;

/// The state of the source.
#[derive(Clone, Copy, Debug, PartialEq, Eq, Structural)]
pub enum Elm327State {
    Initializing,
    Ready,
    Error,
    Stopped,
}

/// What the application reports to the polling loop.
#[derive(Clone, Debug)]
pub enum Elm327Event {
    /// The port was opened and the adapter initialised (`true`), or one of
    /// the two failed (`false`).
    Connected(bool),
    /// The cleaned reply to the velocity request.
    VelocityReply(String),
    /// The velocity request could not be sent or its reply not read.
    VelocityReadFailed,
    /// A pass of the loop, with the time since the last error.
    Poll { since_error_nanos: u128 },
}

/// What the polling loop asks the application to do.
#[derive(Clone, Copy, Debug, PartialEq, Eq, Structural)]
pub enum Elm327Action {
    /// Wait before the next pass.
    Wait,
    /// Note the time of this error.
    RecordError,
    /// Note the time of this error and end the worker: the first
    /// connection failed.
    Abandon,
    /// Store the signed speed in km/h (negative in reverse), and publish it
    /// as a vehicle speed when `publish`.
    Velocity { speed_kmh: i32, publish: bool },
    /// Reopen the port and initialise the adapter, then report `Connected`.
    Reconnect,
}

/// The speed with the sign of the direction of travel: negative in reverse.
pub open spec fn signed_speed(v: int, gear: GearState) -> int {
    if gear == GearState::Reverse {
        -v
    } else {
        v
    }
}

/// The next state and the action of the polling loop, from the state, the
/// event, the current gear and whether the source is enabled.
///
/// - A first connection that succeeds makes the source ready; one that
///   fails is an error that ends the worker.
/// - When ready, a reply that does not start with `410D`, or a failed read,
///   is an error; a readable speed is stored (and published when enabled);
///   an unreadable one changes nothing.
/// - After an error, the port is reopened once 15 s have passed since it;
///   a reconnection that succeeds makes the source ready again, one that
///   fails is a new error.
/// - Anything else changes nothing.
pub open spec fn elm327_transition(
    state: Elm327State,
    event: Elm327Event,
    gear: GearState,
    enabled: bool,
) -> (Elm327State, Elm327Action) {
    match (state, event) {
        (Elm327State::Initializing, Elm327Event::Connected(ok)) => if ok {
            (Elm327State::Ready, Elm327Action::Wait)
        } else {
            (Elm327State::Error, Elm327Action::Abandon)
        },
        (Elm327State::Ready, Elm327Event::VelocityReply(reply)) => {
            let b = vstd::utf8::encode_utf8(reply@);
            if !is_velocity_reply(b) {
                (Elm327State::Error, Elm327Action::RecordError)
            } else {
                match reply_speed(b) {
                    Some(v) => (
                        Elm327State::Ready,
                        Elm327Action::Velocity {
                            speed_kmh: signed_speed(v, gear) as i32,
                            publish: enabled,
                        },
                    ),
                    None => (Elm327State::Ready, Elm327Action::Wait),
                }
            }
        },
        (Elm327State::Ready, Elm327Event::VelocityReadFailed) => (
            Elm327State::Error,
            Elm327Action::RecordError,
        ),
        (Elm327State::Error, Elm327Event::Poll { since_error_nanos }) => if since_error_nanos
            >= ELM327_RECOVERY_NANOS {
            (Elm327State::Error, Elm327Action::Reconnect)
        } else {
            (Elm327State::Error, Elm327Action::Wait)
        },
        (Elm327State::Error, Elm327Event::Connected(ok)) => if ok {
            (Elm327State::Ready, Elm327Action::Wait)
        } else {
            (Elm327State::Error, Elm327Action::RecordError)
        },
        _ => (state, Elm327Action::Wait),
    }
}

/// When ready, a velocity reply whose two speed characters are the
/// hexadecimal digits of `v` is stored as `v` km/h, or as `-v` in reverse,
/// and published exactly when the source is enabled; the gear only sets
/// the sign.
pub proof fn law_velocity_reply(reply: String, gear: GearState, enabled: bool, h: u8, l: u8)
    requires
        h < 16,
        l < 16,
        vstd::utf8::encode_utf8(reply@).len() >= 6,
        is_velocity_reply(vstd::utf8::encode_utf8(reply@)),
        vstd::utf8::encode_utf8(reply@)[4] == crate::text::upper_hex_digits()[h as int] as u8,
        vstd::utf8::encode_utf8(reply@)[5] == crate::text::upper_hex_digits()[l as int] as u8,
    ensures
        elm327_transition(Elm327State::Ready, Elm327Event::VelocityReply(reply), gear, enabled) == (
            Elm327State::Ready,
            Elm327Action::Velocity {
                speed_kmh: if gear == GearState::Reverse {
                    -(h * 16 + l)
                } else {
                    h * 16 + l
                } as i32,
                publish: enabled,
            },
        ),
{
    crate::text::law_hex_digits(h, 0);
    crate::text::law_hex_digits(l, 0);
    reveal_strlit("0123456789ABCDEF");
}

/// A reply that is not the answer to the velocity request is an error,
/// whatever the gear; after an error the port is reopened once 15 s have
/// passed, and not before.
pub proof fn law_errors_and_recovery(reply: String, gear: GearState, enabled: bool, since: u128)
    ensures
        !is_velocity_reply(vstd::utf8::encode_utf8(reply@)) ==> elm327_transition(
            Elm327State::Ready,
            Elm327Event::VelocityReply(reply),
            gear,
            enabled,
        ) == (Elm327State::Error, Elm327Action::RecordError),
        elm327_transition(Elm327State::Error, Elm327Event::Poll { since_error_nanos: since }, gear, enabled).1
            == if since >= 15_000_000_000 {
            Elm327Action::Reconnect
        } else {
            Elm327Action::Wait
        },
{
}

/// The replies that the loop may be handed: a velocity reply whose speed
/// field can be cut out of the text.
pub open spec fn event_admissible(event: Elm327Event) -> bool {
    match event {
        Elm327Event::VelocityReply(reply) => speed_field_cuttable(
            vstd::utf8::encode_utf8(reply@),
        ),
        _ => true,
    }
}

/// One decision of the polling loop.
pub fn elm327_step(state: Elm327State, event: Elm327Event, gear: GearState, enabled: bool) -> (r: (
    Elm327State,
    Elm327Action,
))
    requires
        event_admissible(event),
    ensures
        r == elm327_transition(state, event, gear, enabled),
{
    match (state, event) {
        (Elm327State::Initializing, Elm327Event::Connected(ok)) => if ok {
            (Elm327State::Ready, Elm327Action::Wait)
        } else {
            (Elm327State::Error, Elm327Action::Abandon)
        },
        (Elm327State::Ready, Elm327Event::VelocityReply(reply)) => {
            let text = reply.as_str();
            let bytes = text.as_bytes();
            if !(bytes.len() >= 4 && bytes[0] == 52 && bytes[1] == 49 && bytes[2] == 48 && bytes[3]
                == 68) {
                return (Elm327State::Error, Elm327Action::RecordError);
            }
            match parse_velocity_response(text) {
                Some(v) => {
                    let speed = if gear == GearState::Reverse {
                        -v
                    } else {
                        v
                    };
                    (Elm327State::Ready, Elm327Action::Velocity { speed_kmh: speed, publish: enabled })
                },
                None => (Elm327State::Ready, Elm327Action::Wait),
            }
        },
        (Elm327State::Ready, Elm327Event::VelocityReadFailed) => (
            Elm327State::Error,
            Elm327Action::RecordError,
        ),
        (Elm327State::Error, Elm327Event::Poll { since_error_nanos }) => {
            if since_error_nanos >= ELM327_RECOVERY_NANOS {
                (Elm327State::Error, Elm327Action::Reconnect)
            } else {
                (Elm327State::Error, Elm327Action::Wait)
            }
        },
        (Elm327State::Error, Elm327Event::Connected(ok)) => if ok {
            (Elm327State::Ready, Elm327Action::Wait)
        } else {
            (Elm327State::Error, Elm327Action::RecordError)
        },
        _ => (state, Elm327Action::Wait),
    }
}

} // verus!
