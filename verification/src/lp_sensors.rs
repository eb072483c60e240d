//! Which of the discovered LP-Research sensors a source connects to: the
//! OpenZen IMU source takes the first sensor whose serial number matches
//! its configured name or autodetect family; the IG1P source fills its two
//! slots with sensors not registered yet.

use vstd::prelude::*;
use crate::json::JsonValue;
use crate::text::{chars_of, chars_contain, chars_occur_at, contains_seq, occurs_at, str_equals};

verus! {

/// What `str::to_lowercase` gives for a text: its characters mapped to
/// lower case by the Unicode tables of the standard library.
pub uninterp spec fn lowercase(s: Seq<char>) -> Seq<char>;

/// The text in lower case.
///
/// Calls `str::to_lowercase`; the contract names its result and claims
/// nothing more of it.
#[verifier::external_body]
pub(crate) fn to_lower(s: &str) -> (r: String)
    ensures
        r@ == lowercase(s@),
{
    s.to_lowercase()
}

/// A sensor that discovery found: its device name and serial number.
pub struct SensorDescriptor {
    pub name: String,
    pub serial: String,
}

/// `p` is a prefix of `s`.
pub open spec fn has_prefix(s: Seq<char>, p: Seq<char>) -> bool {
    occurs_at(s, p, 0)
}

fn starts_with_chars(s: &Vec<char>, p: &str) -> (r: bool)
    ensures
        r == has_prefix(s@, p@),
{
    let pc = chars_of(p);
    chars_occur_at(s, &pc, 0)
}

/// The sensor family that the OpenZen source detects when no name is set.
#[derive(Clone, Copy, Debug, PartialEq, Eq, Structural)]
pub enum AutodetectType {
    Lpms,
    Ig1,
}

/// The family a configuration asks for: `autodetectType` in lower case
/// (default `ig1`), anything but `lpms` or `ig1` meaning `ig1`.
pub open spec fn autodetect_of(config: JsonValue) -> AutodetectType {
    let t = lowercase(
        match config.spec_str_field("autodetectType"@) {
            Some(v) => v,
            None => "ig1"@,
        },
    );
    if t == "lpms"@ {
        AutodetectType::Lpms
    } else {
        AutodetectType::Ig1
    }
}

/// Reads the autodetect family from the OpenZen source's configuration.
pub fn autodetect_type(config: &JsonValue) -> (r: AutodetectType)
    ensures
        r == autodetect_of(*config),
{
    let raw = config.value_str("autodetectType", "ig1");
    let t = to_lower(raw.as_str());
    if str_equals(t.as_str(), "lpms") {
        AutodetectType::Lpms
    } else {
        AutodetectType::Ig1
    }
}

/// An OpenZen sensor with serial number `serial` (in lower case) is the
/// one the source wants: equal to the configured name when there is one,
/// else of the autodetected family (`lpms…`, or `ig1…` / `lpms-ig1…`).
pub open spec fn openzen_match(serial: Seq<char>, name: Seq<char>, family: AutodetectType) -> bool {
    if name.len() > 0 {
        serial == name
    } else {
        match family {
            AutodetectType::Lpms => has_prefix(serial, "lpms"@),
            AutodetectType::Ig1 => has_prefix(serial, "ig1"@) || has_prefix(serial, "lpms-ig1"@),
        }
    }
}

/// Finds the sensor the OpenZen source connects to: the first whose
/// serial number, in lower case, matches the configured name (already in
/// lower case) or the autodetected family.
pub fn find_openzen_sensor(sensors: &[SensorDescriptor], name: &str, family: AutodetectType) -> (r:
    Option<usize>)
    ensures
        match r {
            Some(i) => i < sensors@.len() && openzen_match(lowercase(sensors@[i as int].serial@), name@, family)
                && forall|j: int| 0 <= j < i ==> !openzen_match(lowercase(#[trigger] sensors@[j].serial@), name@, family),
            None => forall|j: int| 0 <= j < sensors@.len() ==> !openzen_match(lowercase(#[trigger] sensors@[j].serial@), name@, family),
        },
{
    let name_chars = chars_of(name);
    let mut i: usize = 0;
    while i < sensors.len()
        invariant
            i <= sensors@.len(),
            name_chars@ == name@,
            forall|j: int| 0 <= j < i ==> !openzen_match(lowercase(#[trigger] sensors@[j].serial@), name@, family),
        decreases sensors.len() - i,
    {
        let serial = to_lower(sensors[i].serial.as_str());
        let s = chars_of(serial.as_str());
        let m = if name_chars.len() > 0 {
            str_equals(serial.as_str(), name)
        } else {
            match family {
                AutodetectType::Lpms => starts_with_chars(&s, "lpms"),
                AutodetectType::Ig1 => starts_with_chars(&s, "ig1") || starts_with_chars(&s, "lpms-ig1"),
            }
        };
        if m {
            return Some(i);
        }
        i = i + 1;
    }
    None
}

/// A sensor whose serial number (in lower case) mentions `ig1` reads its
/// second gyroscope and flips its accelerometer.
pub fn is_ig1_serial(serial_lower: &str) -> (r: bool)
    ensures
        r == contains_seq(serial_lower@, "ig1"@),
{
    let s = chars_of(serial_lower);
    let p = chars_of("ig1");
    chars_contain(&s, &p)
}

/// The IG1P source leaves slot `slot` empty: a slot after the first with
/// no configured name.
pub open spec fn slot_skipped(slot: int, requested: Seq<char>) -> bool {
    requested.len() == 0 && slot > 0
}

/// Whether the IG1P source leaves a slot empty.
pub fn skip_slot(slot: usize, requested: &str) -> (r: bool)
    ensures
        r == slot_skipped(slot as int, requested@),
{
    let c = chars_of(requested);
    c.len() == 0 && slot > 0
}

/// A discovered sensor fits an IG1P slot: its device name is not
/// registered yet, and its serial number (in lower case) starts with the
/// slot's requested name, or, with no name, with `ig1p` or `lpms-ig1p`.
pub open spec fn ig1p_match(sensor_name: Seq<char>, serial: Seq<char>, requested: Seq<char>, registered: Seq<Seq<char>>) -> bool {
    &&& !registered.contains(sensor_name)
    &&& if requested.len() > 0 {
        has_prefix(serial, requested)
    } else {
        has_prefix(serial, "ig1p"@) || has_prefix(serial, "lpms-ig1p"@)
    }
}

/// The device names registered so far.
pub open spec fn names_of(v: Seq<String>) -> Seq<Seq<char>> {
    v.map_values(|s: String| s@)
}

fn is_registered(registered: &[String], name: &str) -> (r: bool)
    ensures
        r == names_of(registered@).contains(name@),
{
    let mut i: usize = 0;
    while i < registered.len()
        invariant
            i <= registered@.len(),
            forall|j: int| 0 <= j < i ==> registered@[j]@ != name@,
        decreases registered.len() - i,
    {
        if str_equals(registered[i].as_str(), name) {
            assert(names_of(registered@)[i as int] == name@);
            return true;
        }
        i = i + 1;
    }
    assert forall|k: int| 0 <= k < names_of(registered@).len() implies names_of(registered@)[k] != name@ by {
        assert(names_of(registered@)[k] == registered@[k]@);
    }
    false
}

/// Finds the sensor for an IG1P slot: the first not yet registered whose
/// serial number, in lower case, starts with the requested name (already
/// in lower case), or is an IG1P when no name is requested.
pub fn find_ig1p_sensor(sensors: &[SensorDescriptor], requested: &str, registered: &[String]) -> (r:
    Option<usize>)
    ensures
        match r {
            Some(i) => i < sensors@.len() && ig1p_match(sensors@[i as int].name@, lowercase(sensors@[i as int].serial@), requested@, names_of(registered@))
                && forall|j: int| 0 <= j < i ==> !ig1p_match(#[trigger] sensors@[j].name@, lowercase(sensors@[j].serial@), requested@, names_of(registered@)),
            None => forall|j: int| 0 <= j < sensors@.len() ==> !ig1p_match(#[trigger] sensors@[j].name@, lowercase(sensors@[j].serial@), requested@, names_of(registered@)),
        },
{
    let req = chars_of(requested);
    let mut i: usize = 0;
    while i < sensors.len()
        invariant
            i <= sensors@.len(),
            req@ == requested@,
            forall|j: int| 0 <= j < i ==> !ig1p_match(#[trigger] sensors@[j].name@, lowercase(sensors@[j].serial@), requested@, names_of(registered@)),
        decreases sensors.len() - i,
    {
        if !is_registered(registered, sensors[i].name.as_str()) {
            let serial = to_lower(sensors[i].serial.as_str());
            let s = chars_of(serial.as_str());
            let m = if req.len() > 0 {
                chars_occur_at(&s, &req, 0)
            } else {
                starts_with_chars(&s, "ig1p") || starts_with_chars(&s, "lpms-ig1p")
            };
            if m {
                return Some(i);
            }
        }
        i = i + 1;
    }
    None
}

} // verus!
