//! Message counters of the data monitor sink: how many messages of each
//! monitored kind came in, the last GNSS quality, and the status report
//! built from them.

use vstd::prelude::*;
use crate::encoders::DataKind;
use crate::json::{JsonNumber, JsonValue};

verus! {

/// Message counts by kind, and the quality of the last GNSS fix.
#[derive(Clone, Copy, Debug, PartialEq, Eq, Structural)]
pub struct Counters {
    pub n_imu: i64,
    pub n_gnss: i64,
    pub n_optical: i64,
    pub n_can: i64,
    pub n_vehicle_speed: i64,
    pub n_rtcm: i64,
    pub gnss_quality: i64,
}

/// One more, wrapping around as an atomic counter does.
pub open spec fn bump(n: i64) -> i64 {
    if n == i64::MAX {
        i64::MIN
    } else {
        (n + 1) as i64
    }
}

/// The counters after a message of kind `kind` (with the quality `quality`
/// when it is a GNSS fix); kinds that are not monitored change nothing.
pub open spec fn counted(c: Counters, kind: DataKind, quality: i64) -> Counters {
    match kind {
        DataKind::Imu => Counters { n_imu: bump(c.n_imu), ..c },
        DataKind::Optical => Counters { n_optical: bump(c.n_optical), ..c },
        DataKind::Gnss => Counters { gnss_quality: quality, n_gnss: bump(c.n_gnss), ..c },
        DataKind::Can => Counters { n_can: bump(c.n_can), ..c },
        DataKind::VehicleSpeed => Counters { n_vehicle_speed: bump(c.n_vehicle_speed), ..c },
        DataKind::Rtcm => Counters { n_rtcm: bump(c.n_rtcm), ..c },
        _ => c,
    }
}

/// A JSON number holding `n`, classed as serde_json classes integers.
pub open spec fn int_json(n: i64) -> JsonValue {
    if n >= 0 {
        JsonValue::Number(JsonNumber::PosInt(n as u64))
    } else {
        JsonValue::Number(JsonNumber::NegInt(n))
    }
}

/// Makes the JSON number for `n`.
pub fn int_value(n: i64) -> (r: JsonValue)
    ensures
        r == int_json(n),
{
    if n >= 0 {
        JsonValue::Number(JsonNumber::PosInt(n as u64))
    } else {
        JsonValue::Number(JsonNumber::NegInt(n))
    }
}

fn wrapping_increment(n: i64) -> (r: i64)
    ensures
        r == bump(n),
{
    if n == i64::MAX {
        i64::MIN
    } else {
        n + 1
    }
}

/// `v` is an object that reports the counters `c`: `nImu`, `nGnss`,
/// `nOptical`, `nCan`, `gnssQuality`, `nVehicleSpeed` and `nRtcmData`.
pub open spec fn reports_counters(v: JsonValue, c: Counters) -> bool {
    &&& v is Object
    &&& v.spec_get("nImu"@) == Some(int_json(c.n_imu))
    &&& v.spec_get("nGnss"@) == Some(int_json(c.n_gnss))
    &&& v.spec_get("nOptical"@) == Some(int_json(c.n_optical))
    &&& v.spec_get("nCan"@) == Some(int_json(c.n_can))
    &&& v.spec_get("gnssQuality"@) == Some(int_json(c.gnss_quality))
    &&& v.spec_get("nVehicleSpeed"@) == Some(int_json(c.n_vehicle_speed))
    &&& v.spec_get("nRtcmData"@) == Some(int_json(c.n_rtcm))
}

impl Counters {
    /// All counts zero.
    pub fn new() -> (r: Self)
        ensures
            r == (Counters {
                n_imu: 0,
                n_gnss: 0,
                n_optical: 0,
                n_can: 0,
                n_vehicle_speed: 0,
                n_rtcm: 0,
                gnss_quality: 0,
            }),
    {
        Counters {
            n_imu: 0,
            n_gnss: 0,
            n_optical: 0,
            n_can: 0,
            n_vehicle_speed: 0,
            n_rtcm: 0,
            gnss_quality: 0,
        }
    }

    /// Counts a message of kind `kind`; `quality` is the fix quality when it
    /// is a GNSS message.
    pub fn record(&mut self, kind: DataKind, quality: i64)
        ensures
            *final(self) == counted(*old(self), kind, quality),
    {
        match kind {
            DataKind::Imu => {
                self.n_imu = wrapping_increment(self.n_imu);
            },
            DataKind::Optical => {
                self.n_optical = wrapping_increment(self.n_optical);
            },
            DataKind::Gnss => {
                self.gnss_quality = quality;
                self.n_gnss = wrapping_increment(self.n_gnss);
            },
            DataKind::Can => {
                self.n_can = wrapping_increment(self.n_can);
            },
            DataKind::VehicleSpeed => {
                self.n_vehicle_speed = wrapping_increment(self.n_vehicle_speed);
            },
            DataKind::Rtcm => {
                self.n_rtcm = wrapping_increment(self.n_rtcm);
            },
            _ => {},
        }
    }

    /// The counters as a JSON object.
    pub fn to_json(&self) -> (r: JsonValue)
        ensures
            reports_counters(r, *self),
    {
        proof {
            reveal_strlit("nImu");
            reveal_strlit("nGnss");
            reveal_strlit("nOptical");
            reveal_strlit("nCan");
            reveal_strlit("gnssQuality");
            reveal_strlit("nVehicleSpeed");
            reveal_strlit("nRtcmData");
        }
        let mut r = JsonValue::new_object();
        r.insert("nImu".to_owned(), int_value(self.n_imu));
        r.insert("nGnss".to_owned(), int_value(self.n_gnss));
        assert("nImu"@.len() != "nGnss"@.len());
        r.insert("nOptical".to_owned(), int_value(self.n_optical));
        assert("nImu"@.len() != "nOptical"@.len());
        assert("nGnss"@.len() != "nOptical"@.len());
        r.insert("nCan".to_owned(), int_value(self.n_can));
        assert("nImu"@[1] != "nCan"@[1]);
        assert("nGnss"@.len() != "nCan"@.len());
        assert("nOptical"@.len() != "nCan"@.len());
        r.insert("gnssQuality".to_owned(), int_value(self.gnss_quality));
        assert("nImu"@.len() != "gnssQuality"@.len());
        assert("nGnss"@.len() != "gnssQuality"@.len());
        assert("nOptical"@.len() != "gnssQuality"@.len());
        assert("nCan"@.len() != "gnssQuality"@.len());
        r.insert("nVehicleSpeed".to_owned(), int_value(self.n_vehicle_speed));
        assert("nImu"@.len() != "nVehicleSpeed"@.len());
        assert("nGnss"@.len() != "nVehicleSpeed"@.len());
        assert("nOptical"@.len() != "nVehicleSpeed"@.len());
        assert("nCan"@.len() != "nVehicleSpeed"@.len());
        assert("gnssQuality"@.len() != "nVehicleSpeed"@.len());
        r.insert("nRtcmData".to_owned(), int_value(self.n_rtcm));
        assert("nImu"@.len() != "nRtcmData"@.len());
        assert("nGnss"@.len() != "nRtcmData"@.len());
        assert("nOptical"@.len() != "nRtcmData"@.len());
        assert("nCan"@.len() != "nRtcmData"@.len());
        assert("gnssQuality"@.len() != "nRtcmData"@.len());
        assert("nVehicleSpeed"@.len() != "nRtcmData"@.len());
        r
    }

    /// The status report sent on every heartbeat: the counters under
    /// `data`, with the description `inputStatus` and the status `OK`.
    pub fn status_report(&self) -> (r: JsonValue)
        ensures
            r is Object,
            r.spec_get("data"@) matches Some(d) && reports_counters(d, *self),
            r.spec_str_field("description"@) == Some("inputStatus"@),
            r.spec_str_field("status"@) == Some("OK"@),
    {
        proof {
            reveal_strlit("data");
            reveal_strlit("description");
            reveal_strlit("status");
        }
        let data = self.to_json();
        let mut r = JsonValue::new_object();
        r.insert("data".to_owned(), data);
        r.insert("description".to_owned(), JsonValue::String("inputStatus".to_owned()));
        assert("data"@.len() != "description"@.len());
        r.insert("status".to_owned(), JsonValue::String("OK".to_owned()));
        assert("data"@.len() != "status"@.len());
        assert("description"@.len() != "status"@.len());
        r
    }
}

} // verus!
