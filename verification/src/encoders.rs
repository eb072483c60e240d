//! The JSON envelopes of streamed data: each kind of data travels as an
//! object with a single entry whose key names the kind, or bare under a
//! type name. The data inside an envelope is encoded and decoded around
//! this module.

use vstd::prelude::*;
use crate::json::JsonValue;
use crate::text::str_equals;

verus! {

/// The kinds of streamed data.
#[derive(Clone, Copy, Debug, PartialEq, Eq, Structural)]
pub enum DataKind {
    Imu,
    Gnss,
    Optical,
    FusedPose,
    FusedVehiclePose,
    FusedVehiclePoseV2,
    GlobalFusedPose,
    FusionStateInt,
    Rtcm,
    Can,
    VehicleState,
    VehicleSpeed,
    VelocityMeter,
    Timestamp,
    Extension,
}

/// The type name that a plain encoding reports for a kind.
pub open spec fn type_name_of(kind: DataKind) -> Seq<char> {
    match kind {
        DataKind::Imu => "ImuData"@,
        DataKind::Gnss => "GnssData"@,
        DataKind::Optical => "OpticalData"@,
        DataKind::FusedPose => "FusedPose"@,
        DataKind::FusedVehiclePose => "FusedVehiclePose"@,
        DataKind::FusedVehiclePoseV2 => "FusedVehiclePoseV2"@,
        DataKind::GlobalFusedPose => "GlobalFusedPose"@,
        DataKind::FusionStateInt => "FusionStateInt"@,
        DataKind::Rtcm => "RTCMData"@,
        DataKind::Can => "CANData"@,
        DataKind::VehicleState => "VehicleState"@,
        DataKind::VehicleSpeed => "VehicleSpeed"@,
        DataKind::VelocityMeter => "VelocityMeterData"@,
        DataKind::Timestamp => "Timestamp"@,
        DataKind::Extension => "Extension"@,
    }
}

/// The name of a kind's variant, by which rate limits and input filters know it.
pub open spec fn variant_name_of(kind: DataKind) -> Seq<char> {
    match kind {
        DataKind::Imu => "Imu"@,
        DataKind::Gnss => "Gnss"@,
        DataKind::Optical => "Optical"@,
        DataKind::FusedPose => "FusedPose"@,
        DataKind::FusedVehiclePose => "FusedVehiclePose"@,
        DataKind::FusedVehiclePoseV2 => "FusedVehiclePoseV2"@,
        DataKind::GlobalFusedPose => "GlobalFusedPose"@,
        DataKind::FusionStateInt => "FusionStateInt"@,
        DataKind::Rtcm => "Rtcm"@,
        DataKind::Can => "Can"@,
        DataKind::VehicleState => "VehicleState"@,
        DataKind::VehicleSpeed => "VehicleSpeed"@,
        DataKind::VelocityMeter => "VelocityMeter"@,
        DataKind::Timestamp => "Timestamp"@,
        DataKind::Extension => "Extension"@,
    }
}

/// The key of the envelope of a kind; extensions travel without one.
pub open spec fn wrapper_key_of(kind: DataKind) -> Option<Seq<char>> {
    match kind {
        DataKind::Imu => Some("imuData"@),
        DataKind::Gnss => Some("gnssData"@),
        DataKind::Optical => Some("opticalData"@),
        DataKind::FusedPose => Some("fusedPose"@),
        DataKind::FusedVehiclePose => Some("fusedVehiclePose"@),
        DataKind::FusedVehiclePoseV2 => Some("fusedVehiclePoseV2"@),
        DataKind::GlobalFusedPose => Some("globalFusedPose"@),
        DataKind::FusionStateInt => Some("FusionStateInt"@),
        DataKind::Rtcm => Some("RTCMData"@),
        DataKind::Can => Some("CANData"@),
        DataKind::VehicleState => Some("VehicleState"@),
        DataKind::VehicleSpeed => Some("VehicleSpeed"@),
        DataKind::VelocityMeter => Some("VelocityMeterData"@),
        DataKind::Timestamp => Some("Timestamp"@),
        DataKind::Extension => None,
    }
}

/// The kind whose envelope has the key `key`.
pub open spec fn kind_of_key(key: Seq<char>) -> Option<DataKind> {
    if key == "imuData"@ {
        Some(DataKind::Imu)
    } else if key == "gnssData"@ {
        Some(DataKind::Gnss)
    } else if key == "opticalData"@ {
        Some(DataKind::Optical)
    } else if key == "fusedPose"@ {
        Some(DataKind::FusedPose)
    } else if key == "fusedVehiclePose"@ {
        Some(DataKind::FusedVehiclePose)
    } else if key == "fusedVehiclePoseV2"@ {
        Some(DataKind::FusedVehiclePoseV2)
    } else if key == "globalFusedPose"@ {
        Some(DataKind::GlobalFusedPose)
    } else if key == "FusionStateInt"@ {
        Some(DataKind::FusionStateInt)
    } else if key == "RTCMData"@ {
        Some(DataKind::Rtcm)
    } else if key == "CANData"@ {
        Some(DataKind::Can)
    } else if key == "VehicleState"@ {
        Some(DataKind::VehicleState)
    } else if key == "VehicleSpeed"@ {
        Some(DataKind::VehicleSpeed)
    } else if key == "VelocityMeterData"@ {
        Some(DataKind::VelocityMeter)
    } else if key == "Timestamp"@ {
        Some(DataKind::Timestamp)
    } else {
        None
    }
}

/// Encoding format for MQTT messages.
#[derive(Clone, Copy, Debug, PartialEq, Eq, Structural)]
pub enum MqttEncoding {
    Json,
    Protobuf,
}

/// Serializes streamed data to JSON inside an envelope keyed by its kind.
pub struct JsonEncoder;

/// Reads streamed data from its JSON envelope.
pub struct JsonDecoder;

/// Serializes streamed data to JSON without an envelope.
pub struct PlainJsonEncoder;

impl JsonEncoder {
    /// The key of the envelope of a kind; extensions travel without one.
    pub fn wrapper_key(kind: DataKind) -> (r: Option<&'static str>)
        ensures
            match r {
                Some(k) => wrapper_key_of(kind) == Some(k@),
                None => wrapper_key_of(kind) is None,
            },
    {
        match kind {
            DataKind::Imu => Some("imuData"),
            DataKind::Gnss => Some("gnssData"),
            DataKind::Optical => Some("opticalData"),
            DataKind::FusedPose => Some("fusedPose"),
            DataKind::FusedVehiclePose => Some("fusedVehiclePose"),
            DataKind::FusedVehiclePoseV2 => Some("fusedVehiclePoseV2"),
            DataKind::GlobalFusedPose => Some("globalFusedPose"),
            DataKind::FusionStateInt => Some("FusionStateInt"),
            DataKind::Rtcm => Some("RTCMData"),
            DataKind::Can => Some("CANData"),
            DataKind::VehicleState => Some("VehicleState"),
            DataKind::VehicleSpeed => Some("VehicleSpeed"),
            DataKind::VelocityMeter => Some("VelocityMeterData"),
            DataKind::Timestamp => Some("Timestamp"),
            DataKind::Extension => None,
        }
    }

    /// Puts an encoded value into the envelope of its kind: an object whose
    /// only entry is keyed by the kind. Extensions have no envelope.
    pub fn wrap(kind: DataKind, inner: JsonValue) -> (r: Option<JsonValue>)
        ensures
            match wrapper_key_of(kind) {
                Some(k) => r matches Some(JsonValue::Object(entries)) && entries@.len() == 1
                    && entries@[0].0@ == k && entries@[0].1 == inner,
                None => r is None,
            },
    {
        match JsonEncoder::wrapper_key(kind) {
            Some(k) => {
                let mut entries: Vec<(String, JsonValue)> = Vec::new();
                entries.push((k.to_owned(), inner));
                Some(JsonValue::Object(entries))
            },
            None => None,
        }
    }
}

/// Why an envelope could not be read.
#[derive(Debug, PartialEq, Eq)]
pub enum DecodeError {
    /// The top level is not an object.
    NotAnObject,
    /// The object has no entry.
    Empty,
    /// The first entry's key names no kind.
    UnknownType(String),
}

impl JsonDecoder {
    /// The kind whose envelope has the key `key`.
    pub fn kind_of(key: &str) -> (r: Option<DataKind>)
        ensures
            r == kind_of_key(key@),
    {
        if str_equals(key, "imuData") {
            Some(DataKind::Imu)
        } else if str_equals(key, "gnssData") {
            Some(DataKind::Gnss)
        } else if str_equals(key, "opticalData") {
            Some(DataKind::Optical)
        } else if str_equals(key, "fusedPose") {
            Some(DataKind::FusedPose)
        } else if str_equals(key, "fusedVehiclePose") {
            Some(DataKind::FusedVehiclePose)
        } else if str_equals(key, "fusedVehiclePoseV2") {
            Some(DataKind::FusedVehiclePoseV2)
        } else if str_equals(key, "globalFusedPose") {
            Some(DataKind::GlobalFusedPose)
        } else if str_equals(key, "FusionStateInt") {
            Some(DataKind::FusionStateInt)
        } else if str_equals(key, "RTCMData") {
            Some(DataKind::Rtcm)
        } else if str_equals(key, "CANData") {
            Some(DataKind::Can)
        } else if str_equals(key, "VehicleState") {
            Some(DataKind::VehicleState)
        } else if str_equals(key, "VehicleSpeed") {
            Some(DataKind::VehicleSpeed)
        } else if str_equals(key, "VelocityMeterData") {
            Some(DataKind::VelocityMeter)
        } else if str_equals(key, "Timestamp") {
            Some(DataKind::Timestamp)
        } else {
            None
        }
    }

    /// Opens an envelope: the kind that the key of its first entry names,
    /// and the value under that key.
    pub fn decode(wrapper: &JsonValue) -> (r: Result<(DataKind, &JsonValue), DecodeError>)
        ensures
            match wrapper {
                JsonValue::Object(entries) => if entries@.len() == 0 {
                    r == Err::<(DataKind, &JsonValue), DecodeError>(DecodeError::Empty)
                } else {
                    match kind_of_key(entries@[0].0@) {
                        Some(k) => r matches Ok((kind, v)) && kind == k && *v == entries@[0].1,
                        None => r matches Err(DecodeError::UnknownType(key)) && key@ == entries@[0].0@,
                    }
                },
                _ => r == Err::<(DataKind, &JsonValue), DecodeError>(DecodeError::NotAnObject),
            },
    {
        match wrapper {
            JsonValue::Object(entries) => {
                if entries.len() == 0 {
                    return Err(DecodeError::Empty);
                }
                let (key, data) = &entries[0];
                match JsonDecoder::kind_of(key.as_str()) {
                    Some(kind) => Ok((kind, data)),
                    None => Err(DecodeError::UnknownType(key.clone())),
                }
            },
            _ => Err(DecodeError::NotAnObject),
        }
    }
}

impl PlainJsonEncoder {
    /// Return the type name of the variant.
    pub fn data_type_name(kind: DataKind) -> (r: &'static str)
        ensures
            r@ == type_name_of(kind),
    {
        match kind {
            DataKind::Imu => "ImuData",
            DataKind::Gnss => "GnssData",
            DataKind::Optical => "OpticalData",
            DataKind::FusedPose => "FusedPose",
            DataKind::FusedVehiclePose => "FusedVehiclePose",
            DataKind::FusedVehiclePoseV2 => "FusedVehiclePoseV2",
            DataKind::GlobalFusedPose => "GlobalFusedPose",
            DataKind::FusionStateInt => "FusionStateInt",
            DataKind::Rtcm => "RTCMData",
            DataKind::Can => "CANData",
            DataKind::VehicleState => "VehicleState",
            DataKind::VehicleSpeed => "VehicleSpeed",
            DataKind::VelocityMeter => "VelocityMeterData",
            DataKind::Timestamp => "Timestamp",
            DataKind::Extension => "Extension",
        }
    }
}

impl DataKind {
    /// The name of the variant, by which rate limits and input filters know
    /// the kind.
    pub fn variant_name(self) -> (r: &'static str)
        ensures
            r@ == variant_name_of(self),
    {
        match self {
            DataKind::Imu => "Imu",
            DataKind::Gnss => "Gnss",
            DataKind::Optical => "Optical",
            DataKind::FusedPose => "FusedPose",
            DataKind::FusedVehiclePose => "FusedVehiclePose",
            DataKind::FusedVehiclePoseV2 => "FusedVehiclePoseV2",
            DataKind::GlobalFusedPose => "GlobalFusedPose",
            DataKind::FusionStateInt => "FusionStateInt",
            DataKind::Rtcm => "Rtcm",
            DataKind::Can => "Can",
            DataKind::VehicleState => "VehicleState",
            DataKind::VehicleSpeed => "VehicleSpeed",
            DataKind::VelocityMeter => "VelocityMeter",
            DataKind::Timestamp => "Timestamp",
            DataKind::Extension => "Extension",
        }
    }
}

/// Every kind but an extension has an envelope, and reading the key of that
/// envelope gives the kind back: no two kinds share a key.
pub proof fn law_wrapper_keys_roundtrip(kind: DataKind)
    ensures
        kind != DataKind::Extension ==> wrapper_key_of(kind) is Some,
        wrapper_key_of(kind) matches Some(k) ==> kind_of_key(k) == Some(kind),
{
    reveal_strlit("imuData");
    reveal_strlit("gnssData");
    reveal_strlit("opticalData");
    reveal_strlit("fusedPose");
    reveal_strlit("fusedVehiclePose");
    reveal_strlit("fusedVehiclePoseV2");
    reveal_strlit("globalFusedPose");
    reveal_strlit("FusionStateInt");
    reveal_strlit("RTCMData");
    reveal_strlit("CANData");
    reveal_strlit("VehicleState");
    reveal_strlit("VehicleSpeed");
    reveal_strlit("VelocityMeterData");
    reveal_strlit("Timestamp");
    match kind {
        DataKind::Imu => {
        },
        DataKind::Gnss => {
            assert("gnssData"@.len() != "imuData"@.len());
        },
        DataKind::Optical => {
            assert("opticalData"@.len() != "imuData"@.len());
            assert("opticalData"@.len() != "gnssData"@.len());
        },
        DataKind::FusedPose => {
            assert("fusedPose"@.len() != "imuData"@.len());
            assert("fusedPose"@.len() != "gnssData"@.len());
            assert("fusedPose"@.len() != "opticalData"@.len());
        },
        DataKind::FusedVehiclePose => {
            assert("fusedVehiclePose"@.len() != "imuData"@.len());
            assert("fusedVehiclePose"@.len() != "gnssData"@.len());
            assert("fusedVehiclePose"@.len() != "opticalData"@.len());
            assert("fusedVehiclePose"@.len() != "fusedPose"@.len());
        },
        DataKind::FusedVehiclePoseV2 => {
            assert("fusedVehiclePoseV2"@.len() != "imuData"@.len());
            assert("fusedVehiclePoseV2"@.len() != "gnssData"@.len());
            assert("fusedVehiclePoseV2"@.len() != "opticalData"@.len());
            assert("fusedVehiclePoseV2"@.len() != "fusedPose"@.len());
            assert("fusedVehiclePoseV2"@.len() != "fusedVehiclePose"@.len());
        },
        DataKind::GlobalFusedPose => {
            assert("globalFusedPose"@.len() != "imuData"@.len());
            assert("globalFusedPose"@.len() != "gnssData"@.len());
            assert("globalFusedPose"@.len() != "opticalData"@.len());
            assert("globalFusedPose"@.len() != "fusedPose"@.len());
            assert("globalFusedPose"@.len() != "fusedVehiclePose"@.len());
            assert("globalFusedPose"@.len() != "fusedVehiclePoseV2"@.len());
        },
        DataKind::FusionStateInt => {
            assert("FusionStateInt"@.len() != "imuData"@.len());
            assert("FusionStateInt"@.len() != "gnssData"@.len());
            assert("FusionStateInt"@.len() != "opticalData"@.len());
            assert("FusionStateInt"@.len() != "fusedPose"@.len());
            assert("FusionStateInt"@.len() != "fusedVehiclePose"@.len());
            assert("FusionStateInt"@.len() != "fusedVehiclePoseV2"@.len());
            assert("FusionStateInt"@.len() != "globalFusedPose"@.len());
        },
        DataKind::Rtcm => {
            assert("RTCMData"@.len() != "imuData"@.len());
            assert("RTCMData"@[0] != "gnssData"@[0]);
            assert("RTCMData"@.len() != "opticalData"@.len());
            assert("RTCMData"@.len() != "fusedPose"@.len());
            assert("RTCMData"@.len() != "fusedVehiclePose"@.len());
            assert("RTCMData"@.len() != "fusedVehiclePoseV2"@.len());
            assert("RTCMData"@.len() != "globalFusedPose"@.len());
            assert("RTCMData"@.len() != "FusionStateInt"@.len());
        },
        DataKind::Can => {
            assert("CANData"@[0] != "imuData"@[0]);
            assert("CANData"@.len() != "gnssData"@.len());
            assert("CANData"@.len() != "opticalData"@.len());
            assert("CANData"@.len() != "fusedPose"@.len());
            assert("CANData"@.len() != "fusedVehiclePose"@.len());
            assert("CANData"@.len() != "fusedVehiclePoseV2"@.len());
            assert("CANData"@.len() != "globalFusedPose"@.len());
            assert("CANData"@.len() != "FusionStateInt"@.len());
            assert("CANData"@.len() != "RTCMData"@.len());
        },
        DataKind::VehicleState => {
            assert("VehicleState"@.len() != "imuData"@.len());
            assert("VehicleState"@.len() != "gnssData"@.len());
            assert("VehicleState"@.len() != "opticalData"@.len());
            assert("VehicleState"@.len() != "fusedPose"@.len());
            assert("VehicleState"@.len() != "fusedVehiclePose"@.len());
            assert("VehicleState"@.len() != "fusedVehiclePoseV2"@.len());
            assert("VehicleState"@.len() != "globalFusedPose"@.len());
            assert("VehicleState"@.len() != "FusionStateInt"@.len());
            assert("VehicleState"@.len() != "RTCMData"@.len());
            assert("VehicleState"@.len() != "CANData"@.len());
        },
        DataKind::VehicleSpeed => {
            assert("VehicleSpeed"@.len() != "imuData"@.len());
            assert("VehicleSpeed"@.len() != "gnssData"@.len());
            assert("VehicleSpeed"@.len() != "opticalData"@.len());
            assert("VehicleSpeed"@.len() != "fusedPose"@.len());
            assert("VehicleSpeed"@.len() != "fusedVehiclePose"@.len());
            assert("VehicleSpeed"@.len() != "fusedVehiclePoseV2"@.len());
            assert("VehicleSpeed"@.len() != "globalFusedPose"@.len());
            assert("VehicleSpeed"@.len() != "FusionStateInt"@.len());
            assert("VehicleSpeed"@.len() != "RTCMData"@.len());
            assert("VehicleSpeed"@.len() != "CANData"@.len());
            assert("VehicleSpeed"@[8] != "VehicleState"@[8]);
        },
        DataKind::VelocityMeter => {
            assert("VelocityMeterData"@.len() != "imuData"@.len());
            assert("VelocityMeterData"@.len() != "gnssData"@.len());
            assert("VelocityMeterData"@.len() != "opticalData"@.len());
            assert("VelocityMeterData"@.len() != "fusedPose"@.len());
            assert("VelocityMeterData"@.len() != "fusedVehiclePose"@.len());
            assert("VelocityMeterData"@.len() != "fusedVehiclePoseV2"@.len());
            assert("VelocityMeterData"@.len() != "globalFusedPose"@.len());
            assert("VelocityMeterData"@.len() != "FusionStateInt"@.len());
            assert("VelocityMeterData"@.len() != "RTCMData"@.len());
            assert("VelocityMeterData"@.len() != "CANData"@.len());
            assert("VelocityMeterData"@.len() != "VehicleState"@.len());
            assert("VelocityMeterData"@.len() != "VehicleSpeed"@.len());
        },
        DataKind::Timestamp => {
            assert("Timestamp"@.len() != "imuData"@.len());
            assert("Timestamp"@.len() != "gnssData"@.len());
            assert("Timestamp"@.len() != "opticalData"@.len());
            assert("Timestamp"@[0] != "fusedPose"@[0]);
            assert("Timestamp"@.len() != "fusedVehiclePose"@.len());
            assert("Timestamp"@.len() != "fusedVehiclePoseV2"@.len());
            assert("Timestamp"@.len() != "globalFusedPose"@.len());
            assert("Timestamp"@.len() != "FusionStateInt"@.len());
            assert("Timestamp"@.len() != "RTCMData"@.len());
            assert("Timestamp"@.len() != "CANData"@.len());
            assert("Timestamp"@.len() != "VehicleState"@.len());
            assert("Timestamp"@.len() != "VehicleSpeed"@.len());
            assert("Timestamp"@.len() != "VelocityMeterData"@.len());
        },
        DataKind::Extension => {},
    }
}

/// Opening the envelope that `wrap` makes gives back the kind and the value
/// put into it.
pub proof fn law_envelope_roundtrip(kind: DataKind, inner: JsonValue, wrapped: JsonValue)
    requires
        wrapped matches JsonValue::Object(entries) && entries@.len() == 1 && wrapper_key_of(kind)
            == Some(entries@[0].0@) && entries@[0].1 == inner,
    ensures
        wrapped matches JsonValue::Object(entries) && kind_of_key(entries@[0].0@) == Some(kind)
            && entries@[0].1 == inner,
{
    law_wrapper_keys_roundtrip(kind);
}

} // verus!
