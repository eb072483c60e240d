//! Verified core of the sensor-fusion hub: clocks, rate limiting, endpoint
//! validation, configuration documents, license reports, NMEA and NTRIP
//! framing, data envelopes, command routing, and the byte-level decoders
//! and settings of the device sources.

pub mod text;
pub mod nmea;
pub mod nmea_source;
pub mod connected_node;
pub mod xreal_imu;
pub mod hid_imu;
pub mod peak_can;
pub mod can_frames;
pub mod antilatency;
pub mod automotive;
pub mod elm327;
pub mod lp_sensors;
pub mod ntrip;
pub mod clock;
pub mod dtrack;
pub mod json;
pub mod configuration_node;
pub mod crypto;
pub mod file_logger;
pub mod hand_eye;
pub mod command_router;
pub mod encoders;
pub mod data_monitor;
pub mod registration;
pub mod file_reader;
