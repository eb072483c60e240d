# fusion

The verified core of a sensor-fusion hub: the parts of the hub that decide,
parse and keep state, each with a contract that Verus proves.

- `src/` — the library, all of it verified:
  - `clock` — named clocks that follow external time sources, tick clocks,
    and the clockwork that keeps a node's clocks;
  - `connected_node` — endpoint validation, node settings, the output rate
    limiter and the decision on each output item;
  - `configuration_node`, `json` — the configuration document, read by key
    and by JSON Pointer, set by key and merged from patches;
  - `crypto` — license reports and the features a license grants;
  - `nmea`, `ntrip` — NMEA 0183 checksums and time fields, the NTRIP
    request, reply check and reconnection policy, Base64;
  - `hid_imu`, `xreal_imu`, `peak_can`, `automotive`, `dtrack` — byte-level
    decoders and settings of the device sources;
  - `elm327`, `nmea_source`, `lp_sensors` — the decisions of the serial
    OBD-II and NMEA source loops, and the choice of LP-Research sensors;
  - `encoders`, `command_router`, `hand_eye`, `data_monitor`,
    `file_logger`, `registration` — data envelopes, command routing, the
    calibration protocol, message counters and log-file rotation.
- `tests/` — tests of the library on concrete values.
- `app/` — the input/output edge: JSON text and files, sockets, serial
  ports, the system clock, floating-point formatting, and the license
  client interface.
