use fusion::ntrip::ntrip_request;
use fusion::ntrip::ntrip_reply_accepted;
use fusion::ntrip::ReconnectPolicy;
use fusion::nmea::{checksum, days_to_date, nmea_date, nmea_time, parse_transport, verify_nmea_checksum, NmeaTransport};
use fusion::ntrip::{base64_encode, bcc_checksum_compare_for_gga};
use fusion::json::{JsonNumber, JsonValue};

fn text(s: &str) -> JsonValue {
    JsonValue::String(s.to_owned())
}

fn num(n: u64) -> JsonValue {
    JsonValue::Number(JsonNumber::PosInt(n))
}

fn obj(entries: Vec<(&str, JsonValue)>) -> JsonValue {
    JsonValue::Object(entries.into_iter().map(|(k, v)| (k.to_owned(), v)).collect())
}

#[test]
fn checksum_basic() {
    let sentence = "$GPGGA,123456.00,4807.038,N,01131.000,E,1,08,0.9,545.4,M,47.0,M,,*";
    let cs = checksum(sentence);
    assert_eq!(cs.len(), 2);
    assert!(u8::from_str_radix(&cs, 16).is_ok());
}

#[test]
fn checksum_exact_value() {
    // XOR of "GPGGA" is 0x47 ^ 0x50 ^ 0x47 ^ 0x47 ^ 0x41 = 0x56.
    assert_eq!(checksum("$GPGGA*"), "56");
    // Without a '$' the whole text up to '*' counts.
    assert_eq!(checksum("A*"), "41");
    // Without a '*' the text runs to the end.
    assert_eq!(checksum("$AB"), "03");
}

#[test]
fn checksum_frames_a_valid_sentence() {
    let body = "$GPHDT,270.0,T*";
    let framed = format!("{}{}", body, checksum(body));
    assert!(verify_nmea_checksum(framed.as_bytes()));
    assert!(bcc_checksum_compare_for_gga(&framed));
}

#[test]
fn days_to_date_epoch() {
    let (y, m, d) = days_to_date(0);
    assert_eq!((y, m, d), (1970, 1, 1));
}

#[test]
fn days_to_date_leap_day() {
    // 2000-02-29 is day 11016 after the epoch.
    assert_eq!(days_to_date(11016), (2000, 2, 29));
    assert_eq!(days_to_date(11017), (2000, 3, 1));
    // 2024-12-31.
    assert_eq!(days_to_date(20088), (2024, 12, 31));
}

#[test]
fn nmea_time_and_date_fields() {
    // 2024-03-15 12:34:56 UTC.
    let secs: u64 = 1710506096;
    assert_eq!(nmea_time(secs), "123456.00");
    assert_eq!(nmea_date(secs), "150324");
    assert_eq!(nmea_time(0), "000000.00");
    assert_eq!(nmea_date(0), "010170");
}

#[test]
fn verify_checksum_valid() {
    let sentence = b"$GPGGA,092750.000,5321.6802,N,00630.3372,W,1,8,1.03,61.7,M,55.2,M,,*76";
    assert!(verify_nmea_checksum(sentence));
}

#[test]
fn verify_checksum_invalid() {
    let sentence = b"$GPGGA,092750.000,5321.6802,N,00630.3372,W,1,8,1.03,61.7,M,55.2,M,,*00";
    assert!(!verify_nmea_checksum(sentence));
}

#[test]
fn verify_checksum_needs_two_digits() {
    assert!(!verify_nmea_checksum(b"$GPGGA*5"));
    assert!(!verify_nmea_checksum(b"GPGGA"));
}

#[test]
fn bcc_checksum_valid() {
    let gga = "$GPGGA,083552.00,3000.0000000,N,11900.0000000,E,1,08,1.0,0.000,M,100.000,M,,*57";
    assert!(bcc_checksum_compare_for_gga(gga));
}

#[test]
fn bcc_checksum_invalid_no_dollar() {
    assert!(!bcc_checksum_compare_for_gga("GPGGA,083552*AA"));
}

#[test]
fn bcc_checksum_invalid_no_star() {
    assert!(!bcc_checksum_compare_for_gga("$GPGGA,083552"));
}

#[test]
fn bcc_checksum_wrong() {
    let gga = "$GPGGA,083552.00,3000.0000000,N,11900.0000000,E,1,08,1.0,0.000,M,100.000,M,,*00";
    assert!(!bcc_checksum_compare_for_gga(gga));
}

#[test]
fn base64_known_values() {
    assert_eq!(base64_encode(b""), "");
    assert_eq!(base64_encode(b"f"), "Zg==");
    assert_eq!(base64_encode(b"fo"), "Zm8=");
    assert_eq!(base64_encode(b"foo"), "Zm9v");
    assert_eq!(base64_encode(b"user:pass"), "dXNlcjpwYXNz");
}

#[test]
fn nmea_transport_default_is_udp() {
    let t = NmeaTransport::default();
    assert_eq!(t, NmeaTransport::Udp { host: "127.0.0.1".to_owned(), port: 10110 });
}

#[test]
fn nmea_transport_from_config() {
    let serial = obj(vec![("transport", text("serial")), ("port", text("/dev/ttyUSB0")), ("baudRate", num(9600))]);
    assert_eq!(
        parse_transport(&serial),
        NmeaTransport::Serial { port: "/dev/ttyUSB0".to_owned(), baud_rate: 9600 }
    );
    let serial_default = obj(vec![("transport", text("serial"))]);
    assert_eq!(
        parse_transport(&serial_default),
        NmeaTransport::Serial { port: String::new(), baud_rate: 4800 }
    );
    let tcp = obj(vec![("transport", text("tcp")), ("host", text("10.0.0.1")), ("nmeaPort", num(2000))]);
    assert_eq!(parse_transport(&tcp), NmeaTransport::Tcp { host: "10.0.0.1".to_owned(), port: 2000 });
    let other = obj(vec![("transport", text("carrier pigeon")), ("nmeaPort", num(65536 + 7))]);
    assert_eq!(parse_transport(&other), NmeaTransport::Udp { host: "127.0.0.1".to_owned(), port: 7 });
    assert_eq!(parse_transport(&obj(vec![])), NmeaTransport::default());
}

#[test]
fn ntrip_request_text() {
    let r = ntrip_request("MOUNT", "FusionHub/1.0", "user", "pass");
    assert_eq!(
        r,
        "GET /MOUNT HTTP/1.1\r\nUser-Agent: NTRIP FusionHub/1.0\r\nNtrip-Version: Ntrip/2.0\r\nAuthorization: Basic dXNlcjpwYXNz\r\n\r\n"
    );
}

#[test]
fn ntrip_reply_check() {
    assert!(ntrip_reply_accepted(b"ICY 200 OK\r\n"));
    assert!(ntrip_reply_accepted(b"HTTP/1.1 200 OK\r\n"));
    assert!(!ntrip_reply_accepted(b"HTTP/1.1 401 Unauthorized\r\n"));
    assert!(!ntrip_reply_accepted(b"200 O"));
    assert!(!ntrip_reply_accepted(b""));
}

#[test]
fn ntrip_reconnect_policy() {
    let mut p = ReconnectPolicy::new();
    assert!(p.connection_failed(2));
    assert!(p.connection_failed(2));
    assert!(!p.connection_failed(2));
    p.connected();
    assert_eq!(p.attempt, 0);
    let mut unlimited = ReconnectPolicy::new();
    for _ in 0..10 {
        assert!(unlimited.connection_failed(0));
    }
}

#[test]
fn checksums_need_hex_digits() {
    assert!(!bcc_checksum_compare_for_gga("$*ZZ"));
    assert!(!verify_nmea_checksum(b"$*ZZ"));
    assert!(bcc_checksum_compare_for_gga("$*00"));
    assert!(verify_nmea_checksum(b"$*00"));
    assert!(!bcc_checksum_compare_for_gga("$A*+1"));
    assert!(bcc_checksum_compare_for_gga("$A*41"));
    assert!(bcc_checksum_compare_for_gga("$GPGGA*56"));
    assert!(verify_nmea_checksum(b"$j*6a"));
}
