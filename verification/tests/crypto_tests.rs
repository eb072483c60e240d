use fusion::crypto::{client_error_message, status_times_valid, utc_time_valid, CHRONO_FIRST_DAY, CHRONO_LAST_DAY};
use fusion::crypto::{
    status_to_info, Crypto, LicenseCheck, LicenseConfig, LicenseInfo, LicensePayload, LicenseStatus, UtcTime,
};
use fusion::json::{JsonValue};

fn payload(features: &[&str]) -> LicensePayload {
    LicensePayload {
        customer: "ACME".to_owned(),
        product: "FusionHub".to_owned(),
        features: features.iter().map(|f| f.to_string()).collect(),
        license_key: "AAAA-BBBB".to_owned(),
        expires: Some(UtcTime { secs: 1_735_689_600, nanos: 0 }),
        lease_expires: None,
    }
}

#[test]
fn default_crypto() {
    let c = Crypto::default();
    assert!(c.features().is_empty());
}

#[test]
fn check_license_file_not_found() {
    let mut c = Crypto::new();
    let info = c.apply_status(&LicenseStatus::FileNotFound("/nonexistent/license.json".to_owned()), "MC-1");
    assert!(!info.valid);
    assert_eq!(c.last_info().status, "file_not_found");
    assert_eq!(info.error, "License file not found: /nonexistent/license.json");
    assert_eq!(info.machine_code, "MC-1");
}

#[test]
fn valid_license_grants_features() {
    let mut c = Crypto::new();
    let info = c.apply_status(&LicenseStatus::Valid { payload: payload(&["full_fusion", "recorder"]) }, "MC-1");
    assert!(info.valid);
    assert_eq!(info.status, "valid");
    assert_eq!(info.customer, "ACME");
    assert_eq!(info.product, "FusionHub");
    assert_eq!(info.license_key, "AAAA-BBBB");
    assert_eq!(info.expires.as_deref(), Some("2025-01-01T00:00:00+00:00"));
    assert_eq!(info.lease_expires, None);
    assert!(info.error.is_empty());
    assert!(c.has_feature("recorder"));
    assert!(!c.has_feature("export"));
    assert_eq!(c.features().len(), 2);

    // A later failure takes every feature away.
    let info = c.apply_status(&LicenseStatus::InvalidSignature, "MC-1");
    assert_eq!(info.status, "invalid_signature");
    assert_eq!(info.error, "License file has an invalid signature");
    assert!(c.features().is_empty());
    assert!(!c.has_feature("recorder"));
}

#[test]
fn grace_period_and_expiry_reports() {
    let lease = UtcTime { secs: 1_735_732_800, nanos: 0 }; // 2025-01-01 12:00:00 UTC
    let info = status_to_info(&LicenseStatus::ValidGracePeriod { payload: payload(&["a"]), lease_expired_at: lease }, "m");
    assert!(info.valid);
    assert_eq!(info.status, "grace_period");
    assert_eq!(info.lease_expires.as_deref(), Some("2025-01-01T12:00:00+00:00"));
    assert_eq!(info.error, "Lease expired at 2025-01-01 12:00, renew ASAP");

    let info = status_to_info(&LicenseStatus::Expired { expired_at: lease }, "m");
    assert!(!info.valid);
    assert_eq!(info.status, "expired");
    assert_eq!(info.error, "Expired on 2025-01-01");
    assert!(info.features.is_empty());

    let info = status_to_info(&LicenseStatus::LeaseExpired { lease_expired_at: lease }, "m");
    assert_eq!(info.status, "lease_expired");
    assert_eq!(info.error, "Lease expired at 2025-01-01 12:00");
}

#[test]
fn failure_reports() {
    let info = status_to_info(&LicenseStatus::InvalidMachine { actual: "OTHER".to_owned() }, "m");
    assert_eq!(info.status, "invalid_machine");
    assert_eq!(info.machine_code, "OTHER");
    assert_eq!(info.error, "License not valid for this machine");
    let info = status_to_info(&LicenseStatus::TokenNotFound, "m");
    assert_eq!(info.status, "token_not_found");
    assert_eq!(info.error, "No valid USB hardware token found");
    let info = status_to_info(&LicenseStatus::Error("boom".to_owned()), "m");
    assert_eq!(info.status, "error");
    assert_eq!(info.error, "boom");
    let info = LicenseInfo::client_failure("bad key");
    assert_eq!(info.status, "error");
    assert_eq!(info.error, "Failed to create license client: bad key");
    assert!(info.machine_code.is_empty());
    let d = LicenseInfo::default();
    assert!(!d.valid && d.status.is_empty() && d.features.is_empty());
}

#[test]
fn license_config_and_check_kind() {
    let cfg = LicenseConfig::from_json(&JsonValue::Object(vec![]));
    assert_eq!(cfg.license_file, "license.json");
    assert!(cfg.license_key.is_empty());
    assert!(cfg.server_url.is_none());
    assert!(matches!(cfg.check(), LicenseCheck::VerifyFile { license_file } if license_file == "license.json"));

    let v = JsonValue::Object(vec![
        ("LicenseFile".to_owned(), JsonValue::String("/opt/l.json".to_owned())),
        ("LicenseKey".to_owned(), JsonValue::String("KEY".to_owned())),
        ("ServerUrl".to_owned(), JsonValue::String("https://lic".to_owned())),
    ]);
    let cfg = LicenseConfig::from_json(&v);
    match cfg.check() {
        LicenseCheck::VerifyAndRefresh { license_file, license_key, server_url } => {
            assert_eq!(license_file, "/opt/l.json");
            assert_eq!(license_key, "KEY");
            assert_eq!(server_url, "https://lic");
        }
        other => panic!("unexpected {:?}", other),
    }

    // A server without a key verifies the file alone.
    let v = JsonValue::Object(vec![("ServerUrl".to_owned(), JsonValue::String("https://lic".to_owned()))]);
    assert!(matches!(LicenseConfig::from_json(&v).check(), LicenseCheck::VerifyFile { .. }));
}

#[test]
fn chrono_range_edges() {
    let first = (CHRONO_FIRST_DAY * 86400) as i64;
    let last_end = (CHRONO_LAST_DAY * 86400 + 86399) as i64;
    assert!(utc_time_valid(UtcTime { secs: first, nanos: 0 }));
    assert!(!utc_time_valid(UtcTime { secs: first - 1, nanos: 999_999_999 }));
    assert!(utc_time_valid(UtcTime { secs: last_end, nanos: 999_999_999 }));
    assert!(!utc_time_valid(UtcTime { secs: last_end + 1, nanos: 0 }));
    assert!(utc_time_valid(UtcTime { secs: 0, nanos: 0 }));
    assert!(!utc_time_valid(UtcTime { secs: i64::MIN, nanos: 0 }));
}

#[test]
fn status_times_must_be_representable() {
    assert!(status_times_valid(&LicenseStatus::TokenNotFound));
    assert!(status_times_valid(&LicenseStatus::Expired {
        expired_at: UtcTime { secs: 1_735_689_600, nanos: 0 }
    }));
    assert!(!status_times_valid(&LicenseStatus::Expired {
        expired_at: UtcTime { secs: i64::MAX, nanos: 0 }
    }));
    let mut p = payload(&["core"]);
    p.lease_expires = Some(UtcTime { secs: i64::MIN, nanos: 0 });
    assert!(!status_times_valid(&LicenseStatus::Valid { payload: p }));
}

#[test]
fn client_error_message_prefix() {
    assert_eq!(client_error_message("bad key"), "Failed to create license client: bad key");
}
