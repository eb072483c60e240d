//! Licensing: what a license check reports, the features a valid license
//! grants, and the settings that say how a license is to be checked.
//!
//! The verification itself is made by a license client; this module turns its
//! verdict into the report the rest of the hub reads and keeps the features
//! that the last verdict granted.

use vstd::prelude::*;
use crate::json::JsonValue;
use crate::nmea::days_from_civil;
use crate::text::concat_str;

verus! {

/// A UTC instant as seconds since the Unix epoch and nanoseconds within the
/// second (at least one second's worth during a leap second).
#[derive(Clone, Copy, Debug, PartialEq, Eq)]
pub struct UtcTime {
    pub secs: i64,
    pub nanos: u32,
}

/// `t` is an instant that chrono's `DateTime<Utc>` can hold: its day lies
/// between January 1st of year -262143 and December 31st of year 262142,
/// and a nanosecond count of a second or more falls on the last second of a
/// minute.
pub open spec fn chrono_utc_time(t: UtcTime) -> bool {
    let days = t.secs as int / 86400;
    let second_of_day = t.secs as int % 86400;
    &&& days_from_civil(-262143, 1, 1) <= days <= days_from_civil(262142, 12, 31)
    &&& (t.nanos < 1_000_000_000 || (t.nanos < 2_000_000_000 && second_of_day % 60 == 59))
}

/// The text that chrono's `DateTime::to_rfc3339` gives for the instant
/// `secs`, `nanos` in UTC.
pub uninterp spec fn rfc3339_text(secs: i64, nanos: u32) -> Seq<char>;

/// The text that chrono's `DateTime::format` gives for the instant `secs`,
/// `nanos` in UTC under the strftime pattern `fmt`.
pub uninterp spec fn strftime_text(secs: i64, nanos: u32, fmt: Seq<char>) -> Seq<char>;

/// Formats an instant as RFC 3339 text.
///
/// Builds the `DateTime<Utc>` with `DateTime::from_timestamp`, which gives
/// one for every instant that `chrono_utc_time` admits, and calls
/// `to_rfc3339`. The contract claims that the text depends on the instant
/// alone.
#[verifier::external_body]
fn format_dt(t: UtcTime) -> (r: String)
    requires
        chrono_utc_time(t),
    ensures
        r@ == rfc3339_text(t.secs, t.nanos),
{
    chrono::DateTime::from_timestamp(t.secs, t.nanos).unwrap().to_rfc3339()
}

/// Formats an instant by a strftime pattern.
///
/// Builds the `DateTime<Utc>` with `DateTime::from_timestamp` and calls
/// `format`, turning the result into a `String`. Only the two patterns this
/// crate uses are admitted; both are valid, so the formatting cannot fail.
/// The contract claims that the text depends on the instant and the pattern
/// alone.
#[verifier::external_body]
fn format_pattern(t: UtcTime, fmt: &str) -> (r: String)
    requires
        chrono_utc_time(t),
        fmt@ == "%Y-%m-%d"@ || fmt@ == "%Y-%m-%d %H:%M"@,
    ensures
        r@ == strftime_text(t.secs, t.nanos, fmt@),
{
    chrono::DateTime::from_timestamp(t.secs, t.nanos).unwrap().format(fmt).to_string()
}

/// What a signed license states.
#[derive(Debug)]
pub struct LicensePayload {
    pub customer: String,
    pub product: String,
    pub features: Vec<String>,
    pub license_key: String,
    pub expires: Option<UtcTime>,
    pub lease_expires: Option<UtcTime>,
}

/// The verdict of a license client on a license.
#[derive(Debug)]
pub enum LicenseStatus {
    Valid { payload: LicensePayload },
    ValidGracePeriod { payload: LicensePayload, lease_expired_at: UtcTime },
    Expired { expired_at: UtcTime },
    LeaseExpired { lease_expired_at: UtcTime },
    InvalidMachine { actual: String },
    InvalidSignature,
    TokenNotFound,
    FileNotFound(String),
    Error(String),
}

/// Every instant in `status` is one that chrono can hold.
pub open spec fn status_times_ok(status: LicenseStatus) -> bool {
    let payload_ok = |p: LicensePayload|
        (p.expires matches Some(t) ==> chrono_utc_time(t)) && (p.lease_expires matches Some(t)
            ==> chrono_utc_time(t));
    match status {
        LicenseStatus::Valid { payload } => payload_ok(payload),
        LicenseStatus::ValidGracePeriod { payload, lease_expired_at } => payload_ok(payload)
            && chrono_utc_time(lease_expired_at),
        LicenseStatus::Expired { expired_at } => chrono_utc_time(expired_at),
        LicenseStatus::LeaseExpired { lease_expired_at } => chrono_utc_time(lease_expired_at),
        _ => true,
    }
}

/// The first day (counted from the epoch) that chrono can hold: January 1st
/// of year -262143.
pub const CHRONO_FIRST_DAY: i128 = -96465292;
/// The last day (counted from the epoch) that chrono can hold: December
/// 31st of year 262142.
pub const CHRONO_LAST_DAY: i128 = 95026236;

/// Whether chrono can hold the instant `t`.
pub fn utc_time_valid(t: UtcTime) -> (r: bool)
    ensures
        r == chrono_utc_time(t),
{
    proof {
        assert(days_from_civil(-262143, 1, 1) == CHRONO_FIRST_DAY);
        assert(days_from_civil(262142, 12, 31) == CHRONO_LAST_DAY);
    }
    let k: i128 = 140737488355328;
    let shifted: i128 = t.secs as i128 + 86400 * k;
    let q: i128 = shifted / 86400;
    let rem: i128 = shifted % 86400;
    let days: i128 = q - k;
    proof {
        vstd::arithmetic::div_mod::lemma_fundamental_div_mod(shifted as int, 86400);
        vstd::arithmetic::div_mod::lemma_mod_bound(shifted as int, 86400);
        assert(t.secs as int == days * 86400 + rem);
        vstd::arithmetic::div_mod::lemma_fundamental_div_mod_converse(t.secs as int, 86400, days as int, rem as int);
    }
    let day_ok = CHRONO_FIRST_DAY <= days && days <= CHRONO_LAST_DAY;
    let nano_ok = t.nanos < 1_000_000_000 || (t.nanos < 2_000_000_000 && rem % 60 == 59);
    day_ok && nano_ok
}

/// Whether every instant in `status` is one that chrono can hold.
pub fn status_times_valid(status: &LicenseStatus) -> (r: bool)
    ensures
        r == status_times_ok(*status),
{
    let payload_valid = |p: &LicensePayload| -> (b: bool)
        ensures
            b == ((p.expires matches Some(t) ==> chrono_utc_time(t)) && (p.lease_expires matches Some(
                t,
            ) ==> chrono_utc_time(t))),
        {
            let e = match p.expires {
                Some(t) => utc_time_valid(t),
                None => true,
            };
            let l = match p.lease_expires {
                Some(t) => utc_time_valid(t),
                None => true,
            };
            e && l
        };
    match status {
        LicenseStatus::Valid { payload } => payload_valid(payload),
        LicenseStatus::ValidGracePeriod { payload, lease_expired_at } => payload_valid(payload)
            && utc_time_valid(*lease_expired_at),
        LicenseStatus::Expired { expired_at } => utc_time_valid(*expired_at),
        LicenseStatus::LeaseExpired { lease_expired_at } => utc_time_valid(*lease_expired_at),
        _ => true,
    }
}

/// The report of a license check.
#[derive(Debug, Clone)]
pub struct LicenseInfo {
    pub valid: bool,
    pub status: String,
    pub customer: String,
    pub product: String,
    pub features: Vec<String>,
    pub expires: Option<String>,
    pub lease_expires: Option<String>,
    pub machine_code: String,
    pub license_key: String,
    pub error: String,
}

/// A license report as text.
pub struct LicenseInfoView {
    pub valid: bool,
    pub status: Seq<char>,
    pub customer: Seq<char>,
    pub product: Seq<char>,
    pub features: Seq<Seq<char>>,
    pub expires: Option<Seq<char>>,
    pub lease_expires: Option<Seq<char>>,
    pub machine_code: Seq<char>,
    pub license_key: Seq<char>,
    pub error: Seq<char>,
}

/// The texts of a list of strings.
pub open spec fn texts(v: Seq<String>) -> Seq<Seq<char>> {
    v.map_values(|s: String| s@)
}

/// The text of an optional string.
pub open spec fn opt_text(o: Option<String>) -> Option<Seq<char>> {
    match o {
        Some(s) => Some(s@),
        None => None,
    }
}

impl View for LicenseInfo {
    type V = LicenseInfoView;

    open spec fn view(&self) -> LicenseInfoView {
        LicenseInfoView {
            valid: self.valid,
            status: self.status@,
            customer: self.customer@,
            product: self.product@,
            features: texts(self.features@),
            expires: opt_text(self.expires),
            lease_expires: opt_text(self.lease_expires),
            machine_code: self.machine_code@,
            license_key: self.license_key@,
            error: self.error@,
        }
    }
}

/// A failed report: not valid, with the given status, machine code and
/// error, and nothing else.
pub open spec fn failed_report(status: Seq<char>, machine_code: Seq<char>, error: Seq<char>) -> LicenseInfoView {
    LicenseInfoView {
        valid: false,
        status,
        customer: seq![],
        product: seq![],
        features: seq![],
        expires: None,
        lease_expires: None,
        machine_code,
        license_key: seq![],
        error,
    }
}

/// The RFC 3339 text of an optional instant.
pub open spec fn opt_rfc3339(t: Option<UtcTime>) -> Option<Seq<char>> {
    match t {
        Some(t) => Some(rfc3339_text(t.secs, t.nanos)),
        None => None,
    }
}

/// A valid report on `payload`, with the given status, lease end and error.
pub open spec fn valid_report(
    payload: LicensePayload,
    status: Seq<char>,
    lease_expires: Option<Seq<char>>,
    machine_code: Seq<char>,
    error: Seq<char>,
) -> LicenseInfoView {
    LicenseInfoView {
        valid: true,
        status,
        customer: payload.customer@,
        product: payload.product@,
        features: texts(payload.features@),
        expires: opt_rfc3339(payload.expires),
        lease_expires,
        machine_code,
        license_key: payload.license_key@,
        error,
    }
}

/// The report on a verdict, for the machine whose code is `mc`.
pub open spec fn status_report(status: LicenseStatus, mc: Seq<char>) -> LicenseInfoView {
    match status {
        LicenseStatus::Valid { payload } => valid_report(
            payload,
            "valid"@,
            opt_rfc3339(payload.lease_expires),
            mc,
            seq![],
        ),
        LicenseStatus::ValidGracePeriod { payload, lease_expired_at } => valid_report(
            payload,
            "grace_period"@,
            Some(rfc3339_text(lease_expired_at.secs, lease_expired_at.nanos)),
            mc,
            "Lease expired at "@ + strftime_text(
                lease_expired_at.secs,
                lease_expired_at.nanos,
                "%Y-%m-%d %H:%M"@,
            ) + ", renew ASAP"@,
        ),
        LicenseStatus::Expired { expired_at } => failed_report(
            "expired"@,
            mc,
            "Expired on "@ + strftime_text(expired_at.secs, expired_at.nanos, "%Y-%m-%d"@),
        ),
        LicenseStatus::LeaseExpired { lease_expired_at } => failed_report(
            "lease_expired"@,
            mc,
            "Lease expired at "@ + strftime_text(
                lease_expired_at.secs,
                lease_expired_at.nanos,
                "%Y-%m-%d %H:%M"@,
            ),
        ),
        LicenseStatus::InvalidMachine { actual } => failed_report(
            "invalid_machine"@,
            actual@,
            "License not valid for this machine"@,
        ),
        LicenseStatus::InvalidSignature => failed_report(
            "invalid_signature"@,
            mc,
            "License file has an invalid signature"@,
        ),
        LicenseStatus::TokenNotFound => failed_report(
            "token_not_found"@,
            mc,
            "No valid USB hardware token found"@,
        ),
        LicenseStatus::FileNotFound(path) => failed_report(
            "file_not_found"@,
            mc,
            "License file not found: "@ + path@,
        ),
        LicenseStatus::Error(msg) => failed_report("error"@, mc, msg@),
    }
}

/// A copy of a list of strings.
fn copy_strings(v: &Vec<String>) -> (r: Vec<String>)
    ensures
        texts(r@) == texts(v@),
{
    let mut r: Vec<String> = Vec::new();
    let mut i: usize = 0;
    while i < v.len()
        invariant
            i <= v@.len(),
            texts(r@) == texts(v@.take(i as int)),
        decreases v.len() - i,
    {
        let item = v[i].clone();
        let ghost prev = r@;
        r.push(item);
        assert(v@.take(i + 1) =~= v@.take(i as int).push(v@[i as int]));
        assert(texts(r@) =~= texts(prev).push(item@));
        assert(texts(v@.take(i + 1)) =~= texts(v@.take(i as int)).push(v@[i as int]@));
        i = i + 1;
    }
    assert(v@.take(i as int) =~= v@);
    r
}

/// The RFC 3339 text of an optional instant.
fn format_opt(t: Option<UtcTime>) -> (r: Option<String>)
    requires
        t matches Some(u) ==> chrono_utc_time(u),
    ensures
        opt_text(r) == opt_rfc3339(t),
{
    match t {
        Some(u) => Some(format_dt(u)),
        None => None,
    }
}

impl LicenseInfo {
    /// A copy of this report.
    pub fn duplicate(&self) -> (r: LicenseInfo)
        ensures
            r@ == self@,
    {
        LicenseInfo {
            valid: self.valid,
            status: self.status.clone(),
            customer: self.customer.clone(),
            product: self.product.clone(),
            features: copy_strings(&self.features),
            expires: match &self.expires {
                Some(s) => Some(s.clone()),
                None => None,
            },
            lease_expires: match &self.lease_expires {
                Some(s) => Some(s.clone()),
                None => None,
            },
            machine_code: self.machine_code.clone(),
            license_key: self.license_key.clone(),
            error: self.error.clone(),
        }
    }

    /// A failed report with the given status, machine code and error.
    fn failed(status: &str, machine_code: &str, error: String) -> (r: LicenseInfo)
        ensures
            r@ == failed_report(status@, machine_code@, error@),
    {
        let r = LicenseInfo {
            valid: false,
            status: status.to_owned(),
            customer: String::new(),
            product: String::new(),
            features: Vec::new(),
            expires: None,
            lease_expires: None,
            machine_code: machine_code.to_owned(),
            license_key: String::new(),
            error,
        };
        assert(texts(r.features@) =~= seq![]);
        r
    }

    /// The report for a license client that could not be made, `cause`
    /// being the client's error: status `error`, the message
    /// `Failed to create license client: ` followed by the cause, and
    /// nothing else.
    pub fn client_failure(cause: &str) -> (r: LicenseInfo)
        ensures
            r@ == failed_report("error"@, seq![], "Failed to create license client: "@ + cause@),
    {
        proof {
            reveal_strlit("");
            assert(""@ =~= Seq::<char>::empty());
        }
        LicenseInfo::failed("error", "", client_error_message(cause))
    }
}

/// The message for a license client that could not be made: `Failed to
/// create license client: ` followed by the client's error.
pub fn client_error_message(cause: &str) -> (r: String)
    ensures
        r@ == "Failed to create license client: "@ + cause@,
{
    concat_str("Failed to create license client: ", cause)
}

impl Default for LicenseInfo {
    /// An empty report: not valid, every text empty.
    fn default() -> (r: Self)
        ensures
            r@ == failed_report(seq![], seq![], seq![]),
    {
        proof {
            reveal_strlit("");
            assert(""@ =~= Seq::<char>::empty());
        }
        let e = String::new();
        assert(e@ =~= Seq::<char>::empty());
        LicenseInfo::failed("", "", e)
    }
}

/// A valid report on `payload`.
fn valid_info(
    payload: &LicensePayload,
    status: &str,
    lease_expires: Option<String>,
    machine_code: &str,
    error: String,
) -> (r: LicenseInfo)
    requires
        payload.expires matches Some(t) ==> chrono_utc_time(t),
    ensures
        r@ == valid_report(*payload, status@, opt_text(lease_expires), machine_code@, error@),
{
    LicenseInfo {
        valid: true,
        status: status.to_owned(),
        customer: payload.customer.clone(),
        product: payload.product.clone(),
        features: copy_strings(&payload.features),
        expires: format_opt(payload.expires),
        lease_expires,
        machine_code: machine_code.to_owned(),
        license_key: payload.license_key.clone(),
        error,
    }
}

/// Turns a license client's verdict into a report, for the machine whose
/// code is `machine_code`.
pub fn status_to_info(status: &LicenseStatus, machine_code: &str) -> (r: LicenseInfo)
    requires
        status_times_ok(*status),
    ensures
        r@ == status_report(*status, machine_code@),
{
    match status {
        LicenseStatus::Valid { payload } => {
            let lease = format_opt(payload.lease_expires);
            valid_info(payload, "valid", lease, machine_code, String::new())
        },
        LicenseStatus::ValidGracePeriod { payload, lease_expired_at } => {
            let lease = format_dt(*lease_expired_at);
            let when = format_pattern(*lease_expired_at, "%Y-%m-%d %H:%M");
            let head = concat_str("Lease expired at ", when.as_str());
            let error = concat_str(head.as_str(), ", renew ASAP");
            valid_info(payload, "grace_period", Some(lease), machine_code, error)
        },
        LicenseStatus::Expired { expired_at } => {
            let when = format_pattern(*expired_at, "%Y-%m-%d");
            LicenseInfo::failed("expired", machine_code, concat_str("Expired on ", when.as_str()))
        },
        LicenseStatus::LeaseExpired { lease_expired_at } => {
            let when = format_pattern(*lease_expired_at, "%Y-%m-%d %H:%M");
            LicenseInfo::failed(
                "lease_expired",
                machine_code,
                concat_str("Lease expired at ", when.as_str()),
            )
        },
        LicenseStatus::InvalidMachine { actual } => LicenseInfo::failed(
            "invalid_machine",
            actual.as_str(),
            "License not valid for this machine".to_owned(),
        ),
        LicenseStatus::InvalidSignature => LicenseInfo::failed(
            "invalid_signature",
            machine_code,
            "License file has an invalid signature".to_owned(),
        ),
        LicenseStatus::TokenNotFound => LicenseInfo::failed(
            "token_not_found",
            machine_code,
            "No valid USB hardware token found".to_owned(),
        ),
        LicenseStatus::FileNotFound(path) => LicenseInfo::failed(
            "file_not_found",
            machine_code,
            concat_str("License file not found: ", path.as_str()),
        ),
        LicenseStatus::Error(msg) => LicenseInfo::failed("error", machine_code, msg.clone()),
    }
}


/// Holds the verdict of the last license check and the features it granted.
pub struct Crypto {
    features: Vec<String>,
    last_info: LicenseInfo,
}

/// The features that a report grants: its features when it is valid, none
/// otherwise.
pub open spec fn granted_features(info: LicenseInfoView) -> Seq<Seq<char>> {
    if info.valid {
        info.features
    } else {
        seq![]
    }
}

impl Crypto {
    /// The features held are always those that the last report grants.
    #[verifier::type_invariant]
    closed spec fn features_follow_report(&self) -> bool {
        texts(self.features@) == granted_features(self.last_info@)
    }

    /// The features held: whatever sequence of checks led here, those
    /// that the last report grants (the type invariant keeps them so).
    pub open spec fn spec_features(&self) -> Seq<Seq<char>> {
        granted_features(self.spec_last_info())
    }

    /// The report of the last check.
    pub closed spec fn spec_last_info(&self) -> LicenseInfoView {
        self.last_info@
    }

    /// No check made yet: an empty report and no features.
    pub fn new() -> (r: Self)
        ensures
            r.spec_features() == Seq::<Seq<char>>::empty(),
            r.spec_last_info() == failed_report(seq![], seq![], seq![]),
    {
        let features: Vec<String> = Vec::new();
        let last_info = LicenseInfo::default();
        assert(texts(features@) =~= Seq::<Seq<char>>::empty());
        Crypto { features, last_info }
    }

    /// Records the verdict of a license client, for the machine whose code
    /// is `machine_code`: the report becomes the last one, and the features
    /// it grants replace the ones held before.
    pub fn apply_status(&mut self, status: &LicenseStatus, machine_code: &str) -> (r: LicenseInfo)
        requires
            status_times_ok(*status),
        ensures
            r@ == status_report(*status, machine_code@),
            final(self).spec_last_info() == r@,
            final(self).spec_features() == granted_features(r@),
    {
        let info = status_to_info(status, machine_code);
        let features = if info.valid {
            copy_strings(&info.features)
        } else {
            let none: Vec<String> = Vec::new();
            assert(texts(none@) =~= Seq::<Seq<char>>::empty());
            none
        };
        *self = Crypto { features, last_info: info.duplicate() };
        info
    }

    /// The report of the last check.
    pub fn last_info(&self) -> (r: &LicenseInfo)
        ensures
            r@ == self.spec_last_info(),
    {
        &self.last_info
    }

    /// The features that the last check granted.
    pub fn features(&self) -> (r: &[String])
        ensures
            texts(r@) == granted_features(self.spec_last_info()),
    {
        proof {
            use_type_invariant(self);
        }
        self.features.as_slice()
    }

    /// Whether the last check granted `feature`.
    pub fn has_feature(&self, feature: &str) -> (r: bool)
        ensures
            r == self.spec_features().contains(feature@),
    {
        proof {
            use_type_invariant(self);
        }
        let mut i: usize = 0;
        while i < self.features.len()
            invariant
                i <= self.features@.len(),
                texts(self.features@) == self.spec_features(),
                forall|j: int| 0 <= j < i ==> self.features@[j]@ != feature@,
            decreases self.features.len() - i,
        {
            if crate::text::str_equals(self.features[i].as_str(), feature) {
                assert(self.spec_features()[i as int] == feature@);
                return true;
            }
            i = i + 1;
        }
        assert(!self.spec_features().contains(feature@)) by {
            if self.spec_features().contains(feature@) {
                let j = choose|j: int| 0 <= j < self.spec_features().len() && self.spec_features()[j] == feature@;
                assert(self.features@[j]@ == feature@);
            }
        }
        false
    }
}

impl Default for Crypto {
    fn default() -> (r: Self)
        ensures
            r.spec_features() == Seq::<Seq<char>>::empty(),
            r.spec_last_info() == failed_report(seq![], seq![], seq![]),
    {
        Crypto::new()
    }
}

/// `r` is a valid report on the machine `mc` that carries the license
/// `payload`: its customer, product, key and exactly its features, so
/// that it grants `feature` exactly when the license lists it.
pub open spec fn carries_license(r: LicenseInfoView, payload: LicensePayload, mc: Seq<char>, feature: Seq<char>) -> bool {
    &&& r.valid
    &&& r.features == texts(payload.features@)
    &&& r.customer == payload.customer@
    &&& r.product == payload.product@
    &&& r.license_key == payload.license_key@
    &&& r.machine_code == mc
    &&& granted_features(r).contains(feature) <==> exists|i: int|
        0 <= i < payload.features@.len() && #[trigger] payload.features@[i]@ == feature
}

proof fn lemma_valid_report_carries(payload: LicensePayload, status: Seq<char>, lease: Option<Seq<char>>, mc: Seq<char>, error: Seq<char>, feature: Seq<char>)
    ensures
        carries_license(valid_report(payload, status, lease, mc, error), payload, mc, feature),
{
    let r = valid_report(payload, status, lease, mc, error);
    if granted_features(r).contains(feature) {
        let i = choose|i: int| 0 <= i < r.features.len() && r.features[i] == feature;
        assert(payload.features@[i]@ == feature);
    }
    if exists|i: int| 0 <= i < payload.features@.len() && #[trigger] payload.features@[i]@ == feature {
        let i = choose|i: int| 0 <= i < payload.features@.len() && #[trigger] payload.features@[i]@ == feature;
        assert(r.features[i] == feature);
    }
}

/// A valid verdict, in or out of the lease's grace period, yields a valid
/// report that carries the license (its customer, product, key and exactly
/// its features, so a feature is granted exactly when the license lists
/// it); any other verdict grants no feature.
pub proof fn law_valid_reports_carry_license(status: LicenseStatus, mc: Seq<char>, feature: Seq<char>)
    ensures
        match status {
            LicenseStatus::Valid { payload } => carries_license(status_report(status, mc), payload, mc, feature),
            LicenseStatus::ValidGracePeriod { payload, .. } => carries_license(status_report(status, mc), payload, mc, feature),
            _ => !granted_features(status_report(status, mc)).contains(feature),
        },
{
    match status {
        LicenseStatus::Valid { payload } => {
            lemma_valid_report_carries(payload, "valid"@, opt_rfc3339(payload.lease_expires), mc, seq![], feature);
        },
        LicenseStatus::ValidGracePeriod { payload, lease_expired_at } => {
            lemma_valid_report_carries(
                payload,
                "grace_period"@,
                Some(rfc3339_text(lease_expired_at.secs, lease_expired_at.nanos)),
                mc,
                "Lease expired at "@ + strftime_text(
                    lease_expired_at.secs,
                    lease_expired_at.nanos,
                    "%Y-%m-%d %H:%M"@,
                ) + ", renew ASAP"@,
                feature,
            );
        },
        _ => {},
    }
}

/// A report is valid exactly when the verdict is a valid license, in or out
/// of its lease's grace period; only then does it grant features.
pub proof fn law_valid_verdicts(status: LicenseStatus, mc: Seq<char>)
    ensures
        status_report(status, mc).valid <==> (status is Valid || status is ValidGracePeriod),
        !(status is Valid || status is ValidGracePeriod) ==> granted_features(
            status_report(status, mc),
        ).len() == 0,
{
}

/// The settings of the `LicenseInfo` section of a configuration.
#[derive(Debug)]
pub struct LicenseConfig {
    pub license_file: String,
    pub license_key: String,
    pub server_url: Option<String>,
}

/// How a license is to be checked.
#[derive(Debug)]
pub enum LicenseCheck {
    /// Verify the license file and refresh its lease from the server.
    VerifyAndRefresh { license_file: String, license_key: String, server_url: String },
    /// Verify the license file alone.
    VerifyFile { license_file: String },
}

impl LicenseConfig {
    /// Reads the settings: the license file (`license.json` by default), the
    /// license key (empty by default) and the server, when one is named.
    pub fn from_json(value: &JsonValue) -> (r: Self)
        ensures
            r.license_file@ == match value.spec_str_field("LicenseFile"@) {
                Some(t) => t,
                None => "license.json"@,
            },
            r.license_key@ == match value.spec_str_field("LicenseKey"@) {
                Some(t) => t,
                None => seq![],
            },
            opt_text(r.server_url) == value.spec_str_field("ServerUrl"@),
    {
        proof {
            reveal_strlit("");
            assert(""@ =~= Seq::<char>::empty());
        }
        LicenseConfig {
            license_file: value.value_str("LicenseFile", "license.json"),
            license_key: value.value_str("LicenseKey", ""),
            server_url: match value.str_field("ServerUrl") {
                Some(t) => Some(t.to_owned()),
                None => None,
            },
        }
    }

    /// With a license key and a server the lease is refreshed from the
    /// server; otherwise the file alone is verified.
    pub fn check(&self) -> (r: LicenseCheck)
        ensures
            (self.license_key@.len() > 0 && self.server_url is Some) ==> (r matches LicenseCheck::VerifyAndRefresh { license_file, license_key, server_url } && license_file@
                == self.license_file@ && license_key@ == self.license_key@ && Some(server_url@)
                == opt_text(self.server_url)),
            !(self.license_key@.len() > 0 && self.server_url is Some) ==> (r matches LicenseCheck::VerifyFile { license_file } && license_file@ == self.license_file@),
    {
        match &self.server_url {
            Some(url) => {
                if !self.license_key.as_str().is_empty() {
                    return LicenseCheck::VerifyAndRefresh {
                        license_file: self.license_file.clone(),
                        license_key: self.license_key.clone(),
                        server_url: url.clone(),
                    };
                }
            },
            None => {},
        }
        LicenseCheck::VerifyFile { license_file: self.license_file.clone() }
    }
}

} // verus!
