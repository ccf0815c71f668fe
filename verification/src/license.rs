//! Licence requests: when a trial may be issued, how long it lasts, and the
//! markers that remember a self-issued trial.
use vstd::prelude::*;
use crate::text::{decimal, eq_ignore_ascii_case_spec, push_decimal, push_str, str_eq_ignore_ascii_case, str_equal, string_of};

verus! {

/// A purchasable bundle of features.
#[derive(Debug, Clone, PartialEq, Eq)]
pub struct LicenseBundleInfo {
    pub key: String,
    pub name: String,
    pub description: String,
    pub features: Vec<String>,
    pub price_usd: u32,
    pub billing: String,
}

/// A licence tier.
#[derive(Debug, Clone, PartialEq, Eq)]
pub struct LicenseTierInfo {
    pub key: String,
    pub name: String,
    pub max_devices: u32,
    pub price_usd: u32,
    pub billing: String,
}

/// A trial request: its length in days and the bundles it covers.
#[derive(Debug, Clone, PartialEq, Eq)]
pub struct TrialRequest {
    pub duration_days: Option<i64>,
    pub bundles: Option<Vec<String>>,
}

/// A licence file's JSON to import.
#[derive(Debug, Clone, PartialEq, Eq)]
pub struct ImportLicenseRequest {
    pub license_json: String,
}

/// Activates this device, optionally named.
#[derive(Debug, Clone, PartialEq, Eq)]
pub struct ActivateDeviceRequest {
    pub device_name: Option<String>,
}

/// Activates a licence key on this device.
#[derive(Debug, Clone, PartialEq, Eq)]
pub struct ActivateKeyRequest {
    pub license_key: String,
    pub device_name: Option<String>,
}

/// Frees an activated device.
#[derive(Debug, Clone, PartialEq, Eq)]
pub struct DeactivateDeviceRequest {
    pub fingerprint_hash: String,
}

/// The days of a trial: 14 by default, within `1 ..= max_days`.
pub fn trial_days(request: &TrialRequest, max_days: i64) -> (r: i64)
    requires
        max_days >= 1,
    ensures
        r == ({
            let d = match request.duration_days { Some(d) => d, None => 14 };
            if d < 1 { 1 } else if d > max_days { max_days } else { d }
        }),
        1 <= r <= max_days,
{
    let d = match request.duration_days { Some(d) => d, None => 14 };
    if d < 1 { 1 } else if d > max_days { max_days } else { d }
}

/// The bundles a trial covers: those requested, else none.
pub fn trial_bundles(request: &TrialRequest) -> (r: Vec<String>)
    ensures
        match request.bundles { Some(b) => r@ == b@, None => r@.len() == 0 },
{
    match &request.bundles {
        Some(b) => b.clone(),
        None => Vec::new(),
    }
}

/// `Trial created for <days> day(s)`.
pub fn trial_message(days: i64) -> (r: String)
    requires
        days >= 0,
    ensures
        r@ == "Trial created for "@ + decimal(days as nat) + " day(s)"@,
{
    let mut v: Vec<char> = Vec::new();
    push_str(&mut v, "Trial created for ");
    push_decimal(&mut v, days as u64);
    push_str(&mut v, " day(s)");
    string_of(v.as_slice())
}

/// The words that switch the local trial issuer on.
pub open spec fn is_on_word(v: Seq<char>) -> bool {
    v == "1"@ || eq_ignore_ascii_case_spec(v, "true"@) || eq_ignore_ascii_case_spec(v, "yes"@)
        || eq_ignore_ascii_case_spec(v, "on"@)
}

/// Whether this server issues trials itself: the issuer setting is on, or the
/// development mode setting is present.
pub fn trial_issuer_enabled(issuer_setting: Option<&str>, dev_mode_set: bool) -> (r: bool)
    ensures
        r == ((issuer_setting matches Some(v) && is_on_word(v@)) || dev_mode_set),
{
    let on = match issuer_setting {
        Some(v) => str_equal(v, "1") || str_eq_ignore_ascii_case(v, "true") || str_eq_ignore_ascii_case(v, "yes")
            || str_eq_ignore_ascii_case(v, "on"),
        None => false,
    };
    on || dev_mode_set
}

/// Why no trial is offered, if one is not.
pub open spec fn spec_trial_unavailable(
    license_valid: bool,
    status: Seq<char>,
    issuer_enabled: bool,
    already_used: bool,
) -> Option<Seq<char>> {
    if license_valid {
        Some("license_active"@)
    } else if status == "unavailable"@ {
        Some("license_unavailable"@)
    } else if !issuer_enabled {
        Some("trial_issuer_disabled"@)
    } else if already_used {
        Some("trial_already_used"@)
    } else {
        None
    }
}

/// Whether a trial is offered, and if not, why.
pub fn trial_unavailable_reason(license_valid: bool, status: &str, issuer_enabled: bool, already_used: bool) -> (r: Option<&'static str>)
    ensures
        match r {
            Some(t) => spec_trial_unavailable(license_valid, status@, issuer_enabled, already_used) == Some(t@),
            None => spec_trial_unavailable(license_valid, status@, issuer_enabled, already_used) is None,
        },
{
    if license_valid {
        Some("license_active")
    } else if str_equal(status, "unavailable") {
        Some("license_unavailable")
    } else if !issuer_enabled {
        Some("trial_issuer_disabled")
    } else if already_used {
        Some("trial_already_used")
    } else {
        None
    }
}

/// Why a self-issued trial is refused.
#[derive(Debug, Clone, Copy, PartialEq, Eq, Structural)]
pub enum SelfTrialRefusal {
    /// A valid licence is active.
    LicenseActive,
    /// The issuer is off.
    IssuerDisabled,
    /// The user or the device already had one.
    AlreadyUsed,
}

impl SelfTrialRefusal {
    /// The error code and message the refusal is answered with.
    pub fn code_and_message(&self) -> (r: (&'static str, &'static str))
        ensures
            match *self {
                SelfTrialRefusal::LicenseActive => r.0@ == "license_active"@
                    && r.1@ == "A valid license is already active for this device."@,
                SelfTrialRefusal::IssuerDisabled => r.0@ == "trial_issuer_disabled"@
                    && r.1@ == "Trial issuance is disabled on this server."@,
                SelfTrialRefusal::AlreadyUsed => r.0@ == "trial_already_used"@
                    && r.1@ == "A trial has already been issued for this user or device."@,
            },
    {
        match self {
            SelfTrialRefusal::LicenseActive => ("license_active", "A valid license is already active for this device."),
            SelfTrialRefusal::IssuerDisabled => ("trial_issuer_disabled", "Trial issuance is disabled on this server."),
            SelfTrialRefusal::AlreadyUsed => ("trial_already_used", "A trial has already been issued for this user or device."),
        }
    }
}

/// A user may issue themselves one trial, when no licence is active and the
/// issuer is on.
pub open spec fn spec_self_trial(license_valid: bool, issuer_enabled: bool, already_used: bool) -> Result<(), SelfTrialRefusal> {
    if license_valid {
        Err(SelfTrialRefusal::LicenseActive)
    } else if !issuer_enabled {
        Err(SelfTrialRefusal::IssuerDisabled)
    } else if already_used {
        Err(SelfTrialRefusal::AlreadyUsed)
    } else {
        Ok(())
    }
}

pub fn self_trial_check(license_valid: bool, issuer_enabled: bool, already_used: bool) -> (r: Result<(), SelfTrialRefusal>)
    ensures
        r == spec_self_trial(license_valid, issuer_enabled, already_used),
{
    if license_valid {
        Err(SelfTrialRefusal::LicenseActive)
    } else if !issuer_enabled {
        Err(SelfTrialRefusal::IssuerDisabled)
    } else if already_used {
        Err(SelfTrialRefusal::AlreadyUsed)
    } else {
        Ok(())
    }
}

/// The reason of a self-trial refusal, as the entitlements report it.
pub open spec fn refusal_reason(r: SelfTrialRefusal) -> Seq<char> {
    match r {
        SelfTrialRefusal::LicenseActive => "license_active"@,
        SelfTrialRefusal::IssuerDisabled => "trial_issuer_disabled"@,
        SelfTrialRefusal::AlreadyUsed => "trial_already_used"@,
    }
}

/// What the entitlements promise, a self-issued trial keeps: when a trial is
/// offered, issuing it is not refused; when issuing it is refused, no trial
/// was offered, and for the same reason unless the licence service is
/// unavailable.
pub proof fn offered_trials_can_be_issued(license_valid: bool, status: Seq<char>, issuer_enabled: bool, already_used: bool)
    ensures
        spec_trial_unavailable(license_valid, status, issuer_enabled, already_used) is None
            ==> spec_self_trial(license_valid, issuer_enabled, already_used) is Ok,
        spec_self_trial(license_valid, issuer_enabled, already_used) is Err
            ==> spec_trial_unavailable(license_valid, status, issuer_enabled, already_used) is Some,
        status != "unavailable"@ ==> (spec_self_trial(license_valid, issuer_enabled, already_used) matches Err(e)
            ==> spec_trial_unavailable(license_valid, status, issuer_enabled, already_used) == Some(refusal_reason(e))),
{
}

/// The setting that marks a user's self-issued trial.
pub fn trial_subject_key(subject: &str) -> (r: String)
    ensures
        r@ == "trial_self_issued:subject:"@ + subject@,
{
    let mut v: Vec<char> = Vec::new();
    push_str(&mut v, "trial_self_issued:subject:");
    push_str(&mut v, subject);
    string_of(v.as_slice())
}

/// The setting that marks a device's self-issued trial.
pub fn trial_device_key(device_hash: Option<&str>) -> (r: Option<String>)
    ensures
        match device_hash {
            Some(h) => r matches Some(k) && k@ == "trial_self_issued:device:"@ + h@,
            None => r is None,
        },
{
    match device_hash {
        Some(h) => {
            let mut v: Vec<char> = Vec::new();
            push_str(&mut v, "trial_self_issued:device:");
            push_str(&mut v, h);
            Some(string_of(v.as_slice()))
        },
        None => None,
    }
}

} // verus!
