//! The permission report: what macOS says of input monitoring, accessibility
//! and the microphone, as the `--check` output shows it.
use vstd::prelude::*;

verus! {

/// The input-monitoring status for the answer of `IOHIDCheckAccess`
/// (`None`: not on macOS).
pub open spec fn input_monitoring_text(access: Option<i32>) -> Seq<char> {
    match access {
        None => "unsupported"@,
        Some(code) => if code == 0 {
            "granted"@
        } else if code == 1 {
            "denied"@
        } else {
            "unknown"@
        },
    }
}

/// Input monitoring, from the access check's code.
pub fn input_monitoring_status(access: Option<i32>) -> (r: &'static str)
    ensures
        r@ == input_monitoring_text(access),
{
    match access {
        None => "unsupported",
        Some(0) => "granted",
        Some(1) => "denied",
        Some(_) => "unknown",
    }
}

/// The accessibility status for the answer of `AXIsProcessTrusted`
/// (`None`: not on macOS).
pub open spec fn accessibility_text(trusted: Option<bool>) -> Seq<char> {
    match trusted {
        None => "unsupported"@,
        Some(true) => "granted"@,
        Some(false) => "not granted"@,
    }
}

/// Accessibility, from whether the process is trusted.
pub fn accessibility_status(trusted: Option<bool>) -> (r: &'static str)
    ensures
        r@ == accessibility_text(trusted),
{
    match trusted {
        None => "unsupported",
        Some(true) => "granted",
        Some(false) => "not granted",
    }
}

/// The microphone, as the input-device report gives it (`None`: not on
/// macOS).
pub fn microphone_status(device_report: Option<String>) -> (r: String)
    ensures
        r@ == match device_report {
            Some(s) => s@,
            None => "unsupported"@,
        },
{
    match device_report {
        Some(s) => s,
        None => "unsupported".to_string(),
    }
}

} // verus!
