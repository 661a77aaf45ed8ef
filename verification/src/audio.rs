//! Input devices as the menu and the permission report show them.
use vstd::prelude::*;
use crate::text::{decimal, push_decimal, push_str, sorted_unique, strictly_sorted, texts};

verus! {

/// The input device names for the menu: sorted, without repeats.
pub fn device_names(names: Vec<String>) -> (r: Vec<String>)
    ensures
        strictly_sorted(texts(r@)),
        texts(r@).to_set() == texts(names@).to_set(),
{
    sorted_unique(names)
}

/// The default input device as the audio host describes it: its name
/// (`None`: it has none), and its default configuration (sample format,
/// channels, rate) or why that could not be read.
pub struct DeviceReport {
    pub name: Option<String>,
    pub config: Result<(String, u16, u32), String>,
}

/// The microphone line of the permission report.
pub open spec fn device_status_text(report: Option<DeviceReport>) -> Seq<char> {
    match report {
        None => "not available"@,
        Some(d) => {
            let name = match d.name {
                Some(n) => n@,
                None => "unknown"@,
            };
            match d.config {
                Ok((format, channels, rate)) => "available ("@ + name + "; "@ + format@ + ", "@
                    + decimal(channels as nat) + " ch, "@ + decimal(rate as nat) + " Hz)"@,
                Err(e) => "available ("@ + name + "; config error: "@ + e@ + ")"@,
            }
        },
    }
}

/// Describes the default input device.
pub fn input_device_status(report: Option<DeviceReport>) -> (r: String)
    ensures
        r@ == device_status_text(report),
{
    match report {
        None => "not available".to_string(),
        Some(d) => {
            let mut s = "available (".to_string();
            match &d.name {
                Some(n) => push_str(&mut s, n.as_str()),
                None => push_str(&mut s, "unknown"),
            }
            match &d.config {
                Ok((format, channels, rate)) => {
                    push_str(&mut s, "; ");
                    push_str(&mut s, format.as_str());
                    push_str(&mut s, ", ");
                    push_decimal(&mut s, *channels as u64);
                    push_str(&mut s, " ch, ");
                    push_decimal(&mut s, *rate as u64);
                    push_str(&mut s, " Hz)");
                },
                Err(e) => {
                    push_str(&mut s, "; config error: ");
                    push_str(&mut s, e.as_str());
                    push_str(&mut s, ")");
                },
            }
            s
        },
    }
}

} // verus!
