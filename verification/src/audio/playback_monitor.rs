//! What the name of the default output device says about it: whether it is a
//! Bluetooth device, and whether it is a speaker or headphones.  Each
//! platform names its devices differently, so each has its own markers.
//! Querying the device itself happens outside the library.
use vstd::prelude::*;

use crate::text::{contains, str_contains, string_from, to_lowercase, unicode_lowercase};

verus! {

#[derive(Debug, Clone, PartialEq, Eq)]
pub struct AudioOutputInfo {
    pub device_name: String,
    pub is_bluetooth: bool,
    pub sample_rate: Option<u32>,
    pub device_type: String,
}

#[derive(Debug, Clone, Copy, PartialEq, Eq, Structural)]
pub enum OutputPlatform {
    MacOs,
    Windows,
    Linux,
}

/// Whether a lower-cased device name marks a Bluetooth device.
pub open spec fn bluetooth_name(platform: OutputPlatform, name: Seq<char>) -> bool {
    match platform {
        OutputPlatform::MacOs => contains(name, "airpods"@) || contains(name, "bluetooth"@)
            || contains(name, "wireless"@) || contains(name, "wh-"@) || contains(name, "beats"@)
            || contains(name, "bose"@) || contains(name, "jabra"@) || contains(name, "jbl"@)
            || contains(name, "anker"@),
        OutputPlatform::Windows => contains(name, "bluetooth"@) || contains(name, "wireless"@)
            || contains(name, "bt "@) || contains(name, "airpods"@) || contains(name, "wh-"@)
            || contains(name, "headset"@),
        OutputPlatform::Linux => contains(name, "bluez"@) || contains(name, "bluetooth"@)
            || contains(name, "wireless"@) || contains(name, "a2dp"@) || contains(name, "airpods"@)
            || contains(name, "wh-"@),
    }
}

/// The kind of device a lower-cased device name names.
pub open spec fn device_type_for(platform: OutputPlatform, name: Seq<char>) -> Seq<char> {
    match platform {
        OutputPlatform::MacOs => if contains(name, "speaker"@) || contains(name, "display"@) {
            "Speaker"@
        } else if contains(name, "headphone"@) || contains(name, "airpod"@) || contains(
            name,
            "earbud"@,
        ) {
            "Headphones"@
        } else {
            "Unknown"@
        },
        _ => if contains(name, "speaker"@) {
            "Speaker"@
        } else if contains(name, "headphone"@) || contains(name, "headset"@) {
            "Headphones"@
        } else {
            "Unknown"@
        },
    }
}

fn is_bluetooth_name(platform: OutputPlatform, name: &str) -> (r: bool)
    ensures
        r == bluetooth_name(platform, name@),
{
    match platform {
        OutputPlatform::MacOs => str_contains(name, "airpods") || str_contains(name, "bluetooth")
            || str_contains(name, "wireless") || str_contains(name, "wh-") || str_contains(
            name,
            "beats",
        ) || str_contains(name, "bose") || str_contains(name, "jabra") || str_contains(
            name,
            "jbl",
        ) || str_contains(name, "anker"),
        OutputPlatform::Windows => str_contains(name, "bluetooth") || str_contains(name, "wireless")
            || str_contains(name, "bt ") || str_contains(name, "airpods") || str_contains(
            name,
            "wh-",
        ) || str_contains(name, "headset"),
        OutputPlatform::Linux => str_contains(name, "bluez") || str_contains(name, "bluetooth")
            || str_contains(name, "wireless") || str_contains(name, "a2dp") || str_contains(
            name,
            "airpods",
        ) || str_contains(name, "wh-"),
    }
}

fn device_type_name(platform: OutputPlatform, name: &str) -> (r: String)
    ensures
        r@ == device_type_for(platform, name@),
{
    let speaker = match platform {
        OutputPlatform::MacOs => str_contains(name, "speaker") || str_contains(name, "display"),
        _ => str_contains(name, "speaker"),
    };
    let headphones = match platform {
        OutputPlatform::MacOs => str_contains(name, "headphone") || str_contains(name, "airpod")
            || str_contains(name, "earbud"),
        _ => str_contains(name, "headphone") || str_contains(name, "headset"),
    };
    if speaker {
        string_from("Speaker")
    } else if headphones {
        string_from("Headphones")
    } else {
        string_from("Unknown")
    }
}

/// Describes the default output device from its name and sample rate, by
/// the markers of the platform, matched against the lower-cased name.
pub fn output_info(device_name: String, sample_rate: Option<u32>, platform: OutputPlatform) -> (r:
    AudioOutputInfo)
    ensures
        r.device_name == device_name,
        r.sample_rate == sample_rate,
        r.is_bluetooth == bluetooth_name(platform, unicode_lowercase(device_name@)),
        r.device_type@ == device_type_for(platform, unicode_lowercase(device_name@)),
{
    let lower = to_lowercase(device_name.as_str());
    let is_bluetooth = is_bluetooth_name(platform, lower.as_str());
    let device_type = device_type_name(platform, lower.as_str());
    AudioOutputInfo { device_name, is_bluetooth, sample_rate, device_type }
}

} // verus!
