//! Sound devices.
use vstd::prelude::*;

use crate::text::{chars_of, starts_with, starts_with_str};

verus! {

/// Sound information: the High Definition Audio devices.
#[derive(Debug, Clone)]
pub struct AudioInfo {
    pub devices: Vec<AudioDevice>,
}

impl Default for AudioInfo {
    fn default() -> (r: Self)
        ensures
            r.devices@.len() == 0,
    {
        AudioInfo { devices: Vec::new() }
    }
}

/// One sound device.
#[derive(Debug, Clone)]
pub struct AudioDevice {
    /// Device name.
    pub name: String,
    /// Manufacturer.
    pub manufacturer: String,
    /// Hardware id.
    pub device_id: String,
}

impl Default for AudioDevice {
    fn default() -> (r: Self)
        ensures
            r.name@ == "未知"@,
            r.manufacturer@ == "未知"@,
            r.device_id@ == "未知"@,
    {
        AudioDevice {
            name: String::from_str("未知"),
            manufacturer: String::from_str("未知"),
            device_id: String::from_str("未知"),
        }
    }
}

/// Only High Definition Audio devices are listed: their instance id starts
/// with `HDAUDIO\`.
pub fn is_hd_audio_instance(instance_id: &str) -> (r: bool)
    ensures
        r == starts_with(instance_id@, "HDAUDIO\\"@),
{
    let c = chars_of(instance_id);
    starts_with_str(c.as_slice(), "HDAUDIO\\")
}

/// The listed device from its registry properties: the description, else the
/// friendly name, else `"未知设备"`; the manufacturer, else `"未知制造商"`; the
/// hardware id, else the empty string.
pub fn audio_device(
    description: Option<String>,
    friendly_name: Option<String>,
    manufacturer: Option<String>,
    hardware_id: Option<String>,
) -> (r: AudioDevice)
    ensures
        r.name@ == (match (description, friendly_name) {
            (Some(d), _) => d@,
            (None, Some(f)) => f@,
            (None, None) => "未知设备"@,
        }),
        r.manufacturer@ == (match manufacturer {
            Some(m) => m@,
            None => "未知制造商"@,
        }),
        r.device_id@ == (match hardware_id {
            Some(h) => h@,
            None => Seq::<char>::empty(),
        }),
{
    let name = match (description, friendly_name) {
        (Some(d), _) => d,
        (None, Some(f)) => f,
        (None, None) => String::from_str("未知设备"),
    };
    let manufacturer = match manufacturer {
        Some(m) => m,
        None => String::from_str("未知制造商"),
    };
    let device_id = match hardware_id {
        Some(h) => h,
        None => String::new(),
    };
    AudioDevice { name, manufacturer, device_id }
}

} // verus!
