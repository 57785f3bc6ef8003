//! Motherboard and BIOS.
use vstd::prelude::*;

use crate::text::{chars_of, contains, contains_str};

verus! {

/// Motherboard information.
#[derive(Debug, Clone)]
pub struct MotherboardInfo {
    /// Manufacturer.
    pub manufacturer: String,
    /// Product name.
    pub product_name: String,
    /// Serial number.
    pub serial_number: String,
    /// Chipset.
    pub chipset: String,
    /// BIOS vendor.
    pub bios_vendor: String,
    /// BIOS version.
    pub bios_version: String,
    /// BIOS date.
    pub bios_date: String,
    /// BIOS serial number.
    pub bios_serial: String,
}

impl Default for MotherboardInfo {
    fn default() -> (r: Self)
        ensures
            r.manufacturer@ == "未知"@,
            r.product_name@ == "未知"@,
            r.serial_number@ == "未知"@,
            r.chipset@ == "未知"@,
            r.bios_vendor@ == "未知"@,
            r.bios_version@ == "未知"@,
            r.bios_date@ == "未知"@,
            r.bios_serial@ == "未知"@,
    {
        MotherboardInfo {
            manufacturer: String::from_str("未知"),
            product_name: String::from_str("未知"),
            serial_number: String::from_str("未知"),
            chipset: String::from_str("未知"),
            bios_vendor: String::from_str("未知"),
            bios_version: String::from_str("未知"),
            bios_date: String::from_str("未知"),
            bios_serial: String::from_str("未知"),
        }
    }
}

/// The device name is that of a chipset core device (LPC controller, ISA
/// bridge or SMBus controller).
pub open spec fn is_chipset(n: Seq<char>) -> bool {
    ||| contains(n, "LPC Controller"@)
    ||| contains(n, "LPC"@)
    ||| contains(n, "ISA Bridge"@)
    ||| contains(n, "SMBus Controller"@)
}

/// Whether a Plug and Play device name is that of a chipset core device.
pub fn is_chipset_name(name: &str) -> (r: bool)
    ensures
        r == is_chipset(name@),
{
    let n = chars_of(name);
    contains_str(n.as_slice(), "LPC Controller") || contains_str(n.as_slice(), "LPC")
        || contains_str(n.as_slice(), "ISA Bridge") || contains_str(
        n.as_slice(),
        "SMBus Controller",
    )
}

} // verus!
