//! Memory modules: the names of the SMBIOS memory types.
use vstd::prelude::*;

use crate::text::{chars_of, trim, trim_range};

verus! {

/// The name of an SMBIOS memory type code; `"未知"` for codes without one.
pub open spec fn memory_type_name(code: u32) -> Seq<char> {
    match code {
        1 => "Other"@,
        2 => "DRAM"@,
        3 => "Synchronous DRAM"@,
        4 => "Cache DRAM"@,
        5 => "EDO"@,
        6 => "EDRAM"@,
        7 => "VRAM"@,
        8 => "SRAM"@,
        9 => "RAM"@,
        10 => "ROM"@,
        11 => "Flash"@,
        12 => "EEPROM"@,
        13 => "FEPROM"@,
        14 => "EPROM"@,
        15 => "CDRAM"@,
        16 => "3DRAM"@,
        17 => "SDRAM"@,
        18 => "SGRAM"@,
        19 => "RDRAM"@,
        20 => "DDR"@,
        21 => "DDR2"@,
        22 => "DDR2 FB-DIMM"@,
        24 => "DDR3"@,
        25 => "FBD2"@,
        26 => "DDR4"@,
        27 => "LPDDR"@,
        28 => "LPDDR2"@,
        29 => "LPDDR3"@,
        30 => "LPDDR4"@,
        31 => "DDR5"@,
        32 => "LPDDR5"@,
        _ => "未知"@,
    }
}

/// The name of an SMBIOS memory type code.
pub fn parse_memory_type(mem_type: u32) -> (r: String)
    ensures
        r@ == memory_type_name(mem_type),
{
    let s: &str = match mem_type {
        1 => "Other",
        2 => "DRAM",
        3 => "Synchronous DRAM",
        4 => "Cache DRAM",
        5 => "EDO",
        6 => "EDRAM",
        7 => "VRAM",
        8 => "SRAM",
        9 => "RAM",
        10 => "ROM",
        11 => "Flash",
        12 => "EEPROM",
        13 => "FEPROM",
        14 => "EPROM",
        15 => "CDRAM",
        16 => "3DRAM",
        17 => "SDRAM",
        18 => "SGRAM",
        19 => "RDRAM",
        20 => "DDR",
        21 => "DDR2",
        22 => "DDR2 FB-DIMM",
        24 => "DDR3",
        25 => "FBD2",
        26 => "DDR4",
        27 => "LPDDR",
        28 => "LPDDR2",
        29 => "LPDDR3",
        30 => "LPDDR4",
        31 => "DDR5",
        32 => "LPDDR5",
        _ => "未知",
    };
    String::from_str(s)
}

/// The manufacturer to show: `"未知"` where the reported one is blank.
pub fn manufacturer_or_unknown(manufacturer: String) -> (r: String)
    ensures
        r@ == (if trim(manufacturer@).len() == 0 {
            "未知"@
        } else {
            manufacturer@
        }),
{
    let c = chars_of(manufacturer.as_str());
    let t = trim_range(c.as_slice(), 0, c.len());
    assert(c@.subrange(0, c@.len() as int) =~= c@);
    if t.len() == 0 {
        String::from_str("未知")
    } else {
        manufacturer
    }
}

/// The speed to report for a module: the configured clock speed where it is
/// known and not zero, else the rated speed, else zero.
pub fn memory_frequency(configured: Option<u32>, rated: Option<u32>) -> (r: u64)
    ensures
        r == (match configured {
            Some(s) if s > 0 => s as u64,
            _ => match rated {
                Some(s) => s as u64,
                None => 0,
            },
        }),
{
    match configured {
        Some(s) if s > 0 => s as u64,
        _ => match rated {
            Some(s) => s as u64,
            None => 0,
        },
    }
}

} // verus!
