//! Processors.
use vstd::prelude::*;

use crate::text::{dec_digits, format_decimal, push_str, string_of};

verus! {

/// Processor information.
#[derive(Debug, Clone)]
pub struct CpuInfo {
    /// Processor name.
    pub name: String,
    /// Architecture.
    pub architecture: String,
    /// Physical and logical core counts, as text.
    pub cores: String,
    /// Vendor.
    pub vendor: String,
    /// CPU identifier.
    pub cpu_id: String,
    /// Highest frequency in MHz.
    pub max_frequency: u16,
}

impl Default for CpuInfo {
    fn default() -> (r: Self)
        ensures
            r.name@ == "未知"@,
            r.architecture@ == "未知"@,
            r.cores@ == "未知"@,
            r.vendor@ == "未知"@,
            r.cpu_id@ == "未知"@,
            r.max_frequency == 0,
    {
        CpuInfo {
            name: String::from_str("未知"),
            architecture: String::from_str("未知"),
            cores: String::from_str("未知"),
            max_frequency: 0,
            vendor: String::from_str("未知"),
            cpu_id: String::from_str("未知"),
        }
    }
}

/// The name of a `PROCESSOR_ARCHITECTURE_*` code.
pub open spec fn architecture_name_of(code: u16) -> Seq<char> {
    match code {
        0 => "x86"@,
        9 => "x64"@,
        5 => "ARM"@,
        12 => "ARM64"@,
        6 => "Itanium"@,
        _ => "未知"@,
    }
}

/// The name of a processor architecture code.
pub fn architecture_name(code: u16) -> (r: String)
    ensures
        r@ == architecture_name_of(code),
{
    let s: &str = match code {
        0 => "x86",
        9 => "x64",
        5 => "ARM",
        12 => "ARM64",
        6 => "Itanium",
        _ => "未知",
    };
    String::from_str(s)
}

/// The text of the core counts.
pub open spec fn cores_text_of(physical: nat, logical: nat) -> Seq<char> {
    "物理核："@ + dec_digits(physical) + " / 逻辑核："@ + dec_digits(logical)
}

/// The core counts as they are shown.
pub fn cores_text(physical: u32, logical: u32) -> (r: String)
    ensures
        r@ == cores_text_of(physical as nat, logical as nat),
{
    let mut v: Vec<char> = Vec::new();
    push_str(&mut v, "物理核：");
    let mut p = format_decimal(physical as u64);
    v.append(&mut p);
    push_str(&mut v, " / 逻辑核：");
    let mut l = format_decimal(logical as u64);
    v.append(&mut l);
    assert(v@ =~= cores_text_of(physical as nat, logical as nat));
    string_of(v.as_slice())
}

} // verus!
