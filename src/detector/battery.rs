//! Battery chemistry.
use vstd::prelude::*;

use crate::text::{chars_of, is_str};

verus! {

/// The chemistry of a battery.
#[derive(Debug, Clone, PartialEq, Eq, Structural)]
pub enum BatteryChemistry {
    Other,
    Unknown,
    LeadAcid,
    NickelCadmium,
    NickelMetalHydride,
    LithiumIon,
    ZincAir,
    LithiumPolymer,
}

/// The chemistry that a battery's chemistry code names; `Other` for codes
/// that name none.
pub open spec fn chemistry_of(c: Seq<char>) -> BatteryChemistry {
    if c == "LION"@ || c == "Li-I"@ || c == "Li-Ion"@ {
        BatteryChemistry::LithiumIon
    } else if c == "LiPo"@ || c == "Li-P"@ {
        BatteryChemistry::LithiumPolymer
    } else if c == "PbAc"@ || c == "Pb"@ {
        BatteryChemistry::LeadAcid
    } else if c == "NiCd"@ || c == "Ni-Cd"@ {
        BatteryChemistry::NickelCadmium
    } else if c == "NiMH"@ || c == "Ni-Mh"@ {
        BatteryChemistry::NickelMetalHydride
    } else if c == "Zn-Air"@ || c == "Zn"@ {
        BatteryChemistry::ZincAir
    } else {
        BatteryChemistry::Other
    }
}

/// The display text of each chemistry.
pub open spec fn chemistry_text(b: BatteryChemistry) -> Seq<char> {
    match b {
        BatteryChemistry::Other => "其他"@,
        BatteryChemistry::Unknown => "未知"@,
        BatteryChemistry::LeadAcid => "铅酸电池"@,
        BatteryChemistry::NickelCadmium => "镍镉电池"@,
        BatteryChemistry::NickelMetalHydride => "镍氢电池"@,
        BatteryChemistry::LithiumIon => "锂离子电池"@,
        BatteryChemistry::ZincAir => "锌空气电池"@,
        BatteryChemistry::LithiumPolymer => "锂聚合物电池"@,
    }
}

impl BatteryChemistry {
    /// The chemistry that a chemistry code such as `LION` or `NiMH` names.
    pub fn from_code(value: &str) -> (r: Self)
        ensures
            r == chemistry_of(value@),
    {
        let c = chars_of(value);
        let s = c.as_slice();
        if is_str(s, "LION") || is_str(s, "Li-I") || is_str(s, "Li-Ion") {
            BatteryChemistry::LithiumIon
        } else if is_str(s, "LiPo") || is_str(s, "Li-P") {
            BatteryChemistry::LithiumPolymer
        } else if is_str(s, "PbAc") || is_str(s, "Pb") {
            BatteryChemistry::LeadAcid
        } else if is_str(s, "NiCd") || is_str(s, "Ni-Cd") {
            BatteryChemistry::NickelCadmium
        } else if is_str(s, "NiMH") || is_str(s, "Ni-Mh") {
            BatteryChemistry::NickelMetalHydride
        } else if is_str(s, "Zn-Air") || is_str(s, "Zn") {
            BatteryChemistry::ZincAir
        } else {
            BatteryChemistry::Other
        }
    }

    /// The display text.
    pub fn to_string(&self) -> (r: String)
        ensures
            r@ == chemistry_text(*self),
    {
        let s: &str = match self {
            BatteryChemistry::Other => "其他",
            BatteryChemistry::Unknown => "未知",
            BatteryChemistry::LeadAcid => "铅酸电池",
            BatteryChemistry::NickelCadmium => "镍镉电池",
            BatteryChemistry::NickelMetalHydride => "镍氢电池",
            BatteryChemistry::LithiumIon => "锂离子电池",
            BatteryChemistry::ZincAir => "锌空气电池",
            BatteryChemistry::LithiumPolymer => "锂聚合物电池",
        };
        String::from_str(s)
    }
}

} // verus!
