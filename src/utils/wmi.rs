//! WMI connection settings.
use vstd::prelude::*;

verus! {

/// The WMI namespace to connect to, such as `ROOT\CIMV2` or `ROOT\wmi`.
#[derive(Debug, Clone)]
pub struct WmiConfig {
    pub namespace: String,
}

impl Default for WmiConfig {
    fn default() -> (r: Self)
        ensures
            r.namespace@ == "ROOT\\CIMV2"@,
    {
        WmiConfig { namespace: String::from_str("ROOT\\CIMV2") }
    }
}

} // verus!
