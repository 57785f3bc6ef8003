//! Network adapters.
use vstd::prelude::*;

use crate::text::{chars_of, starts_with, starts_with_str};

verus! {

/// Network information: the names of the physical adapters.
#[derive(Debug, Clone)]
pub struct NetworkInfo {
    pub adapters: Vec<String>,
}

impl Default for NetworkInfo {
    fn default() -> (r: Self)
        ensures
            r.adapters@.len() == 0,
    {
        NetworkInfo { adapters: Vec::new() }
    }
}

/// One network adapter.
#[derive(Debug, Clone)]
pub struct NetworkAdapter {
    pub name: String,
}

impl Default for NetworkAdapter {
    fn default() -> (r: Self)
        ensures
            r.name@ == "未知"@,
    {
        NetworkAdapter { name: String::from_str("未知") }
    }
}

/// An adapter is listed when it is physical, its Plug and Play id starts with
/// `PCI`, and its type is Ethernet 802.3 (0) or wireless (9).
pub open spec fn is_listed(physical: bool, pnp: Option<Seq<char>>, type_id: Option<u16>) -> bool {
    &&& physical
    &&& match pnp {
        Some(p) => starts_with(p, "PCI"@),
        None => false,
    }
    &&& (type_id == Some(0u16) || type_id == Some(9u16))
}

/// Whether an adapter belongs in the list.
pub fn is_listed_adapter(
    physical_adapter: bool,
    pnp_device_id: Option<&str>,
    adapter_type_id: Option<u16>,
) -> (r: bool)
    ensures
        r == is_listed(
            physical_adapter,
            match pnp_device_id {
                Some(p) => Some(p@),
                None => None,
            },
            adapter_type_id,
        ),
{
    if !physical_adapter {
        return false;
    }
    let pci = match pnp_device_id {
        Some(p) => {
            let c = chars_of(p);
            starts_with_str(c.as_slice(), "PCI")
        },
        None => false,
    };
    if !pci {
        return false;
    }
    match adapter_type_id {
        Some(0) | Some(9) => true,
        _ => false,
    }
}

} // verus!
