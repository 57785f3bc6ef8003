//! System identity: the kind of computer.
use vstd::prelude::*;

use crate::text::{chars_of, contains, contains_str, lower_of, lower_chars};

verus! {

/// The kind of computer.
#[derive(Debug, Clone, PartialEq, Eq, Structural)]
pub enum ComputerType {
    /// A laptop.
    Laptop,
    /// A desktop.
    Desktop,
    /// Not known.
    Unknown,
}

/// System information.
#[derive(Debug, Clone)]
pub struct SystemInfo {
    /// Computer model.
    pub computer_model: String,
    /// Operating system name.
    pub os_name: String,
    /// System manufacturer.
    pub system_manufacturer: String,
    /// Kind of computer.
    pub computer_type: ComputerType,
}

impl Default for SystemInfo {
    fn default() -> (r: Self)
        ensures
            r.computer_model@ == "未知"@,
            r.os_name@ == "未知"@,
            r.system_manufacturer@ == "未知"@,
            r.computer_type == ComputerType::Unknown,
    {
        SystemInfo {
            computer_model: String::from_str("未知"),
            os_name: String::from_str("未知"),
            system_manufacturer: String::from_str("未知"),
            computer_type: ComputerType::Unknown,
        }
    }
}

/// The kind of computer a lower-case model name suggests.
pub open spec fn model_type_of(m: Seq<char>) -> ComputerType {
    if contains(m, "notebook"@) || contains(m, "laptop"@) || contains(m, "book"@) || contains(
        m,
        "mobile"@,
    ) {
        ComputerType::Laptop
    } else if contains(m, "desktop"@) || contains(m, "tower"@) {
        ComputerType::Desktop
    } else {
        ComputerType::Unknown
    }
}

/// The kind of computer from the `PCSystemType` code (1 and 2 portable,
/// 3 and 4 desktop), or from the model name where there is no code.
pub open spec fn computer_type_of(pc_type: Option<u16>, model_lower: Seq<char>) -> ComputerType {
    match pc_type {
        Some(t) => if t == 1 || t == 2 {
            ComputerType::Laptop
        } else if t == 3 || t == 4 {
            ComputerType::Desktop
        } else {
            ComputerType::Unknown
        },
        None => model_type_of(model_lower),
    }
}

/// The kind of computer from the system type code, or from a model name that
/// is already in lower case.
pub fn computer_type_from_lowered(pc_type: Option<u16>, model_lower: &str) -> (r: ComputerType)
    ensures
        r == computer_type_of(pc_type, model_lower@),
{
    match pc_type {
        Some(t) => code_type(t),
        None => {
            let m = chars_of(model_lower);
            model_type(m.as_slice())
        },
    }
}

fn code_type(t: u16) -> (r: ComputerType)
    ensures
        r == computer_type_of(Some(t), seq![]),
{
    if t == 1 || t == 2 {
        ComputerType::Laptop
    } else if t == 3 || t == 4 {
        ComputerType::Desktop
    } else {
        ComputerType::Unknown
    }
}

fn model_type(m: &[char]) -> (r: ComputerType)
    ensures
        r == model_type_of(m@),
{
    if contains_str(m, "notebook") || contains_str(m, "laptop") || contains_str(m, "book")
        || contains_str(m, "mobile") {
        ComputerType::Laptop
    } else if contains_str(m, "desktop") || contains_str(m, "tower") {
        ComputerType::Desktop
    } else {
        ComputerType::Unknown
    }
}

/// The kind of computer from the system type code, or from the model name,
/// compared in lower case, where there is no code.
pub fn computer_type(pc_type: Option<u16>, model: &str) -> (r: ComputerType)
    ensures
        r == computer_type_of(pc_type, lower_of(model@)),
{
    match pc_type {
        Some(t) => code_type(t),
        None => {
            let m = lower_chars(chars_of(model).as_slice());
            model_type(m.as_slice())
        },
    }
}

/// The word that names each kind of computer in the window title.
pub open spec fn computer_type_label_of(t: ComputerType) -> Seq<char> {
    match t {
        ComputerType::Laptop => "笔记本"@,
        ComputerType::Desktop => "台式机"@,
        ComputerType::Unknown => "主机"@,
    }
}

impl ComputerType {
    /// The word that names this kind of computer in the window title.
    pub fn label(&self) -> (r: &'static str)
        ensures
            r@ == computer_type_label_of(*self),
    {
        match self {
            ComputerType::Laptop => "笔记本",
            ComputerType::Desktop => "台式机",
            ComputerType::Unknown => "主机",
        }
    }
}

} // verus!
