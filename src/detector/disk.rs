//! Disks.
use vstd::prelude::*;

verus! {

/// The main physical disk.
#[derive(Debug, Clone)]
pub struct DiskInfo {
    /// Model, such as `PCIe-8 SSD 1TB`.
    pub model: String,
    /// Capacity in MiB.
    pub total_capacity: u64,
    /// Kind of disk.
    pub disk_type: DiskType,
}

impl Default for DiskInfo {
    fn default() -> (r: Self)
        ensures
            r.model@ == "未知"@,
            r.total_capacity == 0,
            r.disk_type == DiskType::Unknown,
    {
        DiskInfo { model: String::from_str("未知"), total_capacity: 0, disk_type: DiskType::Unknown }
    }
}

/// The kind of a disk.
#[derive(Debug, Clone, PartialEq, Eq, Structural)]
pub enum DiskType {
    SSD,
    HDD,
    Unknown,
}

/// The display text of each kind.
pub open spec fn disk_type_text(t: DiskType) -> Seq<char> {
    match t {
        DiskType::SSD => "固态硬盘"@,
        DiskType::HDD => "机械硬盘"@,
        DiskType::Unknown => "未知类型"@,
    }
}

impl DiskType {
    /// The display text.
    pub fn to_string(&self) -> (r: String)
        ensures
            r@ == disk_type_text(*self),
    {
        let s: &str = match self {
            DiskType::SSD => "固态硬盘",
            DiskType::HDD => "机械硬盘",
            DiskType::Unknown => "未知类型",
        };
        String::from_str(s)
    }
}

/// The kind of disk from the seek penalty flag: a disk that incurs one is a
/// hard disk, any other a solid-state disk.
pub fn disk_type_from_seek_penalty(incurs_seek_penalty: bool) -> (r: DiskType)
    ensures
        r == (if incurs_seek_penalty {
            DiskType::HDD
        } else {
            DiskType::SSD
        }),
{
    if incurs_seek_penalty {
        DiskType::HDD
    } else {
        DiskType::SSD
    }
}

} // verus!
