//! What the hardware detectors decide once the operating system has answered.
pub mod audio;
pub mod battery;
pub mod cpu;
pub mod disk;
pub mod gpu;
pub mod memory;
pub mod monitor;
pub mod motherboard;
pub mod network;
pub mod system;

use vstd::prelude::*;

use crate::text::{dec_digits, format_decimal, push_str, string_of};

verus! {

/// Why a detection failed: the part that failed and what the system said.
#[derive(Debug, Clone)]
pub enum DetectionError {
    WindowsApiError(String),
    SystemError(String),
    CpuError(String),
    GpuError(String),
    MemoryError(String),
    DiskError(String),
    MotherboardError(String),
    NetworkError(String),
    AudioError(String),
    MonitorError(String),
    BatteryError(String),
}

/// The text that introduces each kind of error.
pub open spec fn error_prefix(e: DetectionError) -> Seq<char> {
    match e {
        DetectionError::WindowsApiError(_) => "Windows API 检测失败: "@,
        DetectionError::SystemError(_) => "系统信息检测失败: "@,
        DetectionError::CpuError(_) => "CPU 信息检测失败: "@,
        DetectionError::GpuError(_) => "显卡信息检测失败: "@,
        DetectionError::MemoryError(_) => "内存信息检测失败: "@,
        DetectionError::DiskError(_) => "磁盘信息检测失败: "@,
        DetectionError::MotherboardError(_) => "主板信息检测失败: "@,
        DetectionError::NetworkError(_) => "网络信息检测失败: "@,
        DetectionError::AudioError(_) => "声卡信息检测失败: "@,
        DetectionError::MonitorError(_) => "显示器信息检测失败: "@,
        DetectionError::BatteryError(_) => "电池信息检测失败: "@,
    }
}

/// The detail that each error carries.
pub open spec fn error_detail(e: DetectionError) -> Seq<char> {
    match e {
        DetectionError::WindowsApiError(s) => s@,
        DetectionError::SystemError(s) => s@,
        DetectionError::CpuError(s) => s@,
        DetectionError::GpuError(s) => s@,
        DetectionError::MemoryError(s) => s@,
        DetectionError::DiskError(s) => s@,
        DetectionError::MotherboardError(s) => s@,
        DetectionError::NetworkError(s) => s@,
        DetectionError::AudioError(s) => s@,
        DetectionError::MonitorError(s) => s@,
        DetectionError::BatteryError(s) => s@,
    }
}

impl DetectionError {
    /// The message: what failed, then the detail.
    pub fn to_string(&self) -> (r: String)
        ensures
            r@ == error_prefix(*self) + error_detail(*self),
    {
        let (prefix, detail): (&str, &String) = match self {
            DetectionError::WindowsApiError(s) => ("Windows API 检测失败: ", s),
            DetectionError::SystemError(s) => ("系统信息检测失败: ", s),
            DetectionError::CpuError(s) => ("CPU 信息检测失败: ", s),
            DetectionError::GpuError(s) => ("显卡信息检测失败: ", s),
            DetectionError::MemoryError(s) => ("内存信息检测失败: ", s),
            DetectionError::DiskError(s) => ("磁盘信息检测失败: ", s),
            DetectionError::MotherboardError(s) => ("主板信息检测失败: ", s),
            DetectionError::NetworkError(s) => ("网络信息检测失败: ", s),
            DetectionError::AudioError(s) => ("声卡信息检测失败: ", s),
            DetectionError::MonitorError(s) => ("显示器信息检测失败: ", s),
            DetectionError::BatteryError(s) => ("电池信息检测失败: ", s),
        };
        String::from_str(prefix).concat(detail.as_str())
    }
}

/// The progress text shown before task `index` of `total` starts:
/// `({index}/{total}) {previous}√ {name}...`.
pub open spec fn progress_text(index: nat, total: nat, previous: Seq<char>, name: Seq<char>) -> Seq<
    char,
> {
    seq!['('] + dec_digits(index) + seq!['/'] + dec_digits(total) + seq![')', ' '] + previous
        + "√ "@ + name + "..."@
}

/// The progress text once all `total` tasks are done.
pub open spec fn done_text(total: nat) -> Seq<char> {
    seq!['('] + dec_digits(total) + seq!['/'] + dec_digits(total) + seq![')', ' '] + "本次检测完成√"@
}

/// The progress text shown before a detection task starts.
pub fn progress_message(index: u64, total: u64, previous: &str, name: &str) -> (r: String)
    ensures
        r@ == progress_text(index as nat, total as nat, previous@, name@),
{
    let mut v: Vec<char> = Vec::new();
    v.push('(');
    let mut i = format_decimal(index);
    v.append(&mut i);
    v.push('/');
    let mut t = format_decimal(total);
    v.append(&mut t);
    v.push(')');
    v.push(' ');
    push_str(&mut v, previous);
    push_str(&mut v, "√ ");
    push_str(&mut v, name);
    push_str(&mut v, "...");
    assert(v@ =~= progress_text(index as nat, total as nat, previous@, name@));
    string_of(v.as_slice())
}

/// The progress text once every detection task has run.
pub fn done_message(total: u64) -> (r: String)
    ensures
        r@ == done_text(total as nat),
{
    let mut v: Vec<char> = Vec::new();
    v.push('(');
    let mut a = format_decimal(total);
    v.append(&mut a);
    v.push('/');
    let mut b = format_decimal(total);
    v.append(&mut b);
    v.push(')');
    v.push(' ');
    push_str(&mut v, "本次检测完成√");
    assert(v@ =~= done_text(total as nat));
    string_of(v.as_slice())
}

} // verus!
