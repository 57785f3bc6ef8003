//! Graphics adapters: their kind, their ids in hex and the names of their vendors.
use vstd::prelude::*;

use crate::iddb::{lookup_spec, pad_id, DeviceIdDatabase};
use crate::text::{chars_of, contains, copy_range, contains_str, is_str, lower_of, string_of, lower_chars};

verus! {

/// The kind of a graphics adapter.
#[derive(Debug, Clone, PartialEq, Eq, Structural)]
pub enum GpuType {
    /// Other or unknown.
    Other,
    /// Integrated GPU with memory shared with the CPU.
    IntegratedGpu,
    /// Discrete GPU with memory of its own.
    DiscreteGpu,
    /// Virtual or hosted.
    VirtualGpu,
    /// Software rendering on the CPU.
    Cpu,
}

/// The display text of each kind.
pub open spec fn gpu_type_text(t: GpuType) -> Seq<char> {
    match t {
        GpuType::IntegratedGpu => "集成显卡"@,
        GpuType::DiscreteGpu => "独立显卡"@,
        GpuType::VirtualGpu => "虚拟显卡"@,
        _ => "其它显卡"@,
    }
}

impl GpuType {
    /// The display text of this kind.
    pub fn to_string(&self) -> (r: String)
        ensures
            r@ == gpu_type_text(*self),
    {
        match self {
            GpuType::IntegratedGpu => String::from_str("集成显卡"),
            GpuType::DiscreteGpu => String::from_str("独立显卡"),
            GpuType::VirtualGpu => String::from_str("虚拟显卡"),
            _ => String::from_str("其它显卡"),
        }
    }
}

/// The description names a software renderer.
pub open spec fn is_cpu_renderer(d: Seq<char>) -> bool {
    ||| contains(d, "microsoft basic display adapter"@)
    ||| contains(d, "microsoft remote display adapter"@)
    ||| contains(d, "basic render driver"@)
    ||| contains(d, "llvmpipe"@)
    ||| contains(d, "swiftshader"@)
    ||| contains(d, "mesa offscreen"@)
}

/// The description or the vendor id names a virtual adapter.
pub open spec fn is_virtual(d: Seq<char>, v: Seq<char>) -> bool {
    ||| contains(d, "virtio"@)
    ||| contains(d, "qxl"@)
    ||| contains(d, "vmware"@)
    ||| contains(d, "virtual"@)
    ||| contains(d, "virtualbox"@)
    ||| contains(d, "vga"@)
    ||| v == "1af4"@
    ||| v == "80ee"@
}

/// The description names an Intel integrated adapter.
pub open spec fn is_intel(d: Seq<char>) -> bool {
    ||| contains(d, "intel"@)
    ||| contains(d, "iris"@)
    ||| contains(d, "uhd"@)
    ||| contains(d, "hd graphics"@)
}

/// The description names an AMD APU.
pub open spec fn is_amd_apu(d: Seq<char>) -> bool {
    ||| contains(d, "amd renoir"@)
    ||| contains(d, "radeon hd 4200"@)
    ||| contains(d, "radeon hd 4250"@)
    ||| contains(d, "radeon hd 4270"@)
    ||| contains(d, "radeon hd 4225"@)
    ||| contains(d, "radeon hd 3100"@)
    ||| contains(d, "radeon hd 3200"@)
    ||| contains(d, "radeon hd 3000"@)
    ||| contains(d, "radeon hd 3300"@)
    ||| contains(d, "radeon r4 graphics"@)
    ||| contains(d, "radeon r5 graphics"@)
    ||| contains(d, "radeon r6 graphics"@)
    ||| contains(d, "radeon r7 graphics"@)
}

/// The description or the vendor id names NVIDIA.
pub open spec fn is_nvidia(d: Seq<char>, v: Seq<char>) -> bool {
    contains(d, "nvidia"@) || v == "10de"@
}

/// The kind of an adapter from its lower-case description and vendor id; the
/// first test that holds decides.
pub open spec fn gpu_type_of(d: Seq<char>, v: Seq<char>) -> GpuType {
    if is_cpu_renderer(d) {
        GpuType::Cpu
    } else if is_virtual(d, v) {
        GpuType::VirtualGpu
    } else if is_intel(d) || is_amd_apu(d) {
        GpuType::IntegratedGpu
    } else if is_nvidia(d, v) {
        GpuType::DiscreteGpu
    } else {
        GpuType::Other
    }
}

fn cpu_renderer(d: &[char]) -> (r: bool)
    ensures
        r == is_cpu_renderer(d@),
{
    contains_str(d, "microsoft basic display adapter") || contains_str(
        d,
        "microsoft remote display adapter",
    ) || contains_str(d, "basic render driver") || contains_str(d, "llvmpipe") || contains_str(
        d,
        "swiftshader",
    ) || contains_str(d, "mesa offscreen")
}

fn virtual_adapter(d: &[char], v: &[char]) -> (r: bool)
    ensures
        r == is_virtual(d@, v@),
{
    contains_str(d, "virtio") || contains_str(d, "qxl") || contains_str(d, "vmware")
        || contains_str(d, "virtual") || contains_str(d, "virtualbox") || contains_str(d, "vga")
        || is_str(v, "1af4") || is_str(v, "80ee")
}

fn intel_adapter(d: &[char]) -> (r: bool)
    ensures
        r == is_intel(d@),
{
    contains_str(d, "intel") || contains_str(d, "iris") || contains_str(d, "uhd") || contains_str(
        d,
        "hd graphics",
    )
}

fn amd_apu(d: &[char]) -> (r: bool)
    ensures
        r == is_amd_apu(d@),
{
    contains_str(d, "amd renoir") || contains_str(d, "radeon hd 4200") || contains_str(
        d,
        "radeon hd 4250",
    ) || contains_str(d, "radeon hd 4270") || contains_str(d, "radeon hd 4225") || contains_str(
        d,
        "radeon hd 3100",
    ) || contains_str(d, "radeon hd 3200") || contains_str(d, "radeon hd 3000") || contains_str(
        d,
        "radeon hd 3300",
    ) || contains_str(d, "radeon r4 graphics") || contains_str(d, "radeon r5 graphics")
        || contains_str(d, "radeon r6 graphics") || contains_str(d, "radeon r7 graphics")
}

/// The kind of an adapter from its description and vendor id, both already in
/// lower case.
pub fn gpu_type_from_lowered(desc_lower: &str, vendor_lower: &str) -> (r: GpuType)
    ensures
        r == gpu_type_of(desc_lower@, vendor_lower@),
{
    let d = chars_of(desc_lower);
    let v = chars_of(vendor_lower);
    classify(d.as_slice(), v.as_slice())
}

fn classify(d: &[char], v: &[char]) -> (r: GpuType)
    ensures
        r == gpu_type_of(d@, v@),
{
    if cpu_renderer(d) {
        GpuType::Cpu
    } else if virtual_adapter(d, v) {
        GpuType::VirtualGpu
    } else if intel_adapter(d) || amd_apu(d) {
        GpuType::IntegratedGpu
    } else if contains_str(d, "nvidia") || is_str(v, "10de") {
        GpuType::DiscreteGpu
    } else {
        GpuType::Other
    }
}

/// The kind of an adapter from its description and vendor id, compared in
/// lower case.
pub fn get_gpu_type(description: &str, vendor_id: &str) -> (r: GpuType)
    ensures
        r == gpu_type_of(lower_of(description@), lower_of(vendor_id@)),
{
    let d = lower_chars(chars_of(description).as_slice());
    let v = lower_chars(chars_of(vendor_id).as_slice());
    classify(d.as_slice(), v.as_slice())
}

/// The vendor name that the database gives for a vendor id, or `"未知"`.
pub open spec fn vendor_name_or_unknown(
    db: crate::iddb::DatabaseModel,
    bus: Seq<char>,
    vid: Seq<char>,
) -> Seq<char> {
    match lookup_spec(db, bus, vid, None, None, None) {
        Some(d) => d.vendor_name,
        None => "未知"@,
    }
}

/// The vendor name for `vendor_id` on the bus `bus_type`, or `"未知"` where the
/// database has none.
pub fn get_vendor_by_id(db: &DeviceIdDatabase, bus_type: &str, vendor_id: &str) -> (r: String)
    ensures
        r@ == vendor_name_or_unknown(db@, bus_type@, vendor_id@),
{
    match db.lookup(bus_type, vendor_id, None, None, None) {
        Some(info) => info.vendor_name,
        None => String::from_str("未知"),
    }
}

// ---------------------------------------------------------------------------
// Adapter ids
// ---------------------------------------------------------------------------

/// The lower-case hexadecimal digit of `d`.
pub open spec fn hex_digit(d: nat) -> char {
    if d < 10 {
        ((48 + d) as u8) as char
    } else {
        ((87 + d) as u8) as char
    }
}

/// The lower-case hexadecimal digits of `n`, without leading zeros.
pub open spec fn hex_digits(n: nat) -> Seq<char>
    decreases n,
{
    if n < 16 {
        seq![hex_digit(n)]
    } else {
        hex_digits(n / 16) + seq![hex_digit(n % 16)]
    }
}

/// `n` as `format!("{:04x}", n)` writes it.
pub open spec fn hex4(n: nat) -> Seq<char> {
    pad_id(hex_digits(n))
}

fn hex_digit_exec(d: u32) -> (c: char)
    requires
        d < 16,
    ensures
        c == hex_digit(d as nat),
{
    if d < 10 {
        ((48 + d) as u8) as char
    } else {
        ((87 + d) as u8) as char
    }
}

/// `n` in lower-case hexadecimal, left-padded with zeros to four digits.
pub fn format_hex4(n: u32) -> (r: Vec<char>)
    ensures
        r@ == hex4(n as nat),
{
    let mut m: u32 = n;
    let mut acc: Vec<char> = Vec::new();
    while m >= 16
        invariant
            hex_digits(n as nat) == hex_digits(m as nat) + acc@,
        decreases m,
    {
        let c = hex_digit_exec(m % 16);
        let ghost old_acc = acc@;
        acc.insert(0, c);
        assert(hex_digits(m as nat) == hex_digits((m / 16) as nat) + seq![c]);
        assert(acc@ =~= seq![c] + old_acc);
        assert(hex_digits(n as nat) =~= hex_digits((m / 16) as nat) + acc@);
        m = m / 16;
    }
    let c = hex_digit_exec(m);
    acc.insert(0, c);
    let ghost digits = acc@;
    assert(digits =~= hex_digits(n as nat));
    if acc.len() >= 4 {
        acc
    } else {
        let mut r: Vec<char> = Vec::new();
        let pad = 4 - acc.len();
        let mut z: usize = 0;
        while z < pad
            invariant
                z <= pad,
                r@ =~= Seq::new(z as nat, |i: int| '0'),
            decreases pad - z,
        {
            r.push('0');
            z = z + 1;
            assert(r@ =~= Seq::new(z as nat, |i: int| '0'));
        }
        let mut k: usize = 0;
        while k < acc.len()
            invariant
                k <= acc@.len(),
                acc@ == digits,
                r@ =~= Seq::new(pad as nat, |i: int| '0') + digits.subrange(0, k as int),
            decreases acc@.len() - k,
        {
            r.push(acc[k]);
            k = k + 1;
            assert(r@ =~= Seq::new(pad as nat, |i: int| '0') + digits.subrange(0, k as int));
        }
        assert(digits.subrange(0, digits.len() as int) =~= digits);
        r
    }
}

/// The ids and names of one adapter, as the adapter list shows them.
pub struct AdapterIdentity {
    /// Vendor id, four or more lower-case hex digits.
    pub vendor_id: String,
    /// Device id, four or more lower-case hex digits.
    pub device_id: String,
    /// Board maker, from the subsystem vendor id.
    pub manufacturer: String,
    /// Chip maker, from the vendor id.
    pub chip_vendor: String,
    /// The kind of adapter.
    pub gpu_type: GpuType,
}

/// The subsystem vendor id as the adapter list derives it from the packed
/// subsystem id: its hex form after the first four digits.
pub open spec fn subsystem_vendor_hex(subsys: nat) -> Seq<char> {
    hex4(subsys).subrange(4, hex4(subsys).len() as int)
}

/// Ids in hex, the board maker (`"未知"` where the subsystem id gives no
/// vendor digits), the chip maker, and the kind of one adapter.
pub fn adapter_identity(
    db: &DeviceIdDatabase,
    description: &str,
    vendor: u32,
    device: u32,
    subsys: u32,
) -> (r: AdapterIdentity)
    ensures
        r.vendor_id@ == hex4(vendor as nat),
        r.device_id@ == hex4(device as nat),
        r.manufacturer@ == (if subsystem_vendor_hex(subsys as nat).len() == 0 {
            "未知"@
        } else {
            vendor_name_or_unknown(db@, "PCI"@, subsystem_vendor_hex(subsys as nat))
        }),
        r.chip_vendor@ == vendor_name_or_unknown(db@, "PCI"@, hex4(vendor as nat)),
        r.gpu_type == gpu_type_of(lower_of(description@), lower_of(hex4(vendor as nat))),
{
    let vendor_hex = format_hex4(vendor);
    let vendor_id = string_of(vendor_hex.as_slice());
    let device_id = string_of(format_hex4(device).as_slice());
    let sub_hex = format_hex4(subsys);
    let sub_vendor = string_of(copy_range(sub_hex.as_slice(), 4, sub_hex.len()).as_slice());
    let manufacturer = if sub_hex.len() == 4 {
        String::from_str("未知")
    } else {
        get_vendor_by_id(db, "PCI", sub_vendor.as_str())
    };
    let chip_vendor = get_vendor_by_id(db, "PCI", vendor_id.as_str());
    let gpu_type = get_gpu_type(description, vendor_id.as_str());
    AdapterIdentity { vendor_id, device_id, manufacturer, chip_vendor, gpu_type }
}

/// Only discrete and integrated adapters are shown in the hardware list.
pub fn is_listed_gpu(t: &GpuType) -> (r: bool)
    ensures
        r == (*t == GpuType::DiscreteGpu || *t == GpuType::IntegratedGpu),
{
    match t {
        GpuType::DiscreteGpu | GpuType::IntegratedGpu => true,
        _ => false,
    }
}

} // verus!
