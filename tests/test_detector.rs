use hardware_master::detector::{
    audio::{audio_device, is_hd_audio_instance, AudioDevice, AudioInfo},
    battery::BatteryChemistry,
    cpu::{architecture_name, cores_text, CpuInfo},
    disk::{disk_type_from_seek_penalty, DiskInfo, DiskType},
    gpu::{adapter_identity, format_hex4, get_gpu_type, get_vendor_by_id, gpu_type_from_lowered, GpuType},
    memory::{manufacturer_or_unknown, memory_frequency, parse_memory_type},
    monitor::manufacture_date_text,
    motherboard::{is_chipset_name, MotherboardInfo},
    network::{is_listed_adapter, NetworkAdapter, NetworkInfo},
    system::{computer_type, computer_type_from_lowered, ComputerType, SystemInfo},
    DetectionError,
};
use hardware_master::detector::{done_message, gpu::is_listed_gpu, progress_message};
use hardware_master::iddb::DeviceIdDatabase;

fn small_db() -> DeviceIdDatabase {
    let pci = "10de  NVIDIA Corporation\n1458  Gigabyte Technology Co., Ltd\n8086  Intel Corporation\n";
    DeviceIdDatabase::new(pci.as_bytes(), b"").unwrap()
}

#[test]
fn gpu_types_from_descriptions() {
    assert_eq!(get_gpu_type("Microsoft Basic Display Adapter", "1414"), GpuType::Cpu);
    assert_eq!(get_gpu_type("VMware SVGA 3D", "15ad"), GpuType::VirtualGpu);
    assert_eq!(get_gpu_type("Some Adapter", "1AF4"), GpuType::VirtualGpu);
    assert_eq!(get_gpu_type("Intel(R) UHD Graphics 630", "8086"), GpuType::IntegratedGpu);
    assert_eq!(get_gpu_type("AMD Radeon R7 Graphics", "1002"), GpuType::IntegratedGpu);
    assert_eq!(get_gpu_type("NVIDIA GeForce RTX 3080", "10de"), GpuType::DiscreteGpu);
    assert_eq!(get_gpu_type("Unnamed", "10DE"), GpuType::DiscreteGpu);
    assert_eq!(get_gpu_type("AMD Radeon RX 6800", "1002"), GpuType::Other);
    assert_eq!(get_gpu_type("llvmpipe (LLVM 15.0.7, 256 bits)", "10de"), GpuType::Cpu);
}

#[test]
fn gpu_type_from_lowered_text() {
    assert_eq!(gpu_type_from_lowered("nvidia geforce", "0000"), GpuType::DiscreteGpu);
    assert_eq!(gpu_type_from_lowered("NVIDIA GeForce", "0000"), GpuType::Other);
    assert_eq!(gpu_type_from_lowered("generic vga adapter", "10de"), GpuType::VirtualGpu);
}

#[test]
fn gpu_type_texts() {
    assert_eq!(GpuType::IntegratedGpu.to_string(), "集成显卡");
    assert_eq!(GpuType::DiscreteGpu.to_string(), "独立显卡");
    assert_eq!(GpuType::VirtualGpu.to_string(), "虚拟显卡");
    assert_eq!(GpuType::Cpu.to_string(), "其它显卡");
    assert_eq!(GpuType::Other.to_string(), "其它显卡");
}

#[test]
fn vendor_by_id_and_fallback() {
    let db = small_db();
    assert_eq!(get_vendor_by_id(&db, "PCI", "10DE"), "NVIDIA Corporation");
    assert_eq!(get_vendor_by_id(&db, "PCI", "abcd"), "未知");
    assert_eq!(get_vendor_by_id(&db, "ISA", "10de"), "未知");
}

#[test]
fn hex_formatting() {
    assert_eq!(format_hex4(0x10de).iter().collect::<String>(), "10de");
    assert_eq!(format_hex4(0x1f).iter().collect::<String>(), "001f");
    assert_eq!(format_hex4(0).iter().collect::<String>(), "0000");
    assert_eq!(format_hex4(0x37261458).iter().collect::<String>(), "37261458");
    assert_eq!(format_hex4(u32::MAX).iter().collect::<String>(), "ffffffff");
}

#[test]
fn adapter_identity_names() {
    let db = small_db();
    let a = adapter_identity(&db, "NVIDIA GeForce RTX 2080", 0x10de, 0x1e04, 0x37261458);
    assert_eq!(a.vendor_id, "10de");
    assert_eq!(a.device_id, "1e04");
    assert_eq!(a.manufacturer, "Gigabyte Technology Co., Ltd");
    assert_eq!(a.chip_vendor, "NVIDIA Corporation");
    assert_eq!(a.gpu_type, GpuType::DiscreteGpu);
    let b = adapter_identity(&db, "Intel(R) UHD Graphics", 0x8086, 0x3e92, 0x1234);
    assert_eq!(b.manufacturer, "未知");
    assert_eq!(b.chip_vendor, "Intel Corporation");
    assert_eq!(b.gpu_type, GpuType::IntegratedGpu);
    let c = adapter_identity(&db, "x", 0x1002, 0x1, 0x12345);
    assert_eq!(c.manufacturer, "未知");
    assert_eq!(c.chip_vendor, "未知");
}

#[test]
fn memory_type_names() {
    assert_eq!(parse_memory_type(26), "DDR4");
    assert_eq!(parse_memory_type(34), "未知");
    assert_eq!(parse_memory_type(23), "未知");
    assert_eq!(parse_memory_type(0), "未知");
    assert_eq!(parse_memory_type(1), "Other");
    assert_eq!(parse_memory_type(22), "DDR2 FB-DIMM");
    assert_eq!(parse_memory_type(32), "LPDDR5");
}

#[test]
fn memory_frequency_and_manufacturer() {
    assert_eq!(memory_frequency(Some(3200), Some(2666)), 3200);
    assert_eq!(memory_frequency(Some(0), Some(2666)), 2666);
    assert_eq!(memory_frequency(None, None), 0);
    assert_eq!(manufacturer_or_unknown("  \t".to_string()), "未知");
    assert_eq!(manufacturer_or_unknown("Kingston".to_string()), "Kingston");
}

#[test]
fn computer_types() {
    assert_eq!(computer_type(Some(2), "Desktop"), ComputerType::Laptop);
    assert_eq!(computer_type(Some(3), "ThinkPad"), ComputerType::Desktop);
    assert_eq!(computer_type(Some(8), "Notebook"), ComputerType::Unknown);
    assert_eq!(computer_type(None, "MacBook Pro"), ComputerType::Laptop);
    assert_eq!(computer_type(None, "OptiPlex TOWER"), ComputerType::Desktop);
    assert_eq!(computer_type(None, "Server X"), ComputerType::Unknown);
    assert_eq!(computer_type_from_lowered(None, "Laptop"), ComputerType::Unknown);
    assert_eq!(computer_type_from_lowered(None, "laptop"), ComputerType::Laptop);
}

#[test]
fn chipset_and_network_filters() {
    assert!(is_chipset_name("Intel(R) LPC Controller - A305"));
    assert!(is_chipset_name("PCI standard ISA Bridge"));
    assert!(!is_chipset_name("SMBus"));
    assert!(is_listed_adapter(true, Some("PCI\\VEN_8086"), Some(0)));
    assert!(is_listed_adapter(true, Some("PCI\\VEN_8086"), Some(9)));
    assert!(!is_listed_adapter(true, Some("USB\\VID_0BDA"), Some(0)));
    assert!(!is_listed_adapter(false, Some("PCI\\VEN_8086"), Some(0)));
    assert!(!is_listed_adapter(true, None, Some(0)));
    assert!(!is_listed_adapter(true, Some("PCI"), Some(1)));
}

#[test]
fn audio_selection() {
    assert!(is_hd_audio_instance("HDAUDIO\\FUNC_01&VEN_10EC"));
    assert!(!is_hd_audio_instance("USB\\VID_046D"));
    let d = audio_device(None, Some("Speakers".to_string()), None, None);
    assert_eq!(d.name, "Speakers");
    assert_eq!(d.manufacturer, "未知制造商");
    assert_eq!(d.device_id, "");
    let e = audio_device(None, None, Some("Realtek".to_string()), Some("HDAUDIO\\X".to_string()));
    assert_eq!(e.name, "未知设备");
    assert_eq!(e.manufacturer, "Realtek");
    let f = audio_device(Some("Realtek Audio".to_string()), Some("Speakers".to_string()), None, None);
    assert_eq!(f.name, "Realtek Audio");
}

#[test]
fn battery_chemistry_codes() {
    assert_eq!(BatteryChemistry::from_code("LION"), BatteryChemistry::LithiumIon);
    assert_eq!(BatteryChemistry::from_code("Li-P"), BatteryChemistry::LithiumPolymer);
    assert_eq!(BatteryChemistry::from_code("NiMH"), BatteryChemistry::NickelMetalHydride);
    assert_eq!(BatteryChemistry::from_code("lion"), BatteryChemistry::Other);
    assert_eq!(BatteryChemistry::LithiumIon.to_string(), "锂离子电池");
    assert_eq!(BatteryChemistry::Unknown.to_string(), "未知");
}

#[test]
fn cpu_disk_monitor_texts() {
    assert_eq!(architecture_name(9), "x64");
    assert_eq!(architecture_name(12), "ARM64");
    assert_eq!(architecture_name(7), "未知");
    assert_eq!(cores_text(8, 16), "物理核：8 / 逻辑核：16");
    assert_eq!(cores_text(0, 0), "物理核：0 / 逻辑核：0");
    assert_eq!(disk_type_from_seek_penalty(true), DiskType::HDD);
    assert_eq!(disk_type_from_seek_penalty(false).to_string(), "固态硬盘");
    assert_eq!(DiskType::Unknown.to_string(), "未知类型");
    assert_eq!(manufacture_date_text(2021, 35), "2021年第35周");
    assert_eq!(manufacture_date_text(2019, 0), "2019年");
}

#[test]
fn defaults_and_errors() {
    assert_eq!(CpuInfo::default().name, "未知");
    assert_eq!(CpuInfo::default().max_frequency, 0);
    assert_eq!(DiskInfo::default().disk_type, DiskType::Unknown);
    assert_eq!(MotherboardInfo::default().bios_date, "未知");
    assert!(NetworkInfo::default().adapters.is_empty());
    assert_eq!(NetworkAdapter::default().name, "未知");
    assert!(AudioInfo::default().devices.is_empty());
    assert_eq!(AudioDevice::default().device_id, "未知");
    assert_eq!(SystemInfo::default().computer_type, ComputerType::Unknown);
    let e = DetectionError::MemoryError("no WMI".to_string());
    assert_eq!(e.to_string(), "内存信息检测失败: no WMI");
    assert_eq!(DetectionError::WindowsApiError(String::new()).to_string(), "Windows API 检测失败: ");
}

#[test]
fn title_labels_listed_gpus_and_progress() {
    assert_eq!(ComputerType::Laptop.label(), "笔记本");
    assert_eq!(ComputerType::Desktop.label(), "台式机");
    assert_eq!(ComputerType::Unknown.label(), "主机");
    assert!(is_listed_gpu(&GpuType::DiscreteGpu));
    assert!(is_listed_gpu(&GpuType::IntegratedGpu));
    assert!(!is_listed_gpu(&GpuType::VirtualGpu));
    assert!(!is_listed_gpu(&GpuType::Cpu));
    assert_eq!(progress_message(0, 10, "开始检测", "系统信息"), "(0/10) 开始检测√ 系统信息...");
    assert_eq!(progress_message(3, 10, "显卡信息", "内存信息"), "(3/10) 显卡信息√ 内存信息...");
    assert_eq!(done_message(10), "(10/10) 本次检测完成√");
}
