use hardware_master::utils::device::parse_device_instance_id;

#[test]
fn parse_full_pci_instance_id() {
    let id = "PCI\\VEN_10EC&DEV_8168&SUBSYS_12341462&REV_06\\4&12a3b456&0&00E5";
    let info = parse_device_instance_id(id);
    assert_eq!(info.id, id);
    assert_eq!(info.bus_type, "PCI");
    assert_eq!(info.vendor_id, "10EC");
    assert_eq!(info.device_id, "8168");
    assert_eq!(info.subsystem_device_id, "1234");
    assert_eq!(info.subsystem_vendor_id, "1462");
    assert_eq!(info.revision_id, "06");
    assert_eq!(info.instance_id, "4&12a3b456&0&00E5");
    assert_eq!(info.bus_number, "4");
    assert_eq!(info.feature_code, "12a3b456");
    assert_eq!(info.device_number, "0");
    assert_eq!(info.function_number, "00E5");
}

#[test]
fn parse_bus_only_instance_id() {
    let info = parse_device_instance_id("ROOT");
    assert_eq!(info.bus_type, "ROOT");
    assert_eq!(info.vendor_id, "未知");
    assert_eq!(info.instance_id, "未知");
    assert_eq!(info.bus_number, "未知");
    assert_eq!(info.function_number, "未知");
}

#[test]
fn parse_short_subsys_and_unknown_keys() {
    let info = parse_device_instance_id("HDAUDIO\\FUNC_01&VEN_10EC&SUBSYS_123&DEV_0256\\5&1");
    assert_eq!(info.bus_type, "HDAUDIO");
    assert_eq!(info.vendor_id, "10EC");
    assert_eq!(info.device_id, "0256");
    assert_eq!(info.subsystem_vendor_id, "未知");
    assert_eq!(info.subsystem_device_id, "未知");
    assert_eq!(info.revision_id, "未知");
    assert_eq!(info.bus_number, "5");
    assert_eq!(info.feature_code, "1");
    assert_eq!(info.device_number, "未知");
}

#[test]
fn parse_empty_instance_id() {
    let info = parse_device_instance_id("");
    assert_eq!(info.id, "");
    assert_eq!(info.bus_type, "");
    assert_eq!(info.device_id, "未知");
}

#[test]
fn subsys_split_counts_bytes() {
    let info = parse_device_instance_id("PCI\\SUBSYS_éé1462");
    assert_eq!(info.subsystem_device_id, "éé");
    assert_eq!(info.subsystem_vendor_id, "1462");
    let odd = parse_device_instance_id("PCI\\SUBSYS_aé");
    assert_eq!(odd.subsystem_device_id, "未知");
    let mid = parse_device_instance_id("PCI\\SUBSYS_a€b");
    assert_eq!(mid.subsystem_device_id, "a€");
    assert_eq!(mid.subsystem_vendor_id, "b");
    let cut = parse_device_instance_id("PCI\\SUBSYS_ab€");
    assert_eq!(cut.subsystem_vendor_id, "未知");
}
