use hardware_master::iddb::DeviceIdDatabase;

const PCI: &str = "# PCI id list\n\
\n\
10de  NVIDIA\n\
\t1e04  GeForce RTX 2080\n\
\t\t1458 3726  Custom Board\n\
\t\t10de 12fa  Founders Edition\n\
8086  Intel Corporation\n\
\t1234  Some Intel Device\n";

const USB: &str = "1d6b  Linux Foundation\n\
\t0002  2.0 root hub\n\
\t\t01  Hub Interface\n";

fn db() -> DeviceIdDatabase {
    DeviceIdDatabase::new(PCI.as_bytes(), USB.as_bytes()).unwrap()
}

#[test]
fn format_id_pads_and_lowers() {
    assert_eq!(DeviceIdDatabase::format_id("0X1F"), "001f");
    assert_eq!(DeviceIdDatabase::format_id("10DE"), "10de");
    assert_eq!(DeviceIdDatabase::format_id("0x1"), "0001");
    assert_eq!(DeviceIdDatabase::format_id("0xABCD"), "abcd");
    assert_eq!(DeviceIdDatabase::format_id(""), "0000");
    assert_eq!(DeviceIdDatabase::format_id("  0x10DE \t"), "10de");
    assert_eq!(DeviceIdDatabase::format_id("0x0x1f"), "001f");
}

#[test]
fn format_id_keeps_normal_and_long_ids() {
    assert_eq!(DeviceIdDatabase::format_id("1e04"), "1e04");
    assert_eq!(DeviceIdDatabase::format_id("ffff"), "ffff");
    assert_eq!(DeviceIdDatabase::format_id("12345"), "12345");
    assert_eq!(DeviceIdDatabase::format_id("ABCDEF12"), "abcdef12");
}

#[test]
fn vendor_only_hit() {
    let d = db().lookup("PCI", "10de", None, None, None).unwrap();
    assert_eq!(d.vendor_name, "NVIDIA");
    assert_eq!(d.device_name, None);
    assert_eq!(d.subsystem_name, None);
}

#[test]
fn full_hit() {
    let d = db().lookup("PCI", "10de", Some("1e04"), Some("1458"), Some("3726")).unwrap();
    assert_eq!(d.vendor_name, "NVIDIA");
    assert_eq!(d.device_name.as_deref(), Some("GeForce RTX 2080"));
    assert_eq!(d.subsystem_name.as_deref(), Some("Custom Board"));
}

#[test]
fn device_miss_vendor_hit() {
    let d = db().lookup("PCI", "10de", Some("ffff"), None, None).unwrap();
    assert_eq!(d.vendor_name, "NVIDIA");
    assert_eq!(d.device_name, None);
    assert_eq!(d.subsystem_name, None);
}

#[test]
fn unknown_vendor() {
    assert!(db().lookup("PCI", "ffff", None, None, None).is_none());
}

#[test]
fn unsupported_bus_type() {
    assert!(db().lookup("SCSI", "10de", None, None, None).is_none());
}

#[test]
fn parser_robustness() {
    let blob = "# a comment\n\nbadline-without-separator\nabcd  Good Vendor\n";
    let db = DeviceIdDatabase::new(blob.as_bytes(), b"").unwrap();
    let d = db.lookup("PCI", "abcd", None, None, None).unwrap();
    assert_eq!(d.vendor_name, "Good Vendor");
    assert!(db.lookup("PCI", "badline-without-separator", None, None, None).is_none());
    assert!(db.lookup("PCI", "#", None, None, None).is_none());
}

#[test]
fn usb_interface_lookup() {
    let d = db().lookup("USB", "1d6b", Some("0002"), Some("01"), None).unwrap();
    assert_eq!(d.vendor_name, "Linux Foundation");
    assert_eq!(d.device_name.as_deref(), Some("2.0 root hub"));
    assert_eq!(d.subsystem_name.as_deref(), Some("Hub Interface"));
}

#[test]
fn lookup_normalizes_query_ids() {
    let d = db().lookup("pci", "0x10DE", Some("0X1E04"), Some("0x1458"), Some("3726")).unwrap();
    assert_eq!(d.device_name.as_deref(), Some("GeForce RTX 2080"));
    assert_eq!(d.subsystem_name.as_deref(), Some("Custom Board"));
    let u = db().lookup("usb", "1D6B", Some("2"), Some("1"), None).unwrap();
    assert_eq!(u.subsystem_name.as_deref(), Some("Hub Interface"));
    let w = db().lookup("USB", "1d6b", Some("0002"), Some("02"), None).unwrap();
    assert_eq!(w.subsystem_name, None);
}

#[test]
fn pci_subsystem_needs_both_ids() {
    let d = db().lookup("PCI", "10de", Some("1e04"), Some("1458"), None).unwrap();
    assert_eq!(d.device_name.as_deref(), Some("GeForce RTX 2080"));
    assert_eq!(d.subsystem_name, None);
    let e = db().lookup("PCI", "10de", Some("1e04"), Some("10de"), Some("12fa")).unwrap();
    assert_eq!(e.subsystem_name.as_deref(), Some("Founders Edition"));
}

#[test]
fn stored_keys_are_normalized() {
    let blob = "10DE  Upper Vendor\n\t1E04  Upper Device\n\t\t1458 3726  Upper Sub\n";
    let db = DeviceIdDatabase::new(blob.as_bytes(), b"").unwrap();
    let d = db.lookup("PCI", "10de", Some("1e04"), Some("1458"), Some("3726")).unwrap();
    assert_eq!(d.vendor_name, "Upper Vendor");
    assert_eq!(d.device_name.as_deref(), Some("Upper Device"));
    assert_eq!(d.subsystem_name.as_deref(), Some("Upper Sub"));
}

#[test]
fn registries_are_separate() {
    assert!(db().lookup("USB", "10de", None, None, None).is_none());
    assert!(db().lookup("PCI", "1d6b", None, None, None).is_none());
}

#[test]
fn duplicates_first_vendor_and_device_last_subsystem() {
    let blob = "1234  First\n\
\taaaa  Dev One\n\
1234  Second\n\
\tbbbb  Dev Two\n\
\taaaa  Dev Again\n\
\t\t1111 2222  Sub A\n\
\t\t1111 2222  Sub B\n";
    let db = DeviceIdDatabase::new(blob.as_bytes(), b"").unwrap();
    let v = db.lookup("PCI", "1234", None, None, None).unwrap();
    assert_eq!(v.vendor_name, "First");
    let a = db.lookup("PCI", "1234", Some("aaaa"), Some("1111"), Some("2222")).unwrap();
    assert_eq!(a.device_name.as_deref(), Some("Dev One"));
    assert_eq!(a.subsystem_name.as_deref(), Some("Sub B"));
    let b = db.lookup("PCI", "1234", Some("bbbb"), None, None).unwrap();
    assert_eq!(b.device_name.as_deref(), Some("Dev Two"));
}

#[test]
fn orphan_lines_are_dropped() {
    let blob = "\t0001  Orphan Device\n\t\t0002 0003  Orphan Sub\n5555  Vendor\n\t\t0002 0003  Sub Without Device\n\t0001  Device\n";
    let db = DeviceIdDatabase::new(blob.as_bytes(), b"").unwrap();
    let d = db.lookup("PCI", "5555", Some("0001"), Some("0002"), Some("0003")).unwrap();
    assert_eq!(d.device_name.as_deref(), Some("Device"));
    assert_eq!(d.subsystem_name, None);
}

#[test]
fn crlf_invalid_utf8_and_deep_indent() {
    let mut blob: Vec<u8> = b"abcd  Vendor Name  \r\n\t0001  Dev\r\n".to_vec();
    blob.extend_from_slice(&[0xff, 0xfe, b'\n']);
    blob.extend_from_slice(b"\t\t\t0002  Too Deep\n\t0002  Second Dev");
    let db = DeviceIdDatabase::new(&blob, b"").unwrap();
    let v = db.lookup("PCI", "abcd", Some("0001"), None, None).unwrap();
    assert_eq!(v.vendor_name, "Vendor Name");
    assert_eq!(v.device_name.as_deref(), Some("Dev"));
    let w = db.lookup("PCI", "abcd", Some("0002"), None, None).unwrap();
    assert_eq!(w.device_name.as_deref(), Some("Second Dev"));
}

#[test]
fn empty_and_default_databases() {
    let db = DeviceIdDatabase::new(b"", b"").unwrap();
    assert!(db.lookup("PCI", "10de", None, None, None).is_none());
    let d = DeviceIdDatabase::default();
    assert!(d.lookup("USB", "1d6b", None, None, None).is_none());
}

#[test]
fn bus_type_uses_unicode_upper_case() {
    let d = db().lookup("pcı", "10de", None, None, None).unwrap();
    assert_eq!(d.vendor_name, "NVIDIA");
    let u = db().lookup("uſb", "1d6b", None, None, None).unwrap();
    assert_eq!(u.vendor_name, "Linux Foundation");
    assert!(db().lookup("pcj", "10de", None, None, None).is_none());
}

#[test]
fn lookup_with_upper_case_bus() {
    let d = db().lookup_upper("PCI", "10de", Some("1e04"), Some("1458"), Some("3726")).unwrap();
    assert_eq!(d.subsystem_name.as_deref(), Some("Custom Board"));
    assert!(db().lookup_upper("pci", "10de", None, None, None).is_none());
    let u = db().lookup_upper("USB", "1d6b", Some("0002"), Some("01"), None).unwrap();
    assert_eq!(u.subsystem_name.as_deref(), Some("Hub Interface"));
}

#[test]
fn format_id_lowers_unicode() {
    assert_eq!(DeviceIdDatabase::format_id("ÀB"), "00àb");
    assert_eq!(DeviceIdDatabase::format_id("0XÉ"), "000é");
}
