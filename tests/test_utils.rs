use hardware_master::utils::{
    string::{
        trim_zeros_u16, trim_zeros_u8, u16_bytes_to_string, u16_slice_to_string, units_from_le_bytes,
        u8_slice_to_string, wide_str,
    },
    wmi::WmiConfig,
    wmi_date::parse_wmi_date,
};

#[test]
fn test_string_functions() {
    let bytes = vec![0x48, 0x00, 0x65, 0x00, 0x6C, 0x00, 0x6C, 0x00, 0x6F, 0x00, 0x00, 0x00];
    let result = u16_bytes_to_string(&bytes);
    assert_eq!(result, "Hello");

    let slice = vec![0x48, 0x65, 0x6C, 0x68, 0x61, 0x72, 0x73, 0x74, 0x75, 0x00];
    let result = u16_slice_to_string(&slice);
    assert_eq!(result, "Helharstu");

    let slice = vec![72, 101, 108, 111, 108, 32, 98, 111, 100, 0];
    let result = u8_slice_to_string(&slice);
    assert_eq!(result, "Helol bod");
}

#[test]
fn test_wmi_date_parsing() {
    let date_str = "20240101120000.000000+000";
    let result = parse_wmi_date(date_str);
    assert!(!result.is_empty());
}

#[test]
fn wmi_date_exact_and_short() {
    assert_eq!(parse_wmi_date("20230101120000.000000+000"), "2023-01-01");
    assert_eq!(parse_wmi_date("20240315"), "2024-03-15");
    assert_eq!(parse_wmi_date("2024031"), "2024031");
    assert_eq!(parse_wmi_date(""), "");
}

#[test]
fn trim_zeros_keeps_inner_zeros() {
    assert_eq!(trim_zeros_u16(&[72, 101, 108, 108, 111, 0, 0, 0]), vec![72, 101, 108, 108, 111]);
    assert_eq!(trim_zeros_u8(&[1, 0, 2, 3, 0, 0]), vec![1, 0, 2, 3]);
    assert!(trim_zeros_u8(&[0, 0, 0]).is_empty());
    assert!(trim_zeros_u16(&[]).is_empty());
}

#[test]
fn slices_to_strings() {
    assert_eq!(u16_slice_to_string(&[72, 101, 108, 108, 111, 0]), "Hello");
    assert_eq!(u8_slice_to_string(&[72, 101, 108, 108, 111, 0]), "Hello");
    assert_eq!(u16_slice_to_string(&[0x4F60, 0x597D, 0, 0]), "你好");
    assert_eq!(u8_slice_to_string("你好".as_bytes()), "你好");
    assert_eq!(u8_slice_to_string(&[0xFF, 0x41]), "\u{FFFD}A");
    assert_eq!(u16_slice_to_string(&[]), "");
}

#[test]
fn u16_bytes_edge_cases() {
    assert_eq!(u16_bytes_to_string(&[0x48, 0x00, 0x65]), "");
    assert_eq!(u16_bytes_to_string(&[0x48, 0x00, 0x00, 0x00, 0x65, 0x00]), "H");
    assert_eq!(u16_bytes_to_string(&[0x60, 0x4F, 0x7D, 0x59]), "你好");
    assert_eq!(u16_bytes_to_string(&[]), "");
}

#[test]
fn wide_string_has_terminator() {
    assert_eq!(wide_str("Hello"), vec![72, 101, 108, 108, 111, 0]);
    assert_eq!(wide_str(""), vec![0]);
    assert_eq!(wide_str("你"), vec![0x4F60, 0]);
}

#[test]
fn wmi_default_namespace() {
    assert_eq!(WmiConfig::default().namespace, "ROOT\\CIMV2");
}

#[test]
fn wmi_date_cuts_bytes() {
    assert_eq!(parse_wmi_date("éééé"), "éé-é-é");
    assert_eq!(parse_wmi_date("2024年0"), "2024年0");
    assert_eq!(parse_wmi_date("20240315é"), "2024-03-15");
}

#[test]
fn wide_string_surrogate_pair() {
    assert_eq!(wide_str("😀"), vec![0xD83D, 0xDE00, 0]);
    assert_eq!(wide_str("a😀b"), vec![0x61, 0xD83D, 0xDE00, 0x62, 0]);
}

#[test]
fn little_endian_units() {
    assert_eq!(units_from_le_bytes(&[0x41, 0x00, 0x00, 0x00, 0x42, 0x00], false), vec![0x41, 0, 0x42]);
    assert_eq!(units_from_le_bytes(&[0x41, 0x00, 0x00, 0x00, 0x42, 0x00], true), vec![0x41, 0x42]);
    assert_eq!(units_from_le_bytes(&[0x34, 0x12, 0x56], false), vec![0x1234]);
    assert!(units_from_le_bytes(&[], true).is_empty());
}

#[test]
fn utf16_pairs_and_lone_surrogates() {
    assert_eq!(u16_slice_to_string(&[0xD83D, 0xDE00, 0]), "😀");
    assert_eq!(u16_slice_to_string(&[0xD83D, 0x41]), "\u{FFFD}A");
    assert_eq!(u16_slice_to_string(&[0xDE00, 0xD83D]), "\u{FFFD}\u{FFFD}");
}
