use x86_asm_test::executor::{first_map_request, retry_map_request, MapRequest, EINVAL, ENOTSUP};
use x86_asm_test::error::AsmTestError;
use x86_asm_test::executor::{
    code_image, memory_region_requests, parse_hex_address, parse_hex_string_detailed, parse_hex_value,
    parse_register_value, plan_memory_writes, validate_memory_data_addresses,
};
use x86_asm_test::parser::parse_asm_test_content;
use x86_asm_test::types::AsmTestConfig;

fn config_of(json: &str) -> AsmTestConfig {
    let text = format!("%ifdef CONFIG\n{}\n%endif\nnop\n", json);
    parse_asm_test_content(&text).unwrap().config
}

#[test]
fn hex_string_bytes_are_little_endian() {
    assert_eq!(parse_hex_string_detailed("0x12345678").unwrap(), vec![0x78, 0x56, 0x34, 0x12]);
    assert_eq!(parse_hex_string_detailed("0x12345678 0x9abcdef0").unwrap(), vec![0x78, 0x56, 0x34, 0x12, 0xf0, 0xde, 0xbc, 0x9a]);
    assert_eq!(parse_hex_string_detailed("0xfa 0xaa 0x55 0x33").unwrap(), vec![0xfa, 0xaa, 0x55, 0x33]);
    assert_eq!(parse_hex_string_detailed("0x123").unwrap(), vec![0x23, 0x01]);
    assert_eq!(parse_hex_string_detailed("  ab\tCD\n").unwrap(), vec![0xab, 0xcd]);
    assert_eq!(parse_hex_string_detailed("").unwrap(), Vec::<u8>::new());
    assert_eq!(parse_hex_string_detailed("0x").unwrap(), Vec::<u8>::new());
    assert!(matches!(parse_hex_string_detailed("0xzz"), Err(AsmTestError::Execution(_))));
}

#[test]
fn register_values_parse_hex_or_decimal() {
    assert_eq!(parse_register_value(&Some("0x10".to_string())), Some(16));
    assert_eq!(parse_register_value(&Some(" 0XfF ".to_string())), Some(255));
    assert_eq!(parse_register_value(&Some("42".to_string())), Some(42));
    assert_eq!(parse_register_value(&Some("0x10000000000000000".to_string())), None);
    assert_eq!(parse_register_value(&Some("ten".to_string())), None);
    assert_eq!(parse_register_value(&None), None);
}

#[test]
fn memory_data_must_lie_in_a_mapped_region() {
    let ok = config_of(r#"{"MemoryRegions": {"0x10000000": 4096}, "MemoryData": {"0x10000ff0": "0x01"}}"#);
    assert!(validate_memory_data_addresses(&ok).is_ok());
    let stack = config_of(r#"{"MemoryData": {"0xE0000010": "0x01", "0xC0000000": "0x02"}}"#);
    assert!(validate_memory_data_addresses(&stack).is_ok());
    let outside = config_of(r#"{"MemoryRegions": {"0x10000000": "0x1000"}, "MemoryData": {"0x10001000": "0x01"}}"#);
    match validate_memory_data_addresses(&outside) {
        Err(AsmTestError::Execution(d)) => assert_eq!(
            d,
            "内存数据地址 0x10001000 不在任何合法的内存区域中。合法区域: [(3758096384, 3758161920), (3221225472, 3221229568), (268435456, 268439552)]"
        ),
        _ => panic!("expected an error"),
    }
    let bad_region = config_of(r#"{"MemoryRegions": {"zz": 16}, "MemoryData": {"0xE0000000": "0x01"}}"#);
    match validate_memory_data_addresses(&bad_region) {
        Err(AsmTestError::Execution(d)) => assert_eq!(
            d,
            "无法解析内存区域地址 zz: Execution error: 无法解析地址 zz: invalid digit found in string"
        ),
        _ => panic!("expected an error"),
    }
    let bad_size = config_of(r#"{"MemoryRegions": {"0x10": "0xq"}, "MemoryData": {"0xE0000000": "0x01"}}"#);
    match validate_memory_data_addresses(&bad_size) {
        Err(AsmTestError::Execution(d)) => assert_eq!(d, "无法解析内存区域大小: 0xq"),
        _ => panic!("expected an error"),
    }
    let bad_address = config_of(r#"{"MemoryData": {"here": "0x01"}}"#);
    match validate_memory_data_addresses(&bad_address) {
        Err(AsmTestError::Execution(d)) => assert_eq!(
            d,
            "无法解析内存数据地址 here: Execution error: 无法解析地址 here: invalid digit found in string"
        ),
        _ => panic!("expected an error"),
    }
    assert!(validate_memory_data_addresses(&AsmTestConfig::new()).is_ok());
}

#[test]
fn memory_writes_are_planned_inside_regions() {
    let config = config_of(
        r#"{"MemoryRegions": {"0x10000000": 4096, "0x20000000": "0x10", "bad": 1}, "MemoryData": {"0x10000020": "0xfa 0xaa 0x55 0x33", "0x2000000e": "0x1234", "0x2000000f": "0x1234", "0x30000000": "0x01"}}"#,
    );
    let mapped = memory_region_requests(&config);
    assert_eq!(mapped, vec![(0x10000000, 4096), (0x20000000, 0x10)]);
    let writes = plan_memory_writes(&config, &mapped);
    assert_eq!(writes.len(), 2);
    assert_eq!(writes[0].region, 0);
    assert_eq!(writes[0].offset, 0x20);
    assert_eq!(writes[0].bytes, vec![0xfa, 0xaa, 0x55, 0x33]);
    assert_eq!(writes[1].region, 1);
    assert_eq!(writes[1].offset, 0xe);
    assert_eq!(writes[1].bytes, vec![0x34, 0x12]);
}

#[test]
fn code_image_is_framed_by_breakpoints() {
    assert_eq!(code_image(&[0x90, 0xc3]).unwrap(), vec![0xcc, 0x90, 0xc3, 0xcc]);
    assert_eq!(code_image(&[0xc3, 0x90]).unwrap(), vec![0xcc, 0xc3, 0xcc]);
    assert_eq!(code_image(&[0x90]).unwrap(), vec![0xcc, 0xcc]);
    assert_eq!(code_image(&[]).unwrap(), vec![0xcc, 0xcc]);
    assert_eq!(code_image(&vec![0x90u8; 4094]).unwrap().len(), 4095);
    assert!(code_image(&vec![0x90u8; 4095]).is_none());
}

#[test]
fn parse_errors_name_the_input() {
    match parse_hex_address("invalid") {
        Err(AsmTestError::Execution(d)) => assert_eq!(d, "无法解析地址 invalid: invalid digit found in string"),
        _ => panic!("expected an error"),
    }
    match parse_hex_address("0xzz") {
        Err(AsmTestError::Execution(d)) => assert_eq!(d, "无法解析十六进制地址 0xzz: invalid digit found in string"),
        _ => panic!("expected an error"),
    }
    match parse_hex_address("0x") {
        Err(AsmTestError::Execution(d)) => assert_eq!(d, "无法解析十六进制地址 0x: cannot parse integer from empty string"),
        _ => panic!("expected an error"),
    }
    match parse_hex_address("18446744073709551616") {
        Err(AsmTestError::Execution(d)) => assert_eq!(d, "无法解析地址 18446744073709551616: number too large to fit in target type"),
        _ => panic!("expected an error"),
    }
    match parse_hex_value("0xg") {
        Err(AsmTestError::Execution(d)) => assert_eq!(d, "无法解析十六进制值 0xg: invalid digit found in string"),
        _ => panic!("expected an error"),
    }
    match parse_hex_value("+") {
        Err(AsmTestError::Execution(d)) => assert_eq!(d, "无法解析十六进制值 +: invalid digit found in string"),
        _ => panic!("expected an error"),
    }
    match parse_hex_value("1ffffffffffffffffz") {
        Err(AsmTestError::Execution(d)) => assert_eq!(d, "无法解析十六进制值 1ffffffffffffffffz: number too large to fit in target type"),
        _ => panic!("expected an error"),
    }
    assert_eq!(parse_hex_address(" 0x10 ").unwrap(), 16);
    assert_eq!(parse_hex_value("  ").unwrap(), 0);
    assert_eq!(parse_hex_address("18446744073709551615").unwrap(), u64::MAX);
    assert!(parse_hex_address("18446744073709551616").is_err());
    assert!(parse_hex_address("").is_err());
}

#[test]
fn validated_data_addresses_find_their_regions() {
    let config = config_of(r#"{"MemoryRegions": {"0x10000000": 64, "0x20000000": "0x40"}, "MemoryData": {"0x10000000": "0x01", "0x2000003f": "0x02"}}"#);
    assert!(validate_memory_data_addresses(&config).is_ok());
    let mapped = memory_region_requests(&config);
    let writes = plan_memory_writes(&config, &mapped);
    assert_eq!(writes.len(), 2);
    assert_eq!((writes[0].region, writes[0].offset), (0, 0));
    assert_eq!((writes[1].region, writes[1].offset), (1, 0x3f));
}

#[test]
fn hex_prefix_changes_nothing() {
    for t in ["ff", " 1234abcd ", "DEADbeef"] {
        let bare = parse_hex_value(t).unwrap();
        let trimmed = t.trim();
        assert_eq!(parse_hex_value(&format!("0x{}", trimmed)).unwrap(), bare);
        assert_eq!(parse_hex_value(&format!("0X{}", trimmed)).unwrap(), bare);
        assert_eq!(parse_hex_address(&format!("0x{}", trimmed)).unwrap(), bare);
    }
    assert!(parse_hex_value("zz").is_err());
    assert!(parse_hex_value("0xzz").is_err());
    assert!(parse_hex_address("0xzz").is_err());
}

#[test]
fn hex_data_of_joined_texts() {
    let a = "0x0102 3";
    let b = "0xabc";
    let x = parse_hex_string_detailed(a).unwrap();
    let y = parse_hex_string_detailed(b).unwrap();
    assert_eq!(x, vec![0x02, 0x01, 0x03]);
    assert_eq!(y, vec![0xbc, 0x0a]);
    let joined = parse_hex_string_detailed(&format!("{} {}", a, b)).unwrap();
    let mut both = x.clone();
    both.extend(y);
    assert_eq!(joined, both);
}

#[test]
fn hex_data_byte_count_is_half_the_digits_rounded_up() {
    assert_eq!(parse_hex_string_detailed("0x123 ab c").unwrap().len(), 4);
    assert_eq!(parse_hex_string_detailed("0x123 ab c").unwrap(), vec![0x23, 0x01, 0xab, 0x0c]);
    assert_eq!(parse_hex_string_detailed("0x 0X1").unwrap(), vec![0x01]);
}

#[test]
fn mapping_requests() {
    assert!(first_map_request(true) == MapRequest::ReplaceExisting);
    assert!(first_map_request(false) == MapRequest::KeepExisting);
    assert!(retry_map_request(EINVAL) == Some(MapRequest::ReplaceExisting));
    assert!(retry_map_request(ENOTSUP) == Some(MapRequest::ReplaceExisting));
    assert!(retry_map_request(17).is_none());
}
