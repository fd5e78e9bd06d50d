use x86_asm_test::executor;
use x86_asm_test::parser;
use x86_asm_test::types::ExecutionMode;

#[test]
fn integration_test_test_parse_simple_asm_file() {
    let content = r#"%ifdef CONFIG
{
    "Mode": "32BIT"
}
%endif

mov eax, 1
ret
"#;

    let parsed = parser::parse_asm_test_content(content).unwrap();
    assert!(parsed.config.mode.is_some());
    assert!(matches!(parsed.config.mode.unwrap(), ExecutionMode::Bit32));
    assert_eq!(parsed.assembly_code.trim(), "mov eax, 1\nret");
}

#[test]
fn integration_test_test_parse_asm_file_with_reg_data() {
    let content = r#"%ifdef CONFIG
{
    "RegData": {
        "RAX": "0x123456789abcdef0",
        "RBX": "0x0fedcba987654321"
    }
}
%endif

mov rax, rbx
add rax, 0x10000000

nop
"#;

    let parsed = parser::parse_asm_test_content(content).unwrap();
    assert!(parsed.config.reg_data.is_some());
    let reg_data = parsed.config.reg_data.as_ref().unwrap();
    assert_eq!(reg_data.rax, Some("0x123456789abcdef0".to_string()));
    assert_eq!(reg_data.rbx, Some("0x0fedcba987654321".to_string()));
    assert_eq!(parsed.assembly_code.trim(), "mov rax, rbx\nadd rax, 0x10000000\n\nnop");
}

#[test]
fn integration_test_test_parse_asm_file_with_reg_init() {
    let content = r#"%ifdef CONFIG
{
    "RegInit": {
        "RAX": "0x123456789abcdef0",
        "RBX": "0x0fedcba987654321"
    }
}
%endif

mov rax, rbx
add rax, 0x10000000

nop
"#;

    let parsed = parser::parse_asm_test_content(content).unwrap();
    assert!(parsed.config.reg_init.is_some());
    let reg_init = parsed.config.reg_init.as_ref().unwrap();
    assert_eq!(reg_init.rax, Some("0x123456789abcdef0".to_string()));
    assert_eq!(reg_init.rbx, Some("0x0fedcba987654321".to_string()));
    assert_eq!(parsed.assembly_code.trim(), "mov rax, rbx\nadd rax, 0x10000000\n\nnop");
}

#[test]
fn integration_test_test_parse_asm_file_with_memory_regions() {
    let content = r#"%ifdef CONFIG
{
    "MemoryRegions": {
        "0x10000000": 4096,
        "0x20000000": "0x2000"
    }
}
%endif

mov rax, 0x10000000
mov [rax], 0x12345678

nop
"#;

    let parsed = parser::parse_asm_test_content(content).unwrap();
    assert!(parsed.config.memory_regions.is_some());
    let memory_regions = parsed.config.memory_regions.as_ref().unwrap();
    assert_eq!(memory_regions.len(), 2);
    assert!(memory_regions.contains_key("0x10000000"));
    assert!(memory_regions.contains_key("0x20000000"));
    assert_eq!(parsed.assembly_code.trim(), "mov rax, 0x10000000\nmov [rax], 0x12345678\n\nnop");
}

#[test]
fn integration_test_test_parse_asm_file_with_memory_data() {
    let content = r#"%ifdef CONFIG
{
    "MemoryData": {
        "0x10000000": "0x12345678 0x9abcdef0"
    }
}
%endif

mov rax, 0x10000000
mov ebx, [rax]

nop
"#;

    let parsed = parser::parse_asm_test_content(content).unwrap();
    assert!(parsed.config.memory_data.is_some());
    let memory_data = parsed.config.memory_data.as_ref().unwrap();
    assert_eq!(memory_data.len(), 1);
    assert!(memory_data.contains_key("0x10000000"));
    assert_eq!(parsed.assembly_code.trim(), "mov rax, 0x10000000\nmov ebx, [rax]\n\nnop");
}

#[test]
fn test_parse_hex_address() {
    assert_eq!(executor::parse_hex_address("0x10000000").unwrap(), 0x10000000);
    assert_eq!(executor::parse_hex_address("0X20000000").unwrap(), 0x20000000);
    assert_eq!(executor::parse_hex_address("10000000").unwrap(), 10000000);
    assert!(executor::parse_hex_address("invalid").is_err());
}

#[test]
fn test_parse_hex_value() {
    assert_eq!(executor::parse_hex_value("0x12345678").unwrap(), 0x12345678);
    assert_eq!(executor::parse_hex_value("0XABCDEF").unwrap(), 0xABCDEF);
    assert_eq!(executor::parse_hex_value("123456").unwrap(), 0x123456);
    assert_eq!(executor::parse_hex_value("").unwrap(), 0);
    assert!(executor::parse_hex_value("invalid").is_err());
}
