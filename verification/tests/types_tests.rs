use x86_asm_test::types::{AsmTestConfig, AsmTestFile, ExecutionMode, RegisterData};

#[test]
fn test_asm_test_config_new() {
    let config = AsmTestConfig::new();
    assert!(config.reg_data.is_none());
    assert!(config.mode.is_none());
    assert!(config.memory_regions.is_none());
    assert!(config.memory_data.is_none());
}

#[test]
fn test_register_data_new() {
    let reg_data = RegisterData::new();
    assert!(reg_data.rax.is_none());
    assert!(reg_data.rcx.is_none());
}

#[test]
fn test_generate_with_init_instructions() {
    let mut config = AsmTestConfig::new();
    let mut reg_init = RegisterData::new();
    reg_init.rax = Some("0x123456789ABCDEF0".to_string());
    reg_init.rbx = Some("0xFEDCBA9876543210".to_string());
    config.reg_init = Some(reg_init);

    let asm_test_file = AsmTestFile { config, assembly_code: "add rax, rbx\n".to_string() };

    let result = asm_test_file.generate_with_init_instructions(None);
    println!("Generated result:\n{}", result);

    assert!(result.contains("mov rax, 0x123456789ABCDEF0"));
    assert!(result.contains("mov rbx, 0xFEDCBA9876543210"));
    assert!(result.contains("add rax, rbx"));
}

#[test]
fn generate_with_init_instructions_exact_text() {
    let mut config = AsmTestConfig::new();
    let mut reg_init = RegisterData::new();
    reg_init.rcx = Some("5".to_string());
    reg_init.rax = Some("0x1".to_string());
    reg_init.xmm1 = Some(vec!["0x11".to_string(), "0x22".to_string()]);
    config.reg_init = Some(reg_init);
    let file = AsmTestFile { config, assembly_code: "add rax, rcx\nhlt".to_string() };
    let result = file.generate_with_init_instructions(Some("{}"));
    let expected = "%ifdef CONFIG\n{}\n%endif\n\nmov rax, 0x1\nmov rcx, 5\npush rax\n; 初始化XMM1寄存器\nmov rax, 0x11\nmovq xmm1, rax\nmov rax, 0x22\nmovq xmm15, rax\nmovhpd xmm1, xmm15\npop rax\nadd rax, rcx\nhlt";
    assert_eq!(result, expected);
}

#[test]
fn generate_result_file_adds_hlt_once() {
    let file = AsmTestFile { config: AsmTestConfig::new(), assembly_code: "mov eax, 1".to_string() };
    assert_eq!(file.generate_result_file(Some("{\n  \"Mode\": null\n}")), "%ifdef CONFIG\n{\n  \"Mode\": null\n}\n%endif\n\nmov eax, 1\nhlt\n");
    let ended = AsmTestFile { config: AsmTestConfig::new(), assembly_code: "nop\nhlt\n\n".to_string() };
    assert_eq!(ended.generate_result_file(None), "%ifdef CONFIG\n\n%endif\n\nnop\nhlt\n\n");
}

#[test]
fn result_file_reads_back() {
    let file = AsmTestFile { config: AsmTestConfig::new(), assembly_code: "mov eax, 1".to_string() };
    let json = "{\n  \"Mode\": \"32BIT\",\n  \"RegData\": {\n    \"RAX\": \"0x0000000000000001\"\n  }\n}";
    let text = file.generate_result_file(Some(json));
    let parsed = x86_asm_test::parser::parse_asm_test_content(&text).unwrap();
    assert_eq!(parsed.config.mode, Some(ExecutionMode::Bit32));
    assert_eq!(parsed.config.reg_data.as_ref().unwrap().rax, Some("0x0000000000000001".to_string()));
    assert_eq!(parsed.assembly_code, "\nmov eax, 1\nhlt");
    let (config_text, _) = x86_asm_test::parser::extract_config_block(&text);
    assert_eq!(config_text, json);
}

#[test]
fn config_with_result_keeps_the_rest() {
    let mut config = AsmTestConfig::new();
    config.mode = Some(ExecutionMode::Bit32);
    let mut init = RegisterData::new();
    init.rax = Some("1".to_string());
    config.reg_init = Some(init);
    let file = AsmTestFile { config, assembly_code: String::new() };
    let mut data = RegisterData::new();
    data.rbx = Some("0x2".to_string());
    let with = file.config_with_result(&data);
    assert_eq!(with.mode, Some(ExecutionMode::Bit32));
    assert_eq!(with.reg_data.as_ref().unwrap().rbx, Some("0x2".to_string()));
    assert_eq!(with.reg_init.as_ref().unwrap().rax, Some("1".to_string()));
    let without = file.config_without_init();
    assert!(without.reg_init.is_none());
    assert_eq!(without.mode, Some(ExecutionMode::Bit32));
}

#[test]
fn ymm_init_instructions() {
    let mut out: Vec<char> = Vec::new();
    let values = Some(vec!["0x1".to_string(), "0x2".to_string(), "0x3".to_string(), "0x4".to_string()]);
    AsmTestFile::generate_xmm_init_instructions(&mut out, 4, &values);
    let text: String = out.iter().collect();
    assert_eq!(
        text,
        "; 初始化XMM4寄存器 (YMM version)\nmov rax, 0x1\nmovq xmm4, rax\nmov rax, 0x2\nmovq xmm15, rax\nmovhpd xmm4, xmm15\nmov rax, 0x3\nmovq xmm15, rax\nmovq xmm14, rax\nmov rax, 0x4\nmovq xmm13, rax\nmovhpd xmm14, xmm13\nvinserti128 ymm4, ymm4, xmm14, 1\n"
    );
    let mut one: Vec<char> = Vec::new();
    AsmTestFile::generate_xmm_init_instructions(&mut one, 0, &Some(vec!["0x9".to_string()]));
    assert_eq!(one.iter().collect::<String>(), "; 初始化XMM0寄存器\nmov rax, 0x9\nmovq xmm0, rax\n");
    let mut none: Vec<char> = Vec::new();
    AsmTestFile::generate_xmm_init_instructions(&mut none, 0, &Some(vec![]));
    assert!(none.is_empty());
}

fn init_text_for_xmm0(lanes: &[&str]) -> String {
    let mut config = AsmTestConfig::new();
    let mut reg_init = RegisterData::new();
    reg_init.xmm0 = Some(lanes.iter().map(|l| l.to_string()).collect());
    config.reg_init = Some(reg_init);
    let file = AsmTestFile { config, assembly_code: "nop\n".to_string() };
    file.generate_with_init_instructions(None)
}

#[test]
fn vector_init_reads_only_leading_lanes() {
    assert_eq!(init_text_for_xmm0(&["0x1", "0x2", "0x3", "0x4", "0x5"]), init_text_for_xmm0(&["0x1", "0x2", "0x3", "0x4"]));
    assert_eq!(init_text_for_xmm0(&["0x1", "0x2", "0x3"]), init_text_for_xmm0(&["0x1", "0x2"]));
    assert_ne!(init_text_for_xmm0(&["0x1", "0x2"]), init_text_for_xmm0(&["0x1"]));
    assert_eq!(init_text_for_xmm0(&[]), AsmTestFile { config: AsmTestConfig::new(), assembly_code: "nop\n".to_string() }.generate_with_init_instructions(None));
    assert!(init_text_for_xmm0(&["0x1"]).contains("; 初始化XMM0寄存器\nmov rax, 0x1\nmovq xmm0, rax\n"));
}

#[test]
fn initial_registers_by_code_only_when_asked_and_present() {
    let mut config = AsmTestConfig::new();
    config.reg_init = Some(RegisterData::new());
    let with = AsmTestFile { config, assembly_code: "nop\n".to_string() };
    let without = AsmTestFile { config: AsmTestConfig::new(), assembly_code: "nop\n".to_string() };
    assert!(with.inits_by_code(true));
    assert!(!with.inits_by_code(false));
    assert!(!without.inits_by_code(true));
}
