use x86_asm_test::error::AsmTestError;
use x86_asm_test::parser::{parse_asm_test_content, parse_config_json};
use x86_asm_test::registers::{initial_registers, GeneralRegisters};
use x86_asm_test::types::ExecutionMode;

fn config_message(r: Result<x86_asm_test::types::AsmTestConfig, AsmTestError>) -> String {
    match r {
        Err(AsmTestError::ConfigParse(m)) => m,
        Err(_) => panic!("another error kind"),
        Ok(_) => panic!("accepted"),
    }
}

#[test]
fn duplicate_mode_member_is_refused() {
    let m = config_message(parse_config_json(r#"{"Mode": "32BIT", "Mode": "32BIT"}"#));
    assert!(m.starts_with("JSON解析失败: "));
}

#[test]
fn duplicate_register_member_is_refused() {
    let m = config_message(parse_config_json(r#"{"RegInit": {"RAX": "0x1", "RAX": "0x2"}}"#));
    assert!(m.starts_with("JSON解析失败: "));
}

#[test]
fn escaped_duplicate_member_is_refused() {
    let m = config_message(parse_config_json(r#"{"Mode": "32BIT", "Mod\u0065": "32BIT"}"#));
    assert!(m.starts_with("JSON解析失败: "));
}

#[test]
fn same_name_in_different_objects_is_accepted() {
    let c = parse_config_json(r#"{"RegInit": {"RAX": "0x1"}, "RegData": {"RAX": "0x2"}}"#).unwrap();
    assert_eq!(c.reg_init.unwrap().rax, Some("0x1".to_string()));
    assert_eq!(c.reg_data.unwrap().rax, Some("0x2".to_string()));
}

#[test]
fn schema_error_names_the_prefix() {
    let m = config_message(parse_config_json(r#"{"Mode": "16BIT"}"#));
    assert!(m.starts_with("JSON解析失败: "));
    let m = config_message(parse_config_json("{not json"));
    assert!(m.starts_with("JSON解析失败: "));
}

#[test]
fn sequence_form_of_the_configuration() {
    let c = parse_config_json(r#"[null, null, "32BIT", null, null]"#).unwrap();
    assert!(matches!(c.mode, Some(ExecutionMode::Bit32)));
    assert!(c.reg_data.is_none());
    assert!(c.reg_init.is_none());
    assert!(c.memory_regions.is_none());
    assert!(c.memory_data.is_none());
    assert!(parse_config_json(r#"[null, null, "32BIT"]"#).is_err());
}

#[test]
fn user_guide_32bit_example_sets_low_halves() {
    let content = r#"%ifdef CONFIG
{
    "Mode": "32BIT",
    "RegInit": {
        "EAX": "0x12345678",
        "EBX": "0x87654321"
    }
}
%endif

add eax, ebx
nop
"#;
    let f = parse_asm_test_content(content).unwrap();
    assert!(matches!(f.config.mode, Some(ExecutionMode::Bit32)));
    let init = f.config.reg_init;
    let cur = GeneralRegisters {
        rax: 0xFFFF_FFFF_0000_0000, rbx: 0, rcx: 0, rdx: 0, rsi: 0, rdi: 0, rbp: 0, rsp: 0,
        r8: 0, r9: 0, r10: 0, r11: 0, r12: 0, r13: 0, r14: 0, r15: 0,
        rip: 0xC000_0001, eflags: 0x246,
    };
    let r = initial_registers(&cur, &init, true);
    assert_eq!(r.rax, 0xFFFF_FFFF_1234_5678);
    assert_eq!(r.rbx & 0xFFFF_FFFF, 0x8765_4321);
    assert_eq!(r.rcx, 0);
}

#[test]
fn wide_name_wins_over_the_32bit_name() {
    let c = parse_config_json(r#"{"Mode": "32BIT", "RegInit": {"RAX": "0x1", "EAX": "0x2", "ESP": "0x3"}}"#).unwrap();
    let init = c.reg_init.unwrap();
    assert_eq!(init.rax, Some("0x1".to_string()));
    assert_eq!(init.rsp, Some("0x3".to_string()));
}

#[test]
fn names_32bit_are_ignored_in_64bit_mode() {
    let c = parse_config_json(r#"{"RegInit": {"EAX": "0x2"}, "RegData": {"EBX": "0x3"}}"#).unwrap();
    assert_eq!(c.reg_init.unwrap().rax, None);
    assert_eq!(c.reg_data.unwrap().rbx, None);
    let d = parse_config_json(r#"{"RegInit": {"EAX": "0x2"}, "Mode": "32BIT"}"#).unwrap();
    assert_eq!(d.reg_init.unwrap().rax, Some("0x2".to_string()));
}

#[test]
fn mode_as_an_object_holding_its_variant() {
    let c = parse_config_json(r#"{"Mode": {"32BIT": null}, "RegInit": {"EAX": "0x5"}}"#).unwrap();
    assert!(matches!(c.mode, Some(ExecutionMode::Bit32)));
    assert_eq!(c.reg_init.unwrap().rax, Some("0x5".to_string()));
    assert!(parse_config_json(r#"{"Mode": {"32BIT": 1}}"#).is_err());
    assert!(parse_config_json(r#"{"Mode": {}}"#).is_err());
    assert!(parse_config_json(r#"{"Mode": {"64BIT": null}}"#).is_err());
    assert!(parse_config_json(r#"{"Mode": {"32BIT": null, "x": null}}"#).is_err());
    let m = config_message(parse_config_json(r#"{"Mode": {"32BIT": null, "32BIT": null}}"#));
    assert!(m.starts_with("JSON解析失败: "));
    let seq = parse_config_json(r#"[null, null, {"32BIT": null}, null, null]"#).unwrap();
    assert!(matches!(seq.mode, Some(ExecutionMode::Bit32)));
}

#[test]
fn duplicates_in_the_sequence_form_are_refused() {
    assert!(parse_config_json(r#"[null, {"RAX": "0x1", "RAX": "0x2"}, null, null, null]"#).is_err());
    assert!(parse_config_json(r#"[null, null, {"32BIT": null, "32BIT": null}, null, null]"#).is_err());
    let c = parse_config_json(r#"[{"RAX": "0x1"}, {"RAX": "0x2"}, null, null, null]"#).unwrap();
    assert_eq!(c.reg_data.unwrap().rax, Some("0x1".to_string()));
    assert_eq!(c.reg_init.unwrap().rax, Some("0x2".to_string()));
}
