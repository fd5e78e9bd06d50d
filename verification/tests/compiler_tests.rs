use x86_asm_test::error::AsmTestError;
use x86_asm_test::toolchain::{choose_linker, compile_outcome, link_outcome, plan_compile, plan_link};
use x86_asm_test::types::{AsmTestConfig, ExecutionMode};

#[test]
fn test_compile_with_nasm_32bit_mode() {
    let _config = AsmTestConfig::new();
}

#[test]
fn plan_compile_64bit() {
    let config = AsmTestConfig::new();
    let plan = plan_compile("/home/user/tests/add.asm", &config, None).unwrap();
    assert_eq!(plan.object_file, "/tmp/add.o");
    assert_eq!(plan.arguments, vec!["-felf64", "-o", "/tmp/add.o", "/home/user/tests/add.asm"]);
}

#[test]
fn plan_compile_32bit_with_output_dir() {
    let mut config = AsmTestConfig::new();
    config.mode = Some(ExecutionMode::Bit32);
    let plan = plan_compile("case.v2.asm", &config, Some("/work")).unwrap();
    assert_eq!(plan.object_file, "/work/case.v2.o");
    assert_eq!(plan.arguments, vec!["-felf32", "-o", "/work/case.v2.o", "case.v2.asm"]);
}

#[test]
fn plan_compile_without_file_name() {
    let config = AsmTestConfig::new();
    match plan_compile("/", &config, None) {
        Err(AsmTestError::AsmFormat(d)) => assert_eq!(d, "无效的汇编文件名"),
        _ => panic!("expected an error"),
    }
}

#[test]
fn plan_link_both_modes() {
    let config = AsmTestConfig::new();
    let plan = plan_link("/tmp/add.o", &config, Some("/tmp")).unwrap();
    assert_eq!(plan.executable_file, "/tmp/add");
    assert_eq!(plan.arguments, vec!["-Ttext=0x100000", "-w", "-m", "elf_x86_64", "-o", "/tmp/add", "/tmp/add.o"]);
    let mut config32 = AsmTestConfig::new();
    config32.mode = Some(ExecutionMode::Bit32);
    let plan32 = plan_link("obj/x.o", &config32, None).unwrap();
    assert_eq!(plan32.executable_file, "/tmp/x");
    assert_eq!(plan32.arguments[3], "elf_i386");
    assert!(matches!(plan_link("..", &config, None), Err(AsmTestError::AsmFormat(_))));
}

#[test]
fn linker_choice() {
    let c = choose_linker(true, true).unwrap();
    assert_eq!(c.linker, "x86_64-linux-gnu-ld");
    assert!(!c.is_fallback);
    let f = choose_linker(false, true).unwrap();
    assert_eq!(f.linker, "ld");
    assert!(f.is_fallback);
    match choose_linker(false, false) {
        Err(AsmTestError::SystemCall(d)) => assert_eq!(d, "链接器 x86_64-linux-gnu-ld 和通用ld链接器都不存在或不可用"),
        _ => panic!("expected an error"),
    }
}

#[test]
fn tool_outcomes() {
    let ok = compile_outcome("/tmp/a.o".to_string(), true, "", "");
    assert!(ok.success);
    assert_eq!(ok.object_file, "/tmp/a.o");
    assert!(ok.error_message.is_none());
    let bad = compile_outcome("/tmp/a.o".to_string(), false, "out", "err");
    assert!(!bad.success);
    assert_eq!(bad.error_message.unwrap(), "NASM编译错误:\n标准输出: out\n错误输出: err");
    let linked = link_outcome("/tmp/a".to_string(), "ld", false, "", "undefined");
    assert!(!linked.success);
    assert_eq!(linked.executable_file, "/tmp/a");
    assert_eq!(linked.error_message.unwrap(), "链接器 ld 错误:\n标准输出: \n错误输出: undefined");
    assert!(link_outcome("/tmp/a".to_string(), "ld", true, "", "").error_message.is_none());
}
