use x86_asm_test::registers::{
    clear_xmm_area, initial_registers, initialize_xsave, register_data_from_values, xmm_registers_from_xsave,
    GeneralRegisters,
};
use x86_asm_test::report::{format_32bit_value, format_flags, format_register_data, format_xmm_register};
use x86_asm_test::types::RegisterData;

fn regs(fill: u64) -> GeneralRegisters {
    GeneralRegisters {
        rax: fill, rbx: fill, rcx: fill, rdx: fill, rsi: fill, rdi: fill, rbp: fill, rsp: fill,
        r8: fill, r9: fill, r10: fill, r11: fill, r12: fill, r13: fill, r14: fill, r15: fill,
        rip: 0xC000_0001, eflags: 0x246,
    }
}

fn text(v: Vec<char>) -> String {
    v.into_iter().collect()
}

#[test]
fn default_registers_64bit() {
    let r = initial_registers(&regs(0x1111_2222_3333_4444), &None, false);
    assert_eq!(r.rax, 0);
    assert_eq!(r.r15, 0);
    assert_eq!(r.rsp, 0xE000_FF80);
    assert_eq!(r.rip, 0xC000_0001);
    assert_eq!(r.eflags, 0x202);
}

#[test]
fn configured_registers_64bit_and_32bit() {
    let mut init = RegisterData::new();
    init.rax = Some("0x123456789abcdef0".to_string());
    init.rbx = Some("10".to_string());
    init.r8 = Some("0x8".to_string());
    init.rsp = Some("0x1".to_string());
    init.rcx = Some("junk".to_string());
    let init = Some(init);
    let r = initial_registers(&regs(0xAAAA_BBBB_CCCC_DDDD), &init, false);
    assert_eq!(r.rax, 0x1234_5678_9abc_def0);
    assert_eq!(r.rbx, 10);
    assert_eq!(r.rcx, 0);
    assert_eq!(r.r8, 8);
    assert_eq!(r.rsp, 0xE000_FF80);
    let r32 = initial_registers(&regs(0xAAAA_BBBB_CCCC_DDDD), &init, true);
    assert_eq!(r32.rax, 0xAAAA_BBBB_9abc_def0);
    assert_eq!(r32.rbx, 0xAAAA_BBBB_0000_000a);
    assert_eq!(r32.rcx, 0xAAAA_BBBB_0000_0000);
    assert_eq!(r32.rsp, 0xAAAA_BBBB_E000_FF80);
    assert_eq!(r32.r8, 0);
    assert_eq!(r32.eflags, 0x202);
}

#[test]
fn recorded_registers_and_lanes() {
    let mut area = vec![0u8; 0x240 + 256];
    area[0xA0] = 0x01;
    area[0xA8 + 7] = 0x80;
    area[512] = 4;
    area[0x240] = 0x22;
    let x = xmm_registers_from_xsave(&area);
    let x0 = x.xmm0.clone().unwrap();
    assert_eq!(x0, vec!["0x0000000000000001", "0x8000000000000000", "0x0000000000000022", "0x0000000000000000"]);
    let d = register_data_from_values(&regs(0x2a), Some(x));
    assert_eq!(d.rax, Some("0x000000000000002a".to_string()));
    assert_eq!(d.rip, Some("0x00000000c0000001".to_string()));
    assert_eq!(d.flags, Some("0x00000246".to_string()));
    assert_eq!(d.xmm0.unwrap().len(), 4);
    let without = register_data_from_values(&regs(0), None);
    assert!(without.xmm0.is_none());
    let short = xmm_registers_from_xsave(&[0u8; 100]);
    assert!(short.xmm5.is_none());
}

#[test]
fn xsave_round_trip_of_initial_vectors() {
    let mut init = RegisterData::new();
    init.xmm3 = Some(vec!["0x1122334455667788".to_string(), "".to_string()]);
    init.xmm15 = Some(vec!["0xff".to_string(), "0x0000000000000002".to_string(), "0x3".to_string(), "0x4".to_string()]);
    let init = Some(init);
    let mut area = vec![0xEEu8; 600];
    initialize_xsave(&mut area, &init);
    assert_eq!(area[512], 0xEE | 2);
    let x = xmm_registers_from_xsave(&area);
    let x3 = x.xmm3.unwrap();
    assert_eq!(x3[0], "0x1122334455667788");
    assert_eq!(x3[1], "0x0000000000000000");
    let x15 = x.xmm15.unwrap();
    assert_eq!(x15[0], "0x00000000000000ff");
    assert_eq!(x15[1], "0x0000000000000002");
    assert_eq!(x.xmm0.unwrap()[0], "0x0000000000000000");
    let mut untouched = vec![0x11u8; 600];
    initialize_xsave(&mut untouched, &None);
    assert_eq!(untouched[0x9F], 0x11);
    assert_eq!(untouched[0xA0], 0);
    assert_eq!(untouched[0xA0 + 255], 0);
    assert_eq!(untouched[0xA0 + 256], 0x11);
    assert_eq!(untouched[512], 0x13);
}

#[test]
fn clearing_the_vector_area() {
    let mut area = vec![0x55u8; 520];
    assert!(clear_xmm_area(&mut area));
    assert_eq!(area[0x9F], 0x55);
    assert_eq!(area[0xA0], 0);
    assert_eq!(area[0xA0 + 255], 0);
    assert_eq!(area[0xA0 + 256], 0x55);
    assert_eq!(area[512], 0x57);
    let mut short = vec![1u8; 10];
    assert!(!clear_xmm_area(&mut short));
    assert_eq!(short, vec![1u8; 10]);
}

#[test]
fn report_formatting() {
    assert_eq!(text(format_32bit_value("0x123456789abcdef0")), "0x9abcdef0");
    assert_eq!(text(format_32bit_value("0x1234")), "0x1234");
    assert_eq!(text(format_32bit_value("42")), "42");
    assert_eq!(
        text(format_flags(0x246)),
        "0x00000246 [CF:0 PF:1 AF:0 ZF:1 SF:0 TF:0 IF:1 DF:0 OF:0 IOPL:0 NT:0 RF:0 VM:0 AC:0 VIF:0 VIP:0 ID:0]"
    );
    let mut out: Vec<char> = Vec::new();
    format_xmm_register("XMM1", &Some(vec!["0x1".to_string(), "0x2".to_string(), "0x0000000000000000".to_string(), "0x0000000000000000".to_string()]), &mut out);
    format_xmm_register("XMM2", &Some(vec!["0x1".to_string(), "0x2".to_string(), "0x3".to_string(), "0x4".to_string()]), &mut out);
    format_xmm_register("XMM3", &Some(vec!["0x1".to_string()]), &mut out);
    format_xmm_register("XMM4", &None, &mut out);
    assert_eq!(text(out), "  XMM1: 0x1 0x2\n  XMM2: 0x1 0x2 0x3 0x4\n");
}

#[test]
fn register_report_64_and_32_bit() {
    let mut d = RegisterData::new();
    d.rax = Some("0x00000000deadbeef".to_string());
    d.r8 = Some("0x0000000000000008".to_string());
    d.xmm9 = Some(vec!["0x9".to_string(), "0x9".to_string()]);
    d.flags = Some("0x00000202".to_string());
    let r64 = format_register_data(&d, false);
    assert_eq!(
        r64,
        "通用寄存器:\n  RAX: 0x00000000deadbeef\n  R8:  0x0000000000000008\n\n向量寄存器:\n  XMM9: 0x9 0x9\n\n标志寄存器:\n  0x00000202 [CF:0 PF:0 AF:0 ZF:0 SF:0 TF:0 IF:1 DF:0 OF:0 IOPL:0 NT:0 RF:0 VM:0 AC:0 VIF:0 VIP:0 ID:0]\n"
    );
    let r32 = format_register_data(&d, true);
    assert_eq!(
        r32,
        "通用寄存器:\n  EAX: 0xdeadbeef\n\n向量寄存器:\n\n标志寄存器:\n  0x00000202 [CF:0 PF:0 AF:0 ZF:0 SF:0 TF:0 IF:1 DF:0 OF:0 IOPL:0 NT:0 RF:0 VM:0 AC:0 VIF:0 VIP:0 ID:0]\n"
    );
    d.flags = Some("bogus".to_string());
    assert!(format_register_data(&d, false).ends_with("\n标志寄存器:\n  bogus\n"));
}

#[test]
fn recorded_values_feed_back_as_initial_values() {
    let mut before = regs(0);
    before.rax = 0xfedc_ba98_7654_3210;
    before.rdi = 7;
    before.r15 = u64::MAX;
    let recorded = register_data_from_values(&before, None);
    let mut init = RegisterData::new();
    init.rax = recorded.rax.clone();
    init.rdi = recorded.rdi.clone();
    init.r15 = recorded.r15.clone();
    let r = initial_registers(&regs(0x1234), &Some(init), false);
    assert_eq!(r.rax, 0xfedc_ba98_7654_3210);
    assert_eq!(r.rdi, 7);
    assert_eq!(r.r15, u64::MAX);

    let mut lanes = RegisterData::new();
    lanes.xmm2 = Some(vec!["0x00000000000000aa".to_string(), "0xffffffffffffffff".to_string()]);
    let mut area = vec![0u8; 0x1A0];
    initialize_xsave(&mut area, &Some(lanes));
    let back = xmm_registers_from_xsave(&area).xmm2.unwrap();
    assert_eq!(back[0], "0x00000000000000aa");
    assert_eq!(back[1], "0xffffffffffffffff");
}

#[test]
fn value_shown_as_32bit_is_stable() {
    for v in ["0x123456789abcdef0", "0x1234", "0X123456789abcdef0", "0x0000000012345678", "junk"] {
        let once = text(format_32bit_value(v));
        let twice = text(format_32bit_value(&once));
        assert_eq!(once, twice);
    }
}

#[test]
fn report_32bit_ignores_upper_registers() {
    let mut a = RegisterData::new();
    a.rax = Some("0x00000000000000ff".to_string());
    a.rip = Some("0x00000000c0000002".to_string());
    a.flags = Some("0x246".to_string());
    let mut b = RegisterData::new();
    b.rax = a.rax.clone();
    b.rip = a.rip.clone();
    b.flags = a.flags.clone();
    b.r8 = Some("0x1111111111111111".to_string());
    b.r15 = Some("0x2222222222222222".to_string());
    b.xmm9 = Some(vec!["0x1".to_string(), "0x2".to_string()]);
    assert_eq!(format_register_data(&a, true), format_register_data(&b, true));
    assert_ne!(format_register_data(&a, false), format_register_data(&b, false));
}
