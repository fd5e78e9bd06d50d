use x86_asm_test::error::AsmTestError;
use x86_asm_test::registers::GeneralRegisters;
use x86_asm_test::trace::{trace_step, ExecuteResult, TraceAction, TraceEvent, TraceStage, TraceStep, SIGNAL_STOP, SIGNAL_TRAP};
use x86_asm_test::types::{AsmTestConfig, RegisterData};

fn regs(fill: u64) -> GeneralRegisters {
    GeneralRegisters {
        rax: fill, rbx: fill, rcx: fill, rdx: fill, rsi: fill, rdi: fill, rbp: fill, rsp: fill,
        r8: fill, r9: fill, r10: fill, r11: fill, r12: fill, r13: fill, r14: fill, r15: fill,
        rip: 0xC000_0001, eflags: 0x246,
    }
}

fn waited(signal: i32) -> TraceEvent {
    TraceEvent::Waited { ok: true, stopped: true, signal }
}

fn aborted_with(step: TraceStep) -> String {
    assert!(matches!(step.stage, TraceStage::Done));
    match step.action {
        TraceAction::Abort(AsmTestError::Execution(d)) => d,
        _ => panic!("expected an abort"),
    }
}

#[test]
fn a_full_run() {
    let mut config = AsmTestConfig::new();
    let mut init = RegisterData::new();
    init.rax = Some("0x5".to_string());
    init.xmm0 = Some(vec!["0x7".to_string(), "0x8".to_string()]);
    config.reg_init = Some(init);

    let s = trace_step(TraceStage::AwaitStartStop, waited(SIGNAL_STOP), &config);
    assert!(matches!(s.stage, TraceStage::ResumeToStart) && matches!(s.action, TraceAction::Resume));
    let s = trace_step(s.stage, TraceEvent::Resumed(true), &config);
    assert!(matches!(s.stage, TraceStage::AwaitStartTrap) && matches!(s.action, TraceAction::Wait));
    let s = trace_step(s.stage, waited(SIGNAL_TRAP), &config);
    assert!(matches!(s.action, TraceAction::ReadRegisters));
    let s = trace_step(s.stage, TraceEvent::RegistersRead(Some(regs(0x99))), &config);
    match &s.action {
        TraceAction::WriteRegisters(w) => {
            assert_eq!(w.rax, 5);
            assert_eq!(w.rbx, 0);
            assert_eq!(w.rsp, 0xE000_FF80);
            assert_eq!(w.rip, 0xC000_0001);
            assert_eq!(w.eflags, 0x202);
        },
        _ => panic!("expected the initial registers to be written"),
    }
    let s = trace_step(s.stage, TraceEvent::RegistersWritten(true), &config);
    assert!(matches!(s.action, TraceAction::ReadVectors));
    let s = trace_step(s.stage, TraceEvent::VectorsRead(None), &config);
    assert!(s.warning.is_some());
    match &s.action {
        TraceAction::WriteVectors(b) => {
            assert_eq!(b.len(), 4096);
            assert_eq!(b[0xA0], 7);
            assert_eq!(b[0xA8], 8);
            assert_eq!(b[512], 2);
        },
        _ => panic!("expected the vector registers to be written"),
    }
    let s = trace_step(s.stage, TraceEvent::VectorsWritten(true), &config);
    assert!(s.warning.is_none());
    assert!(matches!(s.action, TraceAction::Resume));
    let s = trace_step(s.stage, TraceEvent::Resumed(true), &config);
    assert!(matches!(s.action, TraceAction::Wait));
    let s = trace_step(s.stage, waited(SIGNAL_TRAP), &config);
    assert!(matches!(s.action, TraceAction::ReadRegisters));
    let s = trace_step(s.stage, TraceEvent::RegistersRead(Some(regs(0x10))), &config);
    assert!(matches!(s.action, TraceAction::ReadVectors));
    let s = trace_step(s.stage, TraceEvent::VectorsRead(Some(vec![0u8; 10])), &config);
    assert!(matches!(s.stage, TraceStage::Done));
    match s.action {
        TraceAction::Finish(d) => {
            assert_eq!(d.rax, Some("0x0000000000000010".to_string()));
            assert_eq!(d.flags, Some("0x00000246".to_string()));
            assert!(d.xmm0.is_none());
            let r = ExecuteResult::finished(d);
            assert!(r.success);
            assert!(r.error_message.is_none());
            assert!(r.register_data.is_some());
        },
        _ => panic!("expected the run to finish"),
    }
}

#[test]
fn failures_abort_the_run() {
    let config = AsmTestConfig::new();
    let wait_failed = TraceEvent::Waited { ok: false, stopped: false, signal: 0 };
    assert_eq!(aborted_with(trace_step(TraceStage::AwaitStartStop, wait_failed, &config)), "[parent] 等待子进程失败");
    assert_eq!(
        aborted_with(trace_step(TraceStage::AwaitStartStop, waited(SIGNAL_TRAP), &config)),
        "[parent] 子进程未在预期的SIGSTOP信号处停止"
    );
    assert_eq!(
        aborted_with(trace_step(TraceStage::AwaitStartTrap, TraceEvent::Waited { ok: true, stopped: false, signal: SIGNAL_TRAP }, &config)),
        "[parent] 子进程未在起始int3断点处停止"
    );
    assert_eq!(aborted_with(trace_step(TraceStage::ResumeToEnd, TraceEvent::Resumed(false), &config)), "[parent] 无法继续执行子进程");
    assert_eq!(
        aborted_with(trace_step(TraceStage::AwaitEndTrap, waited(11), &config)),
        "[parent] 子进程未在结束int3断点处停止"
    );
    assert_eq!(
        aborted_with(trace_step(TraceStage::ReadStartRegisters, TraceEvent::RegistersRead(None), &config)),
        "[parent] 无法获取子进程寄存器状态"
    );
    assert_eq!(
        aborted_with(trace_step(TraceStage::WriteInitialRegisters, TraceEvent::RegistersWritten(false), &config)),
        "无法设置子进程寄存器状态"
    );
    assert_eq!(
        aborted_with(trace_step(TraceStage::ReadFinalRegisters, TraceEvent::RegistersRead(None), &config)),
        "无法获取子进程寄存器状态"
    );
    let warned = trace_step(TraceStage::WriteInitialVectors, TraceEvent::VectorsWritten(false), &config);
    assert!(matches!(warned.action, TraceAction::Resume));
    assert!(warned.warning.is_some());
}
