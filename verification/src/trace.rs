//! Supervising the test program.  The harness forks; the child stops itself
//! and runs the code between two `int3` instructions; the parent traces it.
//! The parent's decisions are the state machine below: from the stage it
//! is in and what its last request to the kernel gave back, [`trace_step`]
//! gives the next stage and the next request.  Making the requests
//! (`waitpid`, `ptrace`, `kill`) is left to the caller.
use crate::error::AsmTestError;
use crate::registers::{
    initial_registers, initial_registers_spec, initialize_xsave, initialized_xsave, recorded_registers,
    register_data_from_values, xmm_from_xsave, xmm_registers_from_xsave, GeneralRegisters,
};
use crate::types::{opt_registers, AsmTestConfig, RegisterData, RegisterView};
use vstd::prelude::*;

verus! {

/// `SIGTRAP`, the signal an `int3` stops a traced process with.
pub const SIGNAL_TRAP: i32 = 5;
/// `SIGSTOP`, the signal the child stops itself with.
pub const SIGNAL_STOP: i32 = 19;
/// Size of the buffer the XSAVE area is read into.
pub const XSAVE_BUFFER_SIZE: usize = 4096;

/// What running a test program gave.
pub struct ExecuteResult {
    /// Whether the run reached its end.
    pub success: bool,
    /// The registers after the code, when it did.
    pub register_data: Option<RegisterData>,
    /// What went wrong, when it did not.
    pub error_message: Option<String>,
}

impl ExecuteResult {
    /// The result of a run that finished with these registers.
    pub fn finished(register_data: RegisterData) -> (r: ExecuteResult)
        ensures
            r.success,
            r.register_data matches Some(d) && d@ == register_data@,
            r.error_message is None,
    {
        ExecuteResult { success: true, register_data: Some(register_data), error_message: None }
    }
}

/// Where the parent is in supervising the child.
pub enum TraceStage {
    /// Waiting for the child to stop itself with `SIGSTOP`.
    AwaitStartStop,
    /// Resuming the child towards the `int3` before the code.
    ResumeToStart,
    /// Waiting for the child to stop at the `int3` before the code.
    AwaitStartTrap,
    /// Reading the registers the child stopped with.
    ReadStartRegisters,
    /// Writing the initial general registers.
    WriteInitialRegisters,
    /// Reading the XSAVE area, to set the initial vector registers in it.
    ReadInitialVectors,
    /// Writing the XSAVE area with the initial vector registers.
    WriteInitialVectors,
    /// Resuming the child to run the code.
    ResumeToEnd,
    /// Waiting for the child to stop at the `int3` after the code.
    AwaitEndTrap,
    /// Reading the registers the code left.
    ReadFinalRegisters,
    /// Reading the XSAVE area the code left.
    ReadFinalVectors(GeneralRegisters),
    /// The run is over; the child is to be killed and reaped.
    Done,
}

/// What the last request to the kernel gave back.
pub enum TraceEvent {
    /// `waitpid` returned: whether it succeeded, and if so whether the child
    /// is stopped and with which signal.
    Waited { ok: bool, stopped: bool, signal: i32 },
    /// `PTRACE_CONT` returned: whether it succeeded.
    Resumed(bool),
    /// `PTRACE_GETREGS` returned the registers, or failed.
    RegistersRead(Option<GeneralRegisters>),
    /// `PTRACE_SETREGS` returned: whether it succeeded.
    RegistersWritten(bool),
    /// `PTRACE_GETREGSET` with `NT_X86_XSTATE` returned the XSAVE area (as
    /// many bytes as the kernel reported), or failed.
    VectorsRead(Option<Vec<u8>>),
    /// `PTRACE_SETREGSET` with `NT_X86_XSTATE` returned: whether it succeeded.
    VectorsWritten(bool),
}

/// The next request to make.
pub enum TraceAction {
    /// `waitpid` on the child.
    Wait,
    /// `PTRACE_CONT` the child.
    Resume,
    /// `PTRACE_GETREGS` from the child.
    ReadRegisters,
    /// Write these general registers (into the child's full register set,
    /// with `PTRACE_SETREGS`).
    WriteRegisters(GeneralRegisters),
    /// `PTRACE_GETREGSET` the XSAVE area into a zeroed buffer of
    /// [`XSAVE_BUFFER_SIZE`] bytes.
    ReadVectors,
    /// `PTRACE_SETREGSET` this XSAVE area.
    WriteVectors(Vec<u8>),
    /// Kill and reap the child; the run succeeded with these registers.
    Finish(RegisterData),
    /// Kill the child; the run failed with this error.
    Abort(AsmTestError),
}

/// One decision: the next stage, the next request, and a warning to print.
pub struct TraceStep {
    pub stage: TraceStage,
    pub action: TraceAction,
    pub warning: Option<String>,
}

/// The position of a stage in the run (`Done` last).
pub open spec fn stage_index(s: TraceStage) -> nat {
    match s {
        TraceStage::AwaitStartStop => 0,
        TraceStage::ResumeToStart => 1,
        TraceStage::AwaitStartTrap => 2,
        TraceStage::ReadStartRegisters => 3,
        TraceStage::WriteInitialRegisters => 4,
        TraceStage::ReadInitialVectors => 5,
        TraceStage::WriteInitialVectors => 6,
        TraceStage::ResumeToEnd => 7,
        TraceStage::AwaitEndTrap => 8,
        TraceStage::ReadFinalRegisters => 9,
        TraceStage::ReadFinalVectors(_) => 10,
        TraceStage::Done => 11,
    }
}

/// Whether a wait found the child stopped with `signal`.
pub open spec fn stopped_with(e: TraceEvent, signal: i32) -> bool {
    e matches TraceEvent::Waited { ok, stopped, signal: s } && ok && stopped && s == signal
}

/// The view of an XSAVE area as read.
pub open spec fn vectors_view(v: Option<Vec<u8>>) -> Option<Seq<u8>> {
    match v {
        Some(b) => Some(b@),
        None => None,
    }
}

/// The XSAVE area the initial vector registers are written into: the one
/// read, or a zeroed buffer when it could not be read.
pub open spec fn base_xsave(read: Option<Seq<u8>>) -> Seq<u8> {
    match read {
        Some(b) => b,
        None => Seq::new(XSAVE_BUFFER_SIZE as nat, |i: int| 0u8),
    }
}

/// The register record of the run: the general registers the code left,
/// and the vector registers when the XSAVE area could be read.
pub open spec fn final_record(regs: GeneralRegisters, read: Option<Seq<u8>>) -> RegisterView {
    recorded_registers(
        regs,
        match read {
            Some(b) => Some(xmm_from_xsave(b)),
            None => None,
        },
    )
}

/// The error detail of an abort, by stage and event.
pub open spec fn abort_detail(s: TraceStage, e: TraceEvent) -> Seq<char> {
    match s {
        TraceStage::AwaitStartStop => if e matches TraceEvent::Waited { ok: false, .. } {
            "[parent] 等待子进程失败"@
        } else {
            "[parent] 子进程未在预期的SIGSTOP信号处停止"@
        },
        TraceStage::AwaitStartTrap => if e matches TraceEvent::Waited { ok: false, .. } {
            "[parent] 等待子进程失败"@
        } else {
            "[parent] 子进程未在起始int3断点处停止"@
        },
        TraceStage::AwaitEndTrap => if e matches TraceEvent::Waited { ok: false, .. } {
            "[parent] 等待子进程失败"@
        } else {
            "[parent] 子进程未在结束int3断点处停止"@
        },
        TraceStage::ResumeToStart => "[parent] 无法继续执行子进程"@,
        TraceStage::ResumeToEnd => "[parent] 无法继续执行子进程"@,
        TraceStage::ReadStartRegisters => "[parent] 无法获取子进程寄存器状态"@,
        TraceStage::WriteInitialRegisters => "无法设置子进程寄存器状态"@,
        TraceStage::ReadFinalRegisters => "无法获取子进程寄存器状态"@,
        _ => "[parent] 意外的跟踪事件"@,
    }
}

/// Whether an event is the one a stage moves on with.  (A failed read or
/// write of the XSAVE area while setting the initial vector registers
/// only warns, and so does a failed read at the end.)
pub open spec fn event_succeeds(s: TraceStage, e: TraceEvent) -> bool {
    match s {
        TraceStage::AwaitStartStop => stopped_with(e, SIGNAL_STOP),
        TraceStage::ResumeToStart => e matches TraceEvent::Resumed(true),
        TraceStage::AwaitStartTrap => stopped_with(e, SIGNAL_TRAP),
        TraceStage::ReadStartRegisters => e matches TraceEvent::RegistersRead(Some(_)),
        TraceStage::WriteInitialRegisters => e matches TraceEvent::RegistersWritten(true),
        TraceStage::ReadInitialVectors => e is VectorsRead,
        TraceStage::WriteInitialVectors => e is VectorsWritten,
        TraceStage::ResumeToEnd => e matches TraceEvent::Resumed(true),
        TraceStage::AwaitEndTrap => stopped_with(e, SIGNAL_TRAP),
        TraceStage::ReadFinalRegisters => e matches TraceEvent::RegistersRead(Some(_)),
        TraceStage::ReadFinalVectors(_) => e is VectorsRead,
        TraceStage::Done => false,
    }
}

/// Whether a step is the one [`trace_step`] takes from `s` on `e`, given
/// the configured initial registers `init` and the mode.
pub open spec fn step_taken(s: TraceStage, e: TraceEvent, init: Option<RegisterView>, is_32bit: bool, r: TraceStep) -> bool {
    if !event_succeeds(s, e) {
        &&& r.stage is Done
        &&& r.action matches TraceAction::Abort(AsmTestError::Execution(d)) && d@ == abort_detail(s, e)
        &&& r.warning is None
    } else {
        match s {
            TraceStage::AwaitStartStop => r.stage is ResumeToStart && r.action is Resume && r.warning is None,
            TraceStage::ResumeToStart => r.stage is AwaitStartTrap && r.action is Wait && r.warning is None,
            TraceStage::AwaitStartTrap => r.stage is ReadStartRegisters && r.action is ReadRegisters && r.warning is None,
            TraceStage::ReadStartRegisters => {
                &&& r.stage is WriteInitialRegisters
                &&& r.action matches TraceAction::WriteRegisters(w)
                    && w == initial_registers_spec(e->RegistersRead_0->0, init, is_32bit)
                &&& r.warning is None
            },
            TraceStage::WriteInitialRegisters => r.stage is ReadInitialVectors && r.action is ReadVectors && r.warning is None,
            TraceStage::ReadInitialVectors => {
                let read = vectors_view(e->VectorsRead_0);
                &&& r.stage is WriteInitialVectors
                &&& r.action matches TraceAction::WriteVectors(b) && b@ == initialized_xsave(base_xsave(read), init)
                &&& (r.warning is Some <==> read is None)
            },
            TraceStage::WriteInitialVectors => {
                &&& r.stage is ResumeToEnd
                &&& r.action is Resume
                &&& (r.warning is Some <==> e matches TraceEvent::VectorsWritten(false))
            },
            TraceStage::ResumeToEnd => r.stage is AwaitEndTrap && r.action is Wait && r.warning is None,
            TraceStage::AwaitEndTrap => r.stage is ReadFinalRegisters && r.action is ReadRegisters && r.warning is None,
            TraceStage::ReadFinalRegisters => {
                &&& r.stage == TraceStage::ReadFinalVectors(e->RegistersRead_0->0)
                &&& r.action is ReadVectors
                &&& r.warning is None
            },
            TraceStage::ReadFinalVectors(regs) => {
                &&& r.stage is Done
                &&& r.action matches TraceAction::Finish(d) && d@ == final_record(regs, vectors_view(e->VectorsRead_0))
                &&& r.warning is None
            },
            TraceStage::Done => false,
        }
    }
}

/// A string holding the characters of `s`.
fn text(s: &str) -> (r: String)
    ensures
        r@ == s@,
{
    let cs = crate::text::chars_of(s);
    crate::text::string_of(cs.as_slice())
}

/// A zeroed buffer for the XSAVE area.
fn zeroed_buffer() -> (r: Vec<u8>)
    ensures
        r@ == Seq::new(XSAVE_BUFFER_SIZE as nat, |i: int| 0u8),
{
    let mut r: Vec<u8> = Vec::new();
    let mut i: usize = 0;
    while i < XSAVE_BUFFER_SIZE
        invariant
            i <= XSAVE_BUFFER_SIZE,
            r@ == Seq::new(i as nat, |k: int| 0u8),
        decreases XSAVE_BUFFER_SIZE - i,
    {
        r.push(0u8);
        i = i + 1;
        assert(r@ =~= Seq::new(i as nat, |k: int| 0u8));
    }
    r
}

/// A step that aborts the run with an execution error.
fn abort(detail: &str) -> (r: TraceStep)
    ensures
        r.stage is Done,
        r.action matches TraceAction::Abort(AsmTestError::Execution(d)) && d@ == detail@,
        r.warning is None,
{
    TraceStep { stage: TraceStage::Done, action: TraceAction::Abort(AsmTestError::Execution(text(detail))), warning: None }
}

/// A step that moves on without a warning.
fn go(stage: TraceStage, action: TraceAction) -> (r: TraceStep)
    ensures
        r.stage == stage,
        r.action == action,
        r.warning is None,
{
    TraceStep { stage, action, warning: None }
}

/// Decides what a wait in a waiting stage leads to.
fn after_wait(event: &TraceEvent, expected: i32, next: TraceStage, next_action: TraceAction, mismatch: &str) -> (r: TraceStep)
    requires
        event is Waited,
    ensures
        stopped_with(*event, expected) ==> r.stage == next && r.action == next_action && r.warning is None,
        !stopped_with(*event, expected) ==> {
            &&& r.stage is Done
            &&& r.warning is None
            &&& r.action matches TraceAction::Abort(AsmTestError::Execution(d)) && d@ == if event matches TraceEvent::Waited { ok: false, .. } {
                "[parent] 等待子进程失败"@
            } else {
                mismatch@
            }
        },
{
    match event {
        TraceEvent::Waited { ok, stopped, signal } => {
            if !*ok {
                abort("[parent] 等待子进程失败")
            } else if *stopped && *signal == expected {
                go(next, next_action)
            } else {
                abort(mismatch)
            }
        },
        _ => abort(mismatch),
    }
}

/// One decision of the parent: from the stage it is in and what its last
/// request gave back, the next stage and request (see [`step_taken`]).
/// `config` gives the initial registers and the mode.
pub fn trace_step(stage: TraceStage, event: TraceEvent, config: &AsmTestConfig) -> (r: TraceStep)
    requires
        !(stage is Done),
    ensures
        step_taken(stage, event, opt_registers(config.reg_init), crate::types::is_bit32(config.mode), r),
{
    let ghost s0 = stage;
    let ghost e0 = event;
    if !(match (&stage, &event) {
        (TraceStage::AwaitStartStop, TraceEvent::Waited { .. }) => true,
        (TraceStage::AwaitStartTrap, TraceEvent::Waited { .. }) => true,
        (TraceStage::AwaitEndTrap, TraceEvent::Waited { .. }) => true,
        (TraceStage::ResumeToStart, TraceEvent::Resumed(true)) => true,
        (TraceStage::ResumeToEnd, TraceEvent::Resumed(true)) => true,
        (TraceStage::ReadStartRegisters, TraceEvent::RegistersRead(Some(_))) => true,
        (TraceStage::ReadFinalRegisters, TraceEvent::RegistersRead(Some(_))) => true,
        (TraceStage::WriteInitialRegisters, TraceEvent::RegistersWritten(true)) => true,
        (TraceStage::ReadInitialVectors, TraceEvent::VectorsRead(_)) => true,
        (TraceStage::WriteInitialVectors, TraceEvent::VectorsWritten(_)) => true,
        (TraceStage::ReadFinalVectors(_), TraceEvent::VectorsRead(_)) => true,
        _ => false,
    }) {
        return match stage {
            TraceStage::ResumeToStart => abort("[parent] 无法继续执行子进程"),
            TraceStage::ResumeToEnd => abort("[parent] 无法继续执行子进程"),
            TraceStage::ReadStartRegisters => abort("[parent] 无法获取子进程寄存器状态"),
            TraceStage::WriteInitialRegisters => abort("无法设置子进程寄存器状态"),
            TraceStage::ReadFinalRegisters => abort("无法获取子进程寄存器状态"),
            TraceStage::AwaitStartStop => abort("[parent] 子进程未在预期的SIGSTOP信号处停止"),
            TraceStage::AwaitStartTrap => abort("[parent] 子进程未在起始int3断点处停止"),
            TraceStage::AwaitEndTrap => abort("[parent] 子进程未在结束int3断点处停止"),
            _ => abort("[parent] 意外的跟踪事件"),
        };
    }
    match stage {
        TraceStage::AwaitStartStop => after_wait(
            &event,
            SIGNAL_STOP,
            TraceStage::ResumeToStart,
            TraceAction::Resume,
            "[parent] 子进程未在预期的SIGSTOP信号处停止",
        ),
        TraceStage::ResumeToStart => go(TraceStage::AwaitStartTrap, TraceAction::Wait),
        TraceStage::AwaitStartTrap => after_wait(
            &event,
            SIGNAL_TRAP,
            TraceStage::ReadStartRegisters,
            TraceAction::ReadRegisters,
            "[parent] 子进程未在起始int3断点处停止",
        ),
        TraceStage::ReadStartRegisters => match event {
            TraceEvent::RegistersRead(Some(regs)) => {
                let w = initial_registers(&regs, &config.reg_init, config.is_32bit());
                go(TraceStage::WriteInitialRegisters, TraceAction::WriteRegisters(w))
            },
            _ => abort("[parent] 无法获取子进程寄存器状态"),
        },
        TraceStage::WriteInitialRegisters => go(TraceStage::ReadInitialVectors, TraceAction::ReadVectors),
        TraceStage::ReadInitialVectors => match event {
            TraceEvent::VectorsRead(read) => {
                let (mut buffer, warning) = match read {
                    Some(b) => (b, None),
                    None => (zeroed_buffer(), Some(text("警告: 无法获取当前XMM寄存器状态，使用默认初始化"))),
                };
                proof {
                    assert(buffer@ =~= base_xsave(vectors_view(e0->VectorsRead_0)));
                }
                initialize_xsave(&mut buffer, &config.reg_init);
                TraceStep { stage: TraceStage::WriteInitialVectors, action: TraceAction::WriteVectors(buffer), warning }
            },
            _ => abort("[parent] 意外的跟踪事件"),
        },
        TraceStage::WriteInitialVectors => match event {
            TraceEvent::VectorsWritten(ok) => {
                let warning = if ok {
                    None
                } else {
                    Some(text("警告: 无法设置XMM寄存器初始状态: Execution error: 无法设置XMM寄存器初始状态"))
                };
                TraceStep { stage: TraceStage::ResumeToEnd, action: TraceAction::Resume, warning }
            },
            _ => abort("[parent] 意外的跟踪事件"),
        },
        TraceStage::ResumeToEnd => go(TraceStage::AwaitEndTrap, TraceAction::Wait),
        TraceStage::AwaitEndTrap => after_wait(
            &event,
            SIGNAL_TRAP,
            TraceStage::ReadFinalRegisters,
            TraceAction::ReadRegisters,
            "[parent] 子进程未在结束int3断点处停止",
        ),
        TraceStage::ReadFinalRegisters => match event {
            TraceEvent::RegistersRead(Some(regs)) => go(TraceStage::ReadFinalVectors(regs), TraceAction::ReadVectors),
            _ => abort("无法获取子进程寄存器状态"),
        },
        TraceStage::ReadFinalVectors(regs) => match event {
            TraceEvent::VectorsRead(read) => {
                let xmm = match read {
                    Some(b) => Some(xmm_registers_from_xsave(b.as_slice())),
                    None => None,
                };
                let d = register_data_from_values(&regs, xmm);
                go(TraceStage::Done, TraceAction::Finish(d))
            },
            _ => abort("[parent] 意外的跟踪事件"),
        },
        TraceStage::Done => abort("[parent] 意外的跟踪事件"),
    }
}

/// Law: each decision either ends the run or moves to the next stage; it
/// ends the run with an error exactly when the event is not the one the
/// stage moves on with, and with a result only from the last stage.
pub proof fn law_trace_step_progress(
    s: TraceStage,
    e: TraceEvent,
    init: Option<RegisterView>,
    is_32bit: bool,
    r: TraceStep,
)
    requires
        !(s is Done),
        step_taken(s, e, init, is_32bit, r),
    ensures
        r.action is Abort <==> !event_succeeds(s, e),
        event_succeeds(s, e) ==> stage_index(r.stage) == stage_index(s) + 1,
        r.stage is Done ==> (r.action is Abort || r.action is Finish),
        r.action is Finish ==> s is ReadFinalVectors && event_succeeds(s, e),
{
}

/// Whether `steps` is a run of the parent from its first stage: each entry
/// is a stage, the event received in it and the decision taken, and each
/// decision leads to the stage of the next entry.
pub open spec fn is_trace_run(
    steps: Seq<(TraceStage, TraceEvent, TraceStep)>,
    init: Option<RegisterView>,
    is_32bit: bool,
) -> bool {
    &&& steps.len() > 0
    &&& steps[0].0 is AwaitStartStop
    &&& forall|i: int|
        0 <= i < steps.len() ==> !(#[trigger] steps[i].0 is Done) && step_taken(
            steps[i].0,
            steps[i].1,
            init,
            is_32bit,
            steps[i].2,
        )
    &&& forall|i: int| 0 <= i < steps.len() - 1 ==> (#[trigger] steps[i]).2.stage == steps[i + 1].0
}

proof fn lemma_trace_run_prefix(
    steps: Seq<(TraceStage, TraceEvent, TraceStep)>,
    init: Option<RegisterView>,
    is_32bit: bool,
    k: int,
)
    requires
        is_trace_run(steps, init, is_32bit),
        0 <= k < steps.len(),
    ensures
        stage_index(steps[k].0) == k,
        forall|i: int| 0 <= i < k ==> event_succeeds(#[trigger] steps[i].0, steps[i].1),
    decreases k,
{
    if k > 0 {
        lemma_trace_run_prefix(steps, init, is_32bit, k - 1);
        let p = steps[k - 1];
        assert(!(steps[k].0 is Done));
        assert(p.2.stage == steps[k].0);
        law_trace_step_progress(p.0, p.1, init, is_32bit, p.2);
    }
}

/// Law: a run that ends with a result took exactly eleven decisions, one
/// per stage in order, each on the event that stage moves on with: the
/// child stopped with `SIGSTOP`, then at the `int3` before the code, the
/// registers it stopped with were read and the initial registers computed
/// from them were written, and it stopped again at the `int3` after the
/// code; the result records the registers read there.
pub proof fn law_trace_run_complete(
    steps: Seq<(TraceStage, TraceEvent, TraceStep)>,
    init: Option<RegisterView>,
    is_32bit: bool,
)
    requires
        is_trace_run(steps, init, is_32bit),
        steps.last().2.action is Finish,
    ensures
        steps.len() == 11,
        forall|i: int| 0 <= i < 11 ==> stage_index(#[trigger] steps[i].0) == i && event_succeeds(steps[i].0, steps[i].1),
        stopped_with(steps[0].1, SIGNAL_STOP),
        stopped_with(steps[2].1, SIGNAL_TRAP),
        steps[3].2.action == TraceAction::WriteRegisters(
            initial_registers_spec(steps[3].1->RegistersRead_0->0, init, is_32bit),
        ),
        steps[4].1 == TraceEvent::RegistersWritten(true),
        stopped_with(steps[8].1, SIGNAL_TRAP),
        steps[10].2.action matches TraceAction::Finish(d) && d@ == final_record(
            steps[9].1->RegistersRead_0->0,
            vectors_view(steps[10].1->VectorsRead_0),
        ),
{
    let n = steps.len() - 1;
    lemma_trace_run_prefix(steps, init, is_32bit, n);
    law_trace_step_progress(steps[n].0, steps[n].1, init, is_32bit, steps[n].2);
    assert(n == 10);
    assert forall|i: int| 0 <= i < 11 implies stage_index(#[trigger] steps[i].0) == i && event_succeeds(
        steps[i].0,
        steps[i].1,
    ) by {
        lemma_trace_run_prefix(steps, init, is_32bit, i);
    }
    assert(steps[9].2.stage == steps[10].0);
}

} // verus!
