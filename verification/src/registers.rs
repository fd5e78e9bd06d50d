//! Register state around execution: the general registers set before the
//! code runs, the XSAVE area that carries the vector registers, and the
//! register strings recorded afterwards.
use crate::executor::register_value;
use crate::numeric::hex_literal;
use crate::types::{opt_text_list, RegisterData, RegisterView, XmmRegisters, XMM_COUNT};
use crate::text::trim;
use crate::executor::hex_value;
use vstd::prelude::*;

verus! {

/// The general registers of a traced process that the harness reads and
/// writes (a subset of the kernel's `user_regs_struct`).
#[derive(Clone, Copy, Debug, PartialEq, Eq, Structural)]
pub struct GeneralRegisters {
    pub rax: u64,
    pub rbx: u64,
    pub rcx: u64,
    pub rdx: u64,
    pub rsi: u64,
    pub rdi: u64,
    pub rbp: u64,
    pub rsp: u64,
    pub r8: u64,
    pub r9: u64,
    pub r10: u64,
    pub r11: u64,
    pub r12: u64,
    pub r13: u64,
    pub r14: u64,
    pub r15: u64,
    pub rip: u64,
    pub eflags: u64,
}

/// Mask of the upper half of a 64-bit register.
pub const HIGH_HALF: u64 = 0xFFFF_FFFF_0000_0000;
/// Mask of the lower half of a 64-bit register.
pub const LOW_HALF: u64 = 0xFFFF_FFFF;
/// Flags value the code starts with (IF and the reserved bit 1).
pub const INITIAL_EFLAGS: u64 = 0x202;

/// Stack pointer the code starts with: 128 bytes below the top of the stack
/// mapping, aligned down to 16 bytes.
pub open spec fn initial_stack_pointer() -> u64 {
    ((crate::executor::STACK_ADDRESS + crate::executor::STACK_SIZE - 128) as u64) & !0xFu64
}

/// Initial value of a register from its configuration string; 0 when the
/// string is missing or does not parse.
pub open spec fn init_value(v: Option<Seq<char>>) -> u64 {
    match register_value(v) {
        Some(x) => x,
        None => 0,
    }
}

/// `cur` with its lower half replaced by the lower half of `low`.
pub open spec fn with_low_half(cur: u64, low: u64) -> u64 {
    (cur & HIGH_HALF) | (low & LOW_HALF)
}

/// The general registers the code starts with, given the registers the
/// process stopped with, the configured initial values and the mode: in
/// 64-bit mode each register takes its configured value (0 by default); in
/// 32-bit mode only the lower halves are set (cleared by default), R8..R15 are
/// 0; in both modes the stack pointer is [`initial_stack_pointer`] and the
/// flags are [`INITIAL_EFLAGS`]; RIP is kept.
pub open spec fn initial_registers_spec(cur: GeneralRegisters, init: Option<RegisterView>, is_32bit: bool) -> GeneralRegisters {
    let g = |i: int| match init {
        Some(v) => init_value(v.gpr[i]),
        None => 0u64,
    };
    let rsp = if is_32bit {
        with_low_half(cur.rsp, initial_stack_pointer())
    } else {
        initial_stack_pointer()
    };
    if is_32bit {
        GeneralRegisters {
            rax: with_low_half(cur.rax, g(0)),
            rbx: with_low_half(cur.rbx, g(3)),
            rcx: with_low_half(cur.rcx, g(1)),
            rdx: with_low_half(cur.rdx, g(2)),
            rsi: with_low_half(cur.rsi, g(6)),
            rdi: with_low_half(cur.rdi, g(7)),
            rbp: with_low_half(cur.rbp, g(5)),
            rsp: rsp,
            r8: 0,
            r9: 0,
            r10: 0,
            r11: 0,
            r12: 0,
            r13: 0,
            r14: 0,
            r15: 0,
            rip: cur.rip,
            eflags: INITIAL_EFLAGS,
        }
    } else {
        GeneralRegisters {
            rax: g(0),
            rbx: g(3),
            rcx: g(1),
            rdx: g(2),
            rsi: g(6),
            rdi: g(7),
            rbp: g(5),
            rsp: rsp,
            r8: g(9),
            r9: g(10),
            r10: g(11),
            r11: g(12),
            r12: g(13),
            r13: g(14),
            r14: g(15),
            r15: g(16),
            rip: cur.rip,
            eflags: INITIAL_EFLAGS,
        }
    }
}

/// The configured value of general slot `i`, or 0.
fn init_slot(init: &Option<RegisterData>, i: usize) -> (r: u64)
    requires
        i < crate::types::GPR_COUNT,
    ensures
        r == match crate::types::opt_registers(*init) {
            Some(v) => init_value(v.gpr[i as int]),
            None => 0u64,
        },
{
    match init {
        Some(regs) => match crate::executor::parse_register_value(regs.gpr(i)) {
            Some(v) => v,
            None => 0,
        },
        None => 0,
    }
}

/// The general registers the code starts with (see [`initial_registers_spec`]).
pub fn initial_registers(cur: &GeneralRegisters, init: &Option<RegisterData>, is_32bit: bool) -> (r: GeneralRegisters)
    ensures
        r == initial_registers_spec(*cur, crate::types::opt_registers(*init), is_32bit),
{
    let stack_top: u64 = 0xE000_0000u64 + 16u64 * 4096u64;
    let sp: u64 = (stack_top - 128) & !0xFu64;
    if is_32bit {
        GeneralRegisters {
            rax: (cur.rax & HIGH_HALF) | (init_slot(init, 0) & LOW_HALF),
            rbx: (cur.rbx & HIGH_HALF) | (init_slot(init, 3) & LOW_HALF),
            rcx: (cur.rcx & HIGH_HALF) | (init_slot(init, 1) & LOW_HALF),
            rdx: (cur.rdx & HIGH_HALF) | (init_slot(init, 2) & LOW_HALF),
            rsi: (cur.rsi & HIGH_HALF) | (init_slot(init, 6) & LOW_HALF),
            rdi: (cur.rdi & HIGH_HALF) | (init_slot(init, 7) & LOW_HALF),
            rbp: (cur.rbp & HIGH_HALF) | (init_slot(init, 5) & LOW_HALF),
            rsp: (cur.rsp & HIGH_HALF) | (sp & LOW_HALF),
            r8: 0,
            r9: 0,
            r10: 0,
            r11: 0,
            r12: 0,
            r13: 0,
            r14: 0,
            r15: 0,
            rip: cur.rip,
            eflags: INITIAL_EFLAGS,
        }
    } else {
        GeneralRegisters {
            rax: init_slot(init, 0),
            rbx: init_slot(init, 3),
            rcx: init_slot(init, 1),
            rdx: init_slot(init, 2),
            rsi: init_slot(init, 6),
            rdi: init_slot(init, 7),
            rbp: init_slot(init, 5),
            rsp: sp,
            r8: init_slot(init, 9),
            r9: init_slot(init, 10),
            r10: init_slot(init, 11),
            r11: init_slot(init, 12),
            r12: init_slot(init, 13),
            r13: init_slot(init, 14),
            r14: init_slot(init, 15),
            r15: init_slot(init, 16),
            rip: cur.rip,
            eflags: INITIAL_EFLAGS,
        }
    }
}

// ---------------------------------------------------------------------------
// Recording registers
// ---------------------------------------------------------------------------

/// `format!("0x{:016x}", v)` as a `String`.
pub fn register_string(v: u64) -> (r: String)
    ensures
        r@ == hex_literal(v as nat, 16),
{
    let cs = crate::numeric::format_hex_literal(v, 16);
    crate::text::string_of(cs.as_slice())
}

/// The values of the general slots of a register snapshot, in slot order
/// (RAX, RCX, RDX, RBX, RSP, RBP, RSI, RDI, RIP, R8..R15).
pub open spec fn slot_values(regs: GeneralRegisters) -> Seq<u64> {
    seq![regs.rax, regs.rcx, regs.rdx, regs.rbx, regs.rsp, regs.rbp, regs.rsi, regs.rdi, regs.rip, regs.r8, regs.r9, regs.r10, regs.r11, regs.r12, regs.r13, regs.r14, regs.r15]
}

/// The register record of a snapshot: every general register as
/// `0x` and 16 hex digits, the flags as `0x` and at least 8 hex digits, and the
/// vector registers when they could be read.
pub open spec fn recorded_registers(regs: GeneralRegisters, xmm: Option<Seq<Option<Seq<Seq<char>>>>>) -> RegisterView {
    RegisterView {
        gpr: Seq::new(17, |i: int| Some(hex_literal(slot_values(regs)[i] as nat, 16))),
        xmm: match xmm {
            Some(x) => x,
            None => Seq::new(16, |i: int| None),
        },
        flags: Some(hex_literal(regs.eflags as nat, 8)),
    }
}

/// Records a register snapshot (and the vector registers, if read).
pub fn register_data_from_values(regs: &GeneralRegisters, xmm: Option<XmmRegisters>) -> (r: RegisterData)
    ensures
        r@ == recorded_registers(*regs, match xmm {
            Some(x) => Some(x@),
            None => None,
        }),
{
    let ghost xv = match xmm {
        Some(ref x) => Some(x@),
        None => None,
    };
    let x = match xmm {
        Some(x) => x,
        None => XmmRegisters::new(),
    };
    let f = crate::numeric::format_hex_literal(regs.eflags, 8);
    let d = RegisterData {
        rax: Some(register_string(regs.rax)),
        rcx: Some(register_string(regs.rcx)),
        rdx: Some(register_string(regs.rdx)),
        rbx: Some(register_string(regs.rbx)),
        rsp: Some(register_string(regs.rsp)),
        rbp: Some(register_string(regs.rbp)),
        rsi: Some(register_string(regs.rsi)),
        rdi: Some(register_string(regs.rdi)),
        rip: Some(register_string(regs.rip)),
        r8: Some(register_string(regs.r8)),
        r9: Some(register_string(regs.r9)),
        r10: Some(register_string(regs.r10)),
        r11: Some(register_string(regs.r11)),
        r12: Some(register_string(regs.r12)),
        r13: Some(register_string(regs.r13)),
        r14: Some(register_string(regs.r14)),
        r15: Some(register_string(regs.r15)),
        xmm0: x.xmm0,
        xmm1: x.xmm1,
        xmm2: x.xmm2,
        xmm3: x.xmm3,
        xmm4: x.xmm4,
        xmm5: x.xmm5,
        xmm6: x.xmm6,
        xmm7: x.xmm7,
        xmm8: x.xmm8,
        xmm9: x.xmm9,
        xmm10: x.xmm10,
        xmm11: x.xmm11,
        xmm12: x.xmm12,
        xmm13: x.xmm13,
        xmm14: x.xmm14,
        xmm15: x.xmm15,
        flags: Some(crate::text::string_of(f.as_slice())),
    };
    let ghost expected = recorded_registers(*regs, xv);
    assert(d@.gpr =~= expected.gpr);
    assert(d@.xmm =~= expected.xmm);
    d
}

// ---------------------------------------------------------------------------
// The XSAVE area
// ---------------------------------------------------------------------------

/// Offset of XMM0 in the XSAVE area.
pub const XMM_AREA: usize = 0xA0;
/// Offset of the upper halves of YMM0.. in the XSAVE area.
pub const YMM_HIGH_AREA: usize = 0x240;
/// Offset of the XSTATE_BV header word.
pub const XSTATE_BV: usize = 512;

/// The little-endian 64-bit value at `off`.
pub open spec fn le_u64(b: Seq<u8>, off: int) -> u64 {
    (b[off] + 256 * (b[off + 1] + 256 * (b[off + 2] + 256 * (b[off + 3] + 256 * (b[off + 4] + 256 * (b[off + 5]
        + 256 * (b[off + 6] + 256 * b[off + 7]))))))) as u64
}

/// Reads the little-endian 64-bit value at `off`.
pub fn read_le_u64(b: &[u8], off: usize) -> (r: u64)
    requires
        off + 8 <= b@.len(),
    ensures
        r == le_u64(b@, off as int),
{
    let b0 = b[off] as u64;
    let b1 = b[off + 1] as u64;
    let b2 = b[off + 2] as u64;
    let b3 = b[off + 3] as u64;
    let b4 = b[off + 4] as u64;
    let b5 = b[off + 5] as u64;
    let b6 = b[off + 6] as u64;
    let b7 = b[off + 7] as u64;
    b0 + 256 * (b1 + 256 * (b2 + 256 * (b3 + 256 * (b4 + 256 * (b5 + 256 * (b6 + 256 * b7))))))
}

/// The little-endian bytes of `v`.
pub open spec fn le_bytes(v: u64) -> Seq<u8> {
    Seq::new(8, |k: int| ((v >> (8 * k) as u64) & 0xff) as u8)
}

/// Whether the XSAVE header says the AVX state (YMM upper halves) is present.
pub open spec fn xsave_has_avx(b: Seq<u8>) -> bool {
    b.len() >= XSTATE_BV + 8 && le_u64(b, XSTATE_BV as int) & 4 != 0
}

/// Lane `k` of vector register `i` as a string.
pub open spec fn lane_text(b: Seq<u8>, off: int) -> Seq<char> {
    hex_literal(le_u64(b, off) as nat, 16)
}

/// The vector registers an XSAVE area holds: nothing when the area is too
/// short for XMM0..XMM15; otherwise four 64-bit lanes per register, the upper
/// two from the YMM area when AVX state is present and the area holds it, and
/// zero otherwise.
pub open spec fn xmm_from_xsave(b: Seq<u8>) -> Seq<Option<Seq<Seq<char>>>> {
    if b.len() < XMM_AREA + 256 {
        Seq::new(16, |i: int| None)
    } else if xsave_has_avx(b) && b.len() >= YMM_HIGH_AREA + 256 {
        Seq::new(16, |i: int| Some(seq![
            lane_text(b, XMM_AREA + 16 * i),
            lane_text(b, XMM_AREA + 16 * i + 8),
            lane_text(b, YMM_HIGH_AREA + 16 * i),
            lane_text(b, YMM_HIGH_AREA + 16 * i + 8),
        ]))
    } else {
        Seq::new(16, |i: int| Some(seq![
            lane_text(b, XMM_AREA + 16 * i),
            lane_text(b, XMM_AREA + 16 * i + 8),
            hex_literal(0, 16),
            hex_literal(0, 16),
        ]))
    }
}

/// The four lanes of vector register `i` read from an XSAVE area.
fn read_lanes(buffer: &[u8], i: usize, full: bool) -> (r: Vec<String>)
    requires
        i < XMM_COUNT,
        buffer@.len() >= XMM_AREA + 256,
        full ==> buffer@.len() >= YMM_HIGH_AREA + 256,
    ensures
        r@.map_values(|s: String| s@) == (if full {
            seq![
                lane_text(buffer@, XMM_AREA + 16 * i),
                lane_text(buffer@, XMM_AREA + 16 * i + 8),
                lane_text(buffer@, YMM_HIGH_AREA + 16 * i),
                lane_text(buffer@, YMM_HIGH_AREA + 16 * i + 8),
            ]
        } else {
            seq![
                lane_text(buffer@, XMM_AREA + 16 * i),
                lane_text(buffer@, XMM_AREA + 16 * i + 8),
                hex_literal(0, 16),
                hex_literal(0, 16),
            ]
        }),
{
    let mut lanes: Vec<String> = Vec::new();
    lanes.push(register_string(read_le_u64(buffer, XMM_AREA + 16 * i)));
    lanes.push(register_string(read_le_u64(buffer, XMM_AREA + 16 * i + 8)));
    if full {
        lanes.push(register_string(read_le_u64(buffer, YMM_HIGH_AREA + 16 * i)));
        lanes.push(register_string(read_le_u64(buffer, YMM_HIGH_AREA + 16 * i + 8)));
    } else {
        lanes.push(register_string(0));
        lanes.push(register_string(0));
    }
    assert(lanes@.map_values(|s: String| s@) =~= (if full {
        seq![
            lane_text(buffer@, XMM_AREA + 16 * i),
            lane_text(buffer@, XMM_AREA + 16 * i + 8),
            lane_text(buffer@, YMM_HIGH_AREA + 16 * i),
            lane_text(buffer@, YMM_HIGH_AREA + 16 * i + 8),
        ]
    } else {
        seq![
            lane_text(buffer@, XMM_AREA + 16 * i),
            lane_text(buffer@, XMM_AREA + 16 * i + 8),
            hex_literal(0, 16),
            hex_literal(0, 16),
        ]
    }));
    lanes
}

/// Reads the vector registers out of an XSAVE area (of the length the kernel
/// reported).
pub fn xmm_registers_from_xsave(buffer: &[u8]) -> (r: XmmRegisters)
    ensures
        r@ == xmm_from_xsave(buffer@),
{
    let mut x = XmmRegisters::new();
    if buffer.len() < XMM_AREA + 256 {
        assert(x@ =~= xmm_from_xsave(buffer@));
        return x;
    }
    let has_avx = buffer.len() >= XSTATE_BV + 8 && read_le_u64(buffer, XSTATE_BV) & 4 != 0;
    let full = has_avx && buffer.len() >= YMM_HIGH_AREA + 256;
    let mut i: usize = 0;
    while i < XMM_COUNT
        invariant
            i <= XMM_COUNT,
            buffer@.len() >= XMM_AREA + 256,
            full == (xsave_has_avx(buffer@) && buffer@.len() >= YMM_HIGH_AREA + 256),
            x@.len() == 16,
            forall|k: int| 0 <= k < i ==> #[trigger] x@[k] == xmm_from_xsave(buffer@)[k],
        decreases XMM_COUNT - i,
    {
        let lanes = read_lanes(buffer, i, full);
        x.set(i, Some(lanes));
        i = i + 1;
    }
    assert(x@ =~= xmm_from_xsave(buffer@));
    x
}

/// The value written to lane `k` (0 or 1) of a vector register from its
/// configured lane strings: the hex value of a non-blank lane string that
/// parses, otherwise 0.
pub open spec fn lane_init_value(values: Option<Seq<Seq<char>>>, k: int) -> u64 {
    match values {
        None => 0,
        Some(vs) => if k < vs.len() && trim(vs[k]).len() > 0 {
            match hex_value(vs[k]) {
                Some(v) => v,
                None => 0,
            }
        } else {
            0
        },
    }
}

/// The 16 bytes of vector register slot `i` set from its configured lanes.
pub open spec fn slot_bytes(values: Option<Seq<Seq<char>>>) -> Seq<u8> {
    le_bytes(lane_init_value(values, 0)) + le_bytes(lane_init_value(values, 1))
}

/// Offset of vector register slot `i` in the XSAVE area.
pub open spec fn slot_offset(i: int) -> int {
    XMM_AREA + 16 * i
}

/// The area with slot `i` set from `values`, when the area holds the slot.
pub open spec fn with_xmm_slot(b: Seq<u8>, i: int, values: Option<Seq<Seq<char>>>) -> Seq<u8> {
    if b.len() >= slot_offset(i) + 16 {
        b.subrange(0, slot_offset(i)) + slot_bytes(values) + b.subrange(slot_offset(i) + 16, b.len() as int)
    } else {
        b
    }
}

/// The area with slots `0..n` set from the configured vector registers.
pub open spec fn with_xmm_slots(b: Seq<u8>, init: RegisterView, n: int) -> Seq<u8>
    decreases n,
{
    if n <= 0 {
        b
    } else {
        with_xmm_slot(with_xmm_slots(b, init, n - 1), n - 1, init.xmm[n - 1])
    }
}

/// The area with the SSE bit (bit 1) of XSTATE_BV set, when it holds the header.
pub open spec fn with_sse_state(b: Seq<u8>) -> Seq<u8> {
    if b.len() >= XSTATE_BV + 8 {
        b.update(XSTATE_BV as int, b[XSTATE_BV as int] | 2)
    } else {
        b
    }
}

/// The vector registers the code starts with: the configured initial
/// registers, or none (every lane 0) when there are none.
pub open spec fn init_vectors(init: Option<RegisterView>) -> RegisterView {
    match init {
        Some(v) => v,
        None => crate::types::empty_register_view(),
    }
}

/// The XSAVE area to write back before the code runs: XMM0..XMM15 set from
/// the configured lanes (0 where none is configured, so all of them 0
/// without initial registers), and the SSE bit.
pub open spec fn initialized_xsave(b: Seq<u8>, init: Option<RegisterView>) -> Seq<u8> {
    with_sse_state(with_xmm_slots(b, init_vectors(init), 16))
}

/// Writes the little-endian bytes of `v` at `off`.
pub fn write_le_u64(buffer: &mut Vec<u8>, off: usize, v: u64)
    requires
        off + 8 <= old(buffer)@.len(),
    ensures
        final(buffer)@ == old(buffer)@.subrange(0, off as int) + le_bytes(v) + old(buffer)@.subrange(off + 8, old(buffer)@.len() as int),
{
    let mut k: usize = 0;
    while k < 8
        invariant
            k <= 8,
            off + 8 <= old(buffer)@.len(),
            buffer@.len() == old(buffer)@.len(),
            off + 8 <= buffer.len(),
            forall|p: int| 0 <= p < off ==> #[trigger] buffer@[p] == old(buffer)@[p],
            forall|p: int| off + 8 <= p < buffer@.len() ==> #[trigger] buffer@[p] == old(buffer)@[p],
            forall|p: int| off <= p < off + k ==> #[trigger] buffer@[p] == le_bytes(v)[p - off],
        decreases 8 - k,
    {
        buffer[off + k] = ((v >> (8 * k as u64)) & 0xff) as u8;
        k = k + 1;
    }
    assert(buffer@ =~= old(buffer)@.subrange(0, off as int) + le_bytes(v) + old(buffer)@.subrange(off + 8, old(buffer)@.len() as int));
}

/// The value to write to lane `k` of a vector register.
fn lane_value(values: &Vec<String>, k: usize) -> (r: u64)
    requires
        k < 2,
    ensures
        r == lane_init_value(Some(values@.map_values(|s: String| s@)), k as int),
{
    if k < values.len() {
        let cs = crate::text::chars_of(values[k].as_str());
        if !crate::text::is_blank(cs.as_slice()) {
            return match crate::executor::hex_value_of_chars(cs.as_slice()) {
                Some(v) => v,
                None => 0,
            };
        }
    }
    0
}

/// Sets vector register slot `index` of an XSAVE area from its configured
/// lanes: the slot is cleared, then its two low lanes take the configured
/// values.
pub fn set_xmm_register_value(buffer: &mut Vec<u8>, index: usize, value: &Option<Vec<String>>)
    requires
        index < XMM_COUNT,
    ensures
        final(buffer)@ == with_xmm_slot(old(buffer)@, index as int, opt_text_list(*value)),
{
    if buffer.len() >= XMM_AREA + (index + 1) * 16 {
        let base = XMM_AREA + index * 16;
        let (v0, v1) = match value {
            Some(values) => (lane_value(values, 0), lane_value(values, 1)),
            None => (0u64, 0u64),
        };
        let ghost b0 = buffer@;
        write_le_u64(buffer, base, v0);
        write_le_u64(buffer, base + 8, v1);
        assert(buffer@ =~= with_xmm_slot(b0, index as int, opt_text_list(*value)));
    }
}

/// Prepares the XSAVE area to write back before the code runs (see
/// [`initialized_xsave`]).
pub fn initialize_xsave(buffer: &mut Vec<u8>, init: &Option<RegisterData>)
    ensures
        final(buffer)@ == initialized_xsave(old(buffer)@, crate::types::opt_registers(*init)),
{
    let blank = RegisterData::new();
    let regs = match init {
        Some(r) => r,
        None => &blank,
    };
    assert(regs@ == init_vectors(crate::types::opt_registers(*init)));
    let mut i: usize = 0;
    while i < XMM_COUNT
        invariant
            i <= XMM_COUNT,
            buffer@ == with_xmm_slots(old(buffer)@, regs@, i as int),
        decreases XMM_COUNT - i,
    {
        set_xmm_register_value(buffer, i, regs.xmm(i));
        i = i + 1;
    }
    proof {
        lemma_xmm_slots_len(old(buffer)@, crate::types::opt_registers(*init));
    }
    if buffer.len() >= XSTATE_BV + 8 {
        let b = buffer[XSTATE_BV];
        buffer[XSTATE_BV] = b | 2;
    }
}

/// Setting slots keeps the length of the area.
pub proof fn lemma_xmm_slots_len(b: Seq<u8>, init: Option<RegisterView>)
    ensures
        with_xmm_slots(b, init_vectors(init), 16).len() == b.len(),
{
    lemma_with_xmm_slots_len(b, init_vectors(init), 16);
}

proof fn lemma_with_xmm_slots_len(b: Seq<u8>, v: RegisterView, n: int)
    ensures
        with_xmm_slots(b, v, n).len() == b.len(),
    decreases n,
{
    if n > 0 {
        lemma_with_xmm_slots_len(b, v, n - 1);
    }
}

/// Clears XMM0..XMM15 in an XSAVE area and sets the SSE bit; returns false,
/// leaving the area as it was, when the area is too short to hold them.
pub fn clear_xmm_area(buffer: &mut Vec<u8>) -> (changed: bool)
    ensures
        changed == (old(buffer)@.len() >= XMM_AREA + 256),
        changed ==> final(buffer)@ == with_sse_state(
            old(buffer)@.subrange(0, XMM_AREA as int) + Seq::new(256, |k: int| 0u8) + old(buffer)@.subrange(XMM_AREA + 256, old(buffer)@.len() as int),
        ),
        !changed ==> final(buffer)@ == old(buffer)@,
{
    if buffer.len() < XMM_AREA + 256 {
        return false;
    }
    let mut k: usize = 0;
    while k < 256
        invariant
            k <= 256,
            old(buffer)@.len() >= XMM_AREA + 256,
            buffer@.len() == old(buffer)@.len(),
            forall|p: int| 0 <= p < XMM_AREA ==> #[trigger] buffer@[p] == old(buffer)@[p],
            forall|p: int| XMM_AREA + 256 <= p < buffer@.len() ==> #[trigger] buffer@[p] == old(buffer)@[p],
            XMM_AREA + 256 <= buffer.len(),
            forall|p: int| XMM_AREA <= p < XMM_AREA + k ==> #[trigger] buffer@[p] == 0u8,
        decreases 256 - k,
    {
        buffer[XMM_AREA + k] = 0;
        k = k + 1;
    }
    let ghost cleared = old(buffer)@.subrange(0, XMM_AREA as int) + Seq::new(256, |k: int| 0u8) + old(buffer)@.subrange(XMM_AREA + 256, old(buffer)@.len() as int);
    assert(buffer@ =~= cleared);
    if buffer.len() >= XSTATE_BV + 8 {
        let b = buffer[XSTATE_BV];
        buffer[XSTATE_BV] = b | 2;
    }
    true
}

// ---------------------------------------------------------------------------
// Laws
// ---------------------------------------------------------------------------

/// Law: the stack pointer the code starts with is 16-byte aligned, lies
/// inside the stack mapping and leaves 128 bytes below the top of it.
pub proof fn law_initial_stack_pointer()
    ensures
        initial_stack_pointer() == 0xE000_FF80u64,
        initial_stack_pointer() % 16 == 0,
        crate::executor::STACK_ADDRESS <= initial_stack_pointer(),
        initial_stack_pointer() + 128 <= crate::executor::STACK_ADDRESS + crate::executor::STACK_SIZE,
{
    assert((0xE000_FF80u64 & !0xFu64) == 0xE000_FF80u64) by (bit_vector);
}

/// Law: in 64-bit mode without configured initial registers, every general
/// register but the stack pointer starts at 0 (RIP stays where the code
/// begins), and the flags are [`INITIAL_EFLAGS`].
pub proof fn law_default_registers_are_zero(cur: GeneralRegisters)
    ensures
        ({
            let r = initial_registers_spec(cur, None, false);
            &&& r.rax == 0 && r.rbx == 0 && r.rcx == 0 && r.rdx == 0
            &&& r.rsi == 0 && r.rdi == 0 && r.rbp == 0
            &&& r.r8 == 0 && r.r9 == 0 && r.r10 == 0 && r.r11 == 0
            &&& r.r12 == 0 && r.r13 == 0 && r.r14 == 0 && r.r15 == 0
            &&& r.rsp == initial_stack_pointer()
            &&& r.rip == cur.rip
            &&& r.eflags == INITIAL_EFLAGS
        }),
{
}

/// `with_low_half` keeps the upper half and takes the lower half.
pub proof fn lemma_with_low_half(cur: u64, low: u64)
    ensures
        with_low_half(cur, low) & HIGH_HALF == cur & HIGH_HALF,
        with_low_half(cur, low) & LOW_HALF == low & LOW_HALF,
{
    assert(((cur & 0xFFFF_FFFF_0000_0000u64) | (low & 0xFFFF_FFFFu64)) & 0xFFFF_FFFF_0000_0000u64 == cur
        & 0xFFFF_FFFF_0000_0000u64) by (bit_vector);
    assert(((cur & 0xFFFF_FFFF_0000_0000u64) | (low & 0xFFFF_FFFFu64)) & 0xFFFF_FFFFu64 == low & 0xFFFF_FFFFu64)
        by (bit_vector);
}

/// Law: in 32-bit mode the registers EAX..EDI and ESP get their lower
/// halves set (from the configuration, or 0, and the initial stack pointer)
/// while their upper halves keep what the process stopped with, and R8..R15
/// start at 0.
pub proof fn law_32bit_registers_keep_upper_halves(cur: GeneralRegisters, init: Option<RegisterView>)
    ensures
        ({
            let r = initial_registers_spec(cur, init, true);
            let g = |i: int| match init {
                Some(v) => init_value(v.gpr[i]),
                None => 0u64,
            };
            &&& r.rax & HIGH_HALF == cur.rax & HIGH_HALF && r.rax & LOW_HALF == g(0) & LOW_HALF
            &&& r.rcx & HIGH_HALF == cur.rcx & HIGH_HALF && r.rcx & LOW_HALF == g(1) & LOW_HALF
            &&& r.rdx & HIGH_HALF == cur.rdx & HIGH_HALF && r.rdx & LOW_HALF == g(2) & LOW_HALF
            &&& r.rbx & HIGH_HALF == cur.rbx & HIGH_HALF && r.rbx & LOW_HALF == g(3) & LOW_HALF
            &&& r.rbp & HIGH_HALF == cur.rbp & HIGH_HALF && r.rbp & LOW_HALF == g(5) & LOW_HALF
            &&& r.rsi & HIGH_HALF == cur.rsi & HIGH_HALF && r.rsi & LOW_HALF == g(6) & LOW_HALF
            &&& r.rdi & HIGH_HALF == cur.rdi & HIGH_HALF && r.rdi & LOW_HALF == g(7) & LOW_HALF
            &&& r.rsp & HIGH_HALF == cur.rsp & HIGH_HALF && r.rsp & LOW_HALF == initial_stack_pointer() & LOW_HALF
            &&& r.r8 == 0 && r.r9 == 0 && r.r10 == 0 && r.r11 == 0
            &&& r.r12 == 0 && r.r13 == 0 && r.r14 == 0 && r.r15 == 0
        }),
{
    let g = |i: int| match init {
        Some(v) => init_value(v.gpr[i]),
        None => 0u64,
    };
    lemma_with_low_half(cur.rax, g(0));
    lemma_with_low_half(cur.rcx, g(1));
    lemma_with_low_half(cur.rdx, g(2));
    lemma_with_low_half(cur.rbx, g(3));
    lemma_with_low_half(cur.rbp, g(5));
    lemma_with_low_half(cur.rsi, g(6));
    lemma_with_low_half(cur.rdi, g(7));
    lemma_with_low_half(cur.rsp, initial_stack_pointer());
}

/// Law: in 64-bit mode a general register (other than the stack pointer
/// and RIP) whose configured initial value is written as a register result
/// is written (`0x` and 16 hex digits) starts the code with that value; so
/// recorded results fed back as initial registers reproduce them.
pub proof fn law_recorded_register_is_initial_value(cur: GeneralRegisters, init: RegisterView, i: int, v: u64)
    requires
        0 <= i < 17,
        i != crate::types::RSP,
        i != crate::types::RIP,
        init.gpr.len() == 17,
        init.gpr[i] == Some(hex_literal(v as nat, 16)),
    ensures
        slot_values(initial_registers_spec(cur, Some(init), false))[i] == v,
{
    crate::executor::law_hex_literal_reads_back(v);
    assert(init_value(init.gpr[i]) == v);
}

/// The little-endian bytes of a value read back as the value.
pub proof fn lemma_le_bytes_read_back(v: u64)
    ensures
        le_u64(le_bytes(v), 0) == v,
{
    let b = le_bytes(v);
    let b0 = ((v >> 0u64) & 0xff) as u8;
    let b1 = ((v >> 8u64) & 0xff) as u8;
    let b2 = ((v >> 16u64) & 0xff) as u8;
    let b3 = ((v >> 24u64) & 0xff) as u8;
    let b4 = ((v >> 32u64) & 0xff) as u8;
    let b5 = ((v >> 40u64) & 0xff) as u8;
    let b6 = ((v >> 48u64) & 0xff) as u8;
    let b7 = ((v >> 56u64) & 0xff) as u8;
    assert(b[0] == b0 && b[1] == b1 && b[2] == b2 && b[3] == b3);
    assert(b[4] == b4 && b[5] == b5 && b[6] == b6 && b[7] == b7);
    assert((b0 + 256 * (b1 + 256 * (b2 + 256 * (b3 + 256 * (b4 + 256 * (b5 + 256 * (b6 + 256 * b7))))))) as u64 == v)
        by (bit_vector)
        requires
            b0 == ((v >> 0u64) & 0xff) as u8,
            b1 == ((v >> 8u64) & 0xff) as u8,
            b2 == ((v >> 16u64) & 0xff) as u8,
            b3 == ((v >> 24u64) & 0xff) as u8,
            b4 == ((v >> 32u64) & 0xff) as u8,
            b5 == ((v >> 40u64) & 0xff) as u8,
            b6 == ((v >> 48u64) & 0xff) as u8,
            b7 == ((v >> 56u64) & 0xff) as u8,
    ;
}

/// The little-endian value at `off` depends only on the eight bytes there.
pub proof fn lemma_le_u64_window(a: Seq<u8>, oa: int, b: Seq<u8>, ob: int)
    requires
        0 <= oa,
        oa + 8 <= a.len(),
        0 <= ob,
        ob + 8 <= b.len(),
        forall|k: int| 0 <= k < 8 ==> #[trigger] a[oa + k] == b[ob + k],
    ensures
        le_u64(a, oa) == le_u64(b, ob),
{
    assert(a[oa + 0] == b[ob + 0]);
    assert(a[oa + 1] == b[ob + 1]);
    assert(a[oa + 2] == b[ob + 2]);
    assert(a[oa + 3] == b[ob + 3]);
    assert(a[oa + 4] == b[ob + 4]);
    assert(a[oa + 5] == b[ob + 5]);
    assert(a[oa + 6] == b[ob + 6]);
    assert(a[oa + 7] == b[ob + 7]);
}

/// After setting slots `0..n`, slot `i < n` holds its configured bytes and
/// the length of the area is unchanged.
proof fn lemma_with_xmm_slots_holds(b: Seq<u8>, init: RegisterView, n: int, i: int)
    requires
        0 <= i < n <= 16,
        b.len() >= XMM_AREA + 256,
    ensures
        with_xmm_slots(b, init, n).len() == b.len(),
        forall|k: int| 0 <= k < 16 ==> #[trigger] with_xmm_slots(b, init, n)[slot_offset(i) + k] == slot_bytes(init.xmm[i])[k],
    decreases n,
{
    lemma_with_xmm_slots_len(b, init, n);
    lemma_with_xmm_slots_len(b, init, n - 1);
    let prev = with_xmm_slots(b, init, n - 1);
    let j = n - 1;
    let cur = with_xmm_slot(prev, j, init.xmm[j]);
    assert(slot_bytes(init.xmm[j]).len() == 16);
    if i < j {
        lemma_with_xmm_slots_holds(b, init, n - 1, i);
        assert forall|k: int| 0 <= k < 16 implies #[trigger] cur[slot_offset(i) + k] == slot_bytes(init.xmm[i])[k] by {
            assert(cur[slot_offset(i) + k] == prev[slot_offset(i) + k]);
        }
    } else {
        assert forall|k: int| 0 <= k < 16 implies #[trigger] cur[slot_offset(i) + k] == slot_bytes(init.xmm[i])[k] by {
        }
    }
}

/// In the area prepared for the code, slot `i` holds its configured bytes.
proof fn lemma_initialized_slot(b: Seq<u8>, init: Option<RegisterView>, i: int)
    requires
        b.len() >= XMM_AREA + 256,
        0 <= i < 16,
    ensures
        initialized_xsave(b, init).len() == b.len(),
        forall|k: int| 0 <= k < 16 ==> #[trigger] initialized_xsave(b, init)[slot_offset(i) + k] == slot_bytes(
            init_vectors(init).xmm[i],
        )[k],
{
    let v = init_vectors(init);
    let slots = with_xmm_slots(b, v, 16);
    lemma_with_xmm_slots_holds(b, v, 16, i);
    let a = with_sse_state(slots);
    assert forall|k: int| 0 <= k < 16 implies #[trigger] a[slot_offset(i) + k] == slot_bytes(v.xmm[i])[k] by {
        assert(slots[slot_offset(i) + k] == slot_bytes(v.xmm[i])[k]);
    }
}

/// An area holding a slot's configured bytes reads back its two lanes.
proof fn lemma_slot_lanes(a: Seq<u8>, i: int, values: Option<Seq<Seq<char>>>)
    requires
        0 <= i < 16,
        a.len() >= XMM_AREA + 256,
        forall|k: int| 0 <= k < 16 ==> #[trigger] a[slot_offset(i) + k] == slot_bytes(values)[k],
    ensures
        le_u64(a, slot_offset(i)) == lane_init_value(values, 0),
        le_u64(a, slot_offset(i) + 8) == lane_init_value(values, 1),
{
    let sb = slot_bytes(values);
    let v0 = lane_init_value(values, 0);
    let v1 = lane_init_value(values, 1);
    assert forall|k: int| 0 <= k < 8 implies #[trigger] a[slot_offset(i) + k] == le_bytes(v0)[0 + k] by {
        assert(a[slot_offset(i) + k] == sb[k]);
    }
    assert forall|k: int| 0 <= k < 8 implies #[trigger] a[slot_offset(i) + 8 + k] == le_bytes(v1)[0 + k] by {
        assert(a[slot_offset(i) + (8 + k)] == sb[8 + k]);
    }
    lemma_le_u64_window(a, slot_offset(i), le_bytes(v0), 0);
    lemma_le_u64_window(a, slot_offset(i) + 8, le_bytes(v1), 0);
    lemma_le_bytes_read_back(v0);
    lemma_le_bytes_read_back(v1);
}

/// Law: reading the vector registers back from the XSAVE area prepared for
/// the code gives, for each register, the two lower lanes configured for
/// it (as `0x` and 16 hex digits; 0 for a missing, blank or unparsable
/// lane, and so 0 for every lane without initial registers), when the area
/// holds XMM0..XMM15.
#[verifier::rlimit(40)]
pub proof fn law_initial_vectors_read_back(b: Seq<u8>, init: Option<RegisterView>, i: int)
    requires
        b.len() >= XMM_AREA + 256,
        0 <= i < 16,
    ensures
        xmm_from_xsave(initialized_xsave(b, init))[i] matches Some(lanes)
            && lanes[0] == hex_literal(lane_init_value(init_vectors(init).xmm[i], 0) as nat, 16)
            && lanes[1] == hex_literal(lane_init_value(init_vectors(init).xmm[i], 1) as nat, 16),
        init is None ==> lane_init_value(init_vectors(init).xmm[i], 0) == 0 && lane_init_value(
            init_vectors(init).xmm[i],
            1,
        ) == 0,
{
    lemma_initialized_slot(b, init, i);
    lemma_slot_lanes(initialized_xsave(b, init), i, init_vectors(init).xmm[i]);
}

/// Law: a vector lane written as it is recorded (`0x` and 16 hex digits),
/// given as an initial lane, sets that lane to the same value.
pub proof fn law_recorded_lane_is_initial_lane(vs: Seq<Seq<char>>, k: int, v: u64)
    requires
        0 <= k < vs.len(),
        vs[k] == hex_literal(v as nat, 16),
    ensures
        lane_init_value(Some(vs), k) == v,
{
    crate::executor::law_hex_literal_reads_back(v);
    let p = crate::numeric::hex_padded(v as nat, 16);
    crate::numeric::lemma_hex_padded_parses(v, 16);
    crate::executor::lemma_trim_unpadded(vs[k]);
    assert(vs[k].last() == p[p.len() - 1]);
    assert(crate::numeric::digit_value(p[p.len() - 1], 16) is Some);
}


/// Law: each register starts from the initial value configured under its
/// own name, whatever the process stopped with.  In 64-bit mode RAX..R15
/// take their configured values (0 where none is given or it does not
/// parse); in 32-bit mode EAX..EDI take them in their lower halves, the
/// upper halves are kept and R8..R15 are 0.  In both modes the stack
/// pointer is the fixed initial one, the flags are the initial flags and
/// RIP is kept.
pub proof fn law_initial_registers_by_name(cur: GeneralRegisters, d: RegisterData)
    ensures
        ({
            let r64 = initial_registers_spec(cur, Some(d@), false);
            &&& r64.rax == init_value(crate::types::opt_text(d.rax))
            &&& r64.rcx == init_value(crate::types::opt_text(d.rcx))
            &&& r64.rdx == init_value(crate::types::opt_text(d.rdx))
            &&& r64.rbx == init_value(crate::types::opt_text(d.rbx))
            &&& r64.rbp == init_value(crate::types::opt_text(d.rbp))
            &&& r64.rsi == init_value(crate::types::opt_text(d.rsi))
            &&& r64.rdi == init_value(crate::types::opt_text(d.rdi))
            &&& r64.r8 == init_value(crate::types::opt_text(d.r8))
            &&& r64.r9 == init_value(crate::types::opt_text(d.r9))
            &&& r64.r10 == init_value(crate::types::opt_text(d.r10))
            &&& r64.r11 == init_value(crate::types::opt_text(d.r11))
            &&& r64.r12 == init_value(crate::types::opt_text(d.r12))
            &&& r64.r13 == init_value(crate::types::opt_text(d.r13))
            &&& r64.r14 == init_value(crate::types::opt_text(d.r14))
            &&& r64.r15 == init_value(crate::types::opt_text(d.r15))
            &&& r64.rsp == initial_stack_pointer()
            &&& r64.rip == cur.rip
            &&& r64.eflags == INITIAL_EFLAGS
        }),
        ({
            let r32 = initial_registers_spec(cur, Some(d@), true);
            &&& r32.rax == with_low_half(cur.rax, init_value(crate::types::opt_text(d.rax)))
            &&& r32.rcx == with_low_half(cur.rcx, init_value(crate::types::opt_text(d.rcx)))
            &&& r32.rdx == with_low_half(cur.rdx, init_value(crate::types::opt_text(d.rdx)))
            &&& r32.rbx == with_low_half(cur.rbx, init_value(crate::types::opt_text(d.rbx)))
            &&& r32.rbp == with_low_half(cur.rbp, init_value(crate::types::opt_text(d.rbp)))
            &&& r32.rsi == with_low_half(cur.rsi, init_value(crate::types::opt_text(d.rsi)))
            &&& r32.rdi == with_low_half(cur.rdi, init_value(crate::types::opt_text(d.rdi)))
            &&& r32.r8 == 0 && r32.r9 == 0 && r32.r10 == 0 && r32.r11 == 0
            &&& r32.r12 == 0 && r32.r13 == 0 && r32.r14 == 0 && r32.r15 == 0
            &&& r32.rsp == with_low_half(cur.rsp, initial_stack_pointer())
            &&& r32.rip == cur.rip
            &&& r32.eflags == INITIAL_EFLAGS
        }),
{
    lemma_view_slots(d);
}

/// Law: without initial registers every register of 64-bit mode starts at
/// 0 (but the stack pointer, the flags and RIP), whatever the process
/// stopped with; in 32-bit mode the lower halves are cleared.
pub proof fn law_initial_registers_without_init(cur: GeneralRegisters)
    ensures
        ({
            let r64 = initial_registers_spec(cur, None, false);
            &&& r64.rax == 0 && r64.rcx == 0 && r64.rdx == 0 && r64.rbx == 0
            &&& r64.rbp == 0 && r64.rsi == 0 && r64.rdi == 0
            &&& r64.r8 == 0 && r64.r9 == 0 && r64.r10 == 0 && r64.r11 == 0
            &&& r64.r12 == 0 && r64.r13 == 0 && r64.r14 == 0 && r64.r15 == 0
            &&& r64.rsp == initial_stack_pointer() && r64.rip == cur.rip && r64.eflags == INITIAL_EFLAGS
        }),
        ({
            let r32 = initial_registers_spec(cur, None, true);
            &&& r32.rax == with_low_half(cur.rax, 0) && r32.rcx == with_low_half(cur.rcx, 0)
            &&& r32.rdx == with_low_half(cur.rdx, 0) && r32.rbx == with_low_half(cur.rbx, 0)
            &&& r32.rbp == with_low_half(cur.rbp, 0) && r32.rsi == with_low_half(cur.rsi, 0)
            &&& r32.rdi == with_low_half(cur.rdi, 0)
            &&& r32.r8 == 0 && r32.r15 == 0
        }),
{
}

/// The slots of a register view are the registers of the same name.
pub proof fn lemma_view_slots(d: RegisterData)
    ensures
        d@.gpr.len() == 17,
        d@.gpr[0] == crate::types::opt_text(d.rax),
        d@.gpr[1] == crate::types::opt_text(d.rcx),
        d@.gpr[2] == crate::types::opt_text(d.rdx),
        d@.gpr[3] == crate::types::opt_text(d.rbx),
        d@.gpr[4] == crate::types::opt_text(d.rsp),
        d@.gpr[5] == crate::types::opt_text(d.rbp),
        d@.gpr[6] == crate::types::opt_text(d.rsi),
        d@.gpr[7] == crate::types::opt_text(d.rdi),
        d@.gpr[8] == crate::types::opt_text(d.rip),
        d@.gpr[9] == crate::types::opt_text(d.r8),
        d@.gpr[10] == crate::types::opt_text(d.r9),
        d@.gpr[11] == crate::types::opt_text(d.r10),
        d@.gpr[12] == crate::types::opt_text(d.r11),
        d@.gpr[13] == crate::types::opt_text(d.r12),
        d@.gpr[14] == crate::types::opt_text(d.r13),
        d@.gpr[15] == crate::types::opt_text(d.r14),
        d@.gpr[16] == crate::types::opt_text(d.r15),
        d@.xmm.len() == 16,
        d@.xmm[0] == opt_text_list(d.xmm0),
        d@.xmm[1] == opt_text_list(d.xmm1),
        d@.xmm[2] == opt_text_list(d.xmm2),
        d@.xmm[3] == opt_text_list(d.xmm3),
        d@.xmm[4] == opt_text_list(d.xmm4),
        d@.xmm[5] == opt_text_list(d.xmm5),
        d@.xmm[6] == opt_text_list(d.xmm6),
        d@.xmm[7] == opt_text_list(d.xmm7),
        d@.xmm[8] == opt_text_list(d.xmm8),
        d@.xmm[9] == opt_text_list(d.xmm9),
        d@.xmm[10] == opt_text_list(d.xmm10),
        d@.xmm[11] == opt_text_list(d.xmm11),
        d@.xmm[12] == opt_text_list(d.xmm12),
        d@.xmm[13] == opt_text_list(d.xmm13),
        d@.xmm[14] == opt_text_list(d.xmm14),
        d@.xmm[15] == opt_text_list(d.xmm15),
        d@.flags == crate::types::opt_text(d.flags),
{
}

/// Law: the record of a snapshot holds, under each register's own name,
/// that register's value as `0x` and 16 hex digits, and the flags as `0x`
/// and at least 8 hex digits.
pub proof fn law_recorded_registers_by_name(
    regs: GeneralRegisters,
    xmm: Option<Seq<Option<Seq<Seq<char>>>>>,
    d: RegisterData,
)
    requires
        d@ == recorded_registers(regs, xmm),
    ensures
        crate::types::opt_text(d.rax) == Some(hex_literal(regs.rax as nat, 16)),
        crate::types::opt_text(d.rcx) == Some(hex_literal(regs.rcx as nat, 16)),
        crate::types::opt_text(d.rdx) == Some(hex_literal(regs.rdx as nat, 16)),
        crate::types::opt_text(d.rbx) == Some(hex_literal(regs.rbx as nat, 16)),
        crate::types::opt_text(d.rsp) == Some(hex_literal(regs.rsp as nat, 16)),
        crate::types::opt_text(d.rbp) == Some(hex_literal(regs.rbp as nat, 16)),
        crate::types::opt_text(d.rsi) == Some(hex_literal(regs.rsi as nat, 16)),
        crate::types::opt_text(d.rdi) == Some(hex_literal(regs.rdi as nat, 16)),
        crate::types::opt_text(d.rip) == Some(hex_literal(regs.rip as nat, 16)),
        crate::types::opt_text(d.r8) == Some(hex_literal(regs.r8 as nat, 16)),
        crate::types::opt_text(d.r9) == Some(hex_literal(regs.r9 as nat, 16)),
        crate::types::opt_text(d.r10) == Some(hex_literal(regs.r10 as nat, 16)),
        crate::types::opt_text(d.r11) == Some(hex_literal(regs.r11 as nat, 16)),
        crate::types::opt_text(d.r12) == Some(hex_literal(regs.r12 as nat, 16)),
        crate::types::opt_text(d.r13) == Some(hex_literal(regs.r13 as nat, 16)),
        crate::types::opt_text(d.r14) == Some(hex_literal(regs.r14 as nat, 16)),
        crate::types::opt_text(d.r15) == Some(hex_literal(regs.r15 as nat, 16)),
        crate::types::opt_text(d.flags) == Some(hex_literal(regs.eflags as nat, 8)),
{
    lemma_view_slots(d);
}

/// The slot of vector register `i` in a long enough XSAVE area.
proof fn lemma_xsave_slot(b: Seq<u8>, i: int)
    requires
        b.len() >= XMM_AREA + 256,
        0 <= i < 16,
    ensures
        xmm_from_xsave(b)[i] matches Some(l) && l.len() == 4 && l[0] == lane_text(b, XMM_AREA + 16 * i) && l[1]
            == lane_text(b, XMM_AREA + 16 * i + 8),
{
    let lo = lane_text(b, XMM_AREA + 16 * i);
    let hi = lane_text(b, XMM_AREA + 16 * i + 8);
    if xsave_has_avx(b) && b.len() >= YMM_HIGH_AREA + 256 {
        let l = seq![lo, hi, lane_text(b, YMM_HIGH_AREA + 16 * i), lane_text(b, YMM_HIGH_AREA + 16 * i + 8)];
        assert(xmm_from_xsave(b)[i] == Some(l));
    } else {
        let l = seq![lo, hi, hex_literal(0, 16), hex_literal(0, 16)];
        assert(xmm_from_xsave(b)[i] == Some(l));
    }
}

/// Law: each vector register read from an XSAVE area that holds XMM0..XMM15
/// has four lanes, its low two read from its own 16 bytes of the legacy
/// area: XMMk from bytes `0xA0 + 16k .. 0xA0 + 16k + 16`.
#[verifier::rlimit(40)]
pub proof fn law_xsave_registers_by_name(b: Seq<u8>, x: XmmRegisters)
    requires
        b.len() >= XMM_AREA + 256,
        x@ == xmm_from_xsave(b),
    ensures
        opt_text_list(x.xmm0) matches Some(l) && l.len() == 4 && l[0] == lane_text(b, 160) && l[1] == lane_text(b, 168),
        opt_text_list(x.xmm1) matches Some(l) && l.len() == 4 && l[0] == lane_text(b, 176) && l[1] == lane_text(b, 184),
        opt_text_list(x.xmm2) matches Some(l) && l.len() == 4 && l[0] == lane_text(b, 192) && l[1] == lane_text(b, 200),
        opt_text_list(x.xmm3) matches Some(l) && l.len() == 4 && l[0] == lane_text(b, 208) && l[1] == lane_text(b, 216),
        opt_text_list(x.xmm4) matches Some(l) && l.len() == 4 && l[0] == lane_text(b, 224) && l[1] == lane_text(b, 232),
        opt_text_list(x.xmm5) matches Some(l) && l.len() == 4 && l[0] == lane_text(b, 240) && l[1] == lane_text(b, 248),
        opt_text_list(x.xmm6) matches Some(l) && l.len() == 4 && l[0] == lane_text(b, 256) && l[1] == lane_text(b, 264),
        opt_text_list(x.xmm7) matches Some(l) && l.len() == 4 && l[0] == lane_text(b, 272) && l[1] == lane_text(b, 280),
        opt_text_list(x.xmm8) matches Some(l) && l.len() == 4 && l[0] == lane_text(b, 288) && l[1] == lane_text(b, 296),
        opt_text_list(x.xmm9) matches Some(l) && l.len() == 4 && l[0] == lane_text(b, 304) && l[1] == lane_text(b, 312),
        opt_text_list(x.xmm10) matches Some(l) && l.len() == 4 && l[0] == lane_text(b, 320) && l[1] == lane_text(b, 328),
        opt_text_list(x.xmm11) matches Some(l) && l.len() == 4 && l[0] == lane_text(b, 336) && l[1] == lane_text(b, 344),
        opt_text_list(x.xmm12) matches Some(l) && l.len() == 4 && l[0] == lane_text(b, 352) && l[1] == lane_text(b, 360),
        opt_text_list(x.xmm13) matches Some(l) && l.len() == 4 && l[0] == lane_text(b, 368) && l[1] == lane_text(b, 376),
        opt_text_list(x.xmm14) matches Some(l) && l.len() == 4 && l[0] == lane_text(b, 384) && l[1] == lane_text(b, 392),
        opt_text_list(x.xmm15) matches Some(l) && l.len() == 4 && l[0] == lane_text(b, 400) && l[1] == lane_text(b, 408),
{
    lemma_xsave_slot(b, 0);
    assert(x@[0] == opt_text_list(x.xmm0));
    lemma_xsave_slot(b, 1);
    assert(x@[1] == opt_text_list(x.xmm1));
    lemma_xsave_slot(b, 2);
    assert(x@[2] == opt_text_list(x.xmm2));
    lemma_xsave_slot(b, 3);
    assert(x@[3] == opt_text_list(x.xmm3));
    lemma_xsave_slot(b, 4);
    assert(x@[4] == opt_text_list(x.xmm4));
    lemma_xsave_slot(b, 5);
    assert(x@[5] == opt_text_list(x.xmm5));
    lemma_xsave_slot(b, 6);
    assert(x@[6] == opt_text_list(x.xmm6));
    lemma_xsave_slot(b, 7);
    assert(x@[7] == opt_text_list(x.xmm7));
    lemma_xsave_slot(b, 8);
    assert(x@[8] == opt_text_list(x.xmm8));
    lemma_xsave_slot(b, 9);
    assert(x@[9] == opt_text_list(x.xmm9));
    lemma_xsave_slot(b, 10);
    assert(x@[10] == opt_text_list(x.xmm10));
    lemma_xsave_slot(b, 11);
    assert(x@[11] == opt_text_list(x.xmm11));
    lemma_xsave_slot(b, 12);
    assert(x@[12] == opt_text_list(x.xmm12));
    lemma_xsave_slot(b, 13);
    assert(x@[13] == opt_text_list(x.xmm13));
    lemma_xsave_slot(b, 14);
    assert(x@[14] == opt_text_list(x.xmm14));
    lemma_xsave_slot(b, 15);
    assert(x@[15] == opt_text_list(x.xmm15));
}

} // verus!
