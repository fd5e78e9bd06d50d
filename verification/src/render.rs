//! Rendering test files: the configuration block around a serialized
//! configuration, instructions that set the initial registers, and the
//! closing `hlt`.
use crate::parser::xmm_key;
use crate::types::{opt_registers, opt_text, opt_text_list, AsmTestConfig, AsmTestFile, ConfigView, RegisterData, RegisterView};
use crate::text::trim;
use vstd::prelude::*;

verus! {

/// Whether `s` ends with `t`.
pub open spec fn has_suffix(s: Seq<char>, t: Seq<char>) -> bool {
    t.len() <= s.len() && s.subrange(s.len() - t.len(), s.len() as int) == t
}

/// Exec form of [`has_suffix`].
pub fn ends_with(s: &[char], t: &[char]) -> (r: bool)
    ensures
        r == has_suffix(s@, t@),
{
    if t.len() > s.len() {
        return false;
    }
    let tail = crate::text::slice_chars(s, s.len() - t.len(), s.len());
    crate::text::chars_eq(tail.as_slice(), t)
}

/// What follows the code: nothing when the trimmed code already ends with
/// `hlt`, otherwise a `hlt` on a line of its own.
pub open spec fn hlt_suffix(code: Seq<char>) -> Seq<char> {
    if has_suffix(trim(code), "hlt"@) {
        Seq::empty()
    } else {
        "\nhlt\n"@
    }
}

/// The configuration block around a serialized configuration (empty when
/// the configuration could not be serialized).
pub open spec fn config_section(json: Option<Seq<char>>) -> Seq<char> {
    "%ifdef CONFIG\n"@ + match json {
        Some(j) => j,
        None => Seq::empty(),
    } + "\n%endif\n\n"@
}

/// Slot of the `k`-th general register that initial instructions set
/// (RAX, RCX, RDX, RBX, RSP, RBP, RSI, RDI, R8..R15; RIP is never set).
pub open spec fn init_slot(k: int) -> int {
    if k < 8 {
        k
    } else {
        k + 1
    }
}

/// Assembly name of the `k`-th general register that initial instructions set.
pub open spec fn init_register_name(k: int) -> Seq<char> {
    if k == 0 {
        "rax"@
    } else if k == 1 {
        "rcx"@
    } else if k == 2 {
        "rdx"@
    } else if k == 3 {
        "rbx"@
    } else if k == 4 {
        "rsp"@
    } else if k == 5 {
        "rbp"@
    } else if k == 6 {
        "rsi"@
    } else if k == 7 {
        "rdi"@
    } else if k == 8 {
        "r8"@
    } else if k == 9 {
        "r9"@
    } else if k == 10 {
        "r10"@
    } else if k == 11 {
        "r11"@
    } else if k == 12 {
        "r12"@
    } else if k == 13 {
        "r13"@
    } else if k == 14 {
        "r14"@
    } else {
        "r15"@
    }
}

/// Exec form of [`init_register_name`].
fn init_register_name_str(k: usize) -> (r: &'static str)
    requires
        k < 16,
    ensures
        r@ == init_register_name(k as int),
{
    match k {
        0 => "rax",
        1 => "rcx",
        2 => "rdx",
        3 => "rbx",
        4 => "rsp",
        5 => "rbp",
        6 => "rsi",
        7 => "rdi",
        8 => "r8",
        9 => "r9",
        10 => "r10",
        11 => "r11",
        12 => "r12",
        13 => "r13",
        14 => "r14",
        _ => "r15",
    }
}

/// Assembly name of XMMi.
pub open spec fn xmm_asm_name(k: int) -> Seq<char> {
    if k == 0 {
        "xmm0"@
    } else if k == 1 {
        "xmm1"@
    } else if k == 2 {
        "xmm2"@
    } else if k == 3 {
        "xmm3"@
    } else if k == 4 {
        "xmm4"@
    } else if k == 5 {
        "xmm5"@
    } else if k == 6 {
        "xmm6"@
    } else if k == 7 {
        "xmm7"@
    } else if k == 8 {
        "xmm8"@
    } else if k == 9 {
        "xmm9"@
    } else if k == 10 {
        "xmm10"@
    } else if k == 11 {
        "xmm11"@
    } else if k == 12 {
        "xmm12"@
    } else if k == 13 {
        "xmm13"@
    } else if k == 14 {
        "xmm14"@
    } else {
        "xmm15"@
    }
}

/// Assembly name of YMMi.
pub open spec fn ymm_asm_name(k: int) -> Seq<char> {
    if k == 0 {
        "ymm0"@
    } else if k == 1 {
        "ymm1"@
    } else if k == 2 {
        "ymm2"@
    } else if k == 3 {
        "ymm3"@
    } else if k == 4 {
        "ymm4"@
    } else if k == 5 {
        "ymm5"@
    } else if k == 6 {
        "ymm6"@
    } else if k == 7 {
        "ymm7"@
    } else if k == 8 {
        "ymm8"@
    } else if k == 9 {
        "ymm9"@
    } else if k == 10 {
        "ymm10"@
    } else if k == 11 {
        "ymm11"@
    } else if k == 12 {
        "ymm12"@
    } else if k == 13 {
        "ymm13"@
    } else if k == 14 {
        "ymm14"@
    } else {
        "ymm15"@
    }
}

/// Exec form of [`xmm_asm_name`].
fn xmm_asm_name_str(k: usize) -> (r: &'static str)
    requires
        k < 16,
    ensures
        r@ == xmm_asm_name(k as int),
{
    match k {
        0 => "xmm0",
        1 => "xmm1",
        2 => "xmm2",
        3 => "xmm3",
        4 => "xmm4",
        5 => "xmm5",
        6 => "xmm6",
        7 => "xmm7",
        8 => "xmm8",
        9 => "xmm9",
        10 => "xmm10",
        11 => "xmm11",
        12 => "xmm12",
        13 => "xmm13",
        14 => "xmm14",
        _ => "xmm15",
    }
}

/// Exec form of [`ymm_asm_name`].
fn ymm_asm_name_str(k: usize) -> (r: &'static str)
    requires
        k < 16,
    ensures
        r@ == ymm_asm_name(k as int),
{
    match k {
        0 => "ymm0",
        1 => "ymm1",
        2 => "ymm2",
        3 => "ymm3",
        4 => "ymm4",
        5 => "ymm5",
        6 => "ymm6",
        7 => "ymm7",
        8 => "ymm8",
        9 => "ymm9",
        10 => "ymm10",
        11 => "ymm11",
        12 => "ymm12",
        13 => "ymm13",
        14 => "ymm14",
        _ => "ymm15",
    }
}

/// `mov <reg>, <value>` on a line.
pub open spec fn mov_line(reg: Seq<char>, value: Seq<char>) -> Seq<char> {
    "mov "@ + reg + ", "@ + value + "\n"@
}

/// Instructions that load the general registers, in [`init_slot`] order.
pub open spec fn gpr_init_lines(init: RegisterView, n: int) -> Seq<char>
    decreases n,
{
    if n <= 0 {
        Seq::empty()
    } else {
        gpr_init_lines(init, n - 1) + match init.gpr[init_slot(n - 1)] {
            Some(v) => mov_line(init_register_name(n - 1), v),
            None => Seq::empty(),
        }
    }
}

/// Whether some general register (other than RIP) has an initial value.
pub open spec fn has_gpr_init(init: RegisterView) -> bool {
    exists|k: int| 0 <= k < 16 && #[trigger] init.gpr[init_slot(k)] is Some
}

/// Four lanes: the low lanes into XMMk, the high lanes inserted as the upper
/// half of YMMk.
pub open spec fn xmm_text_four(k: int, v: Seq<Seq<char>>) -> Seq<char> {
    xmm_text_four_low(k, v) + xmm_text_four_high(k, v)
}

/// The first half of [`xmm_text_four`]: the low lanes into XMMk.
pub open spec fn xmm_text_four_low(k: int, v: Seq<Seq<char>>) -> Seq<char> {
    let x = xmm_asm_name(k);
    "; 初始化"@ + xmm_key(k) + "寄存器 (YMM version)\n"@ + mov_line("rax"@, v[0]) + "movq "@ + x + ", rax\n"@
        + mov_line("rax"@, v[1]) + "movq xmm15, rax\n"@ + "movhpd "@ + x + ", xmm15\n"@
}

/// The second half of [`xmm_text_four`]: the high lanes into YMMk.
pub open spec fn xmm_text_four_high(k: int, v: Seq<Seq<char>>) -> Seq<char> {
    let y = ymm_asm_name(k);
    mov_line("rax"@, v[2]) + "movq xmm15, rax\n"@ + "movq xmm14, rax\n"@ + mov_line("rax"@, v[3])
        + "movq xmm13, rax\n"@ + "movhpd xmm14, xmm13\n"@ + "vinserti128 "@ + y + ", "@ + y + ", xmm14, 1\n"@
}

/// Two lanes into XMMk.
pub open spec fn xmm_text_two(k: int, v: Seq<Seq<char>>) -> Seq<char> {
    let x = xmm_asm_name(k);
    "; 初始化"@ + xmm_key(k) + "寄存器\n"@ + mov_line("rax"@, v[0]) + "movq "@ + x + ", rax\n"@ + mov_line("rax"@, v[1])
        + "movq xmm15, rax\n"@ + "movhpd "@ + x + ", xmm15\n"@
}

/// One lane into XMMk.
pub open spec fn xmm_text_one(k: int, v: Seq<Seq<char>>) -> Seq<char> {
    "; 初始化"@ + xmm_key(k) + "寄存器\n"@ + mov_line("rax"@, v[0]) + "movq "@ + xmm_asm_name(k) + ", rax\n"@
}

/// Instructions that load vector register `k` from its lanes, through RAX
/// and, as scratch registers, XMM13..XMM15: four or more lanes fill the YMM
/// register, two or three fill the XMM register, one fills its low lane.
pub open spec fn xmm_init_text(k: int, values: Option<Seq<Seq<char>>>) -> Seq<char> {
    match values {
        None => Seq::empty(),
        Some(v) => if v.len() == 0 {
            Seq::empty()
        } else if v.len() >= 4 {
            xmm_text_four(k, v)
        } else if v.len() >= 2 {
            xmm_text_two(k, v)
        } else {
            xmm_text_one(k, v)
        },
    }
}

/// Instructions for vector registers `0..n`.
pub open spec fn xmm_init_lines(init: RegisterView, n: int) -> Seq<char>
    decreases n,
{
    if n <= 0 {
        Seq::empty()
    } else {
        xmm_init_lines(init, n - 1) + xmm_init_text(n - 1, init.xmm[n - 1])
    }
}

/// Instructions that establish the initial registers: general registers
/// first; then the vector registers, with RAX saved around them when a
/// general register was set.
pub open spec fn init_instructions(init: RegisterView) -> Seq<char> {
    gpr_init_lines(init, 16) + (if has_gpr_init(init) {
        "push rax\n"@
    } else {
        Seq::empty()
    }) + xmm_init_lines(init, 16) + (if has_gpr_init(init) {
        "pop rax\n"@
    } else {
        Seq::empty()
    })
}

/// Appends `mov <reg>, <value>` on a line.
fn push_mov(out: &mut Vec<char>, reg: &str, value: &str)
    ensures
        final(out)@ == old(out)@ + mov_line(reg@, value@),
{
    let ghost o0 = out@;
    crate::text::push_str(out, "mov ");
    crate::text::push_str(out, reg);
    crate::text::push_str(out, ", ");
    crate::text::push_str(out, value);
    crate::text::push_str(out, "\n");
    assert(out@ =~= o0 + mov_line(reg@, value@));
}

fn push_xmm_four(result: &mut Vec<char>, k: usize, v: &Vec<String>)
    requires
        k < 16,
        v@.len() >= 4,
    ensures
        final(result)@ == old(result)@ + xmm_text_four(k as int, v@.map_values(|s: String| s@)),
{
    let ghost r0 = result@;
    let ghost vs = v@.map_values(|s: String| s@);
    push_xmm_four_low(result, k, v);
    let ghost r1 = result@;
    push_xmm_four_high(result, k, v);
    assert(result@ =~= r0 + xmm_text_four(k as int, vs));
}

fn push_xmm_four_low(result: &mut Vec<char>, k: usize, v: &Vec<String>)
    requires
        k < 16,
        v@.len() >= 4,
    ensures
        final(result)@ == old(result)@ + xmm_text_four_low(k as int, v@.map_values(|s: String| s@)),
{
    let ghost r0 = result@;
    let x = xmm_asm_name_str(k);
    crate::text::push_str(result, "; 初始化");
    crate::text::push_str(result, crate::parser::xmm_key_str(k));
    crate::text::push_str(result, "寄存器 (YMM version)\n");
    push_mov(result, "rax", v[0].as_str());
    crate::text::push_str(result, "movq ");
    crate::text::push_str(result, x);
    crate::text::push_str(result, ", rax\n");
    push_mov(result, "rax", v[1].as_str());
    crate::text::push_str(result, "movq xmm15, rax\n");
    crate::text::push_str(result, "movhpd ");
    crate::text::push_str(result, x);
    crate::text::push_str(result, ", xmm15\n");
    assert(result@ =~= r0 + xmm_text_four_low(k as int, v@.map_values(|s: String| s@)));
}

fn push_xmm_four_high(result: &mut Vec<char>, k: usize, v: &Vec<String>)
    requires
        k < 16,
        v@.len() >= 4,
    ensures
        final(result)@ == old(result)@ + xmm_text_four_high(k as int, v@.map_values(|s: String| s@)),
{
    let ghost r0 = result@;
    let y = ymm_asm_name_str(k);
    push_mov(result, "rax", v[2].as_str());
    crate::text::push_str(result, "movq xmm15, rax\n");
    crate::text::push_str(result, "movq xmm14, rax\n");
    push_mov(result, "rax", v[3].as_str());
    crate::text::push_str(result, "movq xmm13, rax\n");
    crate::text::push_str(result, "movhpd xmm14, xmm13\n");
    crate::text::push_str(result, "vinserti128 ");
    crate::text::push_str(result, y);
    crate::text::push_str(result, ", ");
    crate::text::push_str(result, y);
    crate::text::push_str(result, ", xmm14, 1\n");
    assert(result@ =~= r0 + xmm_text_four_high(k as int, v@.map_values(|s: String| s@)));
}

fn push_xmm_two(result: &mut Vec<char>, k: usize, v: &Vec<String>)
    requires
        k < 16,
        v@.len() >= 2,
    ensures
        final(result)@ == old(result)@ + xmm_text_two(k as int, v@.map_values(|s: String| s@)),
{
    let ghost r0 = result@;
    let x = xmm_asm_name_str(k);
    crate::text::push_str(result, "; 初始化");
    crate::text::push_str(result, crate::parser::xmm_key_str(k));
    crate::text::push_str(result, "寄存器\n");
    push_mov(result, "rax", v[0].as_str());
    crate::text::push_str(result, "movq ");
    crate::text::push_str(result, x);
    crate::text::push_str(result, ", rax\n");
    push_mov(result, "rax", v[1].as_str());
    crate::text::push_str(result, "movq xmm15, rax\n");
    crate::text::push_str(result, "movhpd ");
    crate::text::push_str(result, x);
    crate::text::push_str(result, ", xmm15\n");
    assert(result@ =~= r0 + xmm_text_two(k as int, v@.map_values(|s: String| s@)));
}

fn push_xmm_one(result: &mut Vec<char>, k: usize, v: &Vec<String>)
    requires
        k < 16,
        v@.len() >= 1,
    ensures
        final(result)@ == old(result)@ + xmm_text_one(k as int, v@.map_values(|s: String| s@)),
{
    let ghost r0 = result@;
    crate::text::push_str(result, "; 初始化");
    crate::text::push_str(result, crate::parser::xmm_key_str(k));
    crate::text::push_str(result, "寄存器\n");
    push_mov(result, "rax", v[0].as_str());
    crate::text::push_str(result, "movq ");
    crate::text::push_str(result, xmm_asm_name_str(k));
    crate::text::push_str(result, ", rax\n");
    assert(result@ =~= r0 + xmm_text_one(k as int, v@.map_values(|s: String| s@)));
}

impl AsmTestFile {
    /// Appends the instructions that load vector register `k` (see
    /// [`xmm_init_text`]).
    pub fn generate_xmm_init_instructions(result: &mut Vec<char>, k: usize, values: &Option<Vec<String>>)
        requires
            k < 16,
        ensures
            final(result)@ == old(result)@ + xmm_init_text(k as int, opt_text_list(*values)),
    {
        let ghost r0 = result@;
        match values {
            None => {},
            Some(v) => {
                if v.len() == 0 {
                } else if v.len() >= 4 {
                    push_xmm_four(result, k, v);
                } else if v.len() >= 2 {
                    push_xmm_two(result, k, v);
                } else {
                    push_xmm_one(result, k, v);
                }
            },
        }
        assert(result@ =~= r0 + xmm_init_text(k as int, opt_text_list(*values)));
    }
}

/// Appends the instructions that establish the initial registers.
pub fn push_init_instructions(out: &mut Vec<char>, init: &RegisterData)
    ensures
        final(out)@ == old(out)@ + init_instructions(init@),
{
    let ghost o0 = out@;
    let ghost v = init@;
    let mut any = false;
    let mut k: usize = 0;
    while k < 16
        invariant
            k <= 16,
            v == init@,
            out@ == o0 + gpr_init_lines(v, k as int),
            any == exists|q: int| 0 <= q < k && #[trigger] v.gpr[init_slot(q)] is Some,
        decreases 16 - k,
    {
        let slot = if k < 8 {
            k
        } else {
            k + 1
        };
        let ghost before = out@;
        match init.gpr(slot) {
            Some(value) => {
                push_mov(out, init_register_name_str(k), value.as_str());
                any = true;
            },
            None => {},
        }
        assert(out@ =~= before + match v.gpr[init_slot(k as int)] {
            Some(val) => mov_line(init_register_name(k as int), val),
            None => Seq::empty(),
        });
        k = k + 1;
        assert(out@ =~= o0 + gpr_init_lines(v, k as int));
    }
    let ghost g = out@;
    if any {
        crate::text::push_str(out, "push rax\n");
    }
    let ghost h = out@;
    let mut i: usize = 0;
    while i < 16
        invariant
            i <= 16,
            v == init@,
            out@ == h + xmm_init_lines(v, i as int),
        decreases 16 - i,
    {
        AsmTestFile::generate_xmm_init_instructions(out, i, init.xmm(i));
        i = i + 1;
        assert(out@ =~= h + xmm_init_lines(v, i as int));
    }
    if any {
        crate::text::push_str(out, "pop rax\n");
    }
    assert(out@ =~= o0 + init_instructions(v));
}

/// The text of a file rendered with a configuration block and, optionally,
/// initial-register instructions before the code.
pub open spec fn rendered_file(json: Option<Seq<char>>, init: Option<RegisterView>, code: Seq<char>) -> Seq<char> {
    config_section(json) + match init {
        Some(v) => init_instructions(v),
        None => Seq::empty(),
    } + code + hlt_suffix(code)
}

/// Appends what follows the code.
fn push_hlt_suffix(out: &mut Vec<char>, code: &[char])
    ensures
        final(out)@ == old(out)@ + hlt_suffix(code@),
{
    let t = crate::text::trim_chars(code);
    let hlt = crate::text::chars_of("hlt");
    if !ends_with(t.as_slice(), hlt.as_slice()) {
        crate::text::push_str(out, "\nhlt\n");
    } else {
        assert(out@ =~= old(out)@ + hlt_suffix(code@));
    }
}

/// Appends the configuration block.
fn push_config_section(out: &mut Vec<char>, json: Option<&str>)
    ensures
        final(out)@ == old(out)@ + config_section(match json {
            Some(j) => Some(j@),
            None => None,
        }),
{
    let ghost o0 = out@;
    crate::text::push_str(out, "%ifdef CONFIG\n");
    match json {
        Some(j) => crate::text::push_str(out, j),
        None => {},
    }
    crate::text::push_str(out, "\n%endif\n\n");
    assert(out@ =~= o0 + config_section(match json {
        Some(j) => Some(j@),
        None => None,
    }));
}

/// The view of an optional string slice.
pub open spec fn opt_str(j: Option<&str>) -> Option<Seq<char>> {
    match j {
        Some(s) => Some(s@),
        None => None,
    }
}

impl AsmTestFile {
    /// The configuration a result file records: this file's configuration
    /// with the register values after execution.
    pub fn config_with_result(&self, register_data: &RegisterData) -> (r: AsmTestConfig)
        ensures
            r@ == (ConfigView { reg_data: Some(register_data@), ..self.config@ }),
    {
        let mut c = self.config.duplicate();
        c.reg_data = Some(register_data.duplicate());
        c
    }

    /// Whether the initial registers are set by instructions put before the
    /// code: asked for, and there are initial registers.
    pub fn inits_by_code(&self, reg_init_code: bool) -> (r: bool)
        ensures
            r == (reg_init_code && self.config.reg_init is Some),
    {
        reg_init_code && self.config.reg_init.is_some()
    }

    /// The configuration a file with initial-register instructions records:
    /// this file's configuration without the initial registers.
    pub fn config_without_init(&self) -> (r: AsmTestConfig)
        ensures
            r@ == (ConfigView { reg_init: None, ..self.config@ }),
    {
        let mut c = self.config.duplicate();
        c.reg_init = None;
        c
    }

    /// The result file: the configuration block around `config_json` (the
    /// serialization of [`AsmTestFile::config_with_result`]), then the code,
    /// ending with `hlt`.
    pub fn generate_result_file(&self, config_json: Option<&str>) -> (r: String)
        ensures
            r@ == rendered_file(opt_str(config_json), None, self.assembly_code@),
    {
        let mut out: Vec<char> = Vec::new();
        push_config_section(&mut out, config_json);
        crate::text::push_str(&mut out, self.assembly_code.as_str());
        let code = crate::text::chars_of(self.assembly_code.as_str());
        push_hlt_suffix(&mut out, code.as_slice());
        assert(out@ =~= rendered_file(opt_str(config_json), None, self.assembly_code@));
        crate::text::string_of(out.as_slice())
    }

    /// The file with its initial registers set by instructions: the
    /// configuration block around `config_json` (the serialization of
    /// [`AsmTestFile::config_without_init`]), the instructions for the
    /// initial registers, then the code, ending with `hlt`.
    pub fn generate_with_init_instructions(&self, config_json: Option<&str>) -> (r: String)
        ensures
            r@ == rendered_file(opt_str(config_json), opt_registers(self.config.reg_init), self.assembly_code@),
    {
        let mut out: Vec<char> = Vec::new();
        push_config_section(&mut out, config_json);
        let ghost a = out@;
        match &self.config.reg_init {
            Some(init) => push_init_instructions(&mut out, init),
            None => {},
        }
        crate::text::push_str(&mut out, self.assembly_code.as_str());
        let code = crate::text::chars_of(self.assembly_code.as_str());
        push_hlt_suffix(&mut out, code.as_slice());
        assert(out@ =~= rendered_file(opt_str(config_json), opt_registers(self.config.reg_init), self.assembly_code@));
        crate::text::string_of(out.as_slice())
    }
}

/// Whether a text has no carriage return.
pub open spec fn no_carriage_return(t: Seq<char>) -> bool {
    forall|k: int| 0 <= k < t.len() ==> #[trigger] t[k] != '\r'
}

/// `mov <reg>, <value>` for a given initial value; nothing without one.
pub open spec fn mov_named(reg: Seq<char>, value: Option<String>) -> Seq<char> {
    match opt_text(value) {
        Some(t) => mov_line(reg, t),
        None => Seq::empty(),
    }
}

/// The loads of the general registers, each initial value moved into the
/// register of its own name: RAX..RDI, then R8..R15 (RIP is never loaded).
pub open spec fn gpr_loads_by_name(d: RegisterData) -> Seq<char> {
    mov_named("rax"@, d.rax)
        + mov_named("rcx"@, d.rcx)
        + mov_named("rdx"@, d.rdx)
        + mov_named("rbx"@, d.rbx)
        + mov_named("rsp"@, d.rsp)
        + mov_named("rbp"@, d.rbp)
        + mov_named("rsi"@, d.rsi)
        + mov_named("rdi"@, d.rdi)
        + mov_named("r8"@, d.r8)
        + mov_named("r9"@, d.r9)
        + mov_named("r10"@, d.r10)
        + mov_named("r11"@, d.r11)
        + mov_named("r12"@, d.r12)
        + mov_named("r13"@, d.r13)
        + mov_named("r14"@, d.r14)
        + mov_named("r15"@, d.r15)
}

/// The loads of the vector registers, each from the lanes given under its
/// own name, XMM0..XMM15 in order.
pub open spec fn xmm_loads_by_name(d: RegisterData) -> Seq<char> {
    xmm_init_text(0, opt_text_list(d.xmm0))
        + xmm_init_text(1, opt_text_list(d.xmm1))
        + xmm_init_text(2, opt_text_list(d.xmm2))
        + xmm_init_text(3, opt_text_list(d.xmm3))
        + xmm_init_text(4, opt_text_list(d.xmm4))
        + xmm_init_text(5, opt_text_list(d.xmm5))
        + xmm_init_text(6, opt_text_list(d.xmm6))
        + xmm_init_text(7, opt_text_list(d.xmm7))
        + xmm_init_text(8, opt_text_list(d.xmm8))
        + xmm_init_text(9, opt_text_list(d.xmm9))
        + xmm_init_text(10, opt_text_list(d.xmm10))
        + xmm_init_text(11, opt_text_list(d.xmm11))
        + xmm_init_text(12, opt_text_list(d.xmm12))
        + xmm_init_text(13, opt_text_list(d.xmm13))
        + xmm_init_text(14, opt_text_list(d.xmm14))
        + xmm_init_text(15, opt_text_list(d.xmm15))
}

/// Whether some general register other than RIP has an initial value.
pub open spec fn some_gpr_given(d: RegisterData) -> bool {
    d.rax is Some || d.rcx is Some || d.rdx is Some || d.rbx is Some || d.rsp is Some || d.rbp is Some || d.rsi is Some || d.rdi is Some || d.r8 is Some || d.r9 is Some || d.r10 is Some || d.r11 is Some || d.r12 is Some || d.r13 is Some || d.r14 is Some || d.r15 is Some
}

/// Law: the initial-register instructions move each configured value into
/// the register of the same name (`mov rsi, v` for RSI's value `v`), for
/// RAX..R15 in that order; then each vector register from the lanes given
/// for it (see [`law_vector_register_names`] for the names used), with RAX
/// saved around them exactly when some general register was loaded.
pub proof fn law_init_instructions_by_name(d: RegisterData)
    ensures
        init_instructions(d@) == gpr_loads_by_name(d) + (if some_gpr_given(d) {
            "push rax\n"@
        } else {
            Seq::empty()
        }) + xmm_loads_by_name(d) + (if some_gpr_given(d) {
            "pop rax\n"@
        } else {
            Seq::empty()
        }),
{
    lemma_gpr_loads_by_name(d);
    lemma_some_gpr_given(d);
    crate::registers::lemma_view_slots(d);
    reveal_with_fuel(xmm_init_lines, 17);
    assert(xmm_init_lines(d@, 16) =~= xmm_loads_by_name(d));
}

proof fn lemma_gpr_loads_by_name(d: RegisterData)
    ensures
        gpr_init_lines(d@, 16) == gpr_loads_by_name(d),
{
    let v = d@;
    crate::registers::lemma_view_slots(d);
    assert(v.gpr[init_slot(0)] == opt_text(d.rax) && init_register_name(0) == "rax"@);
    assert(v.gpr[init_slot(1)] == opt_text(d.rcx) && init_register_name(1) == "rcx"@);
    assert(v.gpr[init_slot(2)] == opt_text(d.rdx) && init_register_name(2) == "rdx"@);
    assert(v.gpr[init_slot(3)] == opt_text(d.rbx) && init_register_name(3) == "rbx"@);
    assert(v.gpr[init_slot(4)] == opt_text(d.rsp) && init_register_name(4) == "rsp"@);
    assert(v.gpr[init_slot(5)] == opt_text(d.rbp) && init_register_name(5) == "rbp"@);
    assert(v.gpr[init_slot(6)] == opt_text(d.rsi) && init_register_name(6) == "rsi"@);
    assert(v.gpr[init_slot(7)] == opt_text(d.rdi) && init_register_name(7) == "rdi"@);
    assert(v.gpr[init_slot(8)] == opt_text(d.r8) && init_register_name(8) == "r8"@);
    assert(v.gpr[init_slot(9)] == opt_text(d.r9) && init_register_name(9) == "r9"@);
    assert(v.gpr[init_slot(10)] == opt_text(d.r10) && init_register_name(10) == "r10"@);
    assert(v.gpr[init_slot(11)] == opt_text(d.r11) && init_register_name(11) == "r11"@);
    assert(v.gpr[init_slot(12)] == opt_text(d.r12) && init_register_name(12) == "r12"@);
    assert(v.gpr[init_slot(13)] == opt_text(d.r13) && init_register_name(13) == "r13"@);
    assert(v.gpr[init_slot(14)] == opt_text(d.r14) && init_register_name(14) == "r14"@);
    assert(v.gpr[init_slot(15)] == opt_text(d.r15) && init_register_name(15) == "r15"@);
    reveal_with_fuel(gpr_init_lines, 17);
    assert(gpr_init_lines(v, 16) =~= gpr_loads_by_name(d));
}

proof fn lemma_some_gpr_given(d: RegisterData)
    ensures
        has_gpr_init(d@) == some_gpr_given(d),
{
    let v = d@;
    crate::registers::lemma_view_slots(d);
    assert forall|k: int| 0 <= k < 16 && #[trigger] v.gpr[init_slot(k)] is Some implies some_gpr_given(d) by {
        if k == 0 {
            assert(v.gpr[init_slot(0)] == opt_text(d.rax));
        } else if k == 1 {
            assert(v.gpr[init_slot(1)] == opt_text(d.rcx));
        } else if k == 2 {
            assert(v.gpr[init_slot(2)] == opt_text(d.rdx));
        } else if k == 3 {
            assert(v.gpr[init_slot(3)] == opt_text(d.rbx));
        } else if k == 4 {
            assert(v.gpr[init_slot(4)] == opt_text(d.rsp));
        } else if k == 5 {
            assert(v.gpr[init_slot(5)] == opt_text(d.rbp));
        } else if k == 6 {
            assert(v.gpr[init_slot(6)] == opt_text(d.rsi));
        } else if k == 7 {
            assert(v.gpr[init_slot(7)] == opt_text(d.rdi));
        } else if k == 8 {
            assert(v.gpr[init_slot(8)] == opt_text(d.r8));
        } else if k == 9 {
            assert(v.gpr[init_slot(9)] == opt_text(d.r9));
        } else if k == 10 {
            assert(v.gpr[init_slot(10)] == opt_text(d.r10));
        } else if k == 11 {
            assert(v.gpr[init_slot(11)] == opt_text(d.r11));
        } else if k == 12 {
            assert(v.gpr[init_slot(12)] == opt_text(d.r12));
        } else if k == 13 {
            assert(v.gpr[init_slot(13)] == opt_text(d.r13));
        } else if k == 14 {
            assert(v.gpr[init_slot(14)] == opt_text(d.r14));
        } else {
            assert(v.gpr[init_slot(15)] == opt_text(d.r15));
        }
    }
    if some_gpr_given(d) {
        if d.rax is Some { assert(v.gpr[init_slot(0)] is Some); }
        if d.rcx is Some { assert(v.gpr[init_slot(1)] is Some); }
        if d.rdx is Some { assert(v.gpr[init_slot(2)] is Some); }
        if d.rbx is Some { assert(v.gpr[init_slot(3)] is Some); }
        if d.rsp is Some { assert(v.gpr[init_slot(4)] is Some); }
        if d.rbp is Some { assert(v.gpr[init_slot(5)] is Some); }
        if d.rsi is Some { assert(v.gpr[init_slot(6)] is Some); }
        if d.rdi is Some { assert(v.gpr[init_slot(7)] is Some); }
        if d.r8 is Some { assert(v.gpr[init_slot(8)] is Some); }
        if d.r9 is Some { assert(v.gpr[init_slot(9)] is Some); }
        if d.r10 is Some { assert(v.gpr[init_slot(10)] is Some); }
        if d.r11 is Some { assert(v.gpr[init_slot(11)] is Some); }
        if d.r12 is Some { assert(v.gpr[init_slot(12)] is Some); }
        if d.r13 is Some { assert(v.gpr[init_slot(13)] is Some); }
        if d.r14 is Some { assert(v.gpr[init_slot(14)] is Some); }
        if d.r15 is Some { assert(v.gpr[init_slot(15)] is Some); }
    }
}

/// The decimal digits of a register number below 16.
proof fn lemma_small_decimal(k: nat)
    requires
        k < 16,
    ensures
        crate::numeric::decimal_digits(k) == (if k < 10 {
            seq![crate::numeric::hex_char(k)]
        } else {
            seq!['1', crate::numeric::hex_char((k - 10) as nat)]
        }),
{
    reveal_with_fuel(crate::numeric::radix_digits, 3);
    if k >= 10 {
        assert(k / 10 == 1);
        assert(k % 10 == k - 10);
        assert(crate::numeric::hex_char(1) == '1');
        assert(seq![crate::numeric::hex_char(1)].push(crate::numeric::hex_char((k - 10) as nat)) =~= seq!['1', crate::numeric::hex_char((k - 10) as nat)]);
    }
}

/// Law: vector register `k` is named by its number everywhere: `XMMk` in
/// configurations and comments, `xmmk` and `ymmk` in instructions.
pub proof fn law_vector_register_names(k: int)
    requires
        0 <= k < 16,
    ensures
        xmm_key(k) == "XMM"@ + crate::numeric::decimal_digits(k as nat),
        xmm_asm_name(k) == "xmm"@ + crate::numeric::decimal_digits(k as nat),
        ymm_asm_name(k) == "ymm"@ + crate::numeric::decimal_digits(k as nat),
{
    lemma_small_decimal(k as nat);
    reveal_strlit("XMM");
    reveal_strlit("xmm");
    reveal_strlit("ymm");
    if k == 0 {
        reveal_strlit("XMM0");
        reveal_strlit("xmm0");
        reveal_strlit("ymm0");
        assert(xmm_key(k) =~= "XMM"@ + crate::numeric::decimal_digits(k as nat));
        assert(xmm_asm_name(k) =~= "xmm"@ + crate::numeric::decimal_digits(k as nat));
        assert(ymm_asm_name(k) =~= "ymm"@ + crate::numeric::decimal_digits(k as nat));
    }
    if k == 1 {
        reveal_strlit("XMM1");
        reveal_strlit("xmm1");
        reveal_strlit("ymm1");
        assert(xmm_key(k) =~= "XMM"@ + crate::numeric::decimal_digits(k as nat));
        assert(xmm_asm_name(k) =~= "xmm"@ + crate::numeric::decimal_digits(k as nat));
        assert(ymm_asm_name(k) =~= "ymm"@ + crate::numeric::decimal_digits(k as nat));
    }
    if k == 2 {
        reveal_strlit("XMM2");
        reveal_strlit("xmm2");
        reveal_strlit("ymm2");
        assert(xmm_key(k) =~= "XMM"@ + crate::numeric::decimal_digits(k as nat));
        assert(xmm_asm_name(k) =~= "xmm"@ + crate::numeric::decimal_digits(k as nat));
        assert(ymm_asm_name(k) =~= "ymm"@ + crate::numeric::decimal_digits(k as nat));
    }
    if k == 3 {
        reveal_strlit("XMM3");
        reveal_strlit("xmm3");
        reveal_strlit("ymm3");
        assert(xmm_key(k) =~= "XMM"@ + crate::numeric::decimal_digits(k as nat));
        assert(xmm_asm_name(k) =~= "xmm"@ + crate::numeric::decimal_digits(k as nat));
        assert(ymm_asm_name(k) =~= "ymm"@ + crate::numeric::decimal_digits(k as nat));
    }
    if k == 4 {
        reveal_strlit("XMM4");
        reveal_strlit("xmm4");
        reveal_strlit("ymm4");
        assert(xmm_key(k) =~= "XMM"@ + crate::numeric::decimal_digits(k as nat));
        assert(xmm_asm_name(k) =~= "xmm"@ + crate::numeric::decimal_digits(k as nat));
        assert(ymm_asm_name(k) =~= "ymm"@ + crate::numeric::decimal_digits(k as nat));
    }
    if k == 5 {
        reveal_strlit("XMM5");
        reveal_strlit("xmm5");
        reveal_strlit("ymm5");
        assert(xmm_key(k) =~= "XMM"@ + crate::numeric::decimal_digits(k as nat));
        assert(xmm_asm_name(k) =~= "xmm"@ + crate::numeric::decimal_digits(k as nat));
        assert(ymm_asm_name(k) =~= "ymm"@ + crate::numeric::decimal_digits(k as nat));
    }
    if k == 6 {
        reveal_strlit("XMM6");
        reveal_strlit("xmm6");
        reveal_strlit("ymm6");
        assert(xmm_key(k) =~= "XMM"@ + crate::numeric::decimal_digits(k as nat));
        assert(xmm_asm_name(k) =~= "xmm"@ + crate::numeric::decimal_digits(k as nat));
        assert(ymm_asm_name(k) =~= "ymm"@ + crate::numeric::decimal_digits(k as nat));
    }
    if k == 7 {
        reveal_strlit("XMM7");
        reveal_strlit("xmm7");
        reveal_strlit("ymm7");
        assert(xmm_key(k) =~= "XMM"@ + crate::numeric::decimal_digits(k as nat));
        assert(xmm_asm_name(k) =~= "xmm"@ + crate::numeric::decimal_digits(k as nat));
        assert(ymm_asm_name(k) =~= "ymm"@ + crate::numeric::decimal_digits(k as nat));
    }
    if k == 8 {
        reveal_strlit("XMM8");
        reveal_strlit("xmm8");
        reveal_strlit("ymm8");
        assert(xmm_key(k) =~= "XMM"@ + crate::numeric::decimal_digits(k as nat));
        assert(xmm_asm_name(k) =~= "xmm"@ + crate::numeric::decimal_digits(k as nat));
        assert(ymm_asm_name(k) =~= "ymm"@ + crate::numeric::decimal_digits(k as nat));
    }
    if k == 9 {
        reveal_strlit("XMM9");
        reveal_strlit("xmm9");
        reveal_strlit("ymm9");
        assert(xmm_key(k) =~= "XMM"@ + crate::numeric::decimal_digits(k as nat));
        assert(xmm_asm_name(k) =~= "xmm"@ + crate::numeric::decimal_digits(k as nat));
        assert(ymm_asm_name(k) =~= "ymm"@ + crate::numeric::decimal_digits(k as nat));
    }
    if k == 10 {
        reveal_strlit("XMM10");
        reveal_strlit("xmm10");
        reveal_strlit("ymm10");
        assert(xmm_key(k) =~= "XMM"@ + crate::numeric::decimal_digits(k as nat));
        assert(xmm_asm_name(k) =~= "xmm"@ + crate::numeric::decimal_digits(k as nat));
        assert(ymm_asm_name(k) =~= "ymm"@ + crate::numeric::decimal_digits(k as nat));
    }
    if k == 11 {
        reveal_strlit("XMM11");
        reveal_strlit("xmm11");
        reveal_strlit("ymm11");
        assert(xmm_key(k) =~= "XMM"@ + crate::numeric::decimal_digits(k as nat));
        assert(xmm_asm_name(k) =~= "xmm"@ + crate::numeric::decimal_digits(k as nat));
        assert(ymm_asm_name(k) =~= "ymm"@ + crate::numeric::decimal_digits(k as nat));
    }
    if k == 12 {
        reveal_strlit("XMM12");
        reveal_strlit("xmm12");
        reveal_strlit("ymm12");
        assert(xmm_key(k) =~= "XMM"@ + crate::numeric::decimal_digits(k as nat));
        assert(xmm_asm_name(k) =~= "xmm"@ + crate::numeric::decimal_digits(k as nat));
        assert(ymm_asm_name(k) =~= "ymm"@ + crate::numeric::decimal_digits(k as nat));
    }
    if k == 13 {
        reveal_strlit("XMM13");
        reveal_strlit("xmm13");
        reveal_strlit("ymm13");
        assert(xmm_key(k) =~= "XMM"@ + crate::numeric::decimal_digits(k as nat));
        assert(xmm_asm_name(k) =~= "xmm"@ + crate::numeric::decimal_digits(k as nat));
        assert(ymm_asm_name(k) =~= "ymm"@ + crate::numeric::decimal_digits(k as nat));
    }
    if k == 14 {
        reveal_strlit("XMM14");
        reveal_strlit("xmm14");
        reveal_strlit("ymm14");
        assert(xmm_key(k) =~= "XMM"@ + crate::numeric::decimal_digits(k as nat));
        assert(xmm_asm_name(k) =~= "xmm"@ + crate::numeric::decimal_digits(k as nat));
        assert(ymm_asm_name(k) =~= "ymm"@ + crate::numeric::decimal_digits(k as nat));
    }
    if k == 15 {
        reveal_strlit("XMM15");
        reveal_strlit("xmm15");
        reveal_strlit("ymm15");
        assert(xmm_key(k) =~= "XMM"@ + crate::numeric::decimal_digits(k as nat));
        assert(xmm_asm_name(k) =~= "xmm"@ + crate::numeric::decimal_digits(k as nat));
        assert(ymm_asm_name(k) =~= "ymm"@ + crate::numeric::decimal_digits(k as nat));
    }
}

/// Law: the instructions for a vector register read only its leading
/// lanes: the first four when it has four or more, the first two when it
/// has two or three; none without lanes; and with lanes they start with a
/// comment naming the register.
pub proof fn law_xmm_init_reads_leading_lanes(k: int, v: Seq<Seq<char>>)
    ensures
        v.len() >= 4 ==> xmm_init_text(k, Some(v)) == xmm_init_text(k, Some(v.take(4))),
        2 <= v.len() < 4 ==> xmm_init_text(k, Some(v)) == xmm_init_text(k, Some(v.take(2))),
        v.len() == 0 ==> xmm_init_text(k, Some(v)) == Seq::<char>::empty(),
        xmm_init_text(k, None) == Seq::<char>::empty(),
        v.len() > 0 ==> crate::text::has_prefix(xmm_init_text(k, Some(v)), "; 初始化"@ + xmm_key(k)),
{
    let head = "; 初始化"@ + xmm_key(k);
    if v.len() > 0 {
        let t = xmm_init_text(k, Some(v));
        assert(t.subrange(0, head.len() as int) =~= head);
    }
}

/// Law: a file whose configuration block is written around `json` reads
/// back with `json` as its configuration text, and with the text after the
/// block (after the blank line that follows it) as its code; provided that
/// `json` has no carriage return, and that no line of `json` or of what
/// follows the block is itself a marker line.
pub proof fn law_config_block_reads_back(json: Seq<char>, rest: Seq<char>)
    requires
        no_carriage_return(json),
        crate::parser::no_marker_lines(crate::text::lines(json.push('\n'))),
        crate::parser::no_marker_lines(crate::text::lines(rest)),
    ensures
        crate::parser::config_block_text(config_section(Some(json)) + rest) == json,
        crate::parser::assembly_text(config_section(Some(json)) + rest) == crate::text::join(
            seq![Seq::<char>::empty()] + crate::text::lines(rest),
            seq!['\n'],
        ),
{
    use_lines_of_rendered(json, rest);
}

proof fn use_lines_of_rendered(json: Seq<char>, rest: Seq<char>)
    requires
        no_carriage_return(json),
        crate::parser::no_marker_lines(crate::text::lines(json.push('\n'))),
        crate::parser::no_marker_lines(crate::text::lines(rest)),
    ensures
        crate::parser::config_block_text(config_section(Some(json)) + rest) == json,
        crate::parser::assembly_text(config_section(Some(json)) + rest) == crate::text::join(
            seq![Seq::<char>::empty()] + crate::text::lines(rest),
            seq!['\n'],
        ),
{
    reveal_strlit("%ifdef CONFIG\n");
    reveal_strlit("\n%endif\n\n");
    reveal_strlit("%ifdef CONFIG");
    reveal_strlit("%endif");
    let open = "%ifdef CONFIG"@;
    let close = "%endif"@;
    let a = open.push('\n');
    let jn = json.push('\n');
    let e = close.push('\n');
    let n = seq!['\n'];
    let content = config_section(Some(json)) + rest;
    assert(content =~= a + (jn + (e + (n + rest))));
    // The lines of each part.
    crate::text::lemma_lines_single(open);
    crate::text::lemma_lines_single(close);
    crate::text::lemma_lines_single(Seq::<char>::empty());
    assert(Seq::<char>::empty().push('\n') =~= n);
    crate::text::lemma_lines_concat(a, jn + (e + (n + rest)));
    crate::text::lemma_lines_concat(jn, e + (n + rest));
    crate::text::lemma_lines_concat(e, n + rest);
    crate::text::lemma_lines_concat(n, rest);
    let jl = crate::text::lines(jn);
    let rl = crate::text::lines(rest);
    let all = crate::text::lines(content);
    assert(all =~= seq![open] + jl + seq![close] + seq![Seq::<char>::empty()] + rl);
    // The markers.
    crate::executor::lemma_trim_unpadded(open);
    crate::executor::lemma_trim_unpadded(close);
    assert(crate::parser::is_open_marker(open));
    assert(crate::parser::is_close_marker(close));
    assert(!crate::parser::is_open_marker(close));
    assert(trim(Seq::<char>::empty()) =~= Seq::<char>::empty());
    assert(!crate::parser::is_open_marker(Seq::<char>::empty()));
    assert(!crate::parser::is_close_marker(Seq::<char>::empty()));
    // Sorting.
    let s0 = seq![open];
    assert(s0.drop_last() =~= Seq::<Seq<char>>::empty());
    assert(s0.last() == open);
    assert(crate::parser::sort_lines(Seq::<Seq<char>>::empty()) == (
        Seq::<Seq<char>>::empty(),
        Seq::<Seq<char>>::empty(),
        false,
    ));
    assert(crate::parser::sort_lines(s0) == (Seq::<Seq<char>>::empty(), Seq::<Seq<char>>::empty(), true));
    crate::parser::lemma_sort_lines_append(s0, jl);
    assert(Seq::<Seq<char>>::empty() + jl =~= jl);
    let s1 = s0 + jl;
    let s2 = s1.push(close);
    assert(s2.drop_last() =~= s1);
    assert(crate::parser::sort_lines(s2) == (jl, Seq::<Seq<char>>::empty(), false));
    let s3 = s2.push(Seq::<char>::empty());
    assert(s3.drop_last() =~= s2);
    assert(crate::parser::sort_lines(s3) == (jl, seq![Seq::<char>::empty()], false));
    crate::parser::lemma_sort_lines_append(s3, rl);
    assert(all =~= s3 + rl);
    crate::text::lemma_join_lines(json);
}

/// What follows the configuration block in a rendered file.
pub open spec fn rendered_body(init: Option<RegisterView>, code: Seq<char>) -> Seq<char> {
    let instructions = match init {
        Some(v) => init_instructions(v),
        None => Seq::empty(),
    };
    instructions + code + hlt_suffix(code)
}

/// Law: a rendered file (a result file, or a file with initial-register
/// instructions) reads back with the serialized configuration it was
/// written with as its configuration text, and with its body (the
/// instructions, the code and the closing `hlt`) as its code, after a
/// blank line; under the conditions of [`law_config_block_reads_back`].
pub proof fn law_rendered_file_reads_back(json: Seq<char>, init: Option<RegisterView>, code: Seq<char>)
    requires
        no_carriage_return(json),
        crate::parser::no_marker_lines(crate::text::lines(json.push('\n'))),
        crate::parser::no_marker_lines(crate::text::lines(rendered_body(init, code))),
    ensures
        crate::parser::config_block_text(rendered_file(Some(json), init, code)) == json,
        crate::parser::assembly_text(rendered_file(Some(json), init, code)) == crate::text::join(
            seq![Seq::<char>::empty()] + crate::text::lines(rendered_body(init, code)),
            seq!['\n'],
        ),
{
    assert(rendered_file(Some(json), init, code) =~= config_section(Some(json)) + rendered_body(init, code));
    law_config_block_reads_back(json, rendered_body(init, code));
}

} // verus!
