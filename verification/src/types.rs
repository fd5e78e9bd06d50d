//! The data model of a test file: its configuration block, register
//! snapshots, memory layout and the parsed file itself.
use vstd::prelude::*;

verus! {

/// Characters of an optional string.
pub open spec fn opt_text(o: Option<String>) -> Option<Seq<char>> {
    match o {
        Some(s) => Some(s@),
        None => None,
    }
}

/// Characters of each string of an optional list.
pub open spec fn opt_text_list(o: Option<Vec<String>>) -> Option<Seq<Seq<char>>> {
    match o {
        Some(v) => Some(v@.map_values(|s: String| s@)),
        None => None,
    }
}

/// A copy of a string.
pub fn copy_string(s: &String) -> (r: String)
    ensures
        r@ == s@,
{
    s.clone()
}

/// A copy of an optional string.
pub fn copy_opt_string(o: &Option<String>) -> (r: Option<String>)
    ensures
        opt_text(r) == opt_text(*o),
{
    match o {
        Some(s) => Some(s.clone()),
        None => None,
    }
}

/// A copy of a list of strings.
pub fn copy_string_list(v: &Vec<String>) -> (r: Vec<String>)
    ensures
        r@.map_values(|s: String| s@) == v@.map_values(|s: String| s@),
{
    let mut r: Vec<String> = Vec::new();
    let mut i: usize = 0;
    while i < v.len()
        invariant
            i <= v@.len(),
            r@.len() == i,
            forall|k: int| 0 <= k < i ==> #[trigger] r@[k]@ == v@[k]@,
        decreases v@.len() - i,
    {
        r.push(v[i].clone());
        i = i + 1;
    }
    assert(r@.map_values(|s: String| s@) =~= v@.map_values(|s: String| s@));
    r
}

/// A copy of an optional list of strings.
pub fn copy_opt_string_list(o: &Option<Vec<String>>) -> (r: Option<Vec<String>>)
    ensures
        opt_text_list(r) == opt_text_list(*o),
{
    match o {
        Some(v) => Some(copy_string_list(v)),
        None => None,
    }
}

/// Number of general-purpose register slots (RAX..R15 and RIP).
pub const GPR_COUNT: usize = 17;

/// Number of vector register slots (XMM0..XMM15).
pub const XMM_COUNT: usize = 16;

/// Indices of the general-purpose slots, in the order the fields are declared.
pub const RAX: usize = 0;
pub const RCX: usize = 1;
pub const RDX: usize = 2;
pub const RBX: usize = 3;
pub const RSP: usize = 4;
pub const RBP: usize = 5;
pub const RSI: usize = 6;
pub const RDI: usize = 7;
pub const RIP: usize = 8;
pub const R8: usize = 9;
pub const R9: usize = 10;
pub const R10: usize = 11;
pub const R11: usize = 12;
pub const R12: usize = 13;
pub const R13: usize = 14;
pub const R14: usize = 15;
pub const R15: usize = 16;

/// Register values of a test: general-purpose registers as strings, vector
/// registers as lists of 64-bit lane strings, and the flags register.
pub struct RegisterData {
    pub rax: Option<String>,
    pub rcx: Option<String>,
    pub rdx: Option<String>,
    pub rbx: Option<String>,
    pub rsp: Option<String>,
    pub rbp: Option<String>,
    pub rsi: Option<String>,
    pub rdi: Option<String>,
    pub rip: Option<String>,
    pub r8: Option<String>,
    pub r9: Option<String>,
    pub r10: Option<String>,
    pub r11: Option<String>,
    pub r12: Option<String>,
    pub r13: Option<String>,
    pub r14: Option<String>,
    pub r15: Option<String>,
    pub xmm0: Option<Vec<String>>,
    pub xmm1: Option<Vec<String>>,
    pub xmm2: Option<Vec<String>>,
    pub xmm3: Option<Vec<String>>,
    pub xmm4: Option<Vec<String>>,
    pub xmm5: Option<Vec<String>>,
    pub xmm6: Option<Vec<String>>,
    pub xmm7: Option<Vec<String>>,
    pub xmm8: Option<Vec<String>>,
    pub xmm9: Option<Vec<String>>,
    pub xmm10: Option<Vec<String>>,
    pub xmm11: Option<Vec<String>>,
    pub xmm12: Option<Vec<String>>,
    pub xmm13: Option<Vec<String>>,
    pub xmm14: Option<Vec<String>>,
    pub xmm15: Option<Vec<String>>,
    pub flags: Option<String>,
}

/// What a [`RegisterData`] holds: slot `i` of `gpr` is the general register
/// with index `i` (see [`RAX`] ..), slot `i` of `xmm` is XMMi.
pub struct RegisterView {
    pub gpr: Seq<Option<Seq<char>>>,
    pub xmm: Seq<Option<Seq<Seq<char>>>>,
    pub flags: Option<Seq<char>>,
}

impl View for RegisterData {
    type V = RegisterView;

    open spec fn view(&self) -> RegisterView {
        RegisterView {
            gpr: seq![
                opt_text(self.rax),
                opt_text(self.rcx),
                opt_text(self.rdx),
                opt_text(self.rbx),
                opt_text(self.rsp),
                opt_text(self.rbp),
                opt_text(self.rsi),
                opt_text(self.rdi),
                opt_text(self.rip),
                opt_text(self.r8),
                opt_text(self.r9),
                opt_text(self.r10),
                opt_text(self.r11),
                opt_text(self.r12),
                opt_text(self.r13),
                opt_text(self.r14),
                opt_text(self.r15),
            ],
            xmm: seq![
                opt_text_list(self.xmm0),
                opt_text_list(self.xmm1),
                opt_text_list(self.xmm2),
                opt_text_list(self.xmm3),
                opt_text_list(self.xmm4),
                opt_text_list(self.xmm5),
                opt_text_list(self.xmm6),
                opt_text_list(self.xmm7),
                opt_text_list(self.xmm8),
                opt_text_list(self.xmm9),
                opt_text_list(self.xmm10),
                opt_text_list(self.xmm11),
                opt_text_list(self.xmm12),
                opt_text_list(self.xmm13),
                opt_text_list(self.xmm14),
                opt_text_list(self.xmm15),
            ],
            flags: opt_text(self.flags),
        }
    }
}

/// A register view with every slot empty.
pub open spec fn empty_register_view() -> RegisterView {
    RegisterView {
        gpr: Seq::new(17, |i: int| None),
        xmm: Seq::new(16, |i: int| None),
        flags: None,
    }
}

impl RegisterData {
    /// A register set with no value for any register.
    pub fn new() -> (r: Self)
        ensures
            r@ == empty_register_view(),
    {
        let r = RegisterData {
            rax: None,
            rcx: None,
            rdx: None,
            rbx: None,
            rsp: None,
            rbp: None,
            rsi: None,
            rdi: None,
            rip: None,
            r8: None,
            r9: None,
            r10: None,
            r11: None,
            r12: None,
            r13: None,
            r14: None,
            r15: None,
            xmm0: None,
            xmm1: None,
            xmm2: None,
            xmm3: None,
            xmm4: None,
            xmm5: None,
            xmm6: None,
            xmm7: None,
            xmm8: None,
            xmm9: None,
            xmm10: None,
            xmm11: None,
            xmm12: None,
            xmm13: None,
            xmm14: None,
            xmm15: None,
            flags: None,
        };
        assert(r@.gpr =~= empty_register_view().gpr);
        assert(r@.xmm =~= empty_register_view().xmm);
        r
    }

    /// The general-purpose slot with index `i`.
    pub fn gpr(&self, i: usize) -> (r: &Option<String>)
        requires
            i < GPR_COUNT,
        ensures
            opt_text(*r) == self@.gpr[i as int],
    {
        match i {
            0 => &self.rax,
            1 => &self.rcx,
            2 => &self.rdx,
            3 => &self.rbx,
            4 => &self.rsp,
            5 => &self.rbp,
            6 => &self.rsi,
            7 => &self.rdi,
            8 => &self.rip,
            9 => &self.r8,
            10 => &self.r9,
            11 => &self.r10,
            12 => &self.r11,
            13 => &self.r12,
            14 => &self.r13,
            15 => &self.r14,
            _ => &self.r15,
        }
    }

    /// The vector slot XMMi.
    pub fn xmm(&self, i: usize) -> (r: &Option<Vec<String>>)
        requires
            i < XMM_COUNT,
        ensures
            opt_text_list(*r) == self@.xmm[i as int],
    {
        match i {
            0 => &self.xmm0,
            1 => &self.xmm1,
            2 => &self.xmm2,
            3 => &self.xmm3,
            4 => &self.xmm4,
            5 => &self.xmm5,
            6 => &self.xmm6,
            7 => &self.xmm7,
            8 => &self.xmm8,
            9 => &self.xmm9,
            10 => &self.xmm10,
            11 => &self.xmm11,
            12 => &self.xmm12,
            13 => &self.xmm13,
            14 => &self.xmm14,
            _ => &self.xmm15,
        }
    }

    /// Replaces the general-purpose slot with index `i`.
    pub fn set_gpr(&mut self, i: usize, v: Option<String>)
        requires
            i < GPR_COUNT,
        ensures
            final(self)@.gpr == old(self)@.gpr.update(i as int, opt_text(v)),
            final(self)@.xmm == old(self)@.xmm,
            final(self)@.flags == old(self)@.flags,
    {
        match i {
            0 => self.rax = v,
            1 => self.rcx = v,
            2 => self.rdx = v,
            3 => self.rbx = v,
            4 => self.rsp = v,
            5 => self.rbp = v,
            6 => self.rsi = v,
            7 => self.rdi = v,
            8 => self.rip = v,
            9 => self.r8 = v,
            10 => self.r9 = v,
            11 => self.r10 = v,
            12 => self.r11 = v,
            13 => self.r12 = v,
            14 => self.r13 = v,
            15 => self.r14 = v,
            _ => self.r15 = v,
        }
        assert(self@.gpr =~= old(self)@.gpr.update(i as int, opt_text(v)));
        assert(self@.xmm =~= old(self)@.xmm);
    }

    /// Replaces the vector slot XMMi.
    pub fn set_xmm(&mut self, i: usize, v: Option<Vec<String>>)
        requires
            i < XMM_COUNT,
        ensures
            final(self)@.xmm == old(self)@.xmm.update(i as int, opt_text_list(v)),
            final(self)@.gpr == old(self)@.gpr,
            final(self)@.flags == old(self)@.flags,
    {
        match i {
            0 => self.xmm0 = v,
            1 => self.xmm1 = v,
            2 => self.xmm2 = v,
            3 => self.xmm3 = v,
            4 => self.xmm4 = v,
            5 => self.xmm5 = v,
            6 => self.xmm6 = v,
            7 => self.xmm7 = v,
            8 => self.xmm8 = v,
            9 => self.xmm9 = v,
            10 => self.xmm10 = v,
            11 => self.xmm11 = v,
            12 => self.xmm12 = v,
            13 => self.xmm13 = v,
            14 => self.xmm14 = v,
            _ => self.xmm15 = v,
        }
        assert(self@.xmm =~= old(self)@.xmm.update(i as int, opt_text_list(v)));
        assert(self@.gpr =~= old(self)@.gpr);
    }

    /// A copy of this register set.
    pub fn duplicate(&self) -> (r: Self)
        ensures
            r@ == self@,
    {
        let r = RegisterData {
            rax: copy_opt_string(&self.rax),
            rcx: copy_opt_string(&self.rcx),
            rdx: copy_opt_string(&self.rdx),
            rbx: copy_opt_string(&self.rbx),
            rsp: copy_opt_string(&self.rsp),
            rbp: copy_opt_string(&self.rbp),
            rsi: copy_opt_string(&self.rsi),
            rdi: copy_opt_string(&self.rdi),
            rip: copy_opt_string(&self.rip),
            r8: copy_opt_string(&self.r8),
            r9: copy_opt_string(&self.r9),
            r10: copy_opt_string(&self.r10),
            r11: copy_opt_string(&self.r11),
            r12: copy_opt_string(&self.r12),
            r13: copy_opt_string(&self.r13),
            r14: copy_opt_string(&self.r14),
            r15: copy_opt_string(&self.r15),
            xmm0: copy_opt_string_list(&self.xmm0),
            xmm1: copy_opt_string_list(&self.xmm1),
            xmm2: copy_opt_string_list(&self.xmm2),
            xmm3: copy_opt_string_list(&self.xmm3),
            xmm4: copy_opt_string_list(&self.xmm4),
            xmm5: copy_opt_string_list(&self.xmm5),
            xmm6: copy_opt_string_list(&self.xmm6),
            xmm7: copy_opt_string_list(&self.xmm7),
            xmm8: copy_opt_string_list(&self.xmm8),
            xmm9: copy_opt_string_list(&self.xmm9),
            xmm10: copy_opt_string_list(&self.xmm10),
            xmm11: copy_opt_string_list(&self.xmm11),
            xmm12: copy_opt_string_list(&self.xmm12),
            xmm13: copy_opt_string_list(&self.xmm13),
            xmm14: copy_opt_string_list(&self.xmm14),
            xmm15: copy_opt_string_list(&self.xmm15),
            flags: copy_opt_string(&self.flags),
        };
        assert(r@.gpr =~= self@.gpr);
        assert(r@.xmm =~= self@.xmm);
        r
    }
}

impl Default for RegisterData {
    fn default() -> (r: Self)
        ensures
            r@ == empty_register_view(),
    {
        Self::new()
    }
}

/// The execution mode a test asks for; without one the test runs in 64-bit mode.
#[derive(Clone, Copy, Debug, PartialEq, Eq, Structural)]
pub enum ExecutionMode {
    Bit32,
}

/// Whether the mode is the 32-bit mode.
pub open spec fn is_bit32(mode: Option<ExecutionMode>) -> bool {
    match mode {
        Some(ExecutionMode::Bit32) => true,
        None => false,
    }
}

/// Size of a memory region: a JSON number, or a string such as `"0x2000"`.
#[derive(Debug)]
pub enum MemorySize {
    Number(u64),
    HexString(String),
}

/// What a [`MemorySize`] holds.
pub enum MemorySizeView {
    Number(u64),
    HexString(Seq<char>),
}

impl View for MemorySize {
    type V = MemorySizeView;

    open spec fn view(&self) -> MemorySizeView {
        match self {
            MemorySize::Number(n) => MemorySizeView::Number(*n),
            MemorySize::HexString(s) => MemorySizeView::HexString(s@),
        }
    }
}

/// Whether `key` is the key of some entry.
pub open spec fn has_key<X>(entries: Seq<(Seq<char>, X)>, key: Seq<char>) -> bool {
    exists|i: int| 0 <= i < entries.len() && entries[i].0 == key
}

/// An association list from strings to values, in insertion order, holding
/// each key at most once (the JSON objects of the configuration).
pub struct StringMap<V: View> {
    entries: Vec<(String, V)>,
}

impl<V: View> StringMap<V> {
    /// No key is held twice.
    #[verifier::type_invariant]
    spec fn keys_are_distinct(self) -> bool {
        keys_distinct(self.entries@.map_values(|e: (String, V)| (e.0@, e.1@)))
    }
}

impl<V: View> View for StringMap<V> {
    type V = Seq<(Seq<char>, V::V)>;

    closed spec fn view(&self) -> Seq<(Seq<char>, V::V)> {
        self.entries@.map_values(|e: (String, V)| (e.0@, e.1@))
    }
}

impl<V: View> StringMap<V> {
    /// An empty map.
    pub fn new() -> (r: Self)
        ensures
            r@ == Seq::<(Seq<char>, V::V)>::empty(),
    {
        let r = StringMap { entries: Vec::new() };
        assert(r@ =~= Seq::<(Seq<char>, V::V)>::empty());
        r
    }

    /// Number of entries.
    pub fn len(&self) -> (r: usize)
        ensures
            r == self@.len(),
    {
        self.entries.len()
    }

    /// Key and value of entry `i`.
    pub fn entry(&self, i: usize) -> (r: (&String, &V))
        requires
            i < self@.len(),
        ensures
            r.0@ == self@[i as int].0,
            r.1@ == self@[i as int].1,
    {
        let e = &self.entries[i];
        (&e.0, &e.1)
    }

    /// Index of the entry whose key is `key`, if any.
    pub fn position(&self, key: &[char]) -> (r: Option<usize>)
        ensures
            match r {
                Some(i) => i < self@.len() && self@[i as int].0 == key@,
                None => !has_key(self@, key@),
            },
    {
        let mut i: usize = 0;
        while i < self.entries.len()
            invariant
                i <= self@.len(),
                forall|k: int| 0 <= k < i ==> self@[k].0 != key@,
            decreases self@.len() - i,
        {
            let k = crate::text::chars_of(self.entries[i].0.as_str());
            if crate::text::chars_eq(k.as_slice(), key) {
                return Some(i);
            }
            i = i + 1;
        }
        None
    }

    /// Whether some entry has the key `key`.
    pub fn contains_key(&self, key: &str) -> (r: bool)
        ensures
            r == has_key(self@, key@),
    {
        let k = crate::text::chars_of(key);
        self.position(k.as_slice()).is_some()
    }

    /// The value stored under `key`, if any.
    pub fn get(&self, key: &str) -> (r: Option<&V>)
        ensures
            match r {
                Some(v) => exists|i: int| 0 <= i < self@.len() && self@[i].0 == key@ && self@[i].1 == v@,
                None => !has_key(self@, key@),
            },
    {
        let k = crate::text::chars_of(key);
        match self.position(k.as_slice()) {
            Some(i) => Some(&self.entries[i].1),
            None => None,
        }
    }

    /// Appends an entry under a key the map does not hold yet.
    pub fn push_new(&mut self, key: String, value: V)
        requires
            !has_key(old(self)@, key@),
        ensures
            final(self)@ == old(self)@.push((key@, value@)),
    {
        proof {
            use_type_invariant(&*self);
        }
        let ghost before = self@;
        let mut entries: Vec<(String, V)> = Vec::new();
        std::mem::swap(&mut entries, &mut self.entries);
        assert(entries@.map_values(|e: (String, V)| (e.0@, e.1@)) == before);
        entries.push((key, value));
        let ghost after = entries@.map_values(|e: (String, V)| (e.0@, e.1@));
        assert(after =~= before.push((key@, value@)));
        assert(keys_distinct(after)) by {
            assert forall|i: int, j: int| 0 <= i < j < after.len() implies after[i].0 != after[j].0 by {
                if j == after.len() - 1 {
                    if after[i].0 == after[j].0 {
                        assert(before[i].0 == key@);
                    }
                }
            }
        }
        self.entries = entries;
    }
}

/// The configuration block of a test file.
pub struct AsmTestConfig {
    /// Register values after execution (written to result files).
    pub reg_data: Option<RegisterData>,
    /// Register values before execution.
    pub reg_init: Option<RegisterData>,
    /// Execution mode; absent means 64-bit.
    pub mode: Option<ExecutionMode>,
    /// Memory regions to map: start address string to size.
    pub memory_regions: Option<StringMap<MemorySize>>,
    /// Memory contents: address string to a string of hex numbers.
    pub memory_data: Option<StringMap<String>>,
}

/// Register view of an optional register set.
pub open spec fn opt_registers(o: Option<RegisterData>) -> Option<RegisterView> {
    match o {
        Some(r) => Some(r@),
        None => None,
    }
}

/// View of an optional map.
pub open spec fn opt_map<V: View>(o: Option<StringMap<V>>) -> Option<Seq<(Seq<char>, V::V)>> {
    match o {
        Some(m) => Some(m@),
        None => None,
    }
}

/// What an [`AsmTestConfig`] holds.
pub struct ConfigView {
    pub reg_data: Option<RegisterView>,
    pub reg_init: Option<RegisterView>,
    pub mode: Option<ExecutionMode>,
    pub memory_regions: Option<Seq<(Seq<char>, MemorySizeView)>>,
    pub memory_data: Option<Seq<(Seq<char>, Seq<char>)>>,
}

impl View for AsmTestConfig {
    type V = ConfigView;

    open spec fn view(&self) -> ConfigView {
        ConfigView {
            reg_data: opt_registers(self.reg_data),
            reg_init: opt_registers(self.reg_init),
            mode: self.mode,
            memory_regions: opt_map(self.memory_regions),
            memory_data: opt_map(self.memory_data),
        }
    }
}

/// The configuration with nothing set.
pub open spec fn empty_config_view() -> ConfigView {
    ConfigView { reg_data: None, reg_init: None, mode: None, memory_regions: None, memory_data: None }
}

impl AsmTestConfig {
    /// A configuration with nothing set.
    pub fn new() -> (r: Self)
        ensures
            r@ == empty_config_view(),
    {
        AsmTestConfig { reg_data: None, reg_init: None, mode: None, memory_regions: None, memory_data: None }
    }

    /// Whether the configuration asks for 32-bit execution.
    pub fn is_32bit(&self) -> (r: bool)
        ensures
            r == is_bit32(self.mode),
    {
        match self.mode {
            Some(ExecutionMode::Bit32) => true,
            None => false,
        }
    }
}

impl Default for AsmTestConfig {
    fn default() -> (r: Self)
        ensures
            r@ == empty_config_view(),
    {
        Self::new()
    }
}

/// A parsed test file.
pub struct AsmTestFile {
    /// The configuration block.
    pub config: AsmTestConfig,
    /// The assembly source outside the configuration block.
    pub assembly_code: String,
}

/// Outcome of running a test.
pub struct ExecutionResult {
    /// Register values after execution.
    pub register_data: RegisterData,
    /// Whether execution succeeded.
    pub success: bool,
    /// What went wrong, if anything.
    pub error_message: Option<String>,
}

/// Vector registers read back from a process, each as 64-bit lane strings.
pub struct XmmRegisters {
    pub xmm0: Option<Vec<String>>,
    pub xmm1: Option<Vec<String>>,
    pub xmm2: Option<Vec<String>>,
    pub xmm3: Option<Vec<String>>,
    pub xmm4: Option<Vec<String>>,
    pub xmm5: Option<Vec<String>>,
    pub xmm6: Option<Vec<String>>,
    pub xmm7: Option<Vec<String>>,
    pub xmm8: Option<Vec<String>>,
    pub xmm9: Option<Vec<String>>,
    pub xmm10: Option<Vec<String>>,
    pub xmm11: Option<Vec<String>>,
    pub xmm12: Option<Vec<String>>,
    pub xmm13: Option<Vec<String>>,
    pub xmm14: Option<Vec<String>>,
    pub xmm15: Option<Vec<String>>,
}

impl View for XmmRegisters {
    type V = Seq<Option<Seq<Seq<char>>>>;

    open spec fn view(&self) -> Seq<Option<Seq<Seq<char>>>> {
        seq![
            opt_text_list(self.xmm0),
            opt_text_list(self.xmm1),
            opt_text_list(self.xmm2),
            opt_text_list(self.xmm3),
            opt_text_list(self.xmm4),
            opt_text_list(self.xmm5),
            opt_text_list(self.xmm6),
            opt_text_list(self.xmm7),
            opt_text_list(self.xmm8),
            opt_text_list(self.xmm9),
            opt_text_list(self.xmm10),
            opt_text_list(self.xmm11),
            opt_text_list(self.xmm12),
            opt_text_list(self.xmm13),
            opt_text_list(self.xmm14),
            opt_text_list(self.xmm15),
        ]
    }
}

impl XmmRegisters {
    /// No vector register read.
    pub fn new() -> (r: Self)
        ensures
            r@ == Seq::new(16, |i: int| None::<Seq<Seq<char>>>),
    {
        let r = XmmRegisters {
            xmm0: None,
            xmm1: None,
            xmm2: None,
            xmm3: None,
            xmm4: None,
            xmm5: None,
            xmm6: None,
            xmm7: None,
            xmm8: None,
            xmm9: None,
            xmm10: None,
            xmm11: None,
            xmm12: None,
            xmm13: None,
            xmm14: None,
            xmm15: None,
        };
        assert(r@ =~= Seq::new(16, |i: int| None::<Seq<Seq<char>>>));
        r
    }

    /// Replaces register XMMi.
    pub fn set(&mut self, i: usize, v: Option<Vec<String>>)
        requires
            i < XMM_COUNT,
        ensures
            final(self)@ == old(self)@.update(i as int, opt_text_list(v)),
    {
        match i {
            0 => self.xmm0 = v,
            1 => self.xmm1 = v,
            2 => self.xmm2 = v,
            3 => self.xmm3 = v,
            4 => self.xmm4 = v,
            5 => self.xmm5 = v,
            6 => self.xmm6 = v,
            7 => self.xmm7 = v,
            8 => self.xmm8 = v,
            9 => self.xmm9 = v,
            10 => self.xmm10 = v,
            11 => self.xmm11 = v,
            12 => self.xmm12 = v,
            13 => self.xmm13 = v,
            14 => self.xmm14 = v,
            _ => self.xmm15 = v,
        }
        assert(self@ =~= old(self)@.update(i as int, opt_text_list(v)));
    }
}

/// A copy of a region size.
pub fn copy_memory_size(m: &MemorySize) -> (r: MemorySize)
    ensures
        r@ == m@,
{
    match m {
        MemorySize::Number(n) => MemorySize::Number(*n),
        MemorySize::HexString(h) => MemorySize::HexString(h.clone()),
    }
}

impl StringMap<String> {
    /// A copy of this map.
    pub fn duplicate(&self) -> (r: Self)
        ensures
            r@ == self@,
    {
        proof {
            use_type_invariant(self);
        }
        let mut entries: Vec<(String, String)> = Vec::new();
        let mut i: usize = 0;
        while i < self.entries.len()
            invariant
                i <= self.entries@.len(),
                entries@.len() == i,
                forall|k: int| 0 <= k < i ==> #[trigger] entries@[k].0@ == self.entries@[k].0@ && entries@[k].1@ == self.entries@[k].1@,
            decreases self.entries@.len() - i,
        {
            let e = &self.entries[i];
            let k = e.0.clone();
            let v = e.1.clone();
            entries.push((k, v));
            i = i + 1;
        }
        assert(entries@.map_values(|e: (String, String)| (e.0@, e.1@)) =~= self@);
        let r = StringMap { entries };
        r
    }
}

impl StringMap<MemorySize> {
    /// A copy of this map.
    pub fn duplicate(&self) -> (r: Self)
        ensures
            r@ == self@,
    {
        proof {
            use_type_invariant(self);
        }
        let mut entries: Vec<(String, MemorySize)> = Vec::new();
        let mut i: usize = 0;
        while i < self.entries.len()
            invariant
                i <= self.entries@.len(),
                entries@.len() == i,
                forall|k: int| 0 <= k < i ==> #[trigger] entries@[k].0@ == self.entries@[k].0@ && entries@[k].1@ == self.entries@[k].1@,
            decreases self.entries@.len() - i,
        {
            let e = &self.entries[i];
            let k = e.0.clone();
            let v = copy_memory_size(&e.1);
            entries.push((k, v));
            i = i + 1;
        }
        assert(entries@.map_values(|e: (String, MemorySize)| (e.0@, e.1@)) =~= self@);
        let r = StringMap { entries };
        r
    }
}

impl AsmTestConfig {
    /// A copy of this configuration.
    pub fn duplicate(&self) -> (r: Self)
        ensures
            r@ == self@,
    {
        AsmTestConfig {
            reg_data: match &self.reg_data {
                Some(d) => Some(d.duplicate()),
                None => None,
            },
            reg_init: match &self.reg_init {
                Some(d) => Some(d.duplicate()),
                None => None,
            },
            mode: self.mode,
            memory_regions: match &self.memory_regions {
                Some(m) => Some(m.duplicate()),
                None => None,
            },
            memory_data: match &self.memory_data {
                Some(m) => Some(m.duplicate()),
                None => None,
            },
        }
    }
}

/// Whether no key occurs twice among the entries.
pub open spec fn keys_distinct<X>(entries: Seq<(Seq<char>, X)>) -> bool {
    forall|i: int, j: int| 0 <= i < j < entries.len() ==> entries[i].0 != entries[j].0
}

/// The entries after storing `value` under `key`: the entry holding the key
/// takes the value, or the pair is appended when no entry holds it.
pub open spec fn insert_entry<X>(entries: Seq<(Seq<char>, X)>, key: Seq<char>, value: X) -> Seq<(Seq<char>, X)> {
    if has_key(entries, key) {
        let i = choose|i: int| 0 <= i < entries.len() && entries[i].0 == key;
        entries.update(i, (key, value))
    } else {
        entries.push((key, value))
    }
}

/// Storing under a key keeps keys distinct; afterwards the key is held with
/// the new value, and every other entry is as it was.
pub proof fn lemma_insert_entry<X>(entries: Seq<(Seq<char>, X)>, key: Seq<char>, value: X)
    requires
        keys_distinct(entries),
    ensures
        keys_distinct(insert_entry(entries, key, value)),
        forall|x: Seq<char>| #[trigger] has_key(insert_entry(entries, key, value), x) <==> (has_key(entries, x) || x == key),
        forall|i: int| 0 <= i < insert_entry(entries, key, value).len() && #[trigger] insert_entry(entries, key, value)[i].0 == key
            ==> insert_entry(entries, key, value)[i].1 == value,
        forall|i: int| 0 <= i < insert_entry(entries, key, value).len() && #[trigger] insert_entry(entries, key, value)[i].0 != key
            ==> has_key(entries, insert_entry(entries, key, value)[i].0) && exists|j: int| 0 <= j < entries.len()
                && #[trigger] entries[j] == insert_entry(entries, key, value)[i],
{
    let r = insert_entry(entries, key, value);
    if has_key(entries, key) {
        let p = choose|i: int| 0 <= i < entries.len() && entries[i].0 == key;
        assert forall|x: Seq<char>| #[trigger] has_key(r, x) <==> (has_key(entries, x) || x == key) by {
            if has_key(entries, x) {
                let q = choose|i: int| 0 <= i < entries.len() && entries[i].0 == x;
                assert(r[q].0 == x);
            }
            if has_key(r, x) {
                let q = choose|i: int| 0 <= i < r.len() && r[i].0 == x;
                assert(entries[q].0 == x || q == p);
            }
        }
        assert forall|i: int| 0 <= i < r.len() && #[trigger] r[i].0 != key implies has_key(entries, r[i].0) && exists|j: int|
            0 <= j < entries.len() && #[trigger] entries[j] == r[i] by {
            assert(entries[i] == r[i]);
        }
    } else {
        assert forall|x: Seq<char>| #[trigger] has_key(r, x) <==> (has_key(entries, x) || x == key) by {
            if has_key(entries, x) {
                let q = choose|i: int| 0 <= i < entries.len() && entries[i].0 == x;
                assert(r[q].0 == x);
            }
            if x == key {
                assert(r[entries.len() as int].0 == x);
            }
            if has_key(r, x) {
                let q = choose|i: int| 0 <= i < r.len() && r[i].0 == x;
                if q < entries.len() {
                    assert(entries[q].0 == x);
                }
            }
        }
        assert forall|i: int| 0 <= i < r.len() && #[trigger] r[i].0 != key implies has_key(entries, r[i].0) && exists|j: int|
            0 <= j < entries.len() && #[trigger] entries[j] == r[i] by {
            assert(i < entries.len());
            assert(entries[i] == r[i]);
        }
    }
}

impl<V: View> StringMap<V> {
    /// Stores `value` under `key` (see [`insert_entry`]).
    pub fn insert(&mut self, key: String, value: V)
        ensures
            final(self)@ == insert_entry(old(self)@, key@, value@),
            keys_distinct(final(self)@),
    {
        proof {
            use_type_invariant(&*self);
            lemma_insert_entry(self@, key@, value@);
        }
        let ghost before = self@;
        let kc = crate::text::chars_of(key.as_str());
        let found = self.position(kc.as_slice());
        let mut entries: Vec<(String, V)> = Vec::new();
        std::mem::swap(&mut entries, &mut self.entries);
        assert(entries@.map_values(|e: (String, V)| (e.0@, e.1@)) == before);
        match found {
            Some(i) => {
                let ghost k = choose|k: int| 0 <= k < before.len() && before[k].0 == key@;
                assert(k == i as int);
                entries.set(i, (key, value));
                assert(entries@.map_values(|e: (String, V)| (e.0@, e.1@)) =~= before.update(i as int, (kc@, value@)));
            },
            None => {
                entries.push((key, value));
                assert(entries@.map_values(|e: (String, V)| (e.0@, e.1@)) =~= before.push((kc@, value@)));
            },
        }
        self.entries = entries;
    }
}

} // verus!
