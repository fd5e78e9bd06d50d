//! The test-file format: a configuration block between `%ifdef CONFIG` and
//! `%endif` lines, holding JSON, and the assembly source around it; and the
//! configuration schema that the JSON must follow.
use crate::error::AsmTestError;
use crate::json::{child, child_pointer, json_accepts, json_object_keys, json_pointer_item, JsonItem, JsonItemView};
use crate::numeric::decimal_digits;
use crate::text::{join, lines, trim};
use crate::types::{
    empty_config_view, opt_map, opt_registers, opt_text, opt_text_list, AsmTestConfig, AsmTestFile,
    ConfigView, ExecutionMode, MemorySize, MemorySizeView, RegisterData, RegisterView, StringMap,
    GPR_COUNT, XMM_COUNT,
};
use vstd::prelude::*;

verus! {

// ---------------------------------------------------------------------------
// Framing: splitting a file into its configuration block and its code
// ---------------------------------------------------------------------------

/// A line that opens the configuration block.
pub open spec fn is_open_marker(l: Seq<char>) -> bool {
    trim(l) == "%ifdef CONFIG"@
}

/// A line that closes the configuration block.
pub open spec fn is_close_marker(l: Seq<char>) -> bool {
    trim(l) == "%endif"@
}

/// Sorts lines into configuration lines and code lines; the third component
/// tells whether the last marker seen opened a block.  Marker lines go to
/// neither side.
pub open spec fn sort_lines(ls: Seq<Seq<char>>) -> (Seq<Seq<char>>, Seq<Seq<char>>, bool)
    decreases ls.len(),
{
    if ls.len() == 0 {
        (Seq::empty(), Seq::empty(), false)
    } else {
        let (c, a, inside) = sort_lines(ls.drop_last());
        let l = ls.last();
        if is_open_marker(l) {
            (c, a, true)
        } else if is_close_marker(l) {
            (c, a, false)
        } else if inside {
            (c.push(l), a, inside)
        } else {
            (c, a.push(l), inside)
        }
    }
}

/// The configuration text of a file: its configuration lines joined by `'\n'`.
pub open spec fn config_block_text(content: Seq<char>) -> Seq<char> {
    join(sort_lines(lines(content)).0, seq!['\n'])
}

/// The assembly text of a file: its code lines joined by `'\n'`.
pub open spec fn assembly_text(content: Seq<char>) -> Seq<char> {
    join(sort_lines(lines(content)).1, seq!['\n'])
}

/// Whether none of the lines is a marker line.
pub open spec fn no_marker_lines(ls: Seq<Seq<char>>) -> bool {
    forall|i: int| 0 <= i < ls.len() ==> !is_open_marker(#[trigger] ls[i]) && !is_close_marker(ls[i])
}

/// Lines without markers go, after other lines, where those left off.
pub proof fn lemma_sort_lines_append(pre: Seq<Seq<char>>, more: Seq<Seq<char>>)
    requires
        no_marker_lines(more),
    ensures
        sort_lines(pre + more) == if sort_lines(pre).2 {
            (sort_lines(pre).0 + more, sort_lines(pre).1, true)
        } else {
            (sort_lines(pre).0, sort_lines(pre).1 + more, false)
        },
    decreases more.len(),
{
    let (c, a, inside) = sort_lines(pre);
    if more.len() == 0 {
        assert(pre + more =~= pre);
        assert(c + more =~= c);
        assert(a + more =~= a);
    } else {
        lemma_sort_lines_append(pre, more.drop_last());
        assert((pre + more).drop_last() =~= pre + more.drop_last());
        assert((pre + more).last() == more.last());
        assert(!is_open_marker(more[more.len() - 1]));
        if inside {
            assert(c + more =~= (c + more.drop_last()).push(more.last()));
        } else {
            assert(a + more =~= (a + more.drop_last()).push(more.last()));
        }
    }
}

/// Splits a file into its configuration text and its assembly text.
pub fn extract_config_block(content: &str) -> (r: (String, String))
    ensures
        r.0@ == config_block_text(content@),
        r.1@ == assembly_text(content@),
{
    let cs = crate::text::chars_of(content);
    let ls = crate::text::split_lines(cs.as_slice());
    let ghost lv = ls@.map_values(|l: Vec<char>| l@);
    let open_marker = crate::text::chars_of("%ifdef CONFIG");
    let close_marker = crate::text::chars_of("%endif");
    let mut config_lines: Vec<Vec<char>> = Vec::new();
    let mut code_lines: Vec<Vec<char>> = Vec::new();
    let mut inside = false;
    let mut i: usize = 0;
    while i < ls.len()
        invariant
            i <= ls@.len(),
            lv == ls@.map_values(|l: Vec<char>| l@),
            lv == lines(content@),
            open_marker@ == "%ifdef CONFIG"@,
            close_marker@ == "%endif"@,
            sort_lines(lv.take(i as int)) == (
                config_lines@.map_values(|l: Vec<char>| l@),
                code_lines@.map_values(|l: Vec<char>| l@),
                inside,
            ),
        decreases ls@.len() - i,
    {
        let line = &ls[i];
        let t = crate::text::trim_chars(line.as_slice());
        assert(lv.take(i + 1).drop_last() =~= lv.take(i as int));
        assert(lv.take(i + 1).last() == line@);
        let ghost c0 = config_lines@.map_values(|l: Vec<char>| l@);
        let ghost a0 = code_lines@.map_values(|l: Vec<char>| l@);
        if crate::text::chars_eq(t.as_slice(), open_marker.as_slice()) {
            inside = true;
        } else if crate::text::chars_eq(t.as_slice(), close_marker.as_slice()) {
            inside = false;
        } else if inside {
            config_lines.push(crate::text::slice_chars(line.as_slice(), 0, line.len()));
            assert(line@.subrange(0, line@.len() as int) =~= line@);
            assert(config_lines@.map_values(|l: Vec<char>| l@) =~= c0.push(line@));
        } else {
            code_lines.push(crate::text::slice_chars(line.as_slice(), 0, line.len()));
            assert(line@.subrange(0, line@.len() as int) =~= line@);
            assert(code_lines@.map_values(|l: Vec<char>| l@) =~= a0.push(line@));
        }
        i = i + 1;
    }
    assert(lv.take(ls@.len() as int) =~= lv);
    let config = crate::text::join_with(&config_lines, '\n');
    let code = crate::text::join_with(&code_lines, '\n');
    (crate::text::string_of(config.as_slice()), crate::text::string_of(code.as_slice()))
}

// ---------------------------------------------------------------------------
// The configuration schema
// ---------------------------------------------------------------------------

/// The text of a JSON string item (empty for anything else).
pub open spec fn item_text(item: JsonItemView) -> Seq<char> {
    match item {
        JsonItemView::Text(s) => s,
        _ => Seq::empty(),
    }
}

/// The value of a decoded optional field (`None` when it failed).
pub open spec fn decoded<T>(r: Result<Option<T>, ()>) -> Option<T> {
    match r {
        Ok(v) => v,
        Err(_) => None,
    }
}

/// An optional string field: missing or `null` is `None`, a string is kept,
/// anything else is an error.
pub open spec fn text_field(item: JsonItemView) -> Result<Option<Seq<char>>, ()> {
    match item {
        JsonItemView::Absent => Ok(None),
        JsonItemView::Null => Ok(None),
        JsonItemView::Text(s) => Ok(Some(s)),
        _ => Err(()),
    }
}

/// Pointer to element `i` of the array that `ptr` designates.
pub open spec fn element(ptr: Seq<char>, i: int) -> Seq<char> {
    child(ptr, decimal_digits(i as nat))
}

/// Whether the first `n` elements of the array at `ptr` are strings.
pub open spec fn all_texts(text: Seq<char>, ptr: Seq<char>, n: nat) -> bool {
    forall|i: int| 0 <= i < n ==> #[trigger] json_pointer_item(text, element(ptr, i)) is Text
}

/// The first `n` elements of the array at `ptr`, as strings.
pub open spec fn texts(text: Seq<char>, ptr: Seq<char>, n: nat) -> Seq<Seq<char>> {
    Seq::new(n, |i: int| item_text(json_pointer_item(text, element(ptr, i))))
}

/// An optional list-of-strings field.
pub open spec fn text_list_field(text: Seq<char>, ptr: Seq<char>) -> Result<Option<Seq<Seq<char>>>, ()> {
    match json_pointer_item(text, ptr) {
        JsonItemView::Absent => Ok(None),
        JsonItemView::Null => Ok(None),
        JsonItemView::Array(n) => if all_texts(text, ptr, n) {
            Ok(Some(texts(text, ptr, n)))
        } else {
            Err(())
        },
        _ => Err(()),
    }
}

/// JSON key of general register slot `i`.
pub open spec fn gpr_key(i: int) -> Seq<char> {
    if i == 0 {
        "RAX"@
    } else if i == 1 {
        "RCX"@
    } else if i == 2 {
        "RDX"@
    } else if i == 3 {
        "RBX"@
    } else if i == 4 {
        "RSP"@
    } else if i == 5 {
        "RBP"@
    } else if i == 6 {
        "RSI"@
    } else if i == 7 {
        "RDI"@
    } else if i == 8 {
        "RIP"@
    } else if i == 9 {
        "R8"@
    } else if i == 10 {
        "R9"@
    } else if i == 11 {
        "R10"@
    } else if i == 12 {
        "R11"@
    } else if i == 13 {
        "R12"@
    } else if i == 14 {
        "R13"@
    } else if i == 15 {
        "R14"@
    } else {
        "R15"@
    }
}

/// JSON key of vector register slot `i`.
pub open spec fn xmm_key(i: int) -> Seq<char> {
    if i == 0 {
        "XMM0"@
    } else if i == 1 {
        "XMM1"@
    } else if i == 2 {
        "XMM2"@
    } else if i == 3 {
        "XMM3"@
    } else if i == 4 {
        "XMM4"@
    } else if i == 5 {
        "XMM5"@
    } else if i == 6 {
        "XMM6"@
    } else if i == 7 {
        "XMM7"@
    } else if i == 8 {
        "XMM8"@
    } else if i == 9 {
        "XMM9"@
    } else if i == 10 {
        "XMM10"@
    } else if i == 11 {
        "XMM11"@
    } else if i == 12 {
        "XMM12"@
    } else if i == 13 {
        "XMM13"@
    } else if i == 14 {
        "XMM14"@
    } else {
        "XMM15"@
    }
}

/// Exec form of [`gpr_key`].
pub fn gpr_key_str(i: usize) -> (r: &'static str)
    requires
        i < GPR_COUNT,
    ensures
        r@ == gpr_key(i as int),
{
    match i {
        0 => "RAX",
        1 => "RCX",
        2 => "RDX",
        3 => "RBX",
        4 => "RSP",
        5 => "RBP",
        6 => "RSI",
        7 => "RDI",
        8 => "RIP",
        9 => "R8",
        10 => "R9",
        11 => "R10",
        12 => "R11",
        13 => "R12",
        14 => "R13",
        15 => "R14",
        _ => "R15",
    }
}

/// Exec form of [`xmm_key`].
pub fn xmm_key_str(i: usize) -> (r: &'static str)
    requires
        i < XMM_COUNT,
    ensures
        r@ == xmm_key(i as int),
{
    match i {
        0 => "XMM0",
        1 => "XMM1",
        2 => "XMM2",
        3 => "XMM3",
        4 => "XMM4",
        5 => "XMM5",
        6 => "XMM6",
        7 => "XMM7",
        8 => "XMM8",
        9 => "XMM9",
        10 => "XMM10",
        11 => "XMM11",
        12 => "XMM12",
        13 => "XMM13",
        14 => "XMM14",
        _ => "XMM15",
    }
}

/// JSON key of the 32-bit name of general register slot `i < 8`.
pub open spec fn gpr_key32(i: int) -> Seq<char> {
    if i == 0 {
        "EAX"@
    } else if i == 1 {
        "ECX"@
    } else if i == 2 {
        "EDX"@
    } else if i == 3 {
        "EBX"@
    } else if i == 4 {
        "ESP"@
    } else if i == 5 {
        "EBP"@
    } else if i == 6 {
        "ESI"@
    } else {
        "EDI"@
    }
}

/// Exec form of [`gpr_key32`].
pub fn gpr_key32_str(i: usize) -> (r: &'static str)
    requires
        i < 8,
    ensures
        r@ == gpr_key32(i as int),
{
    match i {
        0 => "EAX",
        1 => "ECX",
        2 => "EDX",
        3 => "EBX",
        4 => "ESP",
        5 => "EBP",
        6 => "ESI",
        _ => "EDI",
    }
}

/// General register field `i` of the register object at `ptr`: its 64-bit
/// name (`RAX`..), or, where `low_names` holds (initial registers of a
/// 32-bit test) and that gives no value, for RAX..RDI its 32-bit name
/// (`EAX`..), whose value sets the register's lower half.
pub open spec fn gpr_field(text: Seq<char>, ptr: Seq<char>, i: int, low_names: bool) -> Result<Option<Seq<char>>, ()> {
    match text_field(json_pointer_item(text, child(ptr, gpr_key(i)))) {
        Ok(None) => if low_names && i < 8 {
            text_field(json_pointer_item(text, child(ptr, gpr_key32(i))))
        } else {
            Ok(None)
        },
        other => other,
    }
}


/// The text of member `name` of the object at `ptr`; where that gives none
/// and `alt` names another member, the text of that one.
pub open spec fn member_text(text: Seq<char>, ptr: Seq<char>, name: Seq<char>, alt: Option<Seq<char>>) -> Option<Seq<char>> {
    match text_field(json_pointer_item(text, child(ptr, name))) {
        Ok(None) => match alt {
            Some(a) => decoded(text_field(json_pointer_item(text, child(ptr, a)))),
            None => None,
        },
        r => decoded(r),
    }
}

/// Whether each register of `d` holds the member of the register object at
/// `ptr` that bears its name: `RAX`..`R15` (with `EAX`..`EDI` in their
/// place where `low` holds and they are missing), `XMM0`..`XMM15`, `Flags`.
pub open spec fn registers_by_name(text: Seq<char>, ptr: Seq<char>, low: bool, d: RegisterData) -> bool {
    &&& crate::types::opt_text(d.rax) == member_text(text, ptr, "RAX"@, if low { Some("EAX"@) } else { None })
    &&& crate::types::opt_text(d.rcx) == member_text(text, ptr, "RCX"@, if low { Some("ECX"@) } else { None })
    &&& crate::types::opt_text(d.rdx) == member_text(text, ptr, "RDX"@, if low { Some("EDX"@) } else { None })
    &&& crate::types::opt_text(d.rbx) == member_text(text, ptr, "RBX"@, if low { Some("EBX"@) } else { None })
    &&& crate::types::opt_text(d.rsp) == member_text(text, ptr, "RSP"@, if low { Some("ESP"@) } else { None })
    &&& crate::types::opt_text(d.rbp) == member_text(text, ptr, "RBP"@, if low { Some("EBP"@) } else { None })
    &&& crate::types::opt_text(d.rsi) == member_text(text, ptr, "RSI"@, if low { Some("ESI"@) } else { None })
    &&& crate::types::opt_text(d.rdi) == member_text(text, ptr, "RDI"@, if low { Some("EDI"@) } else { None })
    &&& crate::types::opt_text(d.rip) == member_text(text, ptr, "RIP"@, None)
    &&& crate::types::opt_text(d.r8) == member_text(text, ptr, "R8"@, None)
    &&& crate::types::opt_text(d.r9) == member_text(text, ptr, "R9"@, None)
    &&& crate::types::opt_text(d.r10) == member_text(text, ptr, "R10"@, None)
    &&& crate::types::opt_text(d.r11) == member_text(text, ptr, "R11"@, None)
    &&& crate::types::opt_text(d.r12) == member_text(text, ptr, "R12"@, None)
    &&& crate::types::opt_text(d.r13) == member_text(text, ptr, "R13"@, None)
    &&& crate::types::opt_text(d.r14) == member_text(text, ptr, "R14"@, None)
    &&& crate::types::opt_text(d.r15) == member_text(text, ptr, "R15"@, None)
    &&& crate::types::opt_text_list(d.xmm0) == decoded(text_list_field(text, child(ptr, "XMM0"@)))
    &&& crate::types::opt_text_list(d.xmm1) == decoded(text_list_field(text, child(ptr, "XMM1"@)))
    &&& crate::types::opt_text_list(d.xmm2) == decoded(text_list_field(text, child(ptr, "XMM2"@)))
    &&& crate::types::opt_text_list(d.xmm3) == decoded(text_list_field(text, child(ptr, "XMM3"@)))
    &&& crate::types::opt_text_list(d.xmm4) == decoded(text_list_field(text, child(ptr, "XMM4"@)))
    &&& crate::types::opt_text_list(d.xmm5) == decoded(text_list_field(text, child(ptr, "XMM5"@)))
    &&& crate::types::opt_text_list(d.xmm6) == decoded(text_list_field(text, child(ptr, "XMM6"@)))
    &&& crate::types::opt_text_list(d.xmm7) == decoded(text_list_field(text, child(ptr, "XMM7"@)))
    &&& crate::types::opt_text_list(d.xmm8) == decoded(text_list_field(text, child(ptr, "XMM8"@)))
    &&& crate::types::opt_text_list(d.xmm9) == decoded(text_list_field(text, child(ptr, "XMM9"@)))
    &&& crate::types::opt_text_list(d.xmm10) == decoded(text_list_field(text, child(ptr, "XMM10"@)))
    &&& crate::types::opt_text_list(d.xmm11) == decoded(text_list_field(text, child(ptr, "XMM11"@)))
    &&& crate::types::opt_text_list(d.xmm12) == decoded(text_list_field(text, child(ptr, "XMM12"@)))
    &&& crate::types::opt_text_list(d.xmm13) == decoded(text_list_field(text, child(ptr, "XMM13"@)))
    &&& crate::types::opt_text_list(d.xmm14) == decoded(text_list_field(text, child(ptr, "XMM14"@)))
    &&& crate::types::opt_text_list(d.xmm15) == decoded(text_list_field(text, child(ptr, "XMM15"@)))
    &&& crate::types::opt_text(d.flags) == decoded(text_field(json_pointer_item(text, child(ptr, "Flags"@))))
}

/// Law: decoding a register object stores each member in the register of
/// its name: the member `RSI` in RSI, `RDI` in RDI, and so for every
/// register, vector register and the flags.
pub proof fn law_register_members_by_name(text: Seq<char>, ptr: Seq<char>, low: bool, d: RegisterData)
    requires
        json_pointer_item(text, ptr) == JsonItemView::Object,
        registers_field(text, ptr, low) == Ok::<Option<RegisterView>, ()>(Some(d@)),
    ensures
        registers_by_name(text, ptr, low, d),
{
    crate::registers::lemma_view_slots(d);
    let v = registers_value(text, ptr, low);
    assert(v == d@);
    assert forall|i: int| 0 <= i < 17 implies #[trigger] d@.gpr[i] == decoded(gpr_field(text, ptr, i, low)) by {
        assert(v.gpr[i] == decoded(gpr_field(text, ptr, i, low)));
    }
    assert forall|i: int| 0 <= i < 16 implies #[trigger] d@.xmm[i] == decoded(xmm_field(text, ptr, i)) by {
        assert(v.xmm[i] == decoded(xmm_field(text, ptr, i)));
    }
    assert(d@.gpr[0] == decoded(gpr_field(text, ptr, 0, low)));
    assert(d@.gpr[1] == decoded(gpr_field(text, ptr, 1, low)));
    assert(d@.gpr[2] == decoded(gpr_field(text, ptr, 2, low)));
    assert(d@.gpr[3] == decoded(gpr_field(text, ptr, 3, low)));
    assert(d@.gpr[4] == decoded(gpr_field(text, ptr, 4, low)));
    assert(d@.gpr[5] == decoded(gpr_field(text, ptr, 5, low)));
    assert(d@.gpr[6] == decoded(gpr_field(text, ptr, 6, low)));
    assert(d@.gpr[7] == decoded(gpr_field(text, ptr, 7, low)));
    assert(d@.gpr[8] == decoded(gpr_field(text, ptr, 8, low)));
    assert(d@.gpr[9] == decoded(gpr_field(text, ptr, 9, low)));
    assert(d@.gpr[10] == decoded(gpr_field(text, ptr, 10, low)));
    assert(d@.gpr[11] == decoded(gpr_field(text, ptr, 11, low)));
    assert(d@.gpr[12] == decoded(gpr_field(text, ptr, 12, low)));
    assert(d@.gpr[13] == decoded(gpr_field(text, ptr, 13, low)));
    assert(d@.gpr[14] == decoded(gpr_field(text, ptr, 14, low)));
    assert(d@.gpr[15] == decoded(gpr_field(text, ptr, 15, low)));
    assert(d@.gpr[16] == decoded(gpr_field(text, ptr, 16, low)));
    assert(d@.xmm[0] == decoded(xmm_field(text, ptr, 0)));
    assert(d@.xmm[1] == decoded(xmm_field(text, ptr, 1)));
    assert(d@.xmm[2] == decoded(xmm_field(text, ptr, 2)));
    assert(d@.xmm[3] == decoded(xmm_field(text, ptr, 3)));
    assert(d@.xmm[4] == decoded(xmm_field(text, ptr, 4)));
    assert(d@.xmm[5] == decoded(xmm_field(text, ptr, 5)));
    assert(d@.xmm[6] == decoded(xmm_field(text, ptr, 6)));
    assert(d@.xmm[7] == decoded(xmm_field(text, ptr, 7)));
    assert(d@.xmm[8] == decoded(xmm_field(text, ptr, 8)));
    assert(d@.xmm[9] == decoded(xmm_field(text, ptr, 9)));
    assert(d@.xmm[10] == decoded(xmm_field(text, ptr, 10)));
    assert(d@.xmm[11] == decoded(xmm_field(text, ptr, 11)));
    assert(d@.xmm[12] == decoded(xmm_field(text, ptr, 12)));
    assert(d@.xmm[13] == decoded(xmm_field(text, ptr, 13)));
    assert(d@.xmm[14] == decoded(xmm_field(text, ptr, 14)));
    assert(d@.xmm[15] == decoded(xmm_field(text, ptr, 15)));
}

/// Law: a register set given as a sequence holds its fields in declaration
/// order: RAX, RCX, RDX, RBX, RSP, RBP, RSI, RDI, RIP, R8..R15 at 0..16,
/// XMM0..XMM15 at 17..32 and the flags at 33, each element in the register
/// of that name.
pub proof fn law_register_sequence_by_position(text: Seq<char>, ptr: Seq<char>, low: bool, d: RegisterData)
    requires
        json_pointer_item(text, ptr) == JsonItemView::Array(34),
        registers_field(text, ptr, low) == Ok::<Option<RegisterView>, ()>(Some(d@)),
    ensures
        crate::types::opt_text(d.rax) == decoded(text_field(json_pointer_item(text, element(ptr, 0)))),
        crate::types::opt_text(d.rcx) == decoded(text_field(json_pointer_item(text, element(ptr, 1)))),
        crate::types::opt_text(d.rdx) == decoded(text_field(json_pointer_item(text, element(ptr, 2)))),
        crate::types::opt_text(d.rbx) == decoded(text_field(json_pointer_item(text, element(ptr, 3)))),
        crate::types::opt_text(d.rsp) == decoded(text_field(json_pointer_item(text, element(ptr, 4)))),
        crate::types::opt_text(d.rbp) == decoded(text_field(json_pointer_item(text, element(ptr, 5)))),
        crate::types::opt_text(d.rsi) == decoded(text_field(json_pointer_item(text, element(ptr, 6)))),
        crate::types::opt_text(d.rdi) == decoded(text_field(json_pointer_item(text, element(ptr, 7)))),
        crate::types::opt_text(d.rip) == decoded(text_field(json_pointer_item(text, element(ptr, 8)))),
        crate::types::opt_text(d.r8) == decoded(text_field(json_pointer_item(text, element(ptr, 9)))),
        crate::types::opt_text(d.r9) == decoded(text_field(json_pointer_item(text, element(ptr, 10)))),
        crate::types::opt_text(d.r10) == decoded(text_field(json_pointer_item(text, element(ptr, 11)))),
        crate::types::opt_text(d.r11) == decoded(text_field(json_pointer_item(text, element(ptr, 12)))),
        crate::types::opt_text(d.r12) == decoded(text_field(json_pointer_item(text, element(ptr, 13)))),
        crate::types::opt_text(d.r13) == decoded(text_field(json_pointer_item(text, element(ptr, 14)))),
        crate::types::opt_text(d.r14) == decoded(text_field(json_pointer_item(text, element(ptr, 15)))),
        crate::types::opt_text(d.r15) == decoded(text_field(json_pointer_item(text, element(ptr, 16)))),
        crate::types::opt_text_list(d.xmm0) == decoded(text_list_field(text, element(ptr, 17))),
        crate::types::opt_text_list(d.xmm1) == decoded(text_list_field(text, element(ptr, 18))),
        crate::types::opt_text_list(d.xmm2) == decoded(text_list_field(text, element(ptr, 19))),
        crate::types::opt_text_list(d.xmm3) == decoded(text_list_field(text, element(ptr, 20))),
        crate::types::opt_text_list(d.xmm4) == decoded(text_list_field(text, element(ptr, 21))),
        crate::types::opt_text_list(d.xmm5) == decoded(text_list_field(text, element(ptr, 22))),
        crate::types::opt_text_list(d.xmm6) == decoded(text_list_field(text, element(ptr, 23))),
        crate::types::opt_text_list(d.xmm7) == decoded(text_list_field(text, element(ptr, 24))),
        crate::types::opt_text_list(d.xmm8) == decoded(text_list_field(text, element(ptr, 25))),
        crate::types::opt_text_list(d.xmm9) == decoded(text_list_field(text, element(ptr, 26))),
        crate::types::opt_text_list(d.xmm10) == decoded(text_list_field(text, element(ptr, 27))),
        crate::types::opt_text_list(d.xmm11) == decoded(text_list_field(text, element(ptr, 28))),
        crate::types::opt_text_list(d.xmm12) == decoded(text_list_field(text, element(ptr, 29))),
        crate::types::opt_text_list(d.xmm13) == decoded(text_list_field(text, element(ptr, 30))),
        crate::types::opt_text_list(d.xmm14) == decoded(text_list_field(text, element(ptr, 31))),
        crate::types::opt_text_list(d.xmm15) == decoded(text_list_field(text, element(ptr, 32))),
        crate::types::opt_text(d.flags) == decoded(text_field(json_pointer_item(text, element(ptr, 33)))),
{
    crate::registers::lemma_view_slots(d);
    let v = registers_seq_value(text, ptr);
    assert(v == d@);
    assert(d@.gpr[0] == v.gpr[0]);
    assert(d@.gpr[1] == v.gpr[1]);
    assert(d@.gpr[2] == v.gpr[2]);
    assert(d@.gpr[3] == v.gpr[3]);
    assert(d@.gpr[4] == v.gpr[4]);
    assert(d@.gpr[5] == v.gpr[5]);
    assert(d@.gpr[6] == v.gpr[6]);
    assert(d@.gpr[7] == v.gpr[7]);
    assert(d@.gpr[8] == v.gpr[8]);
    assert(d@.gpr[9] == v.gpr[9]);
    assert(d@.gpr[10] == v.gpr[10]);
    assert(d@.gpr[11] == v.gpr[11]);
    assert(d@.gpr[12] == v.gpr[12]);
    assert(d@.gpr[13] == v.gpr[13]);
    assert(d@.gpr[14] == v.gpr[14]);
    assert(d@.gpr[15] == v.gpr[15]);
    assert(d@.gpr[16] == v.gpr[16]);
    assert(d@.xmm[0] == v.xmm[0]);
    assert(d@.xmm[1] == v.xmm[1]);
    assert(d@.xmm[2] == v.xmm[2]);
    assert(d@.xmm[3] == v.xmm[3]);
    assert(d@.xmm[4] == v.xmm[4]);
    assert(d@.xmm[5] == v.xmm[5]);
    assert(d@.xmm[6] == v.xmm[6]);
    assert(d@.xmm[7] == v.xmm[7]);
    assert(d@.xmm[8] == v.xmm[8]);
    assert(d@.xmm[9] == v.xmm[9]);
    assert(d@.xmm[10] == v.xmm[10]);
    assert(d@.xmm[11] == v.xmm[11]);
    assert(d@.xmm[12] == v.xmm[12]);
    assert(d@.xmm[13] == v.xmm[13]);
    assert(d@.xmm[14] == v.xmm[14]);
    assert(d@.xmm[15] == v.xmm[15]);
}

/// Law: a configuration given as an object takes each field from the member
/// of that field's name: `Mode`, `MemoryRegions` and `MemoryData`, and the
/// register sets from `RegData` and `RegInit` (see
/// [`law_config_registers_by_name`]).
pub proof fn law_config_fields_by_name(text: Seq<char>, c: AsmTestConfig)
    requires
        trim(text).len() > 0,
        config_of_text(text) == Ok::<ConfigView, ()>(c@),
        json_pointer_item(text, Seq::empty()) == JsonItemView::Object,
    ensures
        mode_field(text, top("Mode"@)) == Ok::<Option<ExecutionMode>, ()>(c.mode),
        regions_field(text, top("MemoryRegions"@)) == Ok::<Option<Seq<(Seq<char>, MemorySizeView)>>, ()>(
            c@.memory_regions,
        ),
        data_field(text, top("MemoryData"@)) == Ok::<Option<Seq<(Seq<char>, Seq<char>)>>, ()>(c@.memory_data),
        registers_field(text, top("RegData"@), false) == Ok::<Option<RegisterView>, ()>(c@.reg_data),
{
}

/// Law: the initial and the final registers of a configuration given as an
/// object hold, each in the register of its name, the members of its
/// `RegInit` and `RegData` objects; in a 32-bit test the initial registers
/// also take `EAX`..`EDI` where `RAX`..`RDI` are missing.  (A blank
/// configuration text is the empty configuration.)
pub proof fn law_config_registers_by_name(text: Seq<char>, c: AsmTestConfig)
    requires
        trim(text).len() > 0,
        config_of_text(text) == Ok::<ConfigView, ()>(c@),
        json_pointer_item(text, Seq::empty()) == JsonItemView::Object,
    ensures
        json_pointer_item(text, top("RegInit"@)) == JsonItemView::Object ==> (c.reg_init matches Some(d)
            && registers_by_name(text, top("RegInit"@), c.mode == Some(ExecutionMode::Bit32), d)),
        json_pointer_item(text, top("RegData"@)) == JsonItemView::Object ==> (c.reg_data matches Some(d)
            && registers_by_name(text, top("RegData"@), false, d)),
{
    if json_pointer_item(text, top("RegInit"@)) == JsonItemView::Object {
        let d = c.reg_init->0;
        law_register_members_by_name(text, top("RegInit"@), c.mode == Some(ExecutionMode::Bit32), d);
    }
    if json_pointer_item(text, top("RegData"@)) == JsonItemView::Object {
        let d = c.reg_data->0;
        law_register_members_by_name(text, top("RegData"@), false, d);
    }
}

/// Decodes general register field `i` (see [`gpr_field`]).
fn decode_gpr(text: &str, ptr: &[char], i: usize, low_names: bool) -> (r: Result<Option<String>, ()>)
    requires
        i < GPR_COUNT,
    ensures
        match r {
            Ok(v) => gpr_field(text@, ptr@, i as int, low_names) == Ok::<Option<Seq<char>>, ()>(opt_text(v)),
            Err(_) => gpr_field(text@, ptr@, i as int, low_names) is Err,
        },
{
    let key = crate::text::chars_of(gpr_key_str(i));
    let p = child_pointer(ptr, key.as_slice());
    match decode_text_field(crate::json::lookup(text, p.as_slice())) {
        Ok(None) => {
            if low_names && i < 8 {
                let key32 = crate::text::chars_of(gpr_key32_str(i));
                let p32 = child_pointer(ptr, key32.as_slice());
                decode_text_field(crate::json::lookup(text, p32.as_slice()))
            } else {
                Ok(None)
            }
        },
        other => other,
    }
}

/// Vector register field `i` of the register object at `ptr`.
pub open spec fn xmm_field(text: Seq<char>, ptr: Seq<char>, i: int) -> Result<Option<Seq<Seq<char>>>, ()> {
    text_list_field(text, child(ptr, xmm_key(i)))
}

/// The `Flags` field of the register object at `ptr`.
pub open spec fn flags_field(text: Seq<char>, ptr: Seq<char>) -> Result<Option<Seq<char>>, ()> {
    text_field(json_pointer_item(text, child(ptr, "Flags"@)))
}

/// Whether every field of the register object at `ptr` decodes.
pub open spec fn registers_ok(text: Seq<char>, ptr: Seq<char>, low_names: bool) -> bool {
    &&& forall|i: int| 0 <= i < 17 ==> #[trigger] gpr_field(text, ptr, i, low_names) is Ok
    &&& forall|i: int| 0 <= i < 16 ==> #[trigger] xmm_field(text, ptr, i) is Ok
    &&& flags_field(text, ptr) is Ok
}

/// The register set that the register object at `ptr` describes.
pub open spec fn registers_value(text: Seq<char>, ptr: Seq<char>, low_names: bool) -> RegisterView {
    RegisterView {
        gpr: Seq::new(17, |i: int| decoded(gpr_field(text, ptr, i, low_names))),
        xmm: Seq::new(16, |i: int| decoded(xmm_field(text, ptr, i))),
        flags: decoded(flags_field(text, ptr)),
    }
}

/// Whether every element of a register set given as a sequence (its
/// fields in declaration order: RAX..R15 with RIP after RDI, XMM0..XMM15,
/// Flags) decodes.
pub open spec fn registers_seq_ok(text: Seq<char>, ptr: Seq<char>) -> bool {
    &&& forall|i: int| 0 <= i < 17 ==> #[trigger] text_field(json_pointer_item(text, element(ptr, i))) is Ok
    &&& forall|i: int| 0 <= i < 16 ==> #[trigger] text_list_field(text, element(ptr, 17 + i)) is Ok
    &&& text_field(json_pointer_item(text, element(ptr, 33))) is Ok
}

/// The register set that a register sequence at `ptr` describes.
pub open spec fn registers_seq_value(text: Seq<char>, ptr: Seq<char>) -> RegisterView {
    RegisterView {
        gpr: Seq::new(17, |i: int| decoded(text_field(json_pointer_item(text, element(ptr, i))))),
        xmm: Seq::new(16, |i: int| decoded(text_list_field(text, element(ptr, 17 + i)))),
        flags: decoded(text_field(json_pointer_item(text, element(ptr, 33)))),
    }
}

/// An optional register-set field (`RegData`, `RegInit`): an object with
/// the register names as members, or a sequence of all 34 fields.
pub open spec fn registers_field(text: Seq<char>, ptr: Seq<char>, low_names: bool) -> Result<Option<RegisterView>, ()> {
    match json_pointer_item(text, ptr) {
        JsonItemView::Absent => Ok(None),
        JsonItemView::Null => Ok(None),
        JsonItemView::Object => if registers_ok(text, ptr, low_names) {
            Ok(Some(registers_value(text, ptr, low_names)))
        } else {
            Err(())
        },
        JsonItemView::Array(n) => if n == 34 && registers_seq_ok(text, ptr) {
            Ok(Some(registers_seq_value(text, ptr)))
        } else {
            Err(())
        },
        _ => Err(()),
    }
}

/// The optional `Mode` field at `ptr`: absent or `null`; the variant name
/// `"32BIT"`; or the same variant as an object whose only member is
/// `"32BIT"` with the value `null`.
pub open spec fn mode_field(text: Seq<char>, ptr: Seq<char>) -> Result<Option<ExecutionMode>, ()> {
    match json_pointer_item(text, ptr) {
        JsonItemView::Absent => Ok(None),
        JsonItemView::Null => Ok(None),
        JsonItemView::Text(s) => if s == "32BIT"@ {
            Ok(Some(ExecutionMode::Bit32))
        } else {
            Err(())
        },
        JsonItemView::Object => if json_object_keys(text, ptr) == seq!["32BIT"@] && json_pointer_item(
            text,
            child(ptr, "32BIT"@),
        ) == JsonItemView::Null {
            Ok(Some(ExecutionMode::Bit32))
        } else {
            Err(())
        },
        _ => Err(()),
    }
}

/// A region size: a non-negative integer, or a string.
pub open spec fn size_value(item: JsonItemView) -> Option<MemorySizeView> {
    match item {
        JsonItemView::Number(Some(n)) => Some(MemorySizeView::Number(n)),
        JsonItemView::Text(s) => Some(MemorySizeView::HexString(s)),
        _ => None,
    }
}

/// Pointer to member `key` of the object at `ptr`.
pub open spec fn member(ptr: Seq<char>, key: Seq<char>) -> Seq<char> {
    child(ptr, key)
}

/// The `MemoryRegions` field at `ptr`: an object whose values are sizes.
pub open spec fn regions_field(text: Seq<char>, ptr: Seq<char>) -> Result<Option<Seq<(Seq<char>, MemorySizeView)>>, ()> {
    let ks = json_object_keys(text, ptr);
    match json_pointer_item(text, ptr) {
        JsonItemView::Absent => Ok(None),
        JsonItemView::Null => Ok(None),
        JsonItemView::Object => if forall|i: int| 0 <= i < ks.len() ==> #[trigger] size_value(json_pointer_item(text, member(ptr, ks[i]))) is Some {
            Ok(Some(Seq::new(ks.len(), |i: int| (ks[i], size_value(json_pointer_item(text, member(ptr, ks[i])))->0))))
        } else {
            Err(())
        },
        _ => Err(()),
    }
}

/// The `MemoryData` field at `ptr`: an object whose values are strings.
pub open spec fn data_field(text: Seq<char>, ptr: Seq<char>) -> Result<Option<Seq<(Seq<char>, Seq<char>)>>, ()> {
    let ks = json_object_keys(text, ptr);
    match json_pointer_item(text, ptr) {
        JsonItemView::Absent => Ok(None),
        JsonItemView::Null => Ok(None),
        JsonItemView::Object => if forall|i: int| 0 <= i < ks.len() ==> #[trigger] json_pointer_item(text, member(ptr, ks[i])) is Text {
            Ok(Some(Seq::new(ks.len(), |i: int| (ks[i], item_text(json_pointer_item(text, member(ptr, ks[i])))))))
        } else {
            Err(())
        },
        _ => Err(()),
    }
}

/// Pointer to a top-level member.
pub open spec fn top(key: Seq<char>) -> Seq<char> {
    child(Seq::empty(), key)
}

/// Whether a decoded `Mode` field selects the 32-bit mode.
pub open spec fn is_32bit_mode(mode: Result<Option<ExecutionMode>, ()>) -> bool {
    mode == Ok::<Option<ExecutionMode>, ()>(Some(ExecutionMode::Bit32))
}

/// The configuration a JSON document describes: an object whose members
/// `RegData`, `RegInit`, `Mode`, `MemoryRegions` and `MemoryData` all decode
/// (other members are ignored), or a sequence of exactly these five fields
/// in this order.
pub open spec fn decode_config(text: Seq<char>) -> Result<ConfigView, ()> {
    let fields = match json_pointer_item(text, Seq::empty()) {
        JsonItemView::Object => Some(
            (
                registers_field(text, top("RegData"@), false),
                registers_field(text, top("RegInit"@), is_32bit_mode(mode_field(text, top("Mode"@)))),
                mode_field(text, top("Mode"@)),
                regions_field(text, top("MemoryRegions"@)),
                data_field(text, top("MemoryData"@)),
            ),
        ),
        JsonItemView::Array(n) => if n == 5 {
            Some(
                (
                    registers_field(text, element(Seq::empty(), 0), false),
                    registers_field(text, element(Seq::empty(), 1), is_32bit_mode(mode_field(text, element(Seq::empty(), 2)))),
                    mode_field(text, element(Seq::empty(), 2)),
                    regions_field(text, element(Seq::empty(), 3)),
                    data_field(text, element(Seq::empty(), 4)),
                ),
            )
        } else {
            None
        },
        _ => None,
    };
    match fields {
        Some((Ok(a), Ok(b), Ok(c), Ok(d), Ok(e))) => Ok(
            ConfigView { reg_data: a, reg_init: b, mode: c, memory_regions: d, memory_data: e },
        ),
        _ => Err(()),
    }
}

/// The configuration of a configuration text: blank text is the empty
/// configuration; otherwise the text must be JSON describing a configuration.
pub open spec fn config_of_text(text: Seq<char>) -> Result<ConfigView, ()> {
    if trim(text).len() == 0 {
        Ok(empty_config_view())
    } else if !json_accepts(text) {
        Err(())
    } else if crate::members::duplicate_fields(text) {
        Err(())
    } else {
        decode_config(text)
    }
}

/// The prefix of every configuration error message.
pub open spec fn config_error_prefix() -> Seq<char> {
    "JSON解析失败: "@
}

// ---------------------------------------------------------------------------
// Decoding, in exec code
// ---------------------------------------------------------------------------

/// Decodes an optional string field.
pub fn decode_text_field(item: JsonItem) -> (r: Result<Option<String>, ()>)
    ensures
        match r {
            Ok(v) => text_field(item@) == Ok::<Option<Seq<char>>, ()>(opt_text(v)),
            Err(_) => text_field(item@) is Err,
        },
{
    match item {
        JsonItem::Absent => Ok(None),
        JsonItem::Null => Ok(None),
        JsonItem::Text(s) => Ok(Some(s)),
        _ => Err(()),
    }
}

/// Decodes an optional list-of-strings field at `ptr`.
pub fn decode_text_list(text: &str, ptr: &[char]) -> (r: Result<Option<Vec<String>>, ()>)
    ensures
        match r {
            Ok(v) => text_list_field(text@, ptr@) == Ok::<Option<Seq<Seq<char>>>, ()>(opt_text_list(v)),
            Err(_) => text_list_field(text@, ptr@) is Err,
        },
{
    match crate::json::lookup(text, ptr) {
        JsonItem::Absent => Ok(None),
        JsonItem::Null => Ok(None),
        JsonItem::Array(n) => {
            let mut out: Vec<String> = Vec::new();
            let mut i: usize = 0;
            while i < n
                invariant
                    i <= n,
                    json_pointer_item(text@, ptr@) == JsonItemView::Array(n as nat),
                    out@.len() == i,
                    forall|k: int| 0 <= k < i ==> #[trigger] json_pointer_item(text@, element(ptr@, k)) is Text,
                    forall|k: int| 0 <= k < i ==> #[trigger] out@[k]@ == item_text(json_pointer_item(text@, element(ptr@, k))),
                decreases n - i,
            {
                let idx = crate::numeric::format_decimal(i as u64);
                let p = child_pointer(ptr, idx.as_slice());
                match crate::json::lookup(text, p.as_slice()) {
                    JsonItem::Text(t) => {
                        out.push(t);
                    },
                    _ => {
                        assert(!(json_pointer_item(text@, element(ptr@, i as int)) is Text));
                        return Err(());
                    },
                }
                i = i + 1;
            }
            assert(out@.map_values(|s: String| s@) =~= texts(text@, ptr@, n as nat));
            Ok(Some(out))
        },
        _ => Err(()),
    }
}

/// Decodes a register set given as a sequence of its 34 fields at `ptr`.
fn decode_registers_seq(text: &str, ptr: &[char], low_names: bool) -> (r: Result<Option<RegisterData>, ()>)
    requires
        json_pointer_item(text@, ptr@) == JsonItemView::Array(34),
    ensures
        match r {
            Ok(v) => registers_field(text@, ptr@, low_names) == Ok::<Option<RegisterView>, ()>(opt_registers(v)),
            Err(_) => registers_field(text@, ptr@, low_names) is Err,
        },
{
    let mut regs = RegisterData::new();
    let mut i: usize = 0;
    while i < 34
        invariant
            i <= 34,
            json_pointer_item(text@, ptr@) == JsonItemView::Array(34),
            regs@.gpr.len() == 17,
            regs@.xmm.len() == 16,
            forall|k: int| 0 <= k < 17 && k < i ==> #[trigger] text_field(json_pointer_item(text@, element(ptr@, k))) is Ok,
            forall|k: int| 0 <= k < 17 && k < i ==> #[trigger] regs@.gpr[k] == decoded(text_field(json_pointer_item(text@, element(ptr@, k)))),
            forall|k: int| 0 <= k < 16 && 17 + k < i ==> #[trigger] text_list_field(text@, element(ptr@, 17 + k)) is Ok,
            forall|k: int| 0 <= k < 16 && 17 + k < i ==> #[trigger] regs@.xmm[k] == decoded(text_list_field(text@, element(ptr@, 17 + k))),
            i > 33 ==> text_field(json_pointer_item(text@, element(ptr@, 33))) is Ok,
            i > 33 ==> regs@.flags == decoded(text_field(json_pointer_item(text@, element(ptr@, 33)))),
        decreases 34 - i,
    {
        let idx = crate::numeric::format_decimal(i as u64);
        let p = child_pointer(ptr, idx.as_slice());
        assert(p@ == element(ptr@, i as int));
        if i < 17 {
            match decode_text_field(crate::json::lookup(text, p.as_slice())) {
                Ok(v) => regs.set_gpr(i, v),
                Err(_) => return Err(()),
            }
        } else if i < 33 {
            assert(element(ptr@, 17 + (i - 17)) == p@);
            match decode_text_list(text, p.as_slice()) {
                Ok(v) => regs.set_xmm(i - 17, v),
                Err(_) => return Err(()),
            }
        } else {
            match decode_text_field(crate::json::lookup(text, p.as_slice())) {
                Ok(v) => {
                    regs.flags = v;
                },
                Err(_) => return Err(()),
            }
        }
        i = i + 1;
    }
    assert(regs@.gpr =~= registers_seq_value(text@, ptr@).gpr);
    assert(regs@.xmm =~= registers_seq_value(text@, ptr@).xmm);
    Ok(Some(regs))
}

/// Decodes an optional register-set field at `ptr`.
pub fn decode_registers(text: &str, ptr: &[char], low_names: bool) -> (r: Result<Option<RegisterData>, ()>)
    ensures
        match r {
            Ok(v) => registers_field(text@, ptr@, low_names) == Ok::<Option<RegisterView>, ()>(opt_registers(v)),
            Err(_) => registers_field(text@, ptr@, low_names) is Err,
        },
{
    match crate::json::lookup(text, ptr) {
        JsonItem::Absent => Ok(None),
        JsonItem::Null => Ok(None),
        JsonItem::Object => {
            let mut regs = RegisterData::new();
            let mut i: usize = 0;
            while i < GPR_COUNT
                invariant
                    i <= GPR_COUNT,
                    regs@.gpr.len() == 17,
                    regs@.xmm == Seq::new(16, |k: int| None::<Seq<Seq<char>>>),
                    regs@.flags is None,
                    json_pointer_item(text@, ptr@) == JsonItemView::Object,
                    forall|k: int| 0 <= k < i ==> #[trigger] gpr_field(text@, ptr@, k, low_names) is Ok,
                    forall|k: int| 0 <= k < i ==> #[trigger] regs@.gpr[k] == decoded(gpr_field(text@, ptr@, k, low_names)),
                decreases GPR_COUNT - i,
            {
                match decode_gpr(text, ptr, i, low_names) {
                    Ok(v) => regs.set_gpr(i, v),
                    Err(_) => {
                        assert(gpr_field(text@, ptr@, i as int, low_names) is Err);
                        return Err(());
                    },
                }
                i = i + 1;
            }
            let mut j: usize = 0;
            while j < XMM_COUNT
                invariant
                    j <= XMM_COUNT,
                    regs@.gpr.len() == 17,
                    regs@.xmm.len() == 16,
                    regs@.flags is None,
                    json_pointer_item(text@, ptr@) == JsonItemView::Object,
                    forall|k: int| 0 <= k < 17 ==> #[trigger] gpr_field(text@, ptr@, k, low_names) is Ok,
                    forall|k: int| 0 <= k < 17 ==> #[trigger] regs@.gpr[k] == decoded(gpr_field(text@, ptr@, k, low_names)),
                    forall|k: int| 0 <= k < j ==> #[trigger] xmm_field(text@, ptr@, k) is Ok,
                    forall|k: int| 0 <= k < j ==> #[trigger] regs@.xmm[k] == decoded(xmm_field(text@, ptr@, k)),
                decreases XMM_COUNT - j,
            {
                let key = crate::text::chars_of(xmm_key_str(j));
                let p = child_pointer(ptr, key.as_slice());
                match decode_text_list(text, p.as_slice()) {
                    Ok(v) => regs.set_xmm(j, v),
                    Err(_) => {
                        assert(xmm_field(text@, ptr@, j as int) is Err);
                        return Err(());
                    },
                }
                j = j + 1;
            }
            let key = crate::text::chars_of("Flags");
            let p = child_pointer(ptr, key.as_slice());
            match decode_text_field(crate::json::lookup(text, p.as_slice())) {
                Ok(v) => {
                    regs.flags = v;
                },
                Err(_) => {
                    return Err(());
                },
            }
            assert(regs@.gpr =~= registers_value(text@, ptr@, low_names).gpr);
            assert(regs@.xmm =~= registers_value(text@, ptr@, low_names).xmm);
            Ok(Some(regs))
        },
        JsonItem::Array(n) => {
            if n != 34 {
                return Err(());
            }
            decode_registers_seq(text, ptr, low_names)
        },
        _ => Err(()),
    }
}

/// Decodes the optional `Mode` field at `ptr`.
pub fn decode_mode(text: &str, ptr: &[char]) -> (r: Result<Option<ExecutionMode>, ()>)
    ensures
        match r {
            Ok(v) => mode_field(text@, ptr@) == Ok::<Option<ExecutionMode>, ()>(v),
            Err(_) => mode_field(text@, ptr@) is Err,
        },
{
    match crate::json::lookup(text, ptr) {
        JsonItem::Absent => Ok(None),
        JsonItem::Null => Ok(None),
        JsonItem::Text(s) => {
            let cs = crate::text::chars_of(s.as_str());
            let expected = crate::text::chars_of("32BIT");
            if crate::text::chars_eq(cs.as_slice(), expected.as_slice()) {
                Ok(Some(ExecutionMode::Bit32))
            } else {
                Err(())
            }
        },
        JsonItem::Object => {
            let expected = crate::text::chars_of("32BIT");
            let ks = crate::json::keys(text, ptr);
            let ghost kv = ks@.map_values(|k: String| k@);
            if ks.len() != 1 {
                assert(kv.len() != seq!["32BIT"@].len());
                return Err(());
            }
            let k = crate::text::chars_of(ks[0].as_str());
            if !crate::text::chars_eq(k.as_slice(), expected.as_slice()) {
                assert(kv[0] != seq!["32BIT"@][0]);
                return Err(());
            }
            assert(ks@.map_values(|k: String| k@) =~= seq!["32BIT"@]);
            let p = crate::json::child_pointer(ptr, expected.as_slice());
            match crate::json::lookup(text, p.as_slice()) {
                JsonItem::Null => Ok(Some(ExecutionMode::Bit32)),
                _ => Err(()),
            }
        },
        _ => Err(()),
    }
}

/// Decodes the optional `MemoryRegions` field at `ptr`.
pub fn decode_regions(text: &str, ptr: &[char]) -> (r: Result<Option<StringMap<MemorySize>>, ()>)
    ensures
        match r {
            Ok(v) => regions_field(text@, ptr@) == Ok::<Option<Seq<(Seq<char>, MemorySizeView)>>, ()>(opt_map(v)),
            Err(_) => regions_field(text@, ptr@) is Err,
        },
{
    match crate::json::lookup(text, ptr) {
        JsonItem::Absent => Ok(None),
        JsonItem::Null => Ok(None),
        JsonItem::Object => {
            let ks = crate::json::keys(text, ptr);
            let ghost kv = ks@.map_values(|k: String| k@);
            let mut m: StringMap<MemorySize> = StringMap::new();
            let mut i: usize = 0;
            while i < ks.len()
                invariant
                    i <= ks@.len(),
                    kv == ks@.map_values(|k: String| k@),
                    kv == json_object_keys(text@, ptr@),
                    kv.no_duplicates(),
                    json_pointer_item(text@, ptr@) == JsonItemView::Object,
                    m@.len() == i,
                    forall|k: int| 0 <= k < i ==> #[trigger] size_value(json_pointer_item(text@, member(ptr@, kv[k]))) is Some,
                    forall|k: int| 0 <= k < i ==> #[trigger] m@[k] == (kv[k], size_value(json_pointer_item(text@, member(ptr@, kv[k])))->0),
                decreases ks@.len() - i,
            {
                let key = &ks[i];
                let kc = crate::text::chars_of(key.as_str());
                let p = child_pointer(ptr, kc.as_slice());
                let size = match crate::json::lookup(text, p.as_slice()) {
                    JsonItem::Number(Some(n)) => MemorySize::Number(n),
                    JsonItem::Text(t) => MemorySize::HexString(t),
                    _ => {
                        assert(kv[i as int] == key@);
                        assert(!(size_value(json_pointer_item(text@, member(ptr@, kv[i as int]))) is Some));
                        return Err(());
                    },
                };
                proof {
                    assert(kv[i as int] == key@);
                    if crate::types::has_key(m@, key@) {
                        let w = choose|w: int| 0 <= w < m@.len() && m@[w].0 == key@;
                        assert(kv[w] == kv[i as int]);
                    }
                }
                m.push_new(key.clone(), size);
                i = i + 1;
            }
            let ghost expected = Seq::new(kv.len(), |k: int| (kv[k], size_value(json_pointer_item(text@, member(ptr@, kv[k])))->0));
            assert(m@ =~= expected);
            Ok(Some(m))
        },
        _ => Err(()),
    }
}

/// Decodes the optional `MemoryData` field at `ptr`.
pub fn decode_data(text: &str, ptr: &[char]) -> (r: Result<Option<StringMap<String>>, ()>)
    ensures
        match r {
            Ok(v) => data_field(text@, ptr@) == Ok::<Option<Seq<(Seq<char>, Seq<char>)>>, ()>(opt_map(v)),
            Err(_) => data_field(text@, ptr@) is Err,
        },
{
    match crate::json::lookup(text, ptr) {
        JsonItem::Absent => Ok(None),
        JsonItem::Null => Ok(None),
        JsonItem::Object => {
            let ks = crate::json::keys(text, ptr);
            let ghost kv = ks@.map_values(|k: String| k@);
            let mut m: StringMap<String> = StringMap::new();
            let mut i: usize = 0;
            while i < ks.len()
                invariant
                    i <= ks@.len(),
                    kv == ks@.map_values(|k: String| k@),
                    kv == json_object_keys(text@, ptr@),
                    kv.no_duplicates(),
                    json_pointer_item(text@, ptr@) == JsonItemView::Object,
                    m@.len() == i,
                    forall|k: int| 0 <= k < i ==> #[trigger] json_pointer_item(text@, member(ptr@, kv[k])) is Text,
                    forall|k: int| 0 <= k < i ==> #[trigger] m@[k] == (kv[k], item_text(json_pointer_item(text@, member(ptr@, kv[k])))),
                decreases ks@.len() - i,
            {
                let key = &ks[i];
                let kc = crate::text::chars_of(key.as_str());
                let p = child_pointer(ptr, kc.as_slice());
                let value = match crate::json::lookup(text, p.as_slice()) {
                    JsonItem::Text(t) => t,
                    _ => {
                        assert(kv[i as int] == key@);
                        assert(!(json_pointer_item(text@, member(ptr@, kv[i as int])) is Text));
                        return Err(());
                    },
                };
                proof {
                    assert(kv[i as int] == key@);
                    if crate::types::has_key(m@, key@) {
                        let w = choose|w: int| 0 <= w < m@.len() && m@[w].0 == key@;
                        assert(kv[w] == kv[i as int]);
                    }
                }
                m.push_new(key.clone(), value);
                i = i + 1;
            }
            let ghost expected = Seq::new(kv.len(), |k: int| (kv[k], item_text(json_pointer_item(text@, member(ptr@, kv[k])))));
            assert(m@ =~= expected);
            Ok(Some(m))
        },
        _ => Err(()),
    }
}

/// The pointer to a top-level member.
fn top_pointer(key: &str) -> (r: Vec<char>)
    ensures
        r@ == top(key@),
{
    let root: Vec<char> = Vec::new();
    let k = crate::text::chars_of(key);
    child_pointer(root.as_slice(), k.as_slice())
}

/// Decodes a configuration from a JSON text that `serde_json` accepts.
pub fn decode_config_text(text: &str) -> (r: Result<AsmTestConfig, ()>)
    ensures
        match r {
            Ok(c) => decode_config(text@) == Ok::<ConfigView, ()>(c@),
            Err(_) => decode_config(text@) is Err,
        },
{
    let root: Vec<char> = Vec::new();
    assert(root@ =~= Seq::<char>::empty());
    let (p0, p1, p2, p3, p4) = match crate::json::lookup(text, root.as_slice()) {
        JsonItem::Object => (
            top_pointer("RegData"),
            top_pointer("RegInit"),
            top_pointer("Mode"),
            top_pointer("MemoryRegions"),
            top_pointer("MemoryData"),
        ),
        JsonItem::Array(n) => {
            if n != 5 {
                return Err(());
            }
            (element_pointer(0), element_pointer(1), element_pointer(2), element_pointer(3), element_pointer(4))
        },
        _ => {
            return Err(());
        },
    };
    let reg_data = decode_registers(text, p0.as_slice(), false)?;
    let mode = decode_mode(text, p2.as_slice())?;
    let low_names = match mode {
        Some(ExecutionMode::Bit32) => true,
        None => false,
    };
    let reg_init = decode_registers(text, p1.as_slice(), low_names)?;
    let memory_regions = decode_regions(text, p3.as_slice())?;
    let memory_data = decode_data(text, p4.as_slice())?;
    Ok(AsmTestConfig { reg_data, reg_init, mode, memory_regions, memory_data })
}

/// The pointer to element `i` of the top-level sequence.
fn element_pointer(i: u64) -> (r: Vec<char>)
    ensures
        r@ == element(Seq::empty(), i as int),
{
    let root: Vec<char> = Vec::new();
    let idx = crate::numeric::format_decimal(i);
    let r = child_pointer(root.as_slice(), idx.as_slice());
    assert(root@ =~= Seq::<char>::empty());
    r
}

/// A configuration error with this detail.
fn config_error(detail: &[char]) -> (r: AsmTestError)
    ensures
        r matches AsmTestError::ConfigParse(m) && m@ == config_error_prefix() + detail@
            && crate::text::has_prefix(m@, config_error_prefix()),
{
    let m = crate::error::describe("JSON解析失败: ", detail);
    assert((config_error_prefix() + detail@).subrange(0, config_error_prefix().len() as int) =~= config_error_prefix());
    AsmTestError::ConfigParse(m)
}

/// Parses a configuration text: blank text gives the empty configuration,
/// anything else must be JSON describing a configuration.
pub fn parse_config_json(json_str: &str) -> (r: Result<AsmTestConfig, AsmTestError>)
    ensures
        match r {
            Ok(c) => config_of_text(json_str@) == Ok::<ConfigView, ()>(c@),
            Err(e) => config_of_text(json_str@) is Err && (e matches AsmTestError::ConfigParse(m)
                && crate::text::has_prefix(m@, config_error_prefix())),
        },
{
    let cs = crate::text::chars_of(json_str);
    if crate::text::is_blank(cs.as_slice()) {
        return Ok(AsmTestConfig::new());
    }
    match crate::json::json_check(json_str) {
        Ok(()) => {},
        Err(e) => {
            let detail = crate::text::chars_of(e.as_str());
            return Err(config_error(detail.as_slice()));
        },
    }
    if crate::members::has_duplicate_fields(json_str) {
        let detail = crate::text::chars_of("duplicate field");
        return Err(config_error(detail.as_slice()));
    }
    match decode_config_text(json_str) {
        Ok(c) => Ok(c),
        Err(_) => {
            let detail = crate::text::chars_of("配置内容不符合配置格式");
            Err(config_error(detail.as_slice()))
        },
    }
}

/// Parses the contents of a test file into its configuration and its
/// assembly code.
pub fn parse_asm_test_content(content: &str) -> (r: Result<AsmTestFile, AsmTestError>)
    ensures
        match r {
            Ok(f) => {
                &&& f.assembly_code@ == assembly_text(content@)
                &&& config_of_text(config_block_text(content@)) == Ok::<ConfigView, ()>(f.config@)
            },
            Err(e) => config_of_text(config_block_text(content@)) is Err && (e matches AsmTestError::ConfigParse(m)
                && crate::text::has_prefix(m@, config_error_prefix())),
        },
{
    let (config_str, assembly_code) = extract_config_block(content);
    let config = if !config_str.as_str().is_empty() {
        parse_config_json(config_str.as_str())?
    } else {
        proof {
            assert(trim(config_str@) =~= config_str@);
        }
        AsmTestConfig::new()
    };
    Ok(AsmTestFile { config, assembly_code })
}

} // verus!
