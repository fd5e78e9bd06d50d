//! The textual register report printed after a run.
use crate::numeric::{decimal_digits, hex_literal, parse_u64_spec};
use crate::parser::xmm_key;
use crate::text::has_prefix;
use crate::types::{opt_text, opt_text_list, RegisterData, RegisterView};
use vstd::prelude::*;

verus! {

// ---------------------------------------------------------------------------
// 32-bit views of register strings
// ---------------------------------------------------------------------------

/// Number of bytes of the UTF-8 encoding of `c`.
pub open spec fn utf8_width(c: char) -> nat {
    let v = c as u32;
    if v < 0x80 {
        1
    } else if v < 0x800 {
        2
    } else if v < 0x10000 {
        3
    } else {
        4
    }
}

/// Number of bytes of the UTF-8 encoding of `s`.
pub open spec fn utf8_len(s: Seq<char>) -> nat
    decreases s.len(),
{
    if s.len() == 0 {
        0
    } else {
        utf8_len(s.drop_last()) + utf8_width(s.last())
    }
}

/// The suffix of `s` whose UTF-8 encoding is `n` bytes long, when one starts
/// at a character boundary.
pub open spec fn byte_suffix(s: Seq<char>, n: nat) -> Option<Seq<char>>
    decreases s.len(),
{
    if n == 0 {
        Some(Seq::empty())
    } else if s.len() == 0 || utf8_width(s.last()) > n {
        None
    } else {
        match byte_suffix(s.drop_last(), (n - utf8_width(s.last())) as nat) {
            Some(t) => Some(t.push(s.last())),
            None => None,
        }
    }
}

/// The digits of a `0x` value.
pub open spec fn after_0x(v: Seq<char>) -> Seq<char> {
    v.subrange(2, v.len() as int)
}

/// Whether [`value_32bit`] is defined for `v`: a `0x` value with more than
/// 8 bytes of digits is cut 8 bytes from its end, which must be a character
/// boundary.
pub open spec fn value_32bit_defined(v: Seq<char>) -> bool {
    has_prefix(v, seq!['0', 'x']) && utf8_len(after_0x(v)) > 8 ==> byte_suffix(after_0x(v), 8) is Some
}

/// A register string shown as a 32-bit value: `0x` followed by the last 8
/// bytes of its digits when it has more; otherwise unchanged.
pub open spec fn value_32bit(v: Seq<char>) -> Seq<char> {
    if has_prefix(v, seq!['0', 'x']) && utf8_len(after_0x(v)) > 8 {
        match byte_suffix(after_0x(v), 8) {
            Some(t) => seq!['0', 'x'] + t,
            None => v,
        }
    } else {
        v
    }
}

/// A suffix of `n` bytes is `n` bytes long.
proof fn lemma_byte_suffix_len(s: Seq<char>, n: nat)
    requires
        byte_suffix(s, n) is Some,
    ensures
        utf8_len(byte_suffix(s, n)->0) == n,
    decreases s.len(),
{
    if n > 0 {
        let w = utf8_width(s.last());
        lemma_byte_suffix_len(s.drop_last(), (n - w) as nat);
        let t = byte_suffix(s.drop_last(), (n - w) as nat)->0;
        assert(t.push(s.last()).drop_last() =~= t);
    }
}

/// Law: [`format_32bit_value`] of its own result gives that result back: a
/// value shown as a 32-bit value is shown unchanged a second time.
pub proof fn law_value_32bit_idempotent(v: Seq<char>)
    requires
        value_32bit_defined(v),
    ensures
        value_32bit_defined(value_32bit(v)),
        value_32bit(value_32bit(v)) == value_32bit(v),
{
    if has_prefix(v, seq!['0', 'x']) && utf8_len(after_0x(v)) > 8 {
        let t = byte_suffix(after_0x(v), 8)->0;
        lemma_byte_suffix_len(after_0x(v), 8);
        let r = seq!['0', 'x'] + t;
        assert(after_0x(r) =~= t);
    }
}

/// UTF-8 width of a character.
fn char_width(c: char) -> (r: usize)
    ensures
        r == utf8_width(c),
{
    let v = c as u32;
    if v < 0x80 {
        1
    } else if v < 0x800 {
        2
    } else if v < 0x10000 {
        3
    } else {
        4
    }
}

proof fn lemma_utf8_len_take(s: Seq<char>, i: int)
    requires
        0 <= i < s.len(),
    ensures
        utf8_len(s.take(i + 1)) == utf8_len(s.take(i)) + utf8_width(s[i]),
{
    assert(s.take(i + 1).drop_last() =~= s.take(i));
}

/// Whether the UTF-8 encoding of `s` is longer than `limit` bytes.
fn utf8_longer_than(s: &[char], limit: usize) -> (r: bool)
    ensures
        r == (utf8_len(s@) > limit),
{
    let mut total: usize = 0;
    let mut i: usize = 0;
    while i < s.len()
        invariant
            i <= s@.len(),
            total == utf8_len(s@.take(i as int)),
            total <= limit,
        decreases s@.len() - i,
    {
        proof {
            lemma_utf8_len_take(s@, i as int);
        }
        let w = char_width(s[i]);
        if w > limit - total {
            proof {
                lemma_utf8_len_prefix_le(s@, i as int + 1);
            }
            return true;
        }
        total = total + w;
        i = i + 1;
    }
    assert(s@.take(s@.len() as int) =~= s@);
    false
}

proof fn lemma_utf8_len_prefix_le(s: Seq<char>, n: int)
    requires
        0 <= n <= s.len(),
    ensures
        utf8_len(s.take(n)) <= utf8_len(s),
    decreases s.len(),
{
    if n == s.len() {
        assert(s.take(n) =~= s);
    } else {
        assert(s.drop_last().take(n) =~= s.take(n));
        lemma_utf8_len_prefix_le(s.drop_last(), n);
    }
}

/// The suffix of `s` that is `n` bytes long in UTF-8 (see [`byte_suffix`]).
fn take_byte_suffix(s: &[char], n: usize) -> (r: Option<Vec<char>>)
    ensures
        match r {
            Some(t) => byte_suffix(s@, n as nat) == Some(t@),
            None => byte_suffix(s@, n as nat) is None,
        },
{
    let mut j: usize = s.len();
    let mut acc: usize = 0;
    assert(s@.take(j as int) =~= s@);
    assert(s@.skip(j as int) =~= Seq::<char>::empty());
    proof {
        match byte_suffix(s@, n as nat) {
            Some(t) => {
                assert(t + Seq::<char>::empty() =~= t);
            },
            None => {},
        }
    }
    while acc < n
        invariant
            j <= s@.len(),
            acc <= n,
            byte_suffix(s@, n as nat) == (match byte_suffix(s@.take(j as int), (n - acc) as nat) {
                Some(t) => Some(t + s@.skip(j as int)),
                None => None::<Seq<char>>,
            }),
        decreases n - acc,
    {
        if j == 0 {
            return None;
        }
        let w = char_width(s[j - 1]);
        let ghost pre = s@.take(j as int);
        assert(pre.drop_last() =~= s@.take(j - 1));
        assert(pre.last() == s@[j - 1]);
        if w > n - acc {
            return None;
        }
        proof {
            match byte_suffix(s@.take(j - 1), (n - acc - w) as nat) {
                Some(t) => {
                    assert(t.push(s@[j - 1]) + s@.skip(j as int) =~= t + s@.skip(j - 1));
                },
                None => {},
            }
        }
        acc = acc + w;
        j = j - 1;
    }
    assert(Seq::<char>::empty() + s@.skip(j as int) =~= s@.skip(j as int));
    Some(crate::text::slice_chars(s, j, s.len()))
}

/// Shows a register string as a 32-bit value (see [`value_32bit`]).
pub fn format_32bit_value(value: &str) -> (r: Vec<char>)
    requires
        value_32bit_defined(value@),
    ensures
        r@ == value_32bit(value@),
{
    let v = crate::text::chars_of(value);
    if v.len() >= 2 && v[0] == '0' && v[1] == 'x' {
        assert(has_prefix(v@, seq!['0', 'x'])) by {
            assert(v@.subrange(0, 2) =~= seq!['0', 'x']);
        }
        let digits = crate::text::slice_chars(v.as_slice(), 2, v.len());
        if utf8_longer_than(digits.as_slice(), 8) {
            match take_byte_suffix(digits.as_slice(), 8) {
                Some(t) => {
                    let mut r: Vec<char> = Vec::new();
                    r.push('0');
                    r.push('x');
                    crate::text::push_all(&mut r, t.as_slice());
                    assert(r@ =~= seq!['0', 'x'] + t@);
                    return r;
                },
                None => {
                    return v;
                },
            }
        }
        v
    } else {
        assert(!has_prefix(v@, seq!['0', 'x'])) by {
            if v@.len() >= 2 {
                assert(v@.subrange(0, 2)[0] == v@[0]);
                assert(v@.subrange(0, 2)[1] == v@[1]);
            }
        }
        v
    }
}

// ---------------------------------------------------------------------------
// Vector registers and flags
// ---------------------------------------------------------------------------

/// The report line of one vector register: nothing when absent or with
/// fewer than two lanes; two lanes when the upper two are zero or missing;
/// otherwise four.
pub open spec fn xmm_line(name: Seq<char>, data: Option<Seq<Seq<char>>>) -> Seq<char> {
    match data {
        None => Seq::empty(),
        Some(d) => if d.len() >= 4 {
            if d[2] == hex_literal(0, 16) && d[3] == hex_literal(0, 16) {
                "  "@ + name + ": "@ + d[0] + " "@ + d[1] + "\n"@
            } else {
                "  "@ + name + ": "@ + d[0] + " "@ + d[1] + " "@ + d[2] + " "@ + d[3] + "\n"@
            }
        } else if d.len() >= 2 {
            "  "@ + name + ": "@ + d[0] + " "@ + d[1] + "\n"@
        } else {
            Seq::empty()
        },
    }
}

/// Appends the report line of one vector register.
pub fn format_xmm_register(name: &str, xmm_data: &Option<Vec<String>>, output: &mut Vec<char>)
    ensures
        final(output)@ == old(output)@ + xmm_line(name@, opt_text_list(*xmm_data)),
{
    let ghost o0 = output@;
    match xmm_data {
        None => {
            assert(output@ =~= o0 + xmm_line(name@, opt_text_list(*xmm_data)));
        },
        Some(data) => {
            let ghost d = data@.map_values(|s: String| s@);
            if data.len() >= 4 {
                let zero = crate::numeric::format_hex_literal(0, 16);
                let l2 = crate::text::chars_of(data[2].as_str());
                let l3 = crate::text::chars_of(data[3].as_str());
                let two = crate::text::chars_eq(l2.as_slice(), zero.as_slice()) && crate::text::chars_eq(
                    l3.as_slice(),
                    zero.as_slice(),
                );
                crate::text::push_str(output, "  ");
                crate::text::push_str(output, name);
                crate::text::push_str(output, ": ");
                crate::text::push_str(output, data[0].as_str());
                crate::text::push_str(output, " ");
                crate::text::push_str(output, data[1].as_str());
                if !two {
                    crate::text::push_str(output, " ");
                    crate::text::push_str(output, data[2].as_str());
                    crate::text::push_str(output, " ");
                    crate::text::push_str(output, data[3].as_str());
                }
                crate::text::push_str(output, "\n");
                assert(output@ =~= o0 + xmm_line(name@, opt_text_list(*xmm_data)));
            } else if data.len() >= 2 {
                crate::text::push_str(output, "  ");
                crate::text::push_str(output, name);
                crate::text::push_str(output, ": ");
                crate::text::push_str(output, data[0].as_str());
                crate::text::push_str(output, " ");
                crate::text::push_str(output, data[1].as_str());
                crate::text::push_str(output, "\n");
                assert(output@ =~= o0 + xmm_line(name@, opt_text_list(*xmm_data)));
            } else {
                assert(output@ =~= o0 + xmm_line(name@, opt_text_list(*xmm_data)));
            }
        },
    }
}

/// Label, shift and mask of flag field `k` of the flags report.
pub open spec fn flag_field(k: int) -> (Seq<char>, u64, u64) {
    if k == 0 {
        (" [CF:"@, 0, 1)
    } else if k == 1 {
        (" PF:"@, 2, 1)
    } else if k == 2 {
        (" AF:"@, 4, 1)
    } else if k == 3 {
        (" ZF:"@, 6, 1)
    } else if k == 4 {
        (" SF:"@, 7, 1)
    } else if k == 5 {
        (" TF:"@, 8, 1)
    } else if k == 6 {
        (" IF:"@, 9, 1)
    } else if k == 7 {
        (" DF:"@, 10, 1)
    } else if k == 8 {
        (" OF:"@, 11, 1)
    } else if k == 9 {
        (" IOPL:"@, 12, 3)
    } else if k == 10 {
        (" NT:"@, 14, 1)
    } else if k == 11 {
        (" RF:"@, 16, 1)
    } else if k == 12 {
        (" VM:"@, 17, 1)
    } else if k == 13 {
        (" AC:"@, 18, 1)
    } else if k == 14 {
        (" VIF:"@, 19, 1)
    } else if k == 15 {
        (" VIP:"@, 20, 1)
    } else {
        (" ID:"@, 21, 1)
    }
}

/// Exec form of [`flag_field`].
fn flag_field_of(k: usize) -> (r: (&'static str, u64, u64))
    requires
        k < 17,
    ensures
        (r.0@, r.1, r.2) == flag_field(k as int),
{
    match k {
        0 => (" [CF:", 0, 1),
        1 => (" PF:", 2, 1),
        2 => (" AF:", 4, 1),
        3 => (" ZF:", 6, 1),
        4 => (" SF:", 7, 1),
        5 => (" TF:", 8, 1),
        6 => (" IF:", 9, 1),
        7 => (" DF:", 10, 1),
        8 => (" OF:", 11, 1),
        9 => (" IOPL:", 12, 3),
        10 => (" NT:", 14, 1),
        11 => (" RF:", 16, 1),
        12 => (" VM:", 17, 1),
        13 => (" AC:", 18, 1),
        14 => (" VIF:", 19, 1),
        15 => (" VIP:", 20, 1),
        _ => (" ID:", 21, 1),
    }
}

/// The first `n` flag fields of the flags report.
pub open spec fn flag_fields_text(f: u64, n: int) -> Seq<char>
    decreases n,
{
    if n <= 0 {
        Seq::empty()
    } else {
        let (label, shift, mask) = flag_field(n - 1);
        flag_fields_text(f, n - 1) + label + decimal_digits(((f >> shift) & mask) as nat)
    }
}

/// The flags report: the value as `0x` and at least 8 hex digits, then the
/// value of each flag field (CF, PF, AF, ZF, SF, TF, IF, DF, OF, IOPL, NT, RF,
/// VM, AC, VIF, VIP, ID) in brackets.
pub open spec fn flags_text(f: u64) -> Seq<char> {
    hex_literal(f as nat, 8) + flag_fields_text(f, 17) + "]"@
}

/// Law: the flags report names each flag beside the bit of that flag: CF
/// bit 0, PF bit 2, AF bit 4, ZF bit 6, SF bit 7, TF bit 8, IF bit 9, DF
/// bit 10, OF bit 11, IOPL bits 12..13, NT bit 14, RF bit 16, VM bit 17, AC
/// bit 18, VIF bit 19, VIP bit 20, ID bit 21, in this order, after the
/// value in hex and before a closing bracket.
pub proof fn law_flags_text_by_name(f: u64)
    ensures
        flags_text(f) == hex_literal(f as nat, 8) + flag_fields_text(f, 17) + "]"@,
        flag_fields_text(f, 1) == Seq::<char>::empty() + " [CF:"@ + decimal_digits(((f >> 0u64) & 1u64) as nat),
        flag_fields_text(f, 2) == flag_fields_text(f, 1) + " PF:"@ + decimal_digits(((f >> 2u64) & 1u64) as nat),
        flag_fields_text(f, 3) == flag_fields_text(f, 2) + " AF:"@ + decimal_digits(((f >> 4u64) & 1u64) as nat),
        flag_fields_text(f, 4) == flag_fields_text(f, 3) + " ZF:"@ + decimal_digits(((f >> 6u64) & 1u64) as nat),
        flag_fields_text(f, 5) == flag_fields_text(f, 4) + " SF:"@ + decimal_digits(((f >> 7u64) & 1u64) as nat),
        flag_fields_text(f, 6) == flag_fields_text(f, 5) + " TF:"@ + decimal_digits(((f >> 8u64) & 1u64) as nat),
        flag_fields_text(f, 7) == flag_fields_text(f, 6) + " IF:"@ + decimal_digits(((f >> 9u64) & 1u64) as nat),
        flag_fields_text(f, 8) == flag_fields_text(f, 7) + " DF:"@ + decimal_digits(((f >> 10u64) & 1u64) as nat),
        flag_fields_text(f, 9) == flag_fields_text(f, 8) + " OF:"@ + decimal_digits(((f >> 11u64) & 1u64) as nat),
        flag_fields_text(f, 10) == flag_fields_text(f, 9) + " IOPL:"@ + decimal_digits(((f >> 12u64) & 3u64) as nat),
        flag_fields_text(f, 11) == flag_fields_text(f, 10) + " NT:"@ + decimal_digits(((f >> 14u64) & 1u64) as nat),
        flag_fields_text(f, 12) == flag_fields_text(f, 11) + " RF:"@ + decimal_digits(((f >> 16u64) & 1u64) as nat),
        flag_fields_text(f, 13) == flag_fields_text(f, 12) + " VM:"@ + decimal_digits(((f >> 17u64) & 1u64) as nat),
        flag_fields_text(f, 14) == flag_fields_text(f, 13) + " AC:"@ + decimal_digits(((f >> 18u64) & 1u64) as nat),
        flag_fields_text(f, 15) == flag_fields_text(f, 14) + " VIF:"@ + decimal_digits(((f >> 19u64) & 1u64) as nat),
        flag_fields_text(f, 16) == flag_fields_text(f, 15) + " VIP:"@ + decimal_digits(((f >> 20u64) & 1u64) as nat),
        flag_fields_text(f, 17) == flag_fields_text(f, 16) + " ID:"@ + decimal_digits(((f >> 21u64) & 1u64) as nat),
{
    assert(flag_field(0) == (" [CF:"@, 0u64, 1u64));
    assert(flag_field(1) == (" PF:"@, 2u64, 1u64));
    assert(flag_field(2) == (" AF:"@, 4u64, 1u64));
    assert(flag_field(3) == (" ZF:"@, 6u64, 1u64));
    assert(flag_field(4) == (" SF:"@, 7u64, 1u64));
    assert(flag_field(5) == (" TF:"@, 8u64, 1u64));
    assert(flag_field(6) == (" IF:"@, 9u64, 1u64));
    assert(flag_field(7) == (" DF:"@, 10u64, 1u64));
    assert(flag_field(8) == (" OF:"@, 11u64, 1u64));
    assert(flag_field(9) == (" IOPL:"@, 12u64, 3u64));
    assert(flag_field(10) == (" NT:"@, 14u64, 1u64));
    assert(flag_field(11) == (" RF:"@, 16u64, 1u64));
    assert(flag_field(12) == (" VM:"@, 17u64, 1u64));
    assert(flag_field(13) == (" AC:"@, 18u64, 1u64));
    assert(flag_field(14) == (" VIF:"@, 19u64, 1u64));
    assert(flag_field(15) == (" VIP:"@, 20u64, 1u64));
    assert(flag_field(16) == (" ID:"@, 21u64, 1u64));
    assert(flag_fields_text(f, 0) == Seq::<char>::empty());
}

/// Formats a flags value with each of its flag fields.
pub fn format_flags(flags: u64) -> (r: Vec<char>)
    ensures
        r@ == flags_text(flags),
{
    let mut out = crate::numeric::format_hex_literal(flags, 8);
    let ghost head = out@;
    let mut k: usize = 0;
    while k < 17
        invariant
            k <= 17,
            out@ == head + flag_fields_text(flags, k as int),
        decreases 17 - k,
    {
        let (label, shift, mask) = flag_field_of(k);
        crate::text::push_str(&mut out, label);
        let d = crate::numeric::format_decimal((flags >> shift) & mask);
        crate::text::push_all(&mut out, d.as_slice());
        k = k + 1;
        assert(out@ =~= head + flag_fields_text(flags, k as int));
    }
    crate::text::push_str(&mut out, "]");
    assert(out@ =~= flags_text(flags));
    out
}

// ---------------------------------------------------------------------------
// The whole report
// ---------------------------------------------------------------------------

/// Label and slot of general register line `k` in 32-bit mode.
pub open spec fn gpr_line_32(k: int) -> (Seq<char>, int) {
    if k == 0 {
        ("  EAX: "@, 0)
    } else if k == 1 {
        ("  ECX: "@, 1)
    } else if k == 2 {
        ("  EDX: "@, 2)
    } else if k == 3 {
        ("  EBX: "@, 3)
    } else if k == 4 {
        ("  ESP: "@, 4)
    } else if k == 5 {
        ("  EBP: "@, 5)
    } else if k == 6 {
        ("  ESI: "@, 6)
    } else if k == 7 {
        ("  EDI: "@, 7)
    } else {
        ("  RIP: "@, 8)
    }
}

/// Label and slot of general register line `k` in 64-bit mode.
pub open spec fn gpr_line_64(k: int) -> (Seq<char>, int) {
    if k == 0 {
        ("  RAX: "@, 0)
    } else if k == 1 {
        ("  RCX: "@, 1)
    } else if k == 2 {
        ("  RDX: "@, 2)
    } else if k == 3 {
        ("  RBX: "@, 3)
    } else if k == 4 {
        ("  RSP: "@, 4)
    } else if k == 5 {
        ("  RBP: "@, 5)
    } else if k == 6 {
        ("  RSI: "@, 6)
    } else if k == 7 {
        ("  RDI: "@, 7)
    } else if k == 8 {
        ("  R8:  "@, 9)
    } else if k == 9 {
        ("  R9:  "@, 10)
    } else if k == 10 {
        ("  R10: "@, 11)
    } else if k == 11 {
        ("  R11: "@, 12)
    } else if k == 12 {
        ("  R12: "@, 13)
    } else if k == 13 {
        ("  R13: "@, 14)
    } else if k == 14 {
        ("  R14: "@, 15)
    } else if k == 15 {
        ("  R15: "@, 16)
    } else {
        ("  RIP: "@, 8)
    }
}

/// Number of general register lines in a mode.
pub open spec fn gpr_line_count(is_32bit: bool) -> int {
    if is_32bit {
        9
    } else {
        17
    }
}

/// Label and slot of general register line `k`.
pub open spec fn gpr_line_entry(k: int, is_32bit: bool) -> (Seq<char>, int) {
    if is_32bit {
        gpr_line_32(k)
    } else {
        gpr_line_64(k)
    }
}

/// Report line of general register line `k`: nothing when the register is
/// absent; its value (as a 32-bit value in 32-bit mode) otherwise.
pub open spec fn gpr_line(data: RegisterView, k: int, is_32bit: bool) -> Seq<char> {
    let (label, slot) = gpr_line_entry(k, is_32bit);
    match data.gpr[slot] {
        Some(v) => label + (if is_32bit {
            value_32bit(v)
        } else {
            v
        }) + "\n"@,
        None => Seq::empty(),
    }
}

/// The first `n` general register lines.
pub open spec fn gpr_lines(data: RegisterView, n: int, is_32bit: bool) -> Seq<char>
    decreases n,
{
    if n <= 0 {
        Seq::empty()
    } else {
        gpr_lines(data, n - 1, is_32bit) + gpr_line(data, n - 1, is_32bit)
    }
}

/// The first `n` vector register lines.
pub open spec fn xmm_lines(data: RegisterView, n: int) -> Seq<char>
    decreases n,
{
    if n <= 0 {
        Seq::empty()
    } else {
        xmm_lines(data, n - 1) + xmm_line(xmm_key(n - 1), data.xmm[n - 1])
    }
}

/// The flags section: the value with its fields when it parses as hex
/// (after an optional `0x`), the string itself otherwise.
pub open spec fn flags_section(flags: Option<Seq<char>>) -> Seq<char> {
    match flags {
        None => Seq::empty(),
        Some(f) => {
            let digits = if has_prefix(f, seq!['0', 'x']) {
                f.subrange(2, f.len() as int)
            } else {
                f
            };
            "\n标志寄存器:\n  "@ + (match parse_u64_spec(digits, 16) {
                Some(v) => flags_text(v),
                None => f,
            }) + "\n"@
        },
    }
}

/// Whether the report is defined for the registers: in 32-bit mode every
/// shown general register value must be cut at a character boundary.
pub open spec fn report_defined(data: RegisterView, is_32bit: bool) -> bool {
    is_32bit ==> forall|k: int|
        0 <= k < 9 ==> match #[trigger] data.gpr[gpr_line_32(k).1] {
            Some(v) => value_32bit_defined(v),
            None => true,
        }
}

/// The register report: general registers (32-bit names and values in
/// 32-bit mode, where R8..R15 are left out), vector registers (XMM8..XMM15
/// only in 64-bit mode) and the flags.
pub open spec fn register_report(data: RegisterView, is_32bit: bool) -> Seq<char> {
    "通用寄存器:\n"@ + gpr_lines(data, gpr_line_count(is_32bit), is_32bit) + "\n向量寄存器:\n"@ + xmm_lines(
        data,
        if is_32bit {
            8
        } else {
            16
        },
    ) + flags_section(data.flags)
}

proof fn lemma_gpr_lines_32_agree(a: RegisterView, b: RegisterView, n: int)
    requires
        0 <= n <= 9,
        forall|i: int| 0 <= i < 9 ==> #[trigger] a.gpr[i] == b.gpr[i],
    ensures
        gpr_lines(a, n, true) == gpr_lines(b, n, true),
    decreases n,
{
    if n > 0 {
        lemma_gpr_lines_32_agree(a, b, n - 1);
        let slot = gpr_line_32(n - 1).1;
        assert(0 <= slot < 9);
        assert(a.gpr[slot] == b.gpr[slot]);
    }
}

proof fn lemma_xmm_lines_agree(a: RegisterView, b: RegisterView, n: int)
    requires
        0 <= n <= 16,
        forall|i: int| 0 <= i < n ==> #[trigger] a.xmm[i] == b.xmm[i],
    ensures
        xmm_lines(a, n) == xmm_lines(b, n),
    decreases n,
{
    if n > 0 {
        lemma_xmm_lines_agree(a, b, n - 1);
        assert(a.xmm[n - 1] == b.xmm[n - 1]);
    }
}

/// Law: the 32-bit report shows only EAX..EDI, RIP, XMM0..XMM7 and the
/// flags: two register sets that agree on these give the same report,
/// whatever R8..R15 and XMM8..XMM15 hold.
pub proof fn law_32bit_report_ignores_upper_registers(a: RegisterView, b: RegisterView)
    requires
        forall|i: int| 0 <= i < 9 ==> #[trigger] a.gpr[i] == b.gpr[i],
        forall|i: int| 0 <= i < 8 ==> #[trigger] a.xmm[i] == b.xmm[i],
        a.flags == b.flags,
    ensures
        register_report(a, true) == register_report(b, true),
{
    lemma_gpr_lines_32_agree(a, b, 9);
    lemma_xmm_lines_agree(a, b, 8);
}

/// The report line of a general register labelled `label`: nothing when
/// it is absent; its value (as a 32-bit value in 32-bit mode) otherwise.
pub open spec fn named_line(label: Seq<char>, value: Option<String>, is_32bit: bool) -> Seq<char> {
    match opt_text(value) {
        Some(t) => label + (if is_32bit {
            value_32bit(t)
        } else {
            t
        }) + "\n"@,
        None => Seq::empty(),
    }
}

/// The general register lines of the 64-bit report, each register under its
/// own name: RAX..RDI, R8..R15, then RIP.
pub open spec fn gpr_report_64(d: RegisterData) -> Seq<char> {
    named_line("  RAX: "@, d.rax, false)
        + named_line("  RCX: "@, d.rcx, false)
        + named_line("  RDX: "@, d.rdx, false)
        + named_line("  RBX: "@, d.rbx, false)
        + named_line("  RSP: "@, d.rsp, false)
        + named_line("  RBP: "@, d.rbp, false)
        + named_line("  RSI: "@, d.rsi, false)
        + named_line("  RDI: "@, d.rdi, false)
        + named_line("  R8:  "@, d.r8, false)
        + named_line("  R9:  "@, d.r9, false)
        + named_line("  R10: "@, d.r10, false)
        + named_line("  R11: "@, d.r11, false)
        + named_line("  R12: "@, d.r12, false)
        + named_line("  R13: "@, d.r13, false)
        + named_line("  R14: "@, d.r14, false)
        + named_line("  R15: "@, d.r15, false)
        + named_line("  RIP: "@, d.rip, false)
}

/// The general register lines of the 32-bit report, each register under its
/// 32-bit name: EAX..EDI, then RIP.
pub open spec fn gpr_report_32(d: RegisterData) -> Seq<char> {
    named_line("  EAX: "@, d.rax, true)
        + named_line("  ECX: "@, d.rcx, true)
        + named_line("  EDX: "@, d.rdx, true)
        + named_line("  EBX: "@, d.rbx, true)
        + named_line("  ESP: "@, d.rsp, true)
        + named_line("  EBP: "@, d.rbp, true)
        + named_line("  ESI: "@, d.rsi, true)
        + named_line("  EDI: "@, d.rdi, true)
        + named_line("  RIP: "@, d.rip, true)
}

/// The vector register lines of the 64-bit report, XMM0..XMM15 each under
/// its own name.
pub open spec fn xmm_report_64(d: RegisterData) -> Seq<char> {
    xmm_line("XMM0"@, opt_text_list(d.xmm0))
        + xmm_line("XMM1"@, opt_text_list(d.xmm1))
        + xmm_line("XMM2"@, opt_text_list(d.xmm2))
        + xmm_line("XMM3"@, opt_text_list(d.xmm3))
        + xmm_line("XMM4"@, opt_text_list(d.xmm4))
        + xmm_line("XMM5"@, opt_text_list(d.xmm5))
        + xmm_line("XMM6"@, opt_text_list(d.xmm6))
        + xmm_line("XMM7"@, opt_text_list(d.xmm7))
        + xmm_line("XMM8"@, opt_text_list(d.xmm8))
        + xmm_line("XMM9"@, opt_text_list(d.xmm9))
        + xmm_line("XMM10"@, opt_text_list(d.xmm10))
        + xmm_line("XMM11"@, opt_text_list(d.xmm11))
        + xmm_line("XMM12"@, opt_text_list(d.xmm12))
        + xmm_line("XMM13"@, opt_text_list(d.xmm13))
        + xmm_line("XMM14"@, opt_text_list(d.xmm14))
        + xmm_line("XMM15"@, opt_text_list(d.xmm15))
}

/// The vector register lines of the 32-bit report: XMM0..XMM7.
pub open spec fn xmm_report_32(d: RegisterData) -> Seq<char> {
    xmm_line("XMM0"@, opt_text_list(d.xmm0))
        + xmm_line("XMM1"@, opt_text_list(d.xmm1))
        + xmm_line("XMM2"@, opt_text_list(d.xmm2))
        + xmm_line("XMM3"@, opt_text_list(d.xmm3))
        + xmm_line("XMM4"@, opt_text_list(d.xmm4))
        + xmm_line("XMM5"@, opt_text_list(d.xmm5))
        + xmm_line("XMM6"@, opt_text_list(d.xmm6))
        + xmm_line("XMM7"@, opt_text_list(d.xmm7))
}

/// Law: every line of the report that names a register shows that
/// register's own value: in 64-bit mode the line `RCX` shows RCX and the
/// line `RDX` shows RDX, and so for each general and vector register; in
/// 32-bit mode the lines `EAX`..`EDI` show the 32-bit values of RAX..RDI.
pub proof fn law_report_lines_by_name(d: RegisterData)
    ensures
        register_report(d@, false) == "通用寄存器:\n"@ + gpr_report_64(d) + "\n向量寄存器:\n"@ + xmm_report_64(d)
            + flags_section(opt_text(d.flags)),
        register_report(d@, true) == "通用寄存器:\n"@ + gpr_report_32(d) + "\n向量寄存器:\n"@ + xmm_report_32(d)
            + flags_section(opt_text(d.flags)),
{
    let v = d@;
    crate::registers::lemma_view_slots(d);
    assert(gpr_line(v, 0, false) == named_line("  RAX: "@, d.rax, false));
    assert(gpr_line(v, 1, false) == named_line("  RCX: "@, d.rcx, false));
    assert(gpr_line(v, 2, false) == named_line("  RDX: "@, d.rdx, false));
    assert(gpr_line(v, 3, false) == named_line("  RBX: "@, d.rbx, false));
    assert(gpr_line(v, 4, false) == named_line("  RSP: "@, d.rsp, false));
    assert(gpr_line(v, 5, false) == named_line("  RBP: "@, d.rbp, false));
    assert(gpr_line(v, 6, false) == named_line("  RSI: "@, d.rsi, false));
    assert(gpr_line(v, 7, false) == named_line("  RDI: "@, d.rdi, false));
    assert(gpr_line(v, 8, false) == named_line("  R8:  "@, d.r8, false));
    assert(gpr_line(v, 9, false) == named_line("  R9:  "@, d.r9, false));
    assert(gpr_line(v, 10, false) == named_line("  R10: "@, d.r10, false));
    assert(gpr_line(v, 11, false) == named_line("  R11: "@, d.r11, false));
    assert(gpr_line(v, 12, false) == named_line("  R12: "@, d.r12, false));
    assert(gpr_line(v, 13, false) == named_line("  R13: "@, d.r13, false));
    assert(gpr_line(v, 14, false) == named_line("  R14: "@, d.r14, false));
    assert(gpr_line(v, 15, false) == named_line("  R15: "@, d.r15, false));
    assert(gpr_line(v, 16, false) == named_line("  RIP: "@, d.rip, false));
    assert(gpr_line(v, 0, true) == named_line("  EAX: "@, d.rax, true));
    assert(gpr_line(v, 1, true) == named_line("  ECX: "@, d.rcx, true));
    assert(gpr_line(v, 2, true) == named_line("  EDX: "@, d.rdx, true));
    assert(gpr_line(v, 3, true) == named_line("  EBX: "@, d.rbx, true));
    assert(gpr_line(v, 4, true) == named_line("  ESP: "@, d.rsp, true));
    assert(gpr_line(v, 5, true) == named_line("  EBP: "@, d.rbp, true));
    assert(gpr_line(v, 6, true) == named_line("  ESI: "@, d.rsi, true));
    assert(gpr_line(v, 7, true) == named_line("  EDI: "@, d.rdi, true));
    assert(gpr_line(v, 8, true) == named_line("  RIP: "@, d.rip, true));
    assert(v.xmm[0] == opt_text_list(d.xmm0) && xmm_key(0) == "XMM0"@);
    assert(v.xmm[1] == opt_text_list(d.xmm1) && xmm_key(1) == "XMM1"@);
    assert(v.xmm[2] == opt_text_list(d.xmm2) && xmm_key(2) == "XMM2"@);
    assert(v.xmm[3] == opt_text_list(d.xmm3) && xmm_key(3) == "XMM3"@);
    assert(v.xmm[4] == opt_text_list(d.xmm4) && xmm_key(4) == "XMM4"@);
    assert(v.xmm[5] == opt_text_list(d.xmm5) && xmm_key(5) == "XMM5"@);
    assert(v.xmm[6] == opt_text_list(d.xmm6) && xmm_key(6) == "XMM6"@);
    assert(v.xmm[7] == opt_text_list(d.xmm7) && xmm_key(7) == "XMM7"@);
    assert(v.xmm[8] == opt_text_list(d.xmm8) && xmm_key(8) == "XMM8"@);
    assert(v.xmm[9] == opt_text_list(d.xmm9) && xmm_key(9) == "XMM9"@);
    assert(v.xmm[10] == opt_text_list(d.xmm10) && xmm_key(10) == "XMM10"@);
    assert(v.xmm[11] == opt_text_list(d.xmm11) && xmm_key(11) == "XMM11"@);
    assert(v.xmm[12] == opt_text_list(d.xmm12) && xmm_key(12) == "XMM12"@);
    assert(v.xmm[13] == opt_text_list(d.xmm13) && xmm_key(13) == "XMM13"@);
    assert(v.xmm[14] == opt_text_list(d.xmm14) && xmm_key(14) == "XMM14"@);
    assert(v.xmm[15] == opt_text_list(d.xmm15) && xmm_key(15) == "XMM15"@);
    reveal_with_fuel(gpr_lines, 18);
    reveal_with_fuel(xmm_lines, 17);
    assert(gpr_lines(v, 17, false) =~= gpr_report_64(d));
    assert(gpr_lines(v, 9, true) =~= gpr_report_32(d));
    assert(xmm_lines(v, 16) =~= xmm_report_64(d));
    assert(xmm_lines(v, 8) =~= xmm_report_32(d));
}

/// Exec form of [`gpr_line_entry`].
fn gpr_line_entry_of(k: usize, is_32bit: bool) -> (r: (&'static str, usize))
    requires
        k < 17,
        is_32bit ==> k < 9,
    ensures
        (r.0@, r.1 as int) == gpr_line_entry(k as int, is_32bit),
        r.1 < 17,
{
    if is_32bit {
        match k {
                0 => ("  EAX: ", 0),
                1 => ("  ECX: ", 1),
                2 => ("  EDX: ", 2),
                3 => ("  EBX: ", 3),
                4 => ("  ESP: ", 4),
                5 => ("  EBP: ", 5),
                6 => ("  ESI: ", 6),
                7 => ("  EDI: ", 7),
                _ => ("  RIP: ", 8),
            }
    } else {
        match k {
                0 => ("  RAX: ", 0),
                1 => ("  RCX: ", 1),
                2 => ("  RDX: ", 2),
                3 => ("  RBX: ", 3),
                4 => ("  RSP: ", 4),
                5 => ("  RBP: ", 5),
                6 => ("  RSI: ", 6),
                7 => ("  RDI: ", 7),
                8 => ("  R8:  ", 9),
                9 => ("  R9:  ", 10),
                10 => ("  R10: ", 11),
                11 => ("  R11: ", 12),
                12 => ("  R12: ", 13),
                13 => ("  R13: ", 14),
                14 => ("  R14: ", 15),
                15 => ("  R15: ", 16),
                _ => ("  RIP: ", 8),
            }
    }
}

/// Formats the register report (see [`register_report`]).
pub fn format_register_data(register_data: &RegisterData, is_32bit: bool) -> (r: String)
    requires
        report_defined(register_data@, is_32bit),
    ensures
        r@ == register_report(register_data@, is_32bit),
{
    let ghost data = register_data@;
    let mut out = crate::text::chars_of("通用寄存器:\n");
    let ghost head = out@;
    let count: usize = if is_32bit {
        9
    } else {
        17
    };
    let mut k: usize = 0;
    while k < count
        invariant
            k <= count,
            count == gpr_line_count(is_32bit),
            data == register_data@,
            report_defined(data, is_32bit),
            out@ == head + gpr_lines(data, k as int, is_32bit),
        decreases count - k,
    {
        let ghost before = out@;
        let (label, slot) = gpr_line_entry_of(k, is_32bit);
        match register_data.gpr(slot) {
            Some(v) => {
                crate::text::push_str(&mut out, label);
                if is_32bit {
                    assert(data.gpr[gpr_line_32(k as int).1] == Some(v@));
                    let shown = format_32bit_value(v.as_str());
                    crate::text::push_all(&mut out, shown.as_slice());
                } else {
                    crate::text::push_str(&mut out, v.as_str());
                }
                crate::text::push_str(&mut out, "\n");
            },
            None => {},
        }
        assert(out@ =~= before + gpr_line(data, k as int, is_32bit));
        k = k + 1;
        assert(out@ =~= head + gpr_lines(data, k as int, is_32bit));
    }
    crate::text::push_str(&mut out, "\n向量寄存器:\n");
    let ghost mid = out@;
    let xmm_count: usize = if is_32bit {
        8
    } else {
        16
    };
    let mut i: usize = 0;
    while i < xmm_count
        invariant
            i <= xmm_count <= 16,
            data == register_data@,
            out@ == mid + xmm_lines(data, i as int),
        decreases xmm_count - i,
    {
        format_xmm_register(crate::parser::xmm_key_str(i), register_data.xmm(i), &mut out);
        i = i + 1;
        assert(out@ =~= mid + xmm_lines(data, i as int));
    }
    let ghost tail = out@;
    match &register_data.flags {
        Some(f) => {
            let fc = crate::text::chars_of(f.as_str());
            let digits = if fc.len() >= 2 && fc[0] == '0' && fc[1] == 'x' {
                assert(has_prefix(fc@, seq!['0', 'x'])) by {
                    assert(fc@.subrange(0, 2) =~= seq!['0', 'x']);
                }
                crate::text::slice_chars(fc.as_slice(), 2, fc.len())
            } else {
                assert(!has_prefix(fc@, seq!['0', 'x'])) by {
                    if fc@.len() >= 2 {
                        assert(fc@.subrange(0, 2)[0] == fc@[0]);
                        assert(fc@.subrange(0, 2)[1] == fc@[1]);
                    }
                }
                crate::text::slice_chars(fc.as_slice(), 0, fc.len())
            };
            assert(fc@.subrange(0, fc@.len() as int) =~= fc@);
            crate::text::push_str(&mut out, "\n标志寄存器:\n  ");
            match crate::numeric::parse_u64(digits.as_slice(), 16) {
                Some(v) => {
                    let t = format_flags(v);
                    crate::text::push_all(&mut out, t.as_slice());
                },
                None => {
                    crate::text::push_all(&mut out, fc.as_slice());
                },
            }
            crate::text::push_str(&mut out, "\n");
        },
        None => {},
    }
    assert(out@ =~= tail + flags_section(data.flags));
    assert(out@ =~= register_report(data, is_32bit));
    crate::text::string_of(out.as_slice())
}

} // verus!
