//! The decisions of running a test natively: how configuration values are
//! parsed, which memory is mapped and filled, how registers are initialised
//! before and read back after execution, and how they are reported.  The
//! process control itself (fork, ptrace, mmap) is the application's.
use crate::error::AsmTestError;
use crate::numeric::{parse_failure_text, parse_u64_spec, parse_u8_spec};
use crate::text::{has_hex_prefix, is_whitespace, trim};
use crate::types::{AsmTestConfig, ConfigView, MemorySizeView};
use vstd::prelude::*;

verus! {

// ---------------------------------------------------------------------------
// Numbers in the configuration
// ---------------------------------------------------------------------------

/// An address or register value: decimal, or hexadecimal after `0x`/`0X`,
/// surrounding whitespace ignored.
pub open spec fn address_value(s: Seq<char>) -> Option<u64> {
    let t = trim(s);
    if has_hex_prefix(t) {
        parse_u64_spec(t.subrange(2, t.len() as int), 16)
    } else {
        parse_u64_spec(t, 10)
    }
}

/// A hexadecimal value with an optional `0x`/`0X` prefix; blank is 0.
pub open spec fn hex_value(s: Seq<char>) -> Option<u64> {
    let t = trim(s);
    if t.len() == 0 {
        Some(0)
    } else if has_hex_prefix(t) {
        parse_u64_spec(t.subrange(2, t.len() as int), 16)
    } else {
        parse_u64_spec(t, 16)
    }
}

/// Why an address does not parse: the hexadecimal or the decimal reading
/// is named, with the input and the reason of the integer parse.
pub open spec fn address_failure(s: Seq<char>) -> Seq<char> {
    let t = trim(s);
    if has_hex_prefix(t) {
        "无法解析十六进制地址 "@ + s + ": "@ + parse_failure_text(t.subrange(2, t.len() as int), 16, u64::MAX as nat)
    } else {
        "无法解析地址 "@ + s + ": "@ + parse_failure_text(t, 10, u64::MAX as nat)
    }
}

/// Parses an address: decimal, or hexadecimal after `0x`/`0X`.
pub fn parse_hex_address(address_str: &str) -> (r: Result<u64, AsmTestError>)
    ensures
        match r {
            Ok(v) => address_value(address_str@) == Some(v),
            Err(e) => address_value(address_str@) is None && (e matches AsmTestError::Execution(d) && d@
                == address_failure(address_str@)),
        },
{
    let cs = crate::text::chars_of(address_str);
    match address_of_chars(cs.as_slice()) {
        Some(v) => Ok(v),
        None => Err(AsmTestError::Execution(address_failure_of(cs.as_slice()))),
    }
}

/// [`address_failure`] of an input that does not parse.
fn address_failure_of(s: &[char]) -> (r: String)
    requires
        address_value(s@) is None,
    ensures
        r@ == address_failure(s@),
{
    let t = crate::text::trim_chars(s);
    if t.len() >= 2 && t[0] == '0' && (t[1] == 'x' || t[1] == 'X') {
        let digits = crate::text::slice_chars(t.as_slice(), 2, t.len());
        let why = crate::numeric::parse_u64_failure(digits.as_slice(), 16);
        crate::error::describe_failure("无法解析十六进制地址 ", s, why)
    } else {
        let why = crate::numeric::parse_u64_failure(t.as_slice(), 10);
        crate::error::describe_failure("无法解析地址 ", s, why)
    }
}

/// [`address_value`] on a character slice.
pub fn address_of_chars(s: &[char]) -> (r: Option<u64>)
    ensures
        r == address_value(s@),
{
    let t = crate::text::trim_chars(s);
    if t.len() >= 2 && t[0] == '0' && (t[1] == 'x' || t[1] == 'X') {
        let digits = crate::text::slice_chars(t.as_slice(), 2, t.len());
        crate::numeric::parse_u64(digits.as_slice(), 16)
    } else {
        crate::numeric::parse_u64(t.as_slice(), 10)
    }
}

/// Why a hexadecimal value does not parse: the input and the reason of the
/// integer parse of its digits.
pub open spec fn hex_value_failure(s: Seq<char>) -> Seq<char> {
    let t = trim(s);
    let digits = if has_hex_prefix(t) {
        t.subrange(2, t.len() as int)
    } else {
        t
    };
    "无法解析十六进制值 "@ + s + ": "@ + parse_failure_text(digits, 16, u64::MAX as nat)
}

/// Parses a hexadecimal value with an optional `0x`/`0X` prefix; blank is 0.
pub fn parse_hex_value(hex_str: &str) -> (r: Result<u64, AsmTestError>)
    ensures
        match r {
            Ok(v) => hex_value(hex_str@) == Some(v),
            Err(e) => hex_value(hex_str@) is None && (e matches AsmTestError::Execution(d) && d@
                == hex_value_failure(hex_str@)),
        },
{
    let cs = crate::text::chars_of(hex_str);
    match hex_value_of_chars(cs.as_slice()) {
        Some(v) => Ok(v),
        None => {
            let t = crate::text::trim_chars(cs.as_slice());
            let digits = if t.len() >= 2 && t[0] == '0' && (t[1] == 'x' || t[1] == 'X') {
                crate::text::slice_chars(t.as_slice(), 2, t.len())
            } else {
                t
            };
            let why = crate::numeric::parse_u64_failure(digits.as_slice(), 16);
            Err(AsmTestError::Execution(crate::error::describe_failure("无法解析十六进制值 ", cs.as_slice(), why)))
        },
    }
}

/// [`hex_value`] on a character slice.
pub fn hex_value_of_chars(s: &[char]) -> (r: Option<u64>)
    ensures
        r == hex_value(s@),
{
    let t = crate::text::trim_chars(s);
    if t.len() == 0 {
        Some(0)
    } else if t.len() >= 2 && t[0] == '0' && (t[1] == 'x' || t[1] == 'X') {
        let digits = crate::text::slice_chars(t.as_slice(), 2, t.len());
        crate::numeric::parse_u64(digits.as_slice(), 16)
    } else {
        crate::numeric::parse_u64(t.as_slice(), 16)
    }
}

/// The value of an optional register string (see [`address_value`]).
pub open spec fn register_value(value: Option<Seq<char>>) -> Option<u64> {
    match value {
        Some(s) => address_value(s),
        None => None,
    }
}

/// Parses an optional register string: decimal, or hexadecimal after `0x`.
pub fn parse_register_value(value: &Option<String>) -> (r: Option<u64>)
    ensures
        r == register_value(crate::types::opt_text(*value)),
{
    match value {
        Some(s) => {
            let cs = crate::text::chars_of(s.as_str());
            address_of_chars(cs.as_slice())
        },
        None => None,
    }
}

/// A text with no whitespace at either end is its own trim.
pub proof fn lemma_trim_unpadded(s: Seq<char>)
    requires
        s.len() > 0,
        !is_whitespace(s[0]),
        !is_whitespace(s.last()),
    ensures
        trim(s) == s,
{
}

/// The trim of a text, where not empty, starts and ends with a character
/// that is not whitespace.
pub proof fn lemma_trim_ends(s: Seq<char>)
    ensures
        trim(s).len() > 0 ==> !is_whitespace(trim(s)[0]) && !is_whitespace(trim(s).last()),
{
    lemma_trim_start_head(s);
    lemma_trim_end_shape(crate::text::trim_start(s));
}

proof fn lemma_trim_start_head(s: Seq<char>)
    ensures
        crate::text::trim_start(s).len() > 0 ==> !is_whitespace(crate::text::trim_start(s)[0]),
    decreases s.len(),
{
    if s.len() > 0 && is_whitespace(s[0]) {
        lemma_trim_start_head(s.drop_first());
    }
}

proof fn lemma_trim_end_shape(s: Seq<char>)
    ensures
        crate::text::trim_end(s).len() <= s.len(),
        crate::text::trim_end(s) == s.take(crate::text::trim_end(s).len() as int),
        crate::text::trim_end(s).len() > 0 ==> !is_whitespace(crate::text::trim_end(s).last()),
    decreases s.len(),
{
    if s.len() > 0 && is_whitespace(s.last()) {
        lemma_trim_end_shape(s.drop_last());
        let t = crate::text::trim_end(s.drop_last());
        assert(s.drop_last().take(t.len() as int) =~= s.take(t.len() as int));
    } else {
        assert(s.take(s.len() as int) =~= s);
    }
}

/// Law: for a value written without a prefix, writing `0x` or `0X` before
/// it changes nothing: the hexadecimal value is the same, and with the
/// prefix it is also the address value.
pub proof fn law_hex_prefix_irrelevant(s: Seq<char>)
    requires
        trim(s).len() > 0,
        !has_hex_prefix(trim(s)),
    ensures
        hex_value(seq!['0', 'x'] + trim(s)) == hex_value(s),
        hex_value(seq!['0', 'X'] + trim(s)) == hex_value(s),
        address_value(seq!['0', 'x'] + trim(s)) == hex_value(s),
{
    let t = trim(s);
    lemma_trim_ends(s);
    let u = seq!['0', 'x'] + t;
    let w = seq!['0', 'X'] + t;
    assert(u[0] == '0');
    assert(w[0] == '0');
    assert(!is_whitespace('0'));
    assert(u.last() == t.last());
    assert(w.last() == t.last());
    lemma_trim_unpadded(u);
    lemma_trim_unpadded(w);
    assert(u.subrange(2, u.len() as int) =~= t);
    assert(w.subrange(2, w.len() as int) =~= t);
}

/// Law: a value written as `0x` and 16 lower-case hex digits (as register
/// results are recorded) reads back as the same value, both as a register
/// or address value and as a hexadecimal value.
pub proof fn law_hex_literal_reads_back(v: u64)
    ensures
        address_value(crate::numeric::hex_literal(v as nat, 16)) == Some(v),
        register_value(Some(crate::numeric::hex_literal(v as nat, 16))) == Some(v),
        hex_value(crate::numeric::hex_literal(v as nat, 16)) == Some(v),
{
    let p = crate::numeric::hex_padded(v as nat, 16);
    let s = crate::numeric::hex_literal(v as nat, 16);
    crate::numeric::lemma_hex_padded_parses(v, 16);
    assert(s.last() == p[p.len() - 1]);
    assert(crate::numeric::digit_value(p[p.len() - 1], 16) is Some);
    lemma_trim_unpadded(s);
    assert(s.subrange(2, s.len() as int) =~= p);
}

// ---------------------------------------------------------------------------
// Memory data strings: whitespace-separated hex numbers, little-endian bytes
// ---------------------------------------------------------------------------

/// Words completed so far and the word being read, after reading `s`.
pub open spec fn words_state(s: Seq<char>) -> (Seq<Seq<char>>, Seq<char>)
    decreases s.len(),
{
    if s.len() == 0 {
        (Seq::empty(), Seq::empty())
    } else {
        let (ws, cur) = words_state(s.drop_last());
        let c = s.last();
        if is_whitespace(c) {
            if cur.len() > 0 {
                (ws.push(cur), Seq::empty())
            } else {
                (ws, Seq::empty())
            }
        } else {
            (ws, cur.push(c))
        }
    }
}

/// `str::split_whitespace`: the maximal runs of non-whitespace characters.
pub open spec fn words(s: Seq<char>) -> Seq<Seq<char>> {
    let (ws, cur) = words_state(s);
    if cur.len() > 0 {
        ws.push(cur)
    } else {
        ws
    }
}

/// Exec form of [`words`].
pub fn split_whitespace(s: &[char]) -> (r: Vec<Vec<char>>)
    ensures
        r@.map_values(|w: Vec<char>| w@) == words(s@),
{
    let mut ws: Vec<Vec<char>> = Vec::new();
    let mut cur: Vec<char> = Vec::new();
    let mut i: usize = 0;
    while i < s.len()
        invariant
            i <= s@.len(),
            words_state(s@.take(i as int)) == (ws@.map_values(|w: Vec<char>| w@), cur@),
        decreases s@.len() - i,
    {
        assert(s@.take(i + 1).drop_last() =~= s@.take(i as int));
        let ghost ws0 = ws@.map_values(|w: Vec<char>| w@);
        let c = s[i];
        if crate::text::char_is_whitespace(c) {
            if cur.len() > 0 {
                let ghost cur0 = cur@;
                let done = cur;
                ws.push(done);
                cur = Vec::new();
                assert(ws@.map_values(|w: Vec<char>| w@) =~= ws0.push(cur0));
            }
            assert(cur@ =~= Seq::<char>::empty());
        } else {
            cur.push(c);
        }
        i = i + 1;
    }
    assert(s@.take(s@.len() as int) =~= s@);
    if cur.len() > 0 {
        let ghost ws0 = ws@.map_values(|w: Vec<char>| w@);
        let ghost cur0 = cur@;
        ws.push(cur);
        assert(ws@.map_values(|w: Vec<char>| w@) =~= ws0.push(cur0));
    }
    ws
}

/// `s` without a leading `0x`/`0X`.
pub open spec fn strip_hex_prefix(s: Seq<char>) -> Seq<char> {
    if has_hex_prefix(s) {
        s.subrange(2, s.len() as int)
    } else {
        s
    }
}

/// Bytes of one hex number, least significant byte first: pairs of digits
/// taken from the right, a lone leading digit read as `0d`.
pub open spec fn number_bytes(num: Seq<char>) -> Option<Seq<u8>>
    decreases num.len(),
{
    if num.len() == 0 {
        Some(Seq::empty())
    } else if num.len() >= 2 {
        match (
            parse_u8_spec(num.subrange(num.len() - 2, num.len() as int), 16),
            number_bytes(num.subrange(0, num.len() - 2)),
        ) {
            (Some(b), Some(rest)) => Some(seq![b] + rest),
            _ => None,
        }
    } else {
        match parse_u8_spec(seq!['0', num[0]], 16) {
            Some(b) => Some(seq![b]),
            None => None,
        }
    }
}

/// Bytes of a sequence of hex numbers, in order.
pub open spec fn words_bytes(ws: Seq<Seq<char>>) -> Option<Seq<u8>>
    decreases ws.len(),
{
    if ws.len() == 0 {
        Some(Seq::empty())
    } else {
        match (words_bytes(ws.drop_last()), number_bytes(strip_hex_prefix(ws.last()))) {
            (Some(a), Some(b)) => Some(a + b),
            _ => None,
        }
    }
}

/// The bytes a memory data string denotes.
pub open spec fn hex_data_bytes(s: Seq<char>) -> Option<Seq<u8>> {
    words_bytes(words(s))
}

/// After a text that ends in whitespace, the words of what follows are
/// appended to those read so far.
proof fn lemma_words_state_after_break(p: Seq<char>, b: Seq<char>)
    requires
        words_state(p).1.len() == 0,
    ensures
        words_state(p + b) == (words_state(p).0 + words_state(b).0, words_state(b).1),
    decreases b.len(),
{
    if b.len() == 0 {
        assert(p + b =~= p);
        assert(words_state(p).0 + Seq::<Seq<char>>::empty() =~= words_state(p).0);
    } else {
        assert((p + b).drop_last() =~= p + b.drop_last());
        assert((p + b).last() == b.last());
        lemma_words_state_after_break(p, b.drop_last());
        let w0 = words_state(p).0;
        let (ws, cur) = words_state(b.drop_last());
        assert((w0 + ws).push(cur) =~= w0 + ws.push(cur));
    }
}

/// Words of two texts joined by a space are the words of each, in order.
pub proof fn lemma_words_concat(a: Seq<char>, b: Seq<char>)
    ensures
        words(a + seq![' '] + b) == words(a) + words(b),
{
    let p = a + seq![' '];
    assert(p.drop_last() =~= a);
    assert(p.last() == ' ');
    assert(is_whitespace(' '));
    assert(words_state(p) == (words(a), Seq::<char>::empty()));
    lemma_words_state_after_break(p, b);
    assert(a + seq![' '] + b =~= p + b);
    let (ws, cur) = words_state(b);
    assert((words(a) + ws).push(cur) =~= words(a) + ws.push(cur));
}

/// The bytes of two word lists one after the other.
proof fn lemma_words_bytes_concat(x: Seq<Seq<char>>, y: Seq<Seq<char>>)
    requires
        words_bytes(x) is Some,
        words_bytes(y) is Some,
    ensures
        words_bytes(x + y) == Some(words_bytes(x)->0 + words_bytes(y)->0),
    decreases y.len(),
{
    if y.len() == 0 {
        assert(x + y =~= x);
        assert(words_bytes(x)->0 + Seq::<u8>::empty() =~= words_bytes(x)->0);
    } else {
        assert((x + y).drop_last() =~= x + y.drop_last());
        assert((x + y).last() == y.last());
        lemma_words_bytes_concat(x, y.drop_last());
        let a = words_bytes(x)->0;
        let b0 = words_bytes(y.drop_last())->0;
        let l = number_bytes(strip_hex_prefix(y.last()))->0;
        assert(a + b0 + l =~= a + (b0 + l));
    }
}

/// Whether a word is an optional `0x`/`0X` prefix followed by hex digits.
pub open spec fn hex_word(w: Seq<char>) -> bool {
    forall|i: int|
        0 <= i < strip_hex_prefix(w).len() ==> crate::numeric::digit_value(#[trigger] strip_hex_prefix(w)[i], 16) is Some
}

/// The number of bytes that hex words give: half their digits, rounded up.
pub open spec fn words_byte_count(ws: Seq<Seq<char>>) -> nat
    decreases ws.len(),
{
    if ws.len() == 0 {
        0
    } else {
        words_byte_count(ws.drop_last()) + (strip_hex_prefix(ws.last()).len() + 1) / 2
    }
}

proof fn lemma_two_digits_byte(p: Seq<char>)
    requires
        p.len() == 2,
        crate::numeric::digit_value(p[0], 16) is Some,
        crate::numeric::digit_value(p[1], 16) is Some,
    ensures
        parse_u8_spec(p, 16) is Some,
{
    let q = p.drop_last();
    assert(q.drop_last() =~= Seq::<char>::empty());
    assert(q.last() == p[0]);
    assert(crate::numeric::digits_value(q.drop_last(), 16) == Some(0nat));
    assert(p.last() == p[1]);
    assert(p[0] != '+') by {
        assert(crate::numeric::digit_value(p[0], 16) is Some);
    }
    let d0 = crate::numeric::digit_value(p[0], 16)->0;
    let d1 = crate::numeric::digit_value(p[1], 16)->0;
    assert(crate::numeric::digits_value(p.drop_last(), 16) == Some(d0));
    assert(d0 * 16 + d1 <= 255) by (nonlinear_arith)
        requires
            d0 < 16,
            d1 < 16,
    {
    }
}

/// Hex digits give `ceil(len / 2)` bytes.
proof fn lemma_number_bytes_of_digits(num: Seq<char>)
    requires
        forall|i: int| 0 <= i < num.len() ==> crate::numeric::digit_value(#[trigger] num[i], 16) is Some,
    ensures
        number_bytes(num) is Some,
        number_bytes(num)->0.len() == (num.len() + 1) / 2,
    decreases num.len(),
{
    if num.len() >= 2 {
        let last2 = num.subrange(num.len() - 2, num.len() as int);
        let rest = num.subrange(0, num.len() - 2);
        assert(last2[0] == num[num.len() - 2]);
        assert(last2[1] == num[num.len() - 1]);
        lemma_two_digits_byte(last2);
        assert forall|i: int| 0 <= i < rest.len() implies crate::numeric::digit_value(#[trigger] rest[i], 16) is Some by {
            assert(rest[i] == num[i]);
        }
        lemma_number_bytes_of_digits(rest);
    } else if num.len() == 1 {
        let p = seq!['0', num[0]];
        assert(crate::numeric::digit_value('0', 16) is Some);
        lemma_two_digits_byte(p);
    }
}

/// Law: a memory data string whose words are all hex words (an optional
/// `0x`/`0X` prefix, then hex digits) parses, to as many bytes as half the
/// digits of each word, rounded up, summed over the words.
pub proof fn law_hex_data_well_formed(s: Seq<char>)
    requires
        forall|i: int| 0 <= i < words(s).len() ==> hex_word(#[trigger] words(s)[i]),
    ensures
        hex_data_bytes(s) is Some,
        hex_data_bytes(s)->0.len() == words_byte_count(words(s)),
{
    lemma_words_bytes_of_hex_words(words(s));
}

proof fn lemma_words_bytes_of_hex_words(ws: Seq<Seq<char>>)
    requires
        forall|i: int| 0 <= i < ws.len() ==> hex_word(#[trigger] ws[i]),
    ensures
        words_bytes(ws) is Some,
        words_bytes(ws)->0.len() == words_byte_count(ws),
    decreases ws.len(),
{
    if ws.len() > 0 {
        let d = ws.drop_last();
        assert forall|i: int| 0 <= i < d.len() implies hex_word(#[trigger] d[i]) by {
            assert(d[i] == ws[i]);
        }
        lemma_words_bytes_of_hex_words(d);
        assert(hex_word(ws[ws.len() - 1]));
        assert(ws.last() == ws[ws.len() - 1]);
        let h = strip_hex_prefix(ws.last());
        assert forall|i: int| 0 <= i < h.len() implies crate::numeric::digit_value(#[trigger] h[i], 16) is Some by {
            assert(hex_word(ws.last()));
        }
        lemma_number_bytes_of_digits(h);
    }
}

/// Law: the bytes of two memory data strings joined by a space are the
/// bytes of the first followed by those of the second.
pub proof fn law_hex_data_concat(a: Seq<char>, b: Seq<char>)
    requires
        hex_data_bytes(a) is Some,
        hex_data_bytes(b) is Some,
    ensures
        hex_data_bytes(a + seq![' '] + b) == Some(hex_data_bytes(a)->0 + hex_data_bytes(b)->0),
{
    lemma_words_concat(a, b);
    lemma_words_bytes_concat(words(a), words(b));
}

/// Exec form of [`number_bytes`].
#[verifier::rlimit(40)]
pub fn number_to_bytes(num: &[char]) -> (r: Option<Vec<u8>>)
    ensures
        match r {
            Some(v) => number_bytes(num@) == Some(v@),
            None => number_bytes(num@) is None,
        },
{
    let mut out: Vec<u8> = Vec::new();
    let mut len = num.len();
    assert(num@.subrange(0, len as int) =~= num@);
    proof {
        match number_bytes(num@) {
            Some(rest) => {
                assert(out@ + rest =~= rest);
            },
            None => {},
        }
    }
    while len > 0
        invariant
            len <= num@.len(),
            number_bytes(num@) == (match number_bytes(num@.subrange(0, len as int)) {
                Some(rest) => Some(out@ + rest),
                None => None::<Seq<u8>>,
            }),
        decreases len,
    {
        let ghost pre = num@.subrange(0, len as int);
        if len >= 2 {
            let pair = crate::text::slice_chars(num, len - 2, len);
            assert(pre.subrange(pre.len() - 2, pre.len() as int) =~= pair@);
            assert(pre.subrange(0, pre.len() - 2) =~= num@.subrange(0, len - 2));
            match crate::numeric::parse_u8(pair.as_slice(), 16) {
                Some(b) => {
                    let ghost out0 = out@;
                    out.push(b);
                    proof {
                        match number_bytes(num@.subrange(0, len - 2)) {
                            Some(rest) => {
                                assert(out0 + (seq![b] + rest) =~= out@ + rest);
                            },
                            None => {},
                        }
                    }
                    len = len - 2;
                },
                None => {
                    return None;
                },
            }
        } else {
            let mut pair: Vec<char> = Vec::new();
            pair.push('0');
            pair.push(num[0]);
            assert(pair@ =~= seq!['0', pre[0]]);
            match crate::numeric::parse_u8(pair.as_slice(), 16) {
                Some(b) => {
                    out.push(b);
                    assert(num@.subrange(0, 0) =~= Seq::<char>::empty());
                    len = 0;
                },
                None => {
                    return None;
                },
            }
        }
    }
    assert(num@.subrange(0, 0) =~= Seq::<char>::empty());
    assert(out@ + Seq::<u8>::empty() =~= out@);
    Some(out)
}

/// Parses a memory data string: whitespace-separated hex numbers (each with
/// an optional `0x`/`0X`), each giving its bytes least significant first.
pub fn parse_hex_string_detailed(hex_str: &str) -> (r: Result<Vec<u8>, AsmTestError>)
    ensures
        match r {
            Ok(bytes) => hex_data_bytes(hex_str@) == Some(bytes@),
            Err(e) => hex_data_bytes(hex_str@) is None && e is Execution,
        },
{
    let cs = crate::text::chars_of(hex_str);
    let ws = split_whitespace(cs.as_slice());
    let ghost wv = ws@.map_values(|w: Vec<char>| w@);
    let mut out: Vec<u8> = Vec::new();
    let mut i: usize = 0;
    while i < ws.len()
        invariant
            i <= ws@.len(),
            wv == ws@.map_values(|w: Vec<char>| w@),
            wv == words(hex_str@),
            words_bytes(wv.take(i as int)) == Some(out@),
        decreases ws@.len() - i,
    {
        let w = &ws[i];
        assert(wv.take(i + 1).drop_last() =~= wv.take(i as int));
        assert(wv.take(i + 1).last() == w@);
        let num = if w.len() >= 2 && w[0] == '0' && (w[1] == 'x' || w[1] == 'X') {
            crate::text::slice_chars(w.as_slice(), 2, w.len())
        } else {
            crate::text::slice_chars(w.as_slice(), 0, w.len())
        };
        assert(w@.subrange(0, w@.len() as int) =~= w@);
        match number_to_bytes(num.as_slice()) {
            Some(bytes) => {
                out.append(&mut bytes.clone());
                proof {
                    assert(words_bytes(wv.take(i + 1)) == Some(out@));
                }
            },
            None => {
                proof {
                    assert(words_bytes(wv.take(i + 1)) is None);
                    lemma_words_bytes_none(wv, i as int);
                }
                return Err(AsmTestError::Execution(crate::error::describe("无法解析十六进制字节 ", num.as_slice())));
            },
        }
        i = i + 1;
    }
    assert(wv.take(ws@.len() as int) =~= wv);
    Ok(out)
}

/// A failure on a prefix of the words is a failure of all of them.
proof fn lemma_words_bytes_none(ws: Seq<Seq<char>>, i: int)
    requires
        0 <= i < ws.len(),
        words_bytes(ws.take(i + 1)) is None,
    ensures
        words_bytes(ws) is None,
    decreases ws.len(),
{
    if i + 1 == ws.len() {
        assert(ws.take(i + 1) =~= ws);
    } else {
        assert(ws.drop_last().take(i + 1) =~= ws.take(i + 1));
        lemma_words_bytes_none(ws.drop_last(), i);
    }
}

// ---------------------------------------------------------------------------
// Memory layout
// ---------------------------------------------------------------------------

/// How a fixed-address mapping is asked for.
#[derive(Clone, Copy, PartialEq, Eq, Structural)]
pub enum MapRequest {
    /// Fail where something is mapped already.
    KeepExisting,
    /// Replace whatever is mapped there.
    ReplaceExisting,
}

/// The first request for a mapping: the code page replaces whatever is at
/// its address; any other mapping must not replace an existing one.
pub fn first_map_request(is_code: bool) -> (r: MapRequest)
    ensures
        r == (if is_code {
            MapRequest::ReplaceExisting
        } else {
            MapRequest::KeepExisting
        }),
{
    if is_code {
        MapRequest::ReplaceExisting
    } else {
        MapRequest::KeepExisting
    }
}

/// The error number of an invalid argument (`EINVAL` on Linux).
pub const EINVAL: i32 = 22;
/// The error number of an unsupported operation (`ENOTSUP` on Linux).
pub const ENOTSUP: i32 = 95;

/// The second request, after the first one failed with error number
/// `errno`: where the kernel refused it as unknown or invalid (`EINVAL`,
/// `ENOTSUP`) the mapping is asked for again, replacing; any other failure
/// is final, and so is a failure of the second request.
pub fn retry_map_request(errno: i32) -> (r: Option<MapRequest>)
    ensures
        r == (if errno == EINVAL || errno == ENOTSUP {
            Some(MapRequest::ReplaceExisting)
        } else {
            None::<MapRequest>
        }),
{
    if errno == EINVAL || errno == ENOTSUP {
        Some(MapRequest::ReplaceExisting)
    } else {
        None
    }
}

/// Where the code is mapped.
pub const CODE_ADDRESS: u64 = 0xC000_0000;
/// How much is mapped for the code.
pub const CODE_SIZE: u64 = 4096;
/// Where the stack is mapped.
pub const STACK_ADDRESS: u64 = 0xE000_0000;
/// How much is mapped for the stack.
pub const STACK_SIZE: u64 = 65536;

/// The size a region entry asks for.
pub open spec fn region_size_value(size: MemorySizeView) -> Option<u64> {
    match size {
        MemorySizeView::Number(n) => Some(n),
        MemorySizeView::HexString(h) => address_value(h),
    }
}

/// Start and size of a region entry, when both parse.
pub open spec fn region_span(entry: (Seq<char>, MemorySizeView)) -> Option<(u64, u64)> {
    match (address_value(entry.0), region_size_value(entry.1)) {
        (Some(a), Some(z)) => Some((a, z)),
        _ => None,
    }
}

/// Whether `addr` lies in `[start, start + size)`.
pub open spec fn in_span(addr: u64, start: u64, size: u64) -> bool {
    start <= addr < start + size
}

/// Whether `addr` lies in the stack or the code mapping.
pub open spec fn in_fixed_mapping(addr: u64) -> bool {
    in_span(addr, STACK_ADDRESS, STACK_SIZE) || in_span(addr, CODE_ADDRESS, CODE_SIZE)
}

/// The configured regions (none when the field is absent).
pub open spec fn regions_of(cfg: ConfigView) -> Seq<(Seq<char>, MemorySizeView)> {
    match cfg.memory_regions {
        Some(r) => r,
        None => Seq::empty(),
    }
}

/// Whether every parsable region ends within the 64-bit address space.
pub open spec fn region_ends_fit(regions: Seq<(Seq<char>, MemorySizeView)>) -> bool {
    forall|i: int|
        0 <= i < regions.len() ==> match #[trigger] region_span(regions[i]) {
            Some((a, z)) => a + z <= u64::MAX,
            None => true,
        }
}

/// Whether `addr` lies in one of the configured regions.
pub open spec fn in_configured_region(addr: u64, regions: Seq<(Seq<char>, MemorySizeView)>) -> bool {
    exists|i: int|
        0 <= i < regions.len() && match #[trigger] region_span(regions[i]) {
            Some((a, z)) => in_span(addr, a, z),
            None => false,
        }
}

/// Whether every memory data address parses and lies in the stack, the code
/// mapping or a configured region, every configured region parsing.
pub open spec fn memory_data_addresses_valid(cfg: ConfigView) -> bool {
    match cfg.memory_data {
        None => true,
        Some(data) => {
            &&& forall|i: int| 0 <= i < regions_of(cfg).len() ==> #[trigger] region_span(regions_of(cfg)[i]) is Some
            &&& forall|j: int|
                0 <= j < data.len() ==> match #[trigger] address_value(data[j].0) {
                    Some(a) => in_fixed_mapping(a) || in_configured_region(a, regions_of(cfg)),
                    None => false,
                }
        },
    }
}

/// What is wrong with a region entry, if anything: its address or its size
/// does not parse.
pub open spec fn region_entry_failure(entry: (Seq<char>, MemorySizeView)) -> Option<Seq<char>> {
    match address_value(entry.0) {
        None => Some("无法解析内存区域地址 "@ + entry.0 + ": "@ + "Execution error: "@ + address_failure(entry.0)),
        Some(_) => match entry.1 {
            MemorySizeView::Number(_) => None,
            MemorySizeView::HexString(h) => if address_value(h) is None {
                Some("无法解析内存区域大小: "@ + h)
            } else {
                None
            },
        },
    }
}

/// The failure of the first region entry that has one.
pub open spec fn first_region_failure(regions: Seq<(Seq<char>, MemorySizeView)>) -> Option<Seq<char>>
    decreases regions.len(),
{
    if regions.len() == 0 {
        None
    } else {
        match first_region_failure(regions.drop_last()) {
            Some(m) => Some(m),
            None => region_entry_failure(regions.last()),
        }
    }
}

/// Start and end of each legal area: the stack, the code mapping, then each
/// configured region (whose address and size are taken to parse).
pub open spec fn legal_bounds(regions: Seq<(Seq<char>, MemorySizeView)>) -> Seq<(nat, nat)> {
    seq![
        (STACK_ADDRESS as nat, (STACK_ADDRESS + STACK_SIZE) as nat),
        (CODE_ADDRESS as nat, (CODE_ADDRESS + CODE_SIZE) as nat),
    ] + regions.map_values(
        |r: (Seq<char>, MemorySizeView)|
            ((region_span(r)->0).0 as nat, ((region_span(r)->0).0 + (region_span(r)->0).1) as nat),
    )
}

/// `format!("{:?}", (a, b))` of two integers.
pub open spec fn bounds_pair_text(b: (nat, nat)) -> Seq<char> {
    "("@ + crate::numeric::decimal_digits(b.0) + ", "@ + crate::numeric::decimal_digits(b.1) + ")"@
}

/// The pairs' texts joined by `", "`.
pub open spec fn bounds_items_text(bs: Seq<(nat, nat)>) -> Seq<char>
    decreases bs.len(),
{
    if bs.len() == 0 {
        Seq::empty()
    } else if bs.len() == 1 {
        bounds_pair_text(bs[0])
    } else {
        bounds_items_text(bs.drop_last()) + ", "@ + bounds_pair_text(bs.last())
    }
}

/// `format!("{:?}", bs)` of a list of integer pairs.
pub open spec fn bounds_list_text(bs: Seq<(nat, nat)>) -> Seq<char> {
    "["@ + bounds_items_text(bs) + "]"@
}

/// What is wrong with a memory data entry, if anything: its address does
/// not parse, or lies in no legal area.
pub open spec fn data_entry_failure(key: Seq<char>, regions: Seq<(Seq<char>, MemorySizeView)>) -> Option<Seq<char>> {
    match address_value(key) {
        None => Some("无法解析内存数据地址 "@ + key + ": "@ + "Execution error: "@ + address_failure(key)),
        Some(a) => if in_fixed_mapping(a) || in_configured_region(a, regions) {
            None
        } else {
            Some("内存数据地址 "@ + key + " 不在任何合法的内存区域中。合法区域: "@ + bounds_list_text(legal_bounds(regions)))
        },
    }
}

/// The failure of the first memory data entry that has one.
pub open spec fn first_data_failure(
    data: Seq<(Seq<char>, Seq<char>)>,
    regions: Seq<(Seq<char>, MemorySizeView)>,
) -> Option<Seq<char>>
    decreases data.len(),
{
    if data.len() == 0 {
        None
    } else {
        match first_data_failure(data.drop_last(), regions) {
            Some(m) => Some(m),
            None => data_entry_failure(data.last().0, regions),
        }
    }
}

/// The message that validation gives, if it fails: the regions are read
/// first, then the data addresses, each in configuration order.
pub open spec fn validation_failure(cfg: ConfigView) -> Option<Seq<char>> {
    match cfg.memory_data {
        None => None,
        Some(data) => match first_region_failure(regions_of(cfg)) {
            Some(m) => Some(m),
            None => first_data_failure(data, regions_of(cfg)),
        },
    }
}

proof fn lemma_region_failure_prefix(regions: Seq<(Seq<char>, MemorySizeView)>, k: int)
    requires
        0 <= k <= regions.len(),
        first_region_failure(regions.take(k)) is Some,
    ensures
        first_region_failure(regions) == first_region_failure(regions.take(k)),
    decreases regions.len(),
{
    if k == regions.len() {
        assert(regions.take(k) =~= regions);
    } else {
        assert(regions.drop_last().take(k) =~= regions.take(k));
        lemma_region_failure_prefix(regions.drop_last(), k);
    }
}

proof fn lemma_data_failure_prefix(
    data: Seq<(Seq<char>, Seq<char>)>,
    regions: Seq<(Seq<char>, MemorySizeView)>,
    k: int,
)
    requires
        0 <= k <= data.len(),
        first_data_failure(data.take(k), regions) is Some,
    ensures
        first_data_failure(data, regions) == first_data_failure(data.take(k), regions),
    decreases data.len(),
{
    if k == data.len() {
        assert(data.take(k) =~= data);
    } else {
        assert(data.drop_last().take(k) =~= data.take(k));
        lemma_data_failure_prefix(data.drop_last(), regions, k);
    }
}

/// The legal areas' list text for the spans of the configured regions.
fn legal_bounds_text(spans: &Vec<(u64, u64)>) -> (r: Vec<char>)
    requires
        forall|k: int| 0 <= k < spans@.len() ==> spans@[k].0 + spans@[k].1 <= u64::MAX,
    ensures
        r@ == bounds_list_text(
            seq![
                (STACK_ADDRESS as nat, (STACK_ADDRESS + STACK_SIZE) as nat),
                (CODE_ADDRESS as nat, (CODE_ADDRESS + CODE_SIZE) as nat),
            ] + spans@.map_values(|p: (u64, u64)| (p.0 as nat, (p.0 + p.1) as nat)),
        ),
{
    let ghost want = seq![
        (STACK_ADDRESS as nat, (STACK_ADDRESS + STACK_SIZE) as nat),
        (CODE_ADDRESS as nat, (CODE_ADDRESS + CODE_SIZE) as nat),
    ] + spans@.map_values(|p: (u64, u64)| (p.0 as nat, (p.0 + p.1) as nat));
    let mut bounds: Vec<(u64, u64)> = Vec::new();
    bounds.push((STACK_ADDRESS, STACK_ADDRESS + STACK_SIZE));
    bounds.push((CODE_ADDRESS, CODE_ADDRESS + CODE_SIZE));
    let mut i: usize = 0;
    while i < spans.len()
        invariant
            i <= spans@.len(),
            forall|k: int| 0 <= k < spans@.len() ==> spans@[k].0 + spans@[k].1 <= u64::MAX,
            want.len() == spans@.len() + 2,
            want == seq![
                (STACK_ADDRESS as nat, (STACK_ADDRESS + STACK_SIZE) as nat),
                (CODE_ADDRESS as nat, (CODE_ADDRESS + CODE_SIZE) as nat),
            ] + spans@.map_values(|p: (u64, u64)| (p.0 as nat, (p.0 + p.1) as nat)),
            bounds@.len() == i + 2,
            forall|k: int| 0 <= k < i + 2 ==> (#[trigger] bounds@[k].0 as nat, bounds@[k].1 as nat) == want[k],
        decreases spans@.len() - i,
    {
        let (a, z) = spans[i];
        bounds.push((a, a + z));
        assert(want[i + 2] == (a as nat, (a + z) as nat));
        i = i + 1;
    }
    let ghost bs = bounds@.map_values(|p: (u64, u64)| (p.0 as nat, p.1 as nat));
    assert(bs =~= want);
    let mut out: Vec<char> = crate::text::chars_of("[");
    let mut j: usize = 0;
    assert("["@ + bounds_items_text(bs.take(0)) =~= "["@);
    while j < bounds.len()
        invariant
            j <= bounds@.len(),
            bs == bounds@.map_values(|p: (u64, u64)| (p.0 as nat, p.1 as nat)),
            out@ == "["@ + bounds_items_text(bs.take(j as int)),
        decreases bounds@.len() - j,
    {
        let ghost before = out@;
        if j > 0 {
            crate::text::push_str(&mut out, ", ");
        }
        let ghost mid = out@;
        let (a, b) = bounds[j];
        crate::text::push_str(&mut out, "(");
        let da = crate::numeric::format_decimal(a);
        crate::text::push_all(&mut out, da.as_slice());
        crate::text::push_str(&mut out, ", ");
        let db = crate::numeric::format_decimal(b);
        crate::text::push_all(&mut out, db.as_slice());
        crate::text::push_str(&mut out, ")");
        assert(bs.take(j + 1).drop_last() =~= bs.take(j as int));
        assert(bs[j as int] == (a as nat, b as nat));
        assert(out@ =~= mid + bounds_pair_text(bs[j as int]));
        if j > 0 {
            assert(bounds_items_text(bs.take(j + 1)) == bounds_items_text(bs.take(j as int)) + ", "@ + bounds_pair_text(bs[j as int]));
        } else {
            assert(bounds_items_text(bs.take(1)) == bounds_pair_text(bs[0]));
        }
        j = j + 1;
        assert(out@ =~= "["@ + bounds_items_text(bs.take(j as int)));
    }
    assert(bs.take(j as int) =~= bs);
    crate::text::push_str(&mut out, "]");
    assert(out@ =~= bounds_list_text(bs));
    out
}

/// Checks that every memory data address lies in a mapped region.
pub fn validate_memory_data_addresses(config: &AsmTestConfig) -> (r: Result<(), AsmTestError>)
    requires
        config@.memory_data is Some ==> region_ends_fit(regions_of(config@)),
    ensures
        r is Ok <==> memory_data_addresses_valid(config@),
        match r {
            Ok(_) => validation_failure(config@) is None,
            Err(e) => validation_failure(config@) matches Some(m) && e matches AsmTestError::Execution(d) && d@ == m,
        },
{
    let data = match &config.memory_data {
        Some(d) => d,
        None => {
            return Ok(());
        },
    };
    let ghost regions = regions_of(config@);
    let mut spans: Vec<(u64, u64)> = Vec::new();
    match &config.memory_regions {
        Some(m) => {
            let mut i: usize = 0;
            assert(m@.take(0) =~= Seq::<(Seq<char>, MemorySizeView)>::empty());
            while i < m.len()
                invariant
                    i <= m@.len(),
                    regions == m@,
                    regions == regions_of(config@),
                    config@.memory_data is Some,
                    region_ends_fit(regions),
                    spans@.len() == i,
                    forall|k: int| 0 <= k < i ==> #[trigger] region_span(regions[k]) == Some(spans@[k]),
                    first_region_failure(regions.take(i as int)) is None,
                decreases m@.len() - i,
            {
                let (key, size) = m.entry(i);
                assert(regions.take(i + 1).drop_last() =~= regions.take(i as int));
                assert(regions.take(i + 1).last() == regions[i as int]);
                let start = match parse_hex_address(key.as_str()) {
                    Ok(a) => a,
                    Err(e) => {
                        let kc = crate::text::chars_of(key.as_str());
                        let why = e.message();
                        proof {
                            lemma_region_failure_prefix(regions, i + 1);
                        }
                        return Err(AsmTestError::Execution(crate::error::describe_failure("无法解析内存区域地址 ", kc.as_slice(), why.as_str())));
                    },
                };
                let z = match size {
                    crate::types::MemorySize::Number(n) => *n,
                    crate::types::MemorySize::HexString(h) => {
                        let hc = crate::text::chars_of(h.as_str());
                        match address_of_chars(hc.as_slice()) {
                            Some(v) => v,
                            None => {
                                proof {
                                    lemma_region_failure_prefix(regions, i + 1);
                                }
                                return Err(AsmTestError::Execution(crate::error::describe("无法解析内存区域大小: ", hc.as_slice())));
                            },
                        }
                    },
                };
                assert(region_span(regions[i as int]) == Some((start, z)));
                spans.push((start, z));
                i = i + 1;
            }
            assert(regions.take(i as int) =~= regions);
        },
        None => {},
    }
    assert(first_region_failure(regions) is None);
    assert(forall|k: int| 0 <= k < regions.len() ==> #[trigger] region_span(regions[k]) is Some);
    let ghost dv = data@;
    let mut j: usize = 0;
    assert(dv.take(0) =~= Seq::<(Seq<char>, Seq<char>)>::empty());
    while j < data.len()
        invariant
            j <= data@.len(),
            dv == data@,
            config@.memory_data == Some(data@),
            regions == regions_of(config@),
            first_region_failure(regions) is None,
            spans@.len() == regions.len(),
            region_ends_fit(regions),
            forall|k: int| 0 <= k < regions.len() ==> #[trigger] region_span(regions[k]) == Some(spans@[k]),
            first_data_failure(dv.take(j as int), regions) is None,
        decreases data@.len() - j,
    {
        let (key, _value) = data.entry(j);
        assert(dv.take(j + 1).drop_last() =~= dv.take(j as int));
        assert(dv.take(j + 1).last() == dv[j as int]);
        match check_data_address(key.as_str(), &spans, Ghost(regions)) {
            Ok(()) => {},
            Err(m) => {
                proof {
                    lemma_data_failure_prefix(dv, regions, j + 1);
                    lemma_data_failures(dv, regions);
                    lemma_region_failures(regions);
                }
                return Err(AsmTestError::Execution(m));
            },
        }
        j = j + 1;
    }
    assert(dv.take(j as int) =~= dv);
    proof {
        lemma_data_failures(dv, regions);
        lemma_region_failures(regions);
    }
    Ok(())
}

/// Whether a data entry of the memory data lies in a legal area; where it
/// does not, the message why.
fn check_data_address(key: &str, spans: &Vec<(u64, u64)>, regions: Ghost<Seq<(Seq<char>, MemorySizeView)>>) -> (r: Result<(), String>)
    requires
        spans@.len() == regions@.len(),
        region_ends_fit(regions@),
        forall|k: int| 0 <= k < regions@.len() ==> #[trigger] region_span(regions@[k]) == Some(spans@[k]),
    ensures
        match r {
            Ok(_) => data_entry_failure(key@, regions@) is None,
            Err(m) => data_entry_failure(key@, regions@) == Some(m@),
        },
{
    let ghost regions = regions@;
    let kc = crate::text::chars_of(key);
    let a = match parse_hex_address(key) {
        Ok(a) => a,
        Err(e) => {
            let why = e.message();
            return Err(crate::error::describe_failure("无法解析内存数据地址 ", kc.as_slice(), why.as_str()));
        },
    };
    let mut valid = (STACK_ADDRESS <= a && a < STACK_ADDRESS + STACK_SIZE) || (CODE_ADDRESS <= a && a < CODE_ADDRESS + CODE_SIZE);
    let mut k: usize = 0;
    while k < spans.len() && !valid
        invariant
            k <= spans@.len(),
            spans@.len() == regions.len(),
            region_ends_fit(regions),
            forall|t: int| 0 <= t < regions.len() ==> #[trigger] region_span(regions[t]) == Some(spans@[t]),
            valid == (in_fixed_mapping(a) || exists|t: int| 0 <= t < k && in_span(a, spans@[t].0, spans@[t].1)),
        decreases spans@.len() - k,
    {
        let (start, z) = spans[k];
        assert(region_span(regions[k as int]) == Some((start, z)));
        assert(start + z <= u64::MAX);
        if start <= a && a < start + z {
            valid = true;
        }
        k = k + 1;
    }
    proof {
        if valid && !in_fixed_mapping(a) {
            let t = choose|t: int| 0 <= t < k && in_span(a, spans@[t].0, spans@[t].1);
            assert(region_span(regions[t]) == Some(spans@[t]));
        }
        if !valid {
            assert forall|t: int| 0 <= t < regions.len() implies !(match #[trigger] region_span(regions[t]) {
                Some((s0, z0)) => in_span(a, s0, z0),
                None => false,
            }) by {
                assert(region_span(regions[t]) == Some(spans@[t]));
            }
        }
    }
    if valid {
        return Ok(());
    }
    proof {
        assert forall|t: int| 0 <= t < spans@.len() implies spans@[t].0 + spans@[t].1 <= u64::MAX by {
            assert(region_span(regions[t]) == Some(spans@[t]));
        }
    }
    let list = legal_bounds_text(spans);
    proof {
        assert(spans@.map_values(|p: (u64, u64)| (p.0 as nat, (p.0 + p.1) as nat)) =~= regions.map_values(
            |r: (Seq<char>, MemorySizeView)|
                ((region_span(r)->0).0 as nat, ((region_span(r)->0).0 + (region_span(r)->0).1) as nat),
        )) by {
            assert forall|t: int| 0 <= t < spans@.len() implies region_span(regions[t]) == Some(spans@[t]) by {}
        }
    }
    let mut msg = crate::text::chars_of("内存数据地址 ");
    crate::text::push_all(&mut msg, kc.as_slice());
    crate::text::push_str(&mut msg, " 不在任何合法的内存区域中。合法区域: ");
    crate::text::push_all(&mut msg, list.as_slice());
    Err(crate::text::string_of(msg.as_slice()))
}

/// No data entry fails exactly when every data address parses and lies in
/// a legal area.
proof fn lemma_data_failures(data: Seq<(Seq<char>, Seq<char>)>, regions: Seq<(Seq<char>, MemorySizeView)>)
    ensures
        (first_data_failure(data, regions) is None) <==> forall|q: int|
            0 <= q < data.len() ==> match #[trigger] address_value(data[q].0) {
                Some(a) => in_fixed_mapping(a) || in_configured_region(a, regions),
                None => false,
            },
    decreases data.len(),
{
    if data.len() > 0 {
        let d = data.drop_last();
        lemma_data_failures(d, regions);
        let last = data.len() - 1;
        assert(data.last() == data[last]);
        let ok = |q: int| match address_value(data[q].0) {
            Some(a) => in_fixed_mapping(a) || in_configured_region(a, regions),
            None => false,
        };
        assert((data_entry_failure(data[last].0, regions) is None) == ok(last));
        if first_data_failure(data, regions) is None {
            assert forall|q: int| 0 <= q < data.len() implies match #[trigger] address_value(data[q].0) {
                Some(a) => in_fixed_mapping(a) || in_configured_region(a, regions),
                None => false,
            } by {
                if q < last {
                    assert(d[q] == data[q]);
                    assert(address_value(d[q].0) == address_value(data[q].0));
                }
            }
        } else {
            if first_data_failure(d, regions) is Some {
                let q = choose|q: int| 0 <= q < d.len() && !(match #[trigger] address_value(d[q].0) {
                    Some(a) => in_fixed_mapping(a) || in_configured_region(a, regions),
                    None => false,
                });
                assert(d[q] == data[q]);
                assert(!ok(q));
            } else {
                assert(!ok(last));
            }
        }
    }
}

/// No region entry fails exactly when every region's address and size parse.
proof fn lemma_region_failures(regions: Seq<(Seq<char>, MemorySizeView)>)
    ensures
        (first_region_failure(regions) is None) <==> forall|i: int|
            0 <= i < regions.len() ==> #[trigger] region_span(regions[i]) is Some,
    decreases regions.len(),
{
    if regions.len() > 0 {
        let d = regions.drop_last();
        lemma_region_failures(d);
        let last = regions.len() - 1;
        assert(regions.last() == regions[last]);
        assert((region_entry_failure(regions[last]) is None) == (region_span(regions[last]) is Some));
        if first_region_failure(regions) is None {
            assert forall|q: int| 0 <= q < regions.len() implies #[trigger] region_span(regions[q]) is Some by {
                if q < last {
                    assert(d[q] == regions[q]);
                }
            }
        } else {
            if first_region_failure(d) is Some {
                let q = choose|q: int| 0 <= q < d.len() && !(#[trigger] region_span(d[q]) is Some);
                assert(d[q] == regions[q]);
            }
        }
    }
}

/// The regions to map, in configuration order: every region whose address
/// and size parse (the others are skipped).
pub open spec fn region_requests(regions: Seq<(Seq<char>, MemorySizeView)>) -> Seq<(u64, u64)>
    decreases regions.len(),
{
    if regions.len() == 0 {
        Seq::empty()
    } else {
        let before = region_requests(regions.drop_last());
        match region_span(regions.last()) {
            Some(span) => before.push(span),
            None => before,
        }
    }
}

/// The `(address, size)` of every configured region to map.
pub fn memory_region_requests(config: &AsmTestConfig) -> (r: Vec<(u64, u64)>)
    ensures
        r@ == region_requests(regions_of(config@)),
{
    let mut out: Vec<(u64, u64)> = Vec::new();
    match &config.memory_regions {
        Some(m) => {
            let ghost regions = m@;
            let mut i: usize = 0;
            while i < m.len()
                invariant
                    i <= m@.len(),
                    regions == m@,
                    out@ == region_requests(regions.take(i as int)),
                decreases m@.len() - i,
            {
                assert(regions.take(i + 1).drop_last() =~= regions.take(i as int));
                let (key, size) = m.entry(i);
                let kc = crate::text::chars_of(key.as_str());
                let start = address_of_chars(kc.as_slice());
                let z = match size {
                    crate::types::MemorySize::Number(n) => Some(*n),
                    crate::types::MemorySize::HexString(h) => {
                        let hc = crate::text::chars_of(h.as_str());
                        address_of_chars(hc.as_slice())
                    },
                };
                match (start, z) {
                    (Some(a), Some(n)) => out.push((a, n)),
                    _ => {},
                }
                i = i + 1;
            }
            assert(regions.take(m@.len() as int) =~= regions);
        },
        None => {},
    }
    out
}

/// Index of the first mapped region that contains `addr`.
pub open spec fn region_for(addr: u64, mapped: Seq<(u64, u64)>) -> Option<int>
    decreases mapped.len(),
{
    if mapped.len() == 0 {
        None
    } else {
        match region_for(addr, mapped.drop_last()) {
            Some(i) => Some(i),
            None => if in_span(addr, mapped.last().0, mapped.last().1) {
                Some(mapped.len() - 1)
            } else {
                None
            },
        }
    }
}

/// A write of bytes at an offset into a mapped region.
pub struct MemoryWrite {
    /// Index of the region among the mapped ones.
    pub region: usize,
    /// Offset from the region's start.
    pub offset: u64,
    /// The bytes to write.
    pub bytes: Vec<u8>,
}

/// The write a memory data entry asks for, if its address parses, lies in a
/// mapped region, its data parses and fits in that region.
pub open spec fn planned_write(entry: (Seq<char>, Seq<char>), mapped: Seq<(u64, u64)>) -> Option<(int, u64, Seq<u8>)> {
    match address_value(entry.0) {
        None => None,
        Some(a) => match region_for(a, mapped) {
            None => None,
            Some(i) => match hex_data_bytes(entry.1) {
                None => None,
                Some(b) => {
                    let off = (a - mapped[i].0) as u64;
                    if off + b.len() > mapped[i].1 {
                        None
                    } else {
                        Some((i, off, b))
                    }
                },
            },
        },
    }
}

/// The writes for all memory data entries, in order, skipping entries that
/// ask for none.
pub open spec fn planned_writes(data: Seq<(Seq<char>, Seq<char>)>, mapped: Seq<(u64, u64)>) -> Seq<(int, u64, Seq<u8>)>
    decreases data.len(),
{
    if data.len() == 0 {
        Seq::empty()
    } else {
        let before = planned_writes(data.drop_last(), mapped);
        match planned_write(data.last(), mapped) {
            Some(w) => before.push(w),
            None => before,
        }
    }
}

/// What a [`MemoryWrite`] holds.
pub open spec fn write_view(w: MemoryWrite) -> (int, u64, Seq<u8>) {
    (w.region as int, w.offset, w.bytes@)
}

/// The memory data entries of a configuration (none when absent).
pub open spec fn data_of(cfg: ConfigView) -> Seq<(Seq<char>, Seq<char>)> {
    match cfg.memory_data {
        Some(d) => d,
        None => Seq::empty(),
    }
}

/// First mapped region containing `addr`.
pub fn find_region(addr: u64, mapped: &Vec<(u64, u64)>) -> (r: Option<usize>)
    requires
        forall|i: int| 0 <= i < mapped@.len() ==> #[trigger] mapped@[i].0 + mapped@[i].1 <= u64::MAX,
    ensures
        match r {
            Some(i) => region_for(addr, mapped@) == Some(i as int),
            None => region_for(addr, mapped@) is None,
        },
{
    let mut i: usize = 0;
    while i < mapped.len()
        invariant
            i <= mapped@.len(),
            forall|k: int| 0 <= k < mapped@.len() ==> #[trigger] mapped@[k].0 + mapped@[k].1 <= u64::MAX,
            region_for(addr, mapped@.take(i as int)) is None,
        decreases mapped@.len() - i,
    {
        let (start, z) = mapped[i];
        assert(mapped@.take(i + 1).drop_last() =~= mapped@.take(i as int));
        if start <= addr && addr < start + z {
            assert(region_for(addr, mapped@.take(i + 1)) == Some(i as int));
            proof {
                lemma_region_for_prefix(addr, mapped@, i as int + 1);
            }
            return Some(i);
        }
        i = i + 1;
    }
    assert(mapped@.take(mapped@.len() as int) =~= mapped@);
    None
}

/// The region found for an address contains it.
pub proof fn lemma_region_for_contains(addr: u64, mapped: Seq<(u64, u64)>)
    ensures
        region_for(addr, mapped) matches Some(i) ==> 0 <= i < mapped.len() && in_span(addr, mapped[i].0, mapped[i].1),
    decreases mapped.len(),
{
    if mapped.len() > 0 {
        lemma_region_for_contains(addr, mapped.drop_last());
    }
}

/// A region found in a prefix is the region found in the whole sequence.
proof fn lemma_region_for_prefix(addr: u64, mapped: Seq<(u64, u64)>, n: int)
    requires
        0 <= n <= mapped.len(),
        region_for(addr, mapped.take(n)) is Some,
    ensures
        region_for(addr, mapped) == region_for(addr, mapped.take(n)),
    decreases mapped.len(),
{
    if n == mapped.len() {
        assert(mapped.take(n) =~= mapped);
    } else {
        assert(mapped.drop_last().take(n) =~= mapped.take(n));
        lemma_region_for_prefix(addr, mapped.drop_last(), n);
    }
}

/// The writes that fill the mapped regions with the configured memory data.
pub fn plan_memory_writes(config: &AsmTestConfig, mapped: &Vec<(u64, u64)>) -> (r: Vec<MemoryWrite>)
    requires
        forall|i: int| 0 <= i < mapped@.len() ==> #[trigger] mapped@[i].0 + mapped@[i].1 <= u64::MAX,
    ensures
        r@.map_values(|w: MemoryWrite| write_view(w)) == planned_writes(data_of(config@), mapped@),
{
    let mut out: Vec<MemoryWrite> = Vec::new();
    match &config.memory_data {
        Some(m) => {
            let ghost data = m@;
            let mut i: usize = 0;
            while i < m.len()
                invariant
                    i <= m@.len(),
                    data == m@,
                    forall|k: int| 0 <= k < mapped@.len() ==> #[trigger] mapped@[k].0 + mapped@[k].1 <= u64::MAX,
                    out@.map_values(|w: MemoryWrite| write_view(w)) == planned_writes(data.take(i as int), mapped@),
                decreases m@.len() - i,
            {
                assert(data.take(i + 1).drop_last() =~= data.take(i as int));
                let ghost before = out@.map_values(|w: MemoryWrite| write_view(w));
                let (key, value) = m.entry(i);
                let kc = crate::text::chars_of(key.as_str());
                if let Some(a) = address_of_chars(kc.as_slice()) {
                    if let Some(ri) = find_region(a, mapped) {
                        proof {
                            lemma_region_for_contains(a, mapped@);
                        }
                        let (start, z) = mapped[ri];
                        if let Ok(bytes) = parse_hex_string_detailed(value.as_str()) {
                            let off = a - start;
                            if bytes.len() as u64 <= z && off <= z - bytes.len() as u64 {
                                let ghost bv = bytes@;
                                out.push(MemoryWrite { region: ri, offset: off, bytes });
                                assert(out@.map_values(|w: MemoryWrite| write_view(w)) =~= before.push(
                                    (ri as int, off, bv),
                                ));
                            }
                        }
                    }
                }
                i = i + 1;
            }
            assert(data.take(m@.len() as int) =~= data);
        },
        None => {},
    }
    out
}

/// Law: every planned memory write stays inside the mapped region it names,
/// and comes from a memory data entry whose address is that region's start
/// plus the write's offset and whose data are the bytes written.
pub proof fn law_planned_writes_in_bounds(data: Seq<(Seq<char>, Seq<char>)>, mapped: Seq<(u64, u64)>)
    ensures
        forall|k: int| 0 <= k < planned_writes(data, mapped).len() ==> {
            let w = #[trigger] planned_writes(data, mapped)[k];
            &&& 0 <= w.0 < mapped.len()
            &&& w.1 + w.2.len() <= mapped[w.0].1
            &&& exists|j: int| 0 <= j < data.len() && #[trigger] address_value(data[j].0) == Some((mapped[w.0].0 + w.1) as u64)
                && hex_data_bytes(data[j].1) == Some(w.2)
        },
    decreases data.len(),
{
    if data.len() > 0 {
        let init = data.drop_last();
        law_planned_writes_in_bounds(init, mapped);
        let before = planned_writes(init, mapped);
        let pw = planned_writes(data, mapped);
        assert forall|k: int| 0 <= k < pw.len() implies {
            let w = #[trigger] pw[k];
            &&& 0 <= w.0 < mapped.len()
            &&& w.1 + w.2.len() <= mapped[w.0].1
            &&& exists|j: int| 0 <= j < data.len() && #[trigger] address_value(data[j].0) == Some((mapped[w.0].0 + w.1) as u64)
                && hex_data_bytes(data[j].1) == Some(w.2)
        } by {
            let w = pw[k];
            if k < before.len() {
                assert(w == before[k]);
                let j = choose|j: int| 0 <= j < init.len() && #[trigger] address_value(init[j].0) == Some((mapped[w.0].0 + w.1) as u64)
                    && hex_data_bytes(init[j].1) == Some(w.2);
                assert(init[j] == data[j]);
            } else {
                let e = data.last();
                let a = address_value(e.0)->0;
                lemma_region_for_contains(a, mapped);
                assert(planned_write(e, mapped) == Some(w));
                assert(data[data.len() - 1] == e);
                assert(address_value(data[data.len() - 1].0) == Some((mapped[w.0].0 + w.1) as u64));
            }
        }
    }
}

/// A region entry whose span holds `addr` gives a region to map that the
/// lookup finds for `addr`.
proof fn lemma_configured_region_requested(addr: u64, regions: Seq<(Seq<char>, MemorySizeView)>, i: int)
    requires
        0 <= i < regions.len(),
        region_span(regions[i]) matches Some(span) && in_span(addr, span.0, span.1),
    ensures
        region_for(addr, region_requests(regions)) is Some,
    decreases regions.len(),
{
    let init = regions.drop_last();
    let before = region_requests(init);
    if i < regions.len() - 1 {
        assert(init[i] == regions[i]);
        lemma_configured_region_requested(addr, init, i);
        match region_span(regions.last()) {
            Some(span) => {
                assert(before.push(span).drop_last() =~= before);
            },
            None => {},
        }
    } else {
        let span = region_span(regions.last())->0;
        assert(before.push(span).drop_last() =~= before);
    }
}

/// Law: once the memory data addresses are validated, each lies in the
/// stack, in the code mapping, or in one of the regions requested for
/// mapping, where the lookup of the writes finds it.
pub proof fn law_valid_data_addresses_are_mapped(cfg: ConfigView)
    requires
        memory_data_addresses_valid(cfg),
        cfg.memory_data is Some,
    ensures
        forall|j: int| 0 <= j < data_of(cfg).len() ==> (#[trigger] address_value(data_of(cfg)[j].0) matches Some(a) && (
        in_fixed_mapping(a) || region_for(a, region_requests(regions_of(cfg))) is Some)),
{
    let data = data_of(cfg);
    let regions = regions_of(cfg);
    assert forall|j: int| 0 <= j < data.len() implies (#[trigger] address_value(data[j].0) matches Some(a) && (
    in_fixed_mapping(a) || region_for(a, region_requests(regions)) is Some)) by {
        let a = address_value(data[j].0)->0;
        if !in_fixed_mapping(a) {
            assert(in_configured_region(a, regions));
            let i = choose|i: int|
                0 <= i < regions.len() && match #[trigger] region_span(regions[i]) {
                    Some((s, z)) => in_span(a, s, z),
                    None => false,
                };
            lemma_configured_region_requested(a, regions, i);
        }
    }
}

/// The code a test runs up to its second breakpoint: the code without its
/// final `nop` (0x90), which the breakpoint replaces; all of it otherwise.
pub open spec fn code_before_end(code: Seq<u8>) -> Seq<u8> {
    if code.len() > 0 && code.last() == 0x90u8 {
        code.drop_last()
    } else {
        code
    }
}

/// The code image: a breakpoint, the code with its final `nop` replaced by
/// a second breakpoint (or followed by one when it does not end with a
/// `nop`), when the code and two breakpoints fit in the code mapping.
pub open spec fn code_image_of(code: Seq<u8>) -> Option<Seq<u8>> {
    if code.len() + 2 <= CODE_SIZE {
        Some(seq![0xCCu8] + code_before_end(code) + seq![0xCCu8])
    } else {
        None
    }
}

/// The bytes to load at [`CODE_ADDRESS`].
pub fn code_image(code: &[u8]) -> (r: Option<Vec<u8>>)
    ensures
        match r {
            Some(img) => code_image_of(code@) == Some(img@),
            None => code_image_of(code@) is None,
        },
{
    if code.len() > 4094 {
        return None;
    }
    let n: usize = if code.len() > 0 && code[code.len() - 1] == 0x90 {
        code.len() - 1
    } else {
        code.len()
    };
    assert(code@.take(n as int) =~= code_before_end(code@));
    let mut img: Vec<u8> = Vec::new();
    img.push(0xCC);
    let mut i: usize = 0;
    while i < n
        invariant
            i <= n <= code@.len(),
            img@ == seq![0xCCu8] + code@.take(i as int),
        decreases n - i,
    {
        img.push(code[i]);
        i = i + 1;
        assert(img@ =~= seq![0xCCu8] + code@.take(i as int));
    }
    img.push(0xCC);
    assert(img@ =~= seq![0xCCu8] + code_before_end(code@) + seq![0xCCu8]);
    Some(img)
}

} // verus!
