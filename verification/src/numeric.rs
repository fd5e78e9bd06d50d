//! Integer parsing with the grammar of `u64::from_str_radix` / `str::parse`
//! and lower-case hexadecimal formatting (`{:0Nx}`).
use vstd::prelude::*;

verus! {

/// Value of `c` as a digit in `radix` (`char::to_digit`).
pub open spec fn digit_value(c: char, radix: nat) -> Option<nat> {
    let v = c as u32;
    let d: int = if 0x30 <= v <= 0x39 {
        v - 0x30
    } else if 0x61 <= v <= 0x7A {
        v - 0x61 + 10
    } else if 0x41 <= v <= 0x5A {
        v - 0x41 + 10
    } else {
        radix as int
    };
    if 0 <= d < radix {
        Some(d as nat)
    } else {
        None
    }
}

/// Value of a digit string, most significant digit first; `None` when some
/// character is not a digit.
pub open spec fn digits_value(ds: Seq<char>, radix: nat) -> Option<nat>
    decreases ds.len(),
{
    if ds.len() == 0 {
        Some(0)
    } else {
        match (digits_value(ds.drop_last(), radix), digit_value(ds.last(), radix)) {
            (Some(hi), Some(lo)) => Some(hi * radix + lo),
            _ => None,
        }
    }
}

/// Unsigned parsing as `from_str_radix` does it for an unsigned type whose
/// largest value is `max`: an optional leading `'+'`, then at least one digit,
/// and no overflow.
pub open spec fn parse_unsigned(s: Seq<char>, radix: nat, max: nat) -> Option<nat> {
    if s.len() == 0 {
        None
    } else {
        let ds = if s[0] == '+' {
            s.drop_first()
        } else {
            s
        };
        if ds.len() == 0 {
            None
        } else {
            match digits_value(ds, radix) {
                Some(v) => if v <= max {
                    Some(v)
                } else {
                    None
                },
                None => None,
            }
        }
    }
}

/// `u64::from_str_radix(s, radix).ok()`.
pub open spec fn parse_u64_spec(s: Seq<char>, radix: nat) -> Option<u64> {
    match parse_unsigned(s, radix, u64::MAX as nat) {
        Some(v) => Some(v as u64),
        None => None,
    }
}

/// `u8::from_str_radix(s, radix).ok()`.
pub open spec fn parse_u8_spec(s: Seq<char>, radix: nat) -> Option<u8> {
    match parse_unsigned(s, radix, u8::MAX as nat) {
        Some(v) => Some(v as u8),
        None => None,
    }
}

proof fn lemma_take_step(ds: Seq<char>, k: int)
    requires
        0 <= k < ds.len(),
    ensures
        ds.take(k + 1).drop_last() == ds.take(k),
        ds.take(k + 1).last() == ds[k],
{
    assert(ds.take(k + 1).drop_last() =~= ds.take(k));
}

proof fn lemma_digits_invalid(ds: Seq<char>, radix: nat, k: int)
    requires
        0 <= k < ds.len(),
        digit_value(ds[k], radix) is None,
    ensures
        digits_value(ds, radix) is None,
    decreases ds.len(),
{
    if k < ds.len() - 1 {
        lemma_digits_invalid(ds.drop_last(), radix, k);
    }
}

proof fn lemma_digits_prefix_le(ds: Seq<char>, radix: nat, k: int)
    requires
        0 <= k <= ds.len(),
        digits_value(ds, radix) is Some,
    ensures
        digits_value(ds.take(k), radix) is Some,
        digits_value(ds.take(k), radix)->0 <= digits_value(ds, radix)->0,
    decreases ds.len(),
{
    if k == ds.len() {
        assert(ds.take(k) =~= ds);
    } else {
        let hi = digits_value(ds.drop_last(), radix)->0;
        let lo = digit_value(ds.last(), radix)->0;
        lemma_digits_prefix_le(ds.drop_last(), radix, k);
        assert(ds.drop_last().take(k) =~= ds.take(k));
        assert(hi <= hi * radix + lo) by (nonlinear_arith)
            requires
                radix >= 1,
        {
        }
    }
}

/// Value of the character as a digit in `radix`.
pub fn digit_of(c: char, radix: u32) -> (r: Option<u64>)
    requires
        2 <= radix <= 36,
    ensures
        match r {
            Some(d) => digit_value(c, radix as nat) == Some(d as nat),
            None => digit_value(c, radix as nat) is None,
        },
{
    let v = c as u32;
    let d: u32 = if 0x30 <= v && v <= 0x39 {
        v - 0x30
    } else if 0x61 <= v && v <= 0x7A {
        v - 0x61 + 10
    } else if 0x41 <= v && v <= 0x5A {
        v - 0x41 + 10
    } else {
        radix
    };
    if d < radix {
        Some(d as u64)
    } else {
        None
    }
}

/// `from_str_radix` for an unsigned type with largest value `max`.
pub fn parse_unsigned_exec(s: &[char], radix: u32, max: u64) -> (r: Option<u64>)
    requires
        2 <= radix <= 36,
        max >= 36,
    ensures
        match r {
            Some(v) => parse_unsigned(s@, radix as nat, max as nat) == Some(v as nat),
            None => parse_unsigned(s@, radix as nat, max as nat) is None,
        },
{
    let n = s.len();
    if n == 0 {
        return None;
    }
    let start: usize = if s[0] == '+' {
        1
    } else {
        0
    };
    let ghost ds = if s@[0] == '+' {
        s@.drop_first()
    } else {
        s@
    };
    assert(ds =~= s@.subrange(start as int, n as int));
    if start == n {
        return None;
    }
    let mut acc: u64 = 0;
    let mut i: usize = start;
    assert(ds.take(0) =~= Seq::<char>::empty());
    while i < n
        invariant
            2 <= radix <= 36,
            max >= 36,
            start <= i <= n == s@.len(),
            ds == s@.subrange(start as int, n as int),
            ds == (if s@[0] == '+' { s@.drop_first() } else { s@ }),
            ds.len() > 0,
            acc <= max,
            digits_value(ds.take(i - start), radix as nat) == Some(acc as nat),
        decreases n - i,
    {
        let ghost k: int = i - start;
        proof {
            lemma_take_step(ds, k);
        }
        match digit_of(s[i], radix) {
            None => {
                proof {
                    lemma_digits_invalid(ds, radix as nat, k);
                    assert(digits_value(ds, radix as nat) is None);
                    assert(ds.len() > 0);
                    assert(parse_unsigned(s@, radix as nat, max as nat) is None);
                }
                return None;
            },
            Some(d) => {
                if acc > (max - d) / (radix as u64) {
                    proof {
                        let r = radix as int;
                        assert(digits_value(ds.take(k + 1), radix as nat) == Some((acc * r + d) as nat));
                        assert(acc * r + d > max) by (nonlinear_arith)
                            requires
                                acc > (max - d) / r,
                                r >= 2,
                                d <= max,
                        {
                        }
                        if digits_value(ds, radix as nat) is Some {
                            lemma_digits_prefix_le(ds, radix as nat, k + 1);
                        }
                    }
                    return None;
                }
                proof {
                    let r = radix as int;
                    assert(acc * r + d <= max) by (nonlinear_arith)
                        requires
                            acc <= (max - d) / r,
                            r >= 2,
                            d <= max,
                    {
                    }
                }
                acc = acc * (radix as u64) + d;
                i = i + 1;
                assert(digits_value(ds.take(i - start), radix as nat) == Some(acc as nat));
            },
        }
    }
    assert(ds.take(n - start) =~= ds);
    assert(ds.len() > 0);
    Some(acc)
}

/// `u64::from_str_radix(s, radix).ok()`.
pub fn parse_u64(s: &[char], radix: u32) -> (r: Option<u64>)
    requires
        2 <= radix <= 36,
    ensures
        r == parse_u64_spec(s@, radix as nat),
{
    parse_unsigned_exec(s, radix, u64::MAX)
}

/// `u8::from_str_radix(s, radix).ok()`.
pub fn parse_u8(s: &[char], radix: u32) -> (r: Option<u8>)
    requires
        2 <= radix <= 36,
    ensures
        r == parse_u8_spec(s@, radix as nat),
{
    match parse_unsigned_exec(s, radix, 255) {
        Some(v) => Some(v as u8),
        None => None,
    }
}

// ---------------------------------------------------------------------------
// Hexadecimal formatting
// ---------------------------------------------------------------------------

/// The lower-case hexadecimal digit for `d < 16`.
pub open spec fn hex_char(d: nat) -> char {
    seq!['0', '1', '2', '3', '4', '5', '6', '7', '8', '9', 'a', 'b', 'c', 'd', 'e', 'f'][d as int]
}

/// Digits of `v` in `radix` (at most 16), most significant first, lower-case,
/// without leading zeros (`"0"` for 0).
pub open spec fn radix_digits(v: nat, radix: nat) -> Seq<char>
    recommends
        2 <= radix <= 16,
    decreases v,
{
    if v < radix || radix < 2 {
        seq![hex_char(v)]
    } else {
        proof {
            assert(v / radix < v) by (nonlinear_arith)
                requires
                    v >= radix >= 2,
            ;
        }
        radix_digits(v / radix, radix).push(hex_char(v % radix))
    }
}

/// Lower-case hexadecimal digits of `v` without leading zeros (`"0"` for 0).
pub open spec fn hex_digits(v: nat) -> Seq<char> {
    radix_digits(v, 16)
}

/// Decimal digits of `v` (`format!("{}", v)`).
pub open spec fn decimal_digits(v: nat) -> Seq<char> {
    radix_digits(v, 10)
}

/// `n` copies of `'0'`.
pub open spec fn zeros(n: nat) -> Seq<char> {
    Seq::new(n, |i: int| '0')
}

/// `s` left-padded with `'0'` to at least `width` characters.
pub open spec fn zero_pad(s: Seq<char>, width: nat) -> Seq<char> {
    if s.len() < width {
        zeros((width - s.len()) as nat) + s
    } else {
        s
    }
}

/// `format!("{:0width$x}", v)`.
pub open spec fn hex_padded(v: nat, width: nat) -> Seq<char> {
    zero_pad(hex_digits(v), width)
}

/// Exec form of [`hex_char`].
pub fn hex_char_of(d: u64) -> (c: char)
    requires
        d < 16,
    ensures
        c == hex_char(d as nat),
{
    if d == 0 { '0' } else if d == 1 { '1' } else if d == 2 { '2' } else if d == 3 { '3' }
    else if d == 4 { '4' } else if d == 5 { '5' } else if d == 6 { '6' } else if d == 7 { '7' }
    else if d == 8 { '8' } else if d == 9 { '9' } else if d == 10 { 'a' } else if d == 11 { 'b' }
    else if d == 12 { 'c' } else if d == 13 { 'd' } else if d == 14 { 'e' } else { 'f' }
}

/// Exec form of [`radix_digits`].
pub fn radix_digits_of(v: u64, radix: u64) -> (r: Vec<char>)
    requires
        2 <= radix <= 16,
    ensures
        r@ == radix_digits(v as nat, radix as nat),
    decreases v,
{
    if v < radix {
        let mut r = Vec::new();
        r.push(hex_char_of(v));
        r
    } else {
        assert(v / radix < v) by (nonlinear_arith)
            requires
                v >= radix >= 2,
        ;
        let mut r = radix_digits_of(v / radix, radix);
        r.push(hex_char_of(v % radix));
        r
    }
}

/// `format!("{}", v)`.
pub fn format_decimal(v: u64) -> (r: Vec<char>)
    ensures
        r@ == decimal_digits(v as nat),
{
    radix_digits_of(v, 10)
}

/// `format!("{:0width$x}", v)`.
pub fn format_hex(v: u64, width: usize) -> (r: Vec<char>)
    ensures
        r@ == hex_padded(v as nat, width as nat),
{
    let digits = radix_digits_of(v, 16);
    let mut r: Vec<char> = Vec::new();
    if digits.len() < width {
        let pad = width - digits.len();
        let mut i: usize = 0;
        while i < pad
            invariant
                i <= pad,
                r@ == zeros(i as nat),
            decreases pad - i,
        {
            r.push('0');
            i = i + 1;
            assert(r@ =~= zeros(i as nat));
        }
    }
    let ghost r0 = r@;
    crate::text::push_all(&mut r, digits.as_slice());
    proof {
        if digits@.len() >= width {
            assert(r0 =~= Seq::<char>::empty());
            assert(r@ =~= digits@);
        }
    }
    r
}

/// `"0x"` followed by `format!("{:0width$x}", v)`.
pub open spec fn hex_literal(v: nat, width: nat) -> Seq<char> {
    seq!['0', 'x'] + hex_padded(v, width)
}

/// `format!("0x{:0width$x}", v)`.
pub fn format_hex_literal(v: u64, width: usize) -> (r: Vec<char>)
    ensures
        r@ == hex_literal(v as nat, width as nat),
{
    let mut r: Vec<char> = Vec::new();
    r.push('0');
    r.push('x');
    let h = format_hex(v, width);
    crate::text::push_all(&mut r, h.as_slice());
    assert(r@ =~= hex_literal(v as nat, width as nat));
    r
}

/// A lower-case hex digit reads back as its value in any radix above it.
pub proof fn lemma_hex_char_digit(d: nat, radix: nat)
    requires
        d < radix <= 16,
    ensures
        digit_value(hex_char(d), radix) == Some(d),
{
    let hs = seq!['0', '1', '2', '3', '4', '5', '6', '7', '8', '9', 'a', 'b', 'c', 'd', 'e', 'f'];
    assert(hex_char(d) == hs[d as int]);
    if d == 0 { assert(hs[0] == '0'); }
    else if d == 1 { assert(hs[1] == '1'); }
    else if d == 2 { assert(hs[2] == '2'); }
    else if d == 3 { assert(hs[3] == '3'); }
    else if d == 4 { assert(hs[4] == '4'); }
    else if d == 5 { assert(hs[5] == '5'); }
    else if d == 6 { assert(hs[6] == '6'); }
    else if d == 7 { assert(hs[7] == '7'); }
    else if d == 8 { assert(hs[8] == '8'); }
    else if d == 9 { assert(hs[9] == '9'); }
    else if d == 10 { assert(hs[10] == 'a'); }
    else if d == 11 { assert(hs[11] == 'b'); }
    else if d == 12 { assert(hs[12] == 'c'); }
    else if d == 13 { assert(hs[13] == 'd'); }
    else if d == 14 { assert(hs[14] == 'e'); }
    else { assert(hs[15] == 'f'); }
}

/// The digits of `v` read back as `v`.
pub proof fn lemma_radix_digits_value(v: nat, radix: nat)
    requires
        2 <= radix <= 16,
    ensures
        digits_value(radix_digits(v, radix), radix) == Some(v),
        radix_digits(v, radix).len() >= 1,
    decreases v,
{
    if v < radix {
        lemma_hex_char_digit(v, radix);
        let s = seq![hex_char(v)];
        assert(radix_digits(v, radix) == s);
        assert(s.drop_last() =~= Seq::<char>::empty());
        assert(digits_value(Seq::<char>::empty(), radix) == Some(0nat));
        assert(digits_value(s, radix) == Some(0 * radix + v));
    } else {
        assert(v / radix < v) by (nonlinear_arith)
            requires
                v >= radix >= 2,
        ;
        lemma_radix_digits_value(v / radix, radix);
        let hi = radix_digits(v / radix, radix);
        let s = hi.push(hex_char(v % radix));
        assert(v % radix < radix) by (nonlinear_arith)
            requires
                radix >= 2,
        ;
        lemma_hex_char_digit(v % radix, radix);
        assert(radix_digits(v, radix) == s);
        assert(s.drop_last() =~= hi);
        assert((v / radix) * radix + v % radix == v) by (nonlinear_arith)
            requires
                radix >= 2,
        ;
        assert(digits_value(s, radix) == Some((v / radix) * radix + v % radix));
    }
}

/// Leading zeros do not change the value of a digit string.
pub proof fn lemma_leading_zeros_value(n: nat, ds: Seq<char>, radix: nat)
    requires
        2 <= radix,
    ensures
        digits_value(zeros(n) + ds, radix) == digits_value(ds, radix),
    decreases ds.len(), n,
{
    if ds.len() == 0 {
        assert(zeros(n) + ds =~= zeros(n));
        if n > 0 {
            assert(zeros(n).drop_last() =~= zeros((n - 1) as nat));
            lemma_leading_zeros_value((n - 1) as nat, ds, radix);
            assert(zeros((n - 1) as nat) + ds =~= zeros((n - 1) as nat));
            assert(digit_value('0', radix) == Some(0nat));
            assert(zeros(n).last() == '0');
            assert(digits_value(zeros((n - 1) as nat), radix) == Some(0nat));
            assert(digits_value(zeros(n), radix) == Some(0 * radix + 0));
        } else {
            assert(zeros(n) =~= Seq::<char>::empty());
        }
    } else {
        lemma_leading_zeros_value(n, ds.drop_last(), radix);
        assert((zeros(n) + ds).drop_last() =~= zeros(n) + ds.drop_last());
        assert((zeros(n) + ds).last() == ds.last());
    }
}

/// A zero-padded hex rendering of a 64-bit value parses back to it.
pub proof fn lemma_hex_padded_parses(v: u64, width: nat)
    ensures
        parse_u64_spec(hex_padded(v as nat, width), 16) == Some(v),
        hex_padded(v as nat, width).len() >= 1,
        forall|i: int| 0 <= i < hex_padded(v as nat, width).len() ==> digit_value(#[trigger] hex_padded(v as nat, width)[i], 16) is Some,
{
    let ds = hex_digits(v as nat);
    lemma_radix_digits_value(v as nat, 16);
    let p = hex_padded(v as nat, width);
    if ds.len() < width {
        lemma_leading_zeros_value((width - ds.len()) as nat, ds, 16);
    }
    assert(digits_value(p, 16) == Some(v as nat));
    lemma_digits_all_valid(p, 16);
    assert(p[0] != '+') by {
        assert(digit_value(p[0], 16) is Some);
    }
}

/// Every character of a digit string with a value is a digit.
pub proof fn lemma_digits_all_valid(ds: Seq<char>, radix: nat)
    requires
        digits_value(ds, radix) is Some,
    ensures
        forall|i: int| 0 <= i < ds.len() ==> digit_value(#[trigger] ds[i], radix) is Some,
    decreases ds.len(),
{
    if ds.len() > 0 {
        lemma_digits_all_valid(ds.drop_last(), radix);
        assert forall|i: int| 0 <= i < ds.len() implies digit_value(#[trigger] ds[i], radix) is Some by {
            if i < ds.len() - 1 {
                assert(ds[i] == ds.drop_last()[i]);
            }
        }
    }
}


// ---------------------------------------------------------------------------
// Why a parse fails
// ---------------------------------------------------------------------------

/// Message of an empty input.
pub open spec fn empty_input_text() -> Seq<char> {
    "cannot parse integer from empty string"@
}

/// Message of a character that is not a digit.
pub open spec fn invalid_digit_text() -> Seq<char> {
    "invalid digit found in string"@
}

/// Message of a value above the type's largest.
pub open spec fn overflow_text() -> Seq<char> {
    "number too large to fit in target type"@
}

/// The first failure met reading the digits `ds` from the left: a character
/// that is not a digit, or a prefix whose value exceeds `max`.
pub open spec fn digits_failure(ds: Seq<char>, radix: nat, max: nat) -> Option<Seq<char>>
    decreases ds.len(),
{
    if ds.len() == 0 {
        None
    } else {
        match digits_failure(ds.drop_last(), radix, max) {
            Some(m) => Some(m),
            None => match (digits_value(ds.drop_last(), radix), digit_value(ds.last(), radix)) {
                (Some(hi), Some(lo)) => if hi * radix + lo > max {
                    Some(overflow_text())
                } else {
                    None
                },
                _ => Some(invalid_digit_text()),
            },
        }
    }
}

/// The message `from_str_radix` gives for an unsigned type whose largest
/// value is `max`, where [`parse_unsigned`] fails on `s`.
pub open spec fn parse_failure_text(s: Seq<char>, radix: nat, max: nat) -> Seq<char> {
    if s.len() == 0 {
        empty_input_text()
    } else {
        let ds = if s[0] == '+' {
            s.drop_first()
        } else {
            s
        };
        match digits_failure(ds, radix, max) {
            Some(m) => m,
            None => invalid_digit_text(),
        }
    }
}

proof fn lemma_failure_prefix(ds: Seq<char>, radix: nat, max: nat, k: int)
    requires
        0 <= k <= ds.len(),
        digits_failure(ds.take(k), radix, max) is Some,
    ensures
        digits_failure(ds, radix, max) == digits_failure(ds.take(k), radix, max),
    decreases ds.len(),
{
    if k == ds.len() {
        assert(ds.take(k) =~= ds);
    } else {
        assert(ds.drop_last().take(k) =~= ds.take(k));
        lemma_failure_prefix(ds.drop_last(), radix, max, k);
    }
}

/// The message of [`parse_failure_text`] for a `u64` in `radix`.
pub fn parse_u64_failure(s: &[char], radix: u32) -> (r: &'static str)
    requires
        2 <= radix <= 36,
        parse_u64_spec(s@, radix as nat) is None,
    ensures
        r@ == parse_failure_text(s@, radix as nat, u64::MAX as nat),
{
    let max: u64 = u64::MAX;
    let n = s.len();
    if n == 0 {
        return "cannot parse integer from empty string";
    }
    let start: usize = if s[0] == '+' {
        1
    } else {
        0
    };
    let ghost ds = if s@[0] == '+' {
        s@.drop_first()
    } else {
        s@
    };
    assert(ds =~= s@.subrange(start as int, n as int));
    let mut acc: u64 = 0;
    let mut i: usize = start;
    assert(ds.take(0) =~= Seq::<char>::empty());
    while i < n
        invariant
            2 <= radix <= 36,
            max == u64::MAX,
            start <= i <= n == s@.len(),
            ds == s@.subrange(start as int, n as int),
            ds == (if s@[0] == '+' { s@.drop_first() } else { s@ }),
            digits_value(ds.take(i - start), radix as nat) == Some(acc as nat),
            digits_failure(ds.take(i - start), radix as nat, max as nat) is None,
        decreases n - i,
    {
        let ghost k: int = i - start;
        proof {
            lemma_take_step(ds, k);
        }
        match digit_of(s[i], radix) {
            None => {
                proof {
                    assert(digits_failure(ds.take(k + 1), radix as nat, max as nat) == Some(invalid_digit_text()));
                    lemma_failure_prefix(ds, radix as nat, max as nat, k + 1);
                }
                return "invalid digit found in string";
            },
            Some(d) => {
                if acc > (max - d) / (radix as u64) {
                    proof {
                        let r = radix as int;
                        assert(acc * r + d > max) by (nonlinear_arith)
                            requires
                                acc > (max - d) / r,
                                r >= 2,
                                d <= max,
                        {
                        }
                        assert(digits_failure(ds.take(k + 1), radix as nat, max as nat) == Some(overflow_text()));
                        lemma_failure_prefix(ds, radix as nat, max as nat, k + 1);
                    }
                    return "number too large to fit in target type";
                }
                proof {
                    let r = radix as int;
                    assert(acc * r + d <= max) by (nonlinear_arith)
                        requires
                            acc <= (max - d) / r,
                            r >= 2,
                            d <= max,
                    {
                    }
                }
                acc = acc * (radix as u64) + d;
                i = i + 1;
                assert(digits_value(ds.take(i - start), radix as nat) == Some(acc as nat));
            },
        }
    }
    assert(ds.take(n - start) =~= ds);
    if start == n {
        return "invalid digit found in string";
    }
    proof {
        assert(parse_unsigned(s@, radix as nat, max as nat) == Some(acc as nat));
    }
    "invalid digit found in string"
}

} // verus!
