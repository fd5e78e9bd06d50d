//! Character-sequence utilities with the semantics of the `str` methods the
//! harness relies on (`trim`, `lines`, `split_whitespace`, `join`, integer
//! parsing and hexadecimal formatting), stated over `Seq<char>`.
use vstd::prelude::*;

verus! {

// ---------------------------------------------------------------------------
// Conversions between `str`/`String` and character vectors
// ---------------------------------------------------------------------------

/// Copies the characters of a string slice into a vector.
pub fn chars_of(s: &str) -> (r: Vec<char>)
    ensures
        r@ == s@,
{
    let mut r: Vec<char> = Vec::new();
    for c in it: s.chars()
        invariant
            r@ == it.seq().take(it.index()),
    {
        r.push(c);
    }
    r
}

/// Builds a `String` holding exactly the given characters
/// (std's `FromIterator<&char> for String`; vstd gives it no specification).
#[verifier::external_body]
pub(crate) fn string_of(chars: &[char]) -> (s: String)
    ensures
        s@ == chars@,
{
    chars.iter().collect()
}

/// Copies `s[from..to]` into a fresh vector.
pub fn slice_chars(s: &[char], from: usize, to: usize) -> (r: Vec<char>)
    requires
        from <= to <= s@.len(),
    ensures
        r@ == s@.subrange(from as int, to as int),
{
    let mut r: Vec<char> = Vec::new();
    let mut i = from;
    while i < to
        invariant
            from <= i <= to <= s@.len(),
            r@ == s@.subrange(from as int, i as int),
        decreases to - i,
    {
        r.push(s[i]);
        i = i + 1;
    }
    r
}

/// Appends all of `src` to `dst`.
pub fn push_all(dst: &mut Vec<char>, src: &[char])
    ensures
        final(dst)@ == old(dst)@ + src@,
{
    let ghost d0 = dst@;
    let mut i: usize = 0;
    while i < src.len()
        invariant
            i <= src@.len(),
            dst@ == d0 + src@.take(i as int),
        decreases src@.len() - i,
    {
        dst.push(src[i]);
        i = i + 1;
        assert(src@.take(i as int) =~= src@.take((i - 1) as int).push(src@[i - 1]));
    }
    assert(src@.take(src@.len() as int) =~= src@);
}

/// Appends the characters of a string slice to `dst`.
pub fn push_str(dst: &mut Vec<char>, src: &str)
    ensures
        final(dst)@ == old(dst)@ + src@,
{
    let cs = chars_of(src);
    push_all(dst, cs.as_slice());
}

/// Character-wise equality of two sequences.
pub fn chars_eq(a: &[char], b: &[char]) -> (r: bool)
    ensures
        r == (a@ == b@),
{
    if a.len() != b.len() {
        return false;
    }
    let mut i: usize = 0;
    while i < a.len()
        invariant
            a@.len() == b@.len(),
            i <= a@.len(),
            forall|k: int| 0 <= k < i ==> a@[k] == b@[k],
        decreases a@.len() - i,
    {
        if a[i] != b[i] {
            return false;
        }
        i = i + 1;
    }
    assert(a@ =~= b@);
    true
}

/// Whether `s` begins with `prefix`.
pub open spec fn has_prefix(s: Seq<char>, prefix: Seq<char>) -> bool {
    prefix.len() <= s.len() && s.subrange(0, prefix.len() as int) == prefix
}

/// `"0x"` or `"0X"` at the start of `s`, the prefix that the numeric parsers strip.
pub open spec fn has_hex_prefix(s: Seq<char>) -> bool {
    s.len() >= 2 && s[0] == '0' && (s[1] == 'x' || s[1] == 'X')
}

// ---------------------------------------------------------------------------
// Whitespace and trimming (`char::is_whitespace`, `str::trim`)
// ---------------------------------------------------------------------------

/// Unicode `White_Space`, as `char::is_whitespace` decides it.
pub open spec fn is_whitespace(c: char) -> bool {
    let v = c as u32;
    ||| 0x9 <= v <= 0xD
    ||| v == 0x20
    ||| v == 0x85
    ||| v == 0xA0
    ||| v == 0x1680
    ||| 0x2000 <= v <= 0x200A
    ||| v == 0x2028
    ||| v == 0x2029
    ||| v == 0x202F
    ||| v == 0x205F
    ||| v == 0x3000
}

/// Exec form of [`is_whitespace`].
pub fn char_is_whitespace(c: char) -> (r: bool)
    ensures
        r == is_whitespace(c),
{
    let v = c as u32;
    (0x9 <= v && v <= 0xD) || v == 0x20 || v == 0x85 || v == 0xA0 || v == 0x1680 || (0x2000 <= v
        && v <= 0x200A) || v == 0x2028 || v == 0x2029 || v == 0x202F || v == 0x205F || v == 0x3000
}

/// `s` without its leading whitespace.
pub open spec fn trim_start(s: Seq<char>) -> Seq<char>
    decreases s.len(),
{
    if s.len() > 0 && is_whitespace(s[0]) {
        trim_start(s.drop_first())
    } else {
        s
    }
}

/// `s` without its trailing whitespace.
pub open spec fn trim_end(s: Seq<char>) -> Seq<char>
    decreases s.len(),
{
    if s.len() > 0 && is_whitespace(s.last()) {
        trim_end(s.drop_last())
    } else {
        s
    }
}

/// `str::trim`: `s` without leading and trailing whitespace.
pub open spec fn trim(s: Seq<char>) -> Seq<char> {
    trim_end(trim_start(s))
}

/// Bounds `(start, end)` such that `s[start..end]` is `trim(s)`.
pub fn trim_bounds(s: &[char]) -> (r: (usize, usize))
    ensures
        r.0 <= r.1 <= s@.len(),
        s@.subrange(r.0 as int, r.1 as int) == trim(s@),
{
    let n = s.len();
    let mut i: usize = 0;
    assert(s@.subrange(0, n as int) =~= s@);
    while i < n && char_is_whitespace(s[i])
        invariant
            i <= n == s@.len(),
            trim_start(s@) == trim_start(s@.subrange(i as int, n as int)),
        decreases n - i,
    {
        assert(s@.subrange(i as int, n as int).drop_first() =~= s@.subrange(i + 1, n as int));
        i = i + 1;
    }
    let ghost t = s@.subrange(i as int, n as int);
    assert(trim_start(s@) == t);
    let mut j: usize = n;
    assert(t =~= s@.subrange(i as int, j as int));
    while j > i && char_is_whitespace(s[j - 1])
        invariant
            i <= j <= n == s@.len(),
            t == s@.subrange(i as int, n as int),
            trim_end(t) == trim_end(s@.subrange(i as int, j as int)),
        decreases j - i,
    {
        assert(s@.subrange(i as int, j as int).drop_last() =~= s@.subrange(i as int, j - 1));
        j = j - 1;
    }
    (i, j)
}

/// `str::trim` on a character vector.
pub fn trim_chars(s: &[char]) -> (r: Vec<char>)
    ensures
        r@ == trim(s@),
{
    let (a, b) = trim_bounds(s);
    slice_chars(s, a, b)
}

/// Whether `trim(s)` is empty, i.e. `s` is all whitespace.
pub fn is_blank(s: &[char]) -> (r: bool)
    ensures
        r == (trim(s@).len() == 0),
{
    let (a, b) = trim_bounds(s);
    a == b
}

// ---------------------------------------------------------------------------
// Lines (`str::lines`) and joining (`[&str]::join`)
// ---------------------------------------------------------------------------

/// Index of the first `'\n'` at or after `i`, or `s.len()` when there is none.
pub open spec fn next_newline(s: Seq<char>, i: int) -> int
    decreases s.len() - i,
{
    if i >= s.len() {
        s.len() as int
    } else if s[i] == '\n' {
        i
    } else {
        next_newline(s, i + 1)
    }
}

pub proof fn lemma_next_newline(s: Seq<char>, i: int)
    requires
        0 <= i,
    ensures
        i <= s.len() ==> i <= next_newline(s, i) <= s.len(),
        next_newline(s, i) < s.len() ==> s[next_newline(s, i)] == '\n',
        forall|k: int| i <= k < next_newline(s, i) ==> s[k] != '\n',
    decreases s.len() - i,
{
    if i < s.len() && s[i] != '\n' {
        lemma_next_newline(s, i + 1);
    }
}

/// A line with one trailing carriage return removed, as `str::lines` does for
/// lines ended by `"\r\n"`.
pub open spec fn strip_cr(l: Seq<char>) -> Seq<char> {
    if l.len() > 0 && l.last() == '\r' {
        l.drop_last()
    } else {
        l
    }
}

/// The lines of `s` from index `start` on.
pub open spec fn lines_from(s: Seq<char>, start: int) -> Seq<Seq<char>>
    decreases s.len() - start,
{
    if start < 0 || start >= s.len() {
        Seq::empty()
    } else {
        let k = next_newline(s, start);
        proof {
            lemma_next_newline(s, start);
        }
        if k < s.len() {
            seq![strip_cr(s.subrange(start, k))] + lines_from(s, k + 1)
        } else {
            seq![s.subrange(start, s.len() as int)]
        }
    }
}

/// `str::lines`: pieces separated by `'\n'`, a `'\r'` before the `'\n'`
/// dropped, and no empty piece after a final line ending.
pub open spec fn lines(s: Seq<char>) -> Seq<Seq<char>> {
    lines_from(s, 0)
}

/// Exec form of [`lines`].
pub fn split_lines(s: &[char]) -> (r: Vec<Vec<char>>)
    ensures
        r@.map_values(|l: Vec<char>| l@) == lines(s@),
{
    let n = s.len();
    let mut r: Vec<Vec<char>> = Vec::new();
    let mut start: usize = 0;
    while start < n
        invariant
            start <= n == s@.len(),
            r@.map_values(|l: Vec<char>| l@) + lines_from(s@, start as int) == lines(s@),
        decreases n - start,
    {
        let mut k = start;
        while k < n && s[k] != '\n'
            invariant
                start <= k <= n == s@.len(),
                next_newline(s@, start as int) == next_newline(s@, k as int),
            decreases n - k,
        {
            k = k + 1;
        }
        proof {
            lemma_next_newline(s@, start as int);
        }
        let ghost before = r@.map_values(|l: Vec<char>| l@);
        if k < n {
            let mut line = slice_chars(s, start, k);
            if line.len() > 0 && line[line.len() - 1] == '\r' {
                line.pop();
                assert(line@ =~= strip_cr(s@.subrange(start as int, k as int)));
            }
            r.push(line);
            assert(r@.map_values(|l: Vec<char>| l@) =~= before.push(
                strip_cr(s@.subrange(start as int, k as int)),
            ));
            start = k + 1;
        } else {
            let line = slice_chars(s, start, n);
            r.push(line);
            assert(r@.map_values(|l: Vec<char>| l@) =~= before.push(
                s@.subrange(start as int, n as int),
            ));
            start = n;
        }
    }
    assert(r@.map_values(|l: Vec<char>| l@) + lines_from(s@, start as int) =~= r@.map_values(
        |l: Vec<char>| l@,
    ));
    r
}

/// `pieces.join(sep)`.
pub open spec fn join(pieces: Seq<Seq<char>>, sep: Seq<char>) -> Seq<char>
    decreases pieces.len(),
{
    if pieces.len() == 0 {
        Seq::empty()
    } else if pieces.len() == 1 {
        pieces[0]
    } else {
        join(pieces.drop_last(), sep) + sep + pieces.last()
    }
}

/// Exec form of [`join`] with a one-character separator.
pub fn join_with(pieces: &Vec<Vec<char>>, sep: char) -> (r: Vec<char>)
    ensures
        r@ == join(pieces@.map_values(|l: Vec<char>| l@), seq![sep]),
{
    let ghost ps = pieces@.map_values(|l: Vec<char>| l@);
    let mut r: Vec<char> = Vec::new();
    let mut i: usize = 0;
    while i < pieces.len()
        invariant
            i <= pieces@.len(),
            ps == pieces@.map_values(|l: Vec<char>| l@),
            r@ == join(ps.take(i as int), seq![sep]),
        decreases pieces@.len() - i,
    {
        if i > 0 {
            r.push(sep);
        }
        push_all(&mut r, pieces[i].as_slice());
        assert(ps.take(i + 1).drop_last() =~= ps.take(i as int));
        assert(ps[i as int] == pieces@[i as int]@);
        i = i + 1;
        assert(r@ =~= join(ps.take(i as int), seq![sep]));
    }
    assert(ps.take(i as int) =~= ps);
    r
}

// ---------------------------------------------------------------------------
// Lemmas on lines and joining
// ---------------------------------------------------------------------------

/// In a text whose `m`-th character is a line end, the line ends found
/// before it are the same in the text and in its first `m` characters.
proof fn lemma_next_newline_prefix(s: Seq<char>, m: int, i: int)
    requires
        0 <= i < m <= s.len(),
        s[m - 1] == '\n',
    ensures
        next_newline(s.subrange(0, m), i) == next_newline(s, i),
        next_newline(s, i) < m,
    decreases m - i,
{
    if s[i] != '\n' {
        lemma_next_newline_prefix(s, m, i + 1);
    }
}

/// Line ends found past `m` in a text are those of its suffix from `m`, shifted.
proof fn lemma_next_newline_shift(s: Seq<char>, m: int, i: int)
    requires
        0 <= m <= s.len(),
        0 <= i,
    ensures
        next_newline(s, m + i) == m + next_newline(s.subrange(m, s.len() as int), i),
    decreases s.len() - (m + i),
{
    if m + i < s.len() && s[m + i] != '\n' {
        lemma_next_newline_shift(s, m, i + 1);
    }
}

/// The lines of a text from `m + i` are those of its suffix from `m`, from `i`.
proof fn lemma_lines_from_shift(s: Seq<char>, m: int, i: int)
    requires
        0 <= m <= s.len(),
        0 <= i,
    ensures
        lines_from(s, m + i) == lines_from(s.subrange(m, s.len() as int), i),
    decreases s.len() - (m + i),
{
    let t = s.subrange(m, s.len() as int);
    if m + i < s.len() {
        lemma_next_newline_shift(s, m, i);
        lemma_next_newline(s, m + i);
        lemma_next_newline(t, i);
        let k = next_newline(s, m + i);
        if k < s.len() {
            lemma_lines_from_shift(s, m, k + 1 - m);
            assert(s.subrange(m + i, k) =~= t.subrange(i, k - m));
        } else {
            assert(s.subrange(m + i, s.len() as int) =~= t.subrange(i, t.len() as int));
        }
    }
}

/// Splitting a text after a line end splits its lines there.
proof fn lemma_lines_from_split(s: Seq<char>, m: int, start: int)
    requires
        0 <= start <= m <= s.len(),
        m > 0,
        s[m - 1] == '\n',
    ensures
        lines_from(s, start) == lines_from(s.subrange(0, m), start) + lines_from(s, m),
    decreases m - start,
{
    let p = s.subrange(0, m);
    if start == m {
        assert(lines_from(p, start) =~= Seq::<Seq<char>>::empty());
        assert(lines_from(s, start) =~= Seq::<Seq<char>>::empty() + lines_from(s, m));
    } else {
        lemma_next_newline_prefix(s, m, start);
        lemma_next_newline(s, start);
        let k = next_newline(s, start);
        assert(p.subrange(start, k) =~= s.subrange(start, k));
        lemma_lines_from_split(s, m, k + 1);
        assert(lines_from(s, start) =~= lines_from(p, start) + lines_from(s, m));
    }
}

/// The lines of `x + y`, where `x` ends with a line end, are those of `x`
/// followed by those of `y`.
pub proof fn lemma_lines_concat(x: Seq<char>, y: Seq<char>)
    requires
        x.len() > 0,
        x.last() == '\n',
    ensures
        lines(x + y) == lines(x) + lines(y),
{
    let s = x + y;
    let m = x.len() as int;
    lemma_lines_from_split(s, m, 0);
    assert(s.subrange(0, m) =~= x);
    lemma_lines_from_shift(s, m, 0);
    assert(s.subrange(m, s.len() as int) =~= y);
}

/// A line without line ends, followed by a line end, is one line.
pub proof fn lemma_lines_single(t: Seq<char>)
    requires
        forall|k: int| 0 <= k < t.len() ==> #[trigger] t[k] != '\n',
        t.len() == 0 || t.last() != '\r',
    ensures
        lines(t.push('\n')) == seq![t],
{
    let s = t.push('\n');
    lemma_next_newline(s, 0);
    assert(next_newline(s, 0) == t.len()) by {
        if next_newline(s, 0) < t.len() {
            assert(s[next_newline(s, 0)] == t[next_newline(s, 0)]);
        } else if next_newline(s, 0) > t.len() {
            assert(s[t.len() as int] == '\n');
        }
    }
    assert(s.subrange(0, t.len() as int) =~= t);
    assert(lines_from(s, t.len() as int + 1) =~= Seq::<Seq<char>>::empty());
    assert(lines(s) =~= seq![t]);
}

/// Joining a piece before others puts the separator between them.
pub proof fn lemma_join_cons(p: Seq<char>, rest: Seq<Seq<char>>, sep: Seq<char>)
    requires
        rest.len() > 0,
    ensures
        join(seq![p] + rest, sep) == p + sep + join(rest, sep),
    decreases rest.len(),
{
    let all = seq![p] + rest;
    if rest.len() == 1 {
        assert(all.drop_last() =~= seq![p]);
        assert(join(seq![p], sep) == p);
        assert(all.last() == rest[0]);
        assert(join(rest, sep) == rest[0]);
        assert(join(all, sep) =~= p + sep + join(rest, sep));
    } else {
        lemma_join_cons(p, rest.drop_last(), sep);
        assert(all.drop_last() =~= seq![p] + rest.drop_last());
        assert(join(all, sep) =~= p + sep + join(rest, sep));
    }
}

/// Joining the lines of a text without carriage returns, after which a
/// line end is added, gives the text back.
pub proof fn lemma_join_lines(j: Seq<char>)
    requires
        forall|k: int| 0 <= k < j.len() ==> #[trigger] j[k] != '\r',
    ensures
        join(lines(j.push('\n')), seq!['\n']) == j,
{
    lemma_join_lines_from(j, 0);
    assert(j.subrange(0, j.len() as int) =~= j);
}

proof fn lemma_join_lines_from(j: Seq<char>, start: int)
    requires
        forall|k: int| 0 <= k < j.len() ==> #[trigger] j[k] != '\r',
        0 <= start <= j.len(),
    ensures
        join(lines_from(j.push('\n'), start), seq!['\n']) == j.subrange(start, j.len() as int),
        lines_from(j.push('\n'), start).len() > 0,
    decreases j.len() - start,
{
    let s = j.push('\n');
    lemma_next_newline(s, start);
    let k = next_newline(s, start);
    assert(k <= j.len()) by {
        if k > j.len() {
            assert(s[j.len() as int] == '\n');
        }
    }
    let piece = s.subrange(start, k);
    assert(piece =~= j.subrange(start, k));
    assert(strip_cr(piece) == piece) by {
        if piece.len() > 0 {
            assert(piece.last() == j[k - 1]);
        }
    }
    if k == j.len() {
        assert(lines_from(s, k + 1) =~= Seq::<Seq<char>>::empty());
        assert(lines_from(s, start) =~= seq![piece]);
    } else {
        lemma_join_lines_from(j, k + 1);
        lemma_join_cons(piece, lines_from(s, k + 1), seq!['\n']);
        assert(j[k] == '\n');
        assert(j.subrange(start, j.len() as int) =~= piece + seq!['\n'] + j.subrange(k + 1, j.len() as int));
    }
}

} // verus!
