//! Member names of a JSON configuration as they are written, duplicates
//! included: the names of the members of the top-level object, and of the
//! objects that are values of its members or elements of a top-level array.  A configuration that gives a
//! field twice is refused, as a field of a struct can be set only once.
use crate::numeric::digit_value;
use vstd::prelude::*;

verus! {

/// Where a scan of a JSON text is.
pub struct MemberScanView {
    /// Open containers, innermost last: `true` for an object.
    pub kinds: Seq<bool>,
    pub in_string: bool,
    /// 0 outside an escape, 1 after a backslash, 2..=5 reading the hex
    /// digits of a `\u` escape.
    pub escape: u8,
    /// The value of the `\u` escape read so far.
    pub code: u32,
    /// The last character outside strings and whitespace.
    pub last_sig: char,
    /// The code points of the string being read, escapes decoded.
    pub cur: Seq<u32>,
    /// Whether the string being read is a member name.
    pub cur_is_key: bool,
    /// The name of the last member of the top-level object.
    pub top_key: Seq<u32>,
    /// The position of the current element of a top-level array (counted
    /// up to 5, the number of configuration fields).
    pub top_index: u8,
    /// Member names read: `(owner, name)`, where the owner is empty for a
    /// member of the top-level object and is the name of the top-level
    /// member whose value holds it otherwise.
    pub keys: Seq<(Seq<u32>, Seq<u32>)>,
}

/// JSON whitespace.
pub open spec fn json_ws(c: char) -> bool {
    c == ' ' || c == '\t' || c == '\n' || c == '\r'
}

/// The code point a one-character escape `\c` stands for.
pub open spec fn escaped(c: char) -> u32 {
    if c == 'b' {
        8
    } else if c == 'f' {
        12
    } else if c == 'n' {
        10
    } else if c == 'r' {
        13
    } else if c == 't' {
        9
    } else {
        c as u32
    }
}

/// The value of a hex digit (0 for anything else).
pub open spec fn hex_digit(c: char) -> u32 {
    match digit_value(c, 16) {
        Some(d) => d as u32,
        None => 0,
    }
}

/// The scan before any character.
pub open spec fn scan_start() -> MemberScanView {
    MemberScanView {
        kinds: Seq::empty(),
        in_string: false,
        escape: 0,
        code: 0,
        last_sig: ' ',
        cur: Seq::empty(),
        cur_is_key: false,
        top_key: Seq::empty(),
        top_index: 0,
        keys: Seq::empty(),
    }
}

/// The scan after a string closes: a member name is recorded, with its
/// owner: none for a member of the top-level object, else the field of the
/// configuration whose value holds it (named by the top-level member, or by
/// the position in a top-level array).
pub open spec fn close_string(st: MemberScanView) -> MemberScanView {
    let done = MemberScanView { in_string: false, last_sig: '"', ..st };
    if !st.cur_is_key {
        done
    } else if st.kinds.len() == 1 {
        MemberScanView { top_key: st.cur, keys: st.keys.push((Seq::empty(), st.cur)), ..done }
    } else if st.kinds.len() == 2 && st.kinds[0] {
        MemberScanView { keys: st.keys.push((st.top_key, st.cur)), ..done }
    } else if st.kinds.len() == 2 && !st.kinds[0] && st.top_index < 5 {
        MemberScanView { keys: st.keys.push((config_field_names()[st.top_index as int], st.cur)), ..done }
    } else {
        done
    }
}

/// The scan after one more character.
pub open spec fn scan_step(st: MemberScanView, c: char) -> MemberScanView {
    if st.in_string {
        if st.escape == 1 {
            if c == 'u' {
                MemberScanView { escape: 2, code: 0, ..st }
            } else {
                MemberScanView { escape: 0, cur: st.cur.push(escaped(c)), ..st }
            }
        } else if 2 <= st.escape <= 5 {
            let code = ((st.code % 4096) * 16 + hex_digit(c)) as u32;
            if st.escape == 5 {
                MemberScanView { escape: 0, code: code, cur: st.cur.push(code), ..st }
            } else {
                MemberScanView { escape: (st.escape + 1) as u8, code: code, ..st }
            }
        } else if c == '\\' {
            MemberScanView { escape: 1, ..st }
        } else if c == '"' {
            close_string(st)
        } else {
            MemberScanView { cur: st.cur.push(c as u32), ..st }
        }
    } else if c == '"' {
        MemberScanView {
            in_string: true,
            escape: 0,
            cur: Seq::empty(),
            cur_is_key: (st.last_sig == '{' || st.last_sig == ',') && st.kinds.len() > 0 && st.kinds.last(),
            ..st
        }
    } else if c == '{' || c == '[' {
        MemberScanView { kinds: st.kinds.push(c == '{'), last_sig: c, ..st }
    } else if c == '}' || c == ']' {
        MemberScanView {
            kinds: if st.kinds.len() > 0 {
                st.kinds.drop_last()
            } else {
                st.kinds
            },
            last_sig: c,
            ..st
        }
    } else if json_ws(c) {
        st
    } else if c == ',' && st.kinds.len() == 1 && !st.kinds[0] && st.top_index < 5 {
        MemberScanView { last_sig: c, top_index: (st.top_index + 1) as u8, ..st }
    } else {
        MemberScanView { last_sig: c, ..st }
    }
}

/// The scan of a whole text.
pub open spec fn member_scan(s: Seq<char>) -> MemberScanView
    decreases s.len(),
{
    if s.len() == 0 {
        scan_start()
    } else {
        scan_step(member_scan(s.drop_last()), s.last())
    }
}

/// The code points of a text.
pub open spec fn codes(s: Seq<char>) -> Seq<u32> {
    s.map_values(|c: char| c as u32)
}

/// Whether some name of `names` is given twice to the object owned by
/// `owner`.
pub open spec fn repeated_field(keys: Seq<(Seq<u32>, Seq<u32>)>, owner: Seq<u32>, names: Seq<Seq<u32>>) -> bool {
    exists|i: int, j: int|
        0 <= i < j < keys.len() && #[trigger] keys[i].0 == owner && #[trigger] keys[j].0 == owner && keys[i].1
            == keys[j].1 && names.contains(keys[i].1)
}

/// The fields of a configuration.
pub open spec fn config_field_names() -> Seq<Seq<u32>> {
    seq![codes("RegData"@), codes("RegInit"@), codes("Mode"@), codes("MemoryRegions"@), codes("MemoryData"@)]
}

/// The fields of a register set (with the 32-bit names of RAX..RDI).
pub open spec fn register_field_names() -> Seq<Seq<u32>> {
    Seq::new(
        42,
        |i: int|
            codes(
                if i < 17 {
                    crate::parser::gpr_key(i)
                } else if i < 25 {
                    crate::parser::gpr_key32(i - 17)
                } else if i < 41 {
                    crate::parser::xmm_key(i - 25)
                } else {
                    "Flags"@
                },
            ),
    )
}

/// The variant names of a mode.
pub open spec fn mode_variant_names() -> Seq<Seq<u32>> {
    seq![codes("32BIT"@)]
}

/// Whether a configuration text gives a field twice: a field of the
/// configuration, or of its `RegData` or `RegInit` register set, or the
/// variant of a `Mode` written as an object.
pub open spec fn duplicate_fields(text: Seq<char>) -> bool {
    let keys = member_scan(text).keys;
    ||| repeated_field(keys, Seq::empty(), config_field_names())
    ||| repeated_field(keys, codes("RegData"@), register_field_names())
    ||| repeated_field(keys, codes("RegInit"@), register_field_names())
    ||| repeated_field(keys, codes("Mode"@), mode_variant_names())
}

// ---------------------------------------------------------------------------

/// A scan of a JSON text in progress.
pub struct MemberScan {
    kinds: Vec<bool>,
    in_string: bool,
    escape: u8,
    code: u32,
    last_sig: char,
    cur: Vec<u32>,
    cur_is_key: bool,
    top_key: Vec<u32>,
    top_index: u8,
    keys: Vec<(Vec<u32>, Vec<u32>)>,
}

/// The views of member names.
pub open spec fn key_views(keys: Seq<(Vec<u32>, Vec<u32>)>) -> Seq<(Seq<u32>, Seq<u32>)> {
    keys.map_values(|p: (Vec<u32>, Vec<u32>)| (p.0@, p.1@))
}

impl View for MemberScan {
    type V = MemberScanView;

    closed spec fn view(&self) -> MemberScanView {
        MemberScanView {
            kinds: self.kinds@,
            in_string: self.in_string,
            escape: self.escape,
            code: self.code,
            last_sig: self.last_sig,
            cur: self.cur@,
            cur_is_key: self.cur_is_key,
            top_key: self.top_key@,
            top_index: self.top_index,
            keys: key_views(self.keys@),
        }
    }
}

/// A copy of a code-point vector.
fn copy_codes(v: &Vec<u32>) -> (r: Vec<u32>)
    ensures
        r@ == v@,
{
    let mut r: Vec<u32> = Vec::new();
    let mut i: usize = 0;
    while i < v.len()
        invariant
            i <= v@.len(),
            r@ == v@.take(i as int),
        decreases v@.len() - i,
    {
        r.push(v[i]);
        i = i + 1;
        assert(r@ =~= v@.take(i as int));
    }
    assert(v@.take(v@.len() as int) =~= v@);
    r
}

impl MemberScan {
    /// The scan before any character.
    pub fn new() -> (r: Self)
        ensures
            r@ == scan_start(),
    {
        let r = MemberScan {
            kinds: Vec::new(),
            in_string: false,
            escape: 0,
            code: 0,
            last_sig: ' ',
            cur: Vec::new(),
            cur_is_key: false,
            top_key: Vec::new(),
            top_index: 0,
            keys: Vec::new(),
        };
        assert(key_views(r.keys@) =~= Seq::<(Seq<u32>, Seq<u32>)>::empty());
        r
    }

    /// Member names read so far.
    pub fn keys(&self) -> (r: &Vec<(Vec<u32>, Vec<u32>)>)
        ensures
            key_views(r@) == self@.keys,
    {
        &self.keys
    }

    fn close(&mut self)
        requires
            old(self)@.in_string,
        ensures
            final(self)@ == close_string(old(self)@),
    {
        let ghost st = old(self)@;
        self.in_string = false;
        self.last_sig = '"';
        if self.cur_is_key {
            if self.kinds.len() == 1 {
                let k = copy_codes(&self.cur);
                let owner: Vec<u32> = Vec::new();
                self.keys.push((owner, k));
                self.top_key = copy_codes(&self.cur);
                assert(key_views(self.keys@) =~= st.keys.push((Seq::empty(), st.cur)));
            } else if self.kinds.len() == 2 && self.kinds[0] {
                let k = copy_codes(&self.cur);
                let owner = copy_codes(&self.top_key);
                self.keys.push((owner, k));
                assert(key_views(self.keys@) =~= st.keys.push((st.top_key, st.cur)));
            } else if self.kinds.len() == 2 && !self.kinds[0] && self.top_index < 5 {
                let k = copy_codes(&self.cur);
                let owner = config_field(self.top_index);
                self.keys.push((owner, k));
                assert(key_views(self.keys@) =~= st.keys.push((config_field_names()[st.top_index as int], st.cur)));
            }
        }
        assert(self@ == close_string(st));
    }

    /// Reads one more character.
    pub fn step(&mut self, c: char)
        ensures
            final(self)@ == scan_step(old(self)@, c),
    {
        let ghost st = old(self)@;
        if self.in_string {
            if self.escape == 1 {
                if c == 'u' {
                    self.escape = 2;
                    self.code = 0;
                } else {
                    let v: u32 = if c == 'b' {
                        8
                    } else if c == 'f' {
                        12
                    } else if c == 'n' {
                        10
                    } else if c == 'r' {
                        13
                    } else if c == 't' {
                        9
                    } else {
                        c as u32
                    };
                    self.escape = 0;
                    self.cur.push(v);
                }
            } else if 2 <= self.escape && self.escape <= 5 {
                let h: u32 = match crate::numeric::digit_of(c, 16) {
                    Some(d) => d as u32,
                    None => 0,
                };
                let code: u32 = (self.code % 4096) * 16 + h;
                if self.escape == 5 {
                    self.escape = 0;
                    self.code = code;
                    self.cur.push(code);
                } else {
                    self.escape = self.escape + 1;
                    self.code = code;
                }
            } else if c == '\\' {
                self.escape = 1;
            } else if c == '"' {
                self.close();
            } else {
                self.cur.push(c as u32);
            }
        } else if c == '"' {
            let object = self.kinds.len() > 0 && self.kinds[self.kinds.len() - 1];
            self.cur_is_key = (self.last_sig == '{' || self.last_sig == ',') && object;
            self.in_string = true;
            self.escape = 0;
            self.cur = Vec::new();
        } else if c == '{' || c == '[' {
            self.kinds.push(c == '{');
            self.last_sig = c;
        } else if c == '}' || c == ']' {
            if self.kinds.len() > 0 {
                self.kinds.pop();
            }
            self.last_sig = c;
        } else if c == ' ' || c == '\t' || c == '\n' || c == '\r' {
        } else {
            if c == ',' && self.kinds.len() == 1 && !self.kinds[0] && self.top_index < 5 {
                self.top_index = self.top_index + 1;
            }
            self.last_sig = c;
        }
        assert(self@.kinds =~= scan_step(st, c).kinds);
        assert(self@.cur =~= scan_step(st, c).cur);
    }
}

/// Scans a whole text (see [`member_scan`]).
pub fn scan_members(text: &[char]) -> (r: MemberScan)
    ensures
        r@ == member_scan(text@),
{
    let mut st = MemberScan::new();
    let mut i: usize = 0;
    while i < text.len()
        invariant
            i <= text@.len(),
            st@ == member_scan(text@.take(i as int)),
        decreases text@.len() - i,
    {
        assert(text@.take(i + 1).drop_last() =~= text@.take(i as int));
        st.step(text[i]);
        i = i + 1;
    }
    assert(text@.take(text@.len() as int) =~= text@);
    st
}

/// Whether two code-point sequences are equal.
fn codes_eq(a: &Vec<u32>, b: &Vec<u32>) -> (r: bool)
    ensures
        r == (a@ == b@),
{
    if a.len() != b.len() {
        return false;
    }
    let mut i: usize = 0;
    while i < a.len()
        invariant
            a@.len() == b@.len(),
            i <= a@.len(),
            forall|k: int| 0 <= k < i ==> a@[k] == b@[k],
        decreases a@.len() - i,
    {
        if a[i] != b[i] {
            return false;
        }
        i = i + 1;
    }
    assert(a@ =~= b@);
    true
}

/// The code points of a text.
fn codes_of(s: &str) -> (r: Vec<u32>)
    ensures
        r@ == codes(s@),
{
    let cs = crate::text::chars_of(s);
    let mut r: Vec<u32> = Vec::new();
    let mut i: usize = 0;
    while i < cs.len()
        invariant
            i <= cs@.len(),
            cs@ == s@,
            r@ == codes(cs@.take(i as int)),
        decreases cs@.len() - i,
    {
        r.push(cs[i] as u32);
        i = i + 1;
        assert(r@ =~= codes(cs@.take(i as int)));
    }
    assert(cs@.take(cs@.len() as int) =~= cs@);
    r
}

/// The views of a list of code-point vectors.
pub open spec fn code_views(v: Seq<Vec<u32>>) -> Seq<Seq<u32>> {
    v.map_values(|x: Vec<u32>| x@)
}

/// The fields of a configuration.
fn config_fields() -> (r: Vec<Vec<u32>>)
    ensures
        code_views(r@) == config_field_names(),
{
    let mut r: Vec<Vec<u32>> = Vec::new();
    r.push(codes_of("RegData"));
    r.push(codes_of("RegInit"));
    r.push(codes_of("Mode"));
    r.push(codes_of("MemoryRegions"));
    r.push(codes_of("MemoryData"));
    assert(code_views(r@) =~= config_field_names());
    r
}

/// The name of configuration field `i`.
fn config_field(i: u8) -> (r: Vec<u32>)
    requires
        i < 5,
    ensures
        r@ == config_field_names()[i as int],
{
    let name = match i {
        0 => "RegData",
        1 => "RegInit",
        2 => "Mode",
        3 => "MemoryRegions",
        _ => "MemoryData",
    };
    codes_of(name)
}

/// The fields of a register set.
fn register_fields() -> (r: Vec<Vec<u32>>)
    ensures
        code_views(r@) == register_field_names(),
{
    let mut r: Vec<Vec<u32>> = Vec::new();
    let mut i: usize = 0;
    while i < 42
        invariant
            i <= 42,
            code_views(r@) == register_field_names().take(i as int),
        decreases 42 - i,
    {
        let name = if i < 17 {
            crate::parser::gpr_key_str(i)
        } else if i < 25 {
            crate::parser::gpr_key32_str(i - 17)
        } else if i < 41 {
            crate::parser::xmm_key_str(i - 25)
        } else {
            "Flags"
        };
        assert(register_field_names()[i as int] == codes(name@));
        let ghost before = code_views(r@);
        r.push(codes_of(name));
        assert(code_views(r@) =~= before.push(codes(name@)));
        i = i + 1;
        assert(code_views(r@) =~= register_field_names().take(i as int));
    }
    assert(register_field_names().take(42) =~= register_field_names());
    r
}

/// The variant names of a mode.
fn mode_variants() -> (r: Vec<Vec<u32>>)
    ensures
        code_views(r@) == mode_variant_names(),
{
    let mut r: Vec<Vec<u32>> = Vec::new();
    r.push(codes_of("32BIT"));
    assert(code_views(r@) =~= mode_variant_names());
    r
}

/// Whether `name` is one of `names`.
fn is_one_of(name: &Vec<u32>, names: &Vec<Vec<u32>>) -> (r: bool)
    ensures
        r == code_views(names@).contains(name@),
{
    let mut i: usize = 0;
    while i < names.len()
        invariant
            i <= names@.len(),
            forall|k: int| 0 <= k < i ==> code_views(names@)[k] != name@,
        decreases names@.len() - i,
    {
        if codes_eq(&names[i], name) {
            assert(code_views(names@)[i as int] == name@);
            return true;
        }
        i = i + 1;
    }
    false
}

/// Whether some name of `names` is given twice to the object owned by
/// `owner` (see [`repeated_field`]).
fn find_repeated(keys: &Vec<(Vec<u32>, Vec<u32>)>, owner: &Vec<u32>, names: &Vec<Vec<u32>>) -> (r: bool)
    ensures
        r == repeated_field(key_views(keys@), owner@, code_views(names@)),
{
    let ghost kv = key_views(keys@);
    let mut i: usize = 0;
    while i < keys.len()
        invariant
            i <= keys@.len(),
            kv == key_views(keys@),
            forall|a: int, b: int|
                0 <= a < i && a < b < kv.len() ==> !(#[trigger] kv[a].0 == owner@ && #[trigger] kv[b].0 == owner@
                    && kv[a].1 == kv[b].1 && code_views(names@).contains(kv[a].1)),
        decreases keys@.len() - i,
    {
        let mut j: usize = i + 1;
        while j < keys.len()
            invariant
                i < keys@.len(),
                i + 1 <= j <= keys@.len(),
                kv == key_views(keys@),
                forall|a: int, b: int|
                    0 <= a < i && a < b < kv.len() ==> !(#[trigger] kv[a].0 == owner@ && #[trigger] kv[b].0 == owner@
                        && kv[a].1 == kv[b].1 && code_views(names@).contains(kv[a].1)),
                forall|b: int|
                    i < b < j ==> !(kv[i as int].0 == owner@ && #[trigger] kv[b].0 == owner@ && kv[i as int].1
                        == kv[b].1 && code_views(names@).contains(kv[i as int].1)),
            decreases keys@.len() - j,
        {
            assert(kv[i as int] == (keys@[i as int].0@, keys@[i as int].1@));
            assert(kv[j as int] == (keys@[j as int].0@, keys@[j as int].1@));
            if codes_eq(&keys[i].0, owner) && codes_eq(&keys[j].0, owner) && codes_eq(&keys[i].1, &keys[j].1)
                && is_one_of(&keys[i].1, names) {
                assert(kv[i as int].0 == owner@);
                assert(kv[j as int].0 == owner@);
                assert(kv[i as int].1 == kv[j as int].1);
                assert(code_views(names@).contains(kv[i as int].1));
                assert(repeated_field(kv, owner@, code_views(names@)));
                return true;
            }
            j = j + 1;
        }
        i = i + 1;
    }
    false
}

/// Whether a configuration text gives a field twice (see
/// [`duplicate_fields`]).
pub fn has_duplicate_fields(text: &str) -> (r: bool)
    ensures
        r == duplicate_fields(text@),
{
    let cs = crate::text::chars_of(text);
    let st = scan_members(cs.as_slice());
    let keys = st.keys();
    let root: Vec<u32> = Vec::new();
    assert(root@ =~= Seq::<u32>::empty());
    let regs = register_fields();
    let r = find_repeated(keys, &root, &config_fields()) || find_repeated(keys, &codes_of("RegData"), &regs)
        || find_repeated(keys, &codes_of("RegInit"), &regs) || find_repeated(keys, &codes_of("Mode"), &mode_variants());
    r
}

} // verus!
