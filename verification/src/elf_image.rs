//! Reading the parts of an ELF image that the harness uses: the header, the
//! section headers with their names, and the symbol table with its names.
//! Each part is parsed by `goblin`'s parser for it, in strict mode; which
//! table is read, and where, is decided here as `Elf::parse` decides it.
//! These parsers check each read against the file's length and report an
//! error where it does not fit.  The other parts that `Elf::parse` reads
//! (program headers, dynamic section, relocations, version tables) are not
//! read, so an error in them is not reported.
use crate::elf::{ElfLayout, ElfLayoutView, RawSection, RawSectionView, RawSymbol, RawSymbolView};
use vstd::prelude::*;

verus! {

/// The fields of an ELF header that the harness reads.
#[derive(Clone, Copy)]
pub struct HeaderFields {
    pub is_64: bool,
    pub little_endian: bool,
    pub entry: u64,
    pub shoff: u64,
    pub shnum: u16,
    pub shstrndx: u16,
}

/// The fields of a section header that the harness reads.
#[derive(Clone, Copy)]
pub struct SectionFields {
    pub name: usize,
    pub sh_type: u32,
    pub address: u64,
    pub offset: u64,
    pub size: u64,
    pub link: u32,
    pub entsize: u64,
}

/// The fields of a symbol-table entry that the harness reads.
#[derive(Clone, Copy)]
pub struct SymbolFields {
    pub name: usize,
    pub info: u8,
    pub shndx: usize,
    pub value: u64,
    pub size: u64,
}

/// What `goblin::elf::Elf::parse_header` makes of a file, with the header's
/// class and byte order, or the text of its error.
pub uninterp spec fn goblin_header(file: Seq<u8>) -> Result<HeaderFields, Seq<char>>;

/// What `goblin::elf::SectionHeader::parse` reads at `offset`: `count`
/// section headers of the given class and byte order, or its error's text.
pub uninterp spec fn goblin_section_headers(
    file: Seq<u8>,
    offset: u64,
    count: u16,
    is_64: bool,
    little_endian: bool,
) -> Result<Seq<SectionFields>, Seq<char>>;

/// What `goblin::elf::SectionHeader::check_size` reports of a section in a
/// file of `file_len` bytes.
pub uninterp spec fn goblin_check_size(section: SectionFields, file_len: nat) -> Result<(), Seq<char>>;

/// What `goblin::strtab::Strtab::parse` makes of `len` bytes at `offset`
/// (NUL-delimited), followed by `get_at` for each offset of `at`.
pub uninterp spec fn goblin_strtab_names(file: Seq<u8>, offset: u64, len: u64, at: Seq<usize>) -> Result<
    Seq<Option<Seq<char>>>,
    Seq<char>,
>;

/// What `goblin::elf::Symtab::parse` reads at `offset`: `count` symbols of
/// the given class and byte order, or its error's text.
pub uninterp spec fn goblin_symbols(file: Seq<u8>, offset: u64, count: u64, is_64: bool, little_endian: bool) -> Result<
    Seq<SymbolFields>,
    Seq<char>,
>;

/// Calls `goblin::elf::Elf::parse_header`, then `Header::container` and
/// `Header::endianness`.  Claimed: the fields, or the error's text, are the
/// ones named by [`goblin_header`].
#[verifier::external_body]
fn read_header(buffer: &[u8]) -> (r: Result<HeaderFields, String>)
    ensures
        match r {
            Ok(h) => goblin_header(buffer@) == Ok::<HeaderFields, Seq<char>>(h),
            Err(e) => goblin_header(buffer@) == Err::<HeaderFields, Seq<char>>(e@),
        },
{
    let h = goblin::elf::Elf::parse_header(buffer).map_err(|e| e.to_string())?;
    let container = h.container().map_err(|e| e.to_string())?;
    let endian = h.endianness().map_err(|e| e.to_string())?;
    Ok(HeaderFields {
        is_64: container.is_big(), little_endian: endian.is_little(), entry: h.e_entry, shoff: h.e_shoff,
        shnum: h.e_shnum, shstrndx: h.e_shstrndx,
    })
}

/// Calls `goblin::elf::SectionHeader::parse` with the class and byte order
/// given.  Claimed: the headers, or the error's text, are the ones named by
/// [`goblin_section_headers`].
#[verifier::external_body]
fn read_section_headers(buffer: &[u8], offset: u64, count: u16, is_64: bool, little_endian: bool) -> (r: Result<
    Vec<SectionFields>,
    String,
>)
    ensures
        match r {
            Ok(v) => goblin_section_headers(buffer@, offset, count, is_64, little_endian) == Ok::<
                Seq<SectionFields>,
                Seq<char>,
            >(v@),
            Err(e) => goblin_section_headers(buffer@, offset, count, is_64, little_endian) == Err::<
                Seq<SectionFields>,
                Seq<char>,
            >(e@),
        },
{
    let container = if is_64 { goblin::container::Container::Big } else { goblin::container::Container::Little };
    let endian = if little_endian { goblin::container::Endian::Little } else { goblin::container::Endian::Big };
    let ctx = goblin::container::Ctx::new(container, endian);
    let headers = goblin::elf::SectionHeader::parse(buffer, offset as usize, count as usize, ctx).map_err(|e| e.to_string())?;
    Ok(headers.iter().map(|h| SectionFields {
        name: h.sh_name, sh_type: h.sh_type, address: h.sh_addr, offset: h.sh_offset, size: h.sh_size,
        link: h.sh_link, entsize: h.sh_entsize,
    }).collect())
}

/// Whether `check_size` accepts a section: it holds no file bytes
/// (`SHT_NOBITS`, or size 0), or it ends within the file and its address
/// range does not overflow.
pub open spec fn section_size_ok(s: SectionFields, file_len: nat) -> bool {
    s.sh_type == 8 || s.size == 0 || (s.offset + s.size <= file_len && s.address + s.size <= u64::MAX)
}

/// Calls `goblin::elf::SectionHeader::check_size` on a section header with
/// these fields.  Claimed: it succeeds exactly as [`section_size_ok`] says,
/// and the result is the one named by [`goblin_check_size`].
#[verifier::external_body]
fn check_section_size(section: &SectionFields, file_len: usize) -> (r: Result<(), String>)
    ensures
        r is Ok <==> section_size_ok(*section, file_len as nat),
        match r {
            Ok(_) => goblin_check_size(*section, file_len as nat) == Ok::<(), Seq<char>>(()),
            Err(e) => goblin_check_size(*section, file_len as nat) == Err::<(), Seq<char>>(e@),
        },
{
    let h = goblin::elf::SectionHeader {
        sh_name: section.name, sh_type: section.sh_type, sh_addr: section.address, sh_offset: section.offset,
        sh_size: section.size, sh_link: section.link, sh_entsize: section.entsize, ..Default::default()
    };
    h.check_size(file_len).map_err(|e| e.to_string())
}

/// Calls `goblin::strtab::Strtab::parse` (NUL-delimited) and `get_at` for
/// each offset of `at`.  Claimed: the names, one for each offset, or the
/// error's text, are the ones named by [`goblin_strtab_names`].
#[verifier::external_body]
fn read_strtab_names(buffer: &[u8], offset: u64, len: u64, at: &Vec<usize>) -> (r: Result<Vec<Option<String>>, String>)
    ensures
        match r {
            Ok(v) => v@.len() == at@.len() && goblin_strtab_names(buffer@, offset, len, at@) == Ok::<
                Seq<Option<Seq<char>>>,
                Seq<char>,
            >(v@.map_values(|n: Option<String>| crate::types::opt_text(n))),
            Err(e) => goblin_strtab_names(buffer@, offset, len, at@) == Err::<Seq<Option<Seq<char>>>, Seq<char>>(e@),
        },
{
    let table = goblin::strtab::Strtab::parse(buffer, offset as usize, len as usize, 0).map_err(|e| e.to_string())?;
    Ok(at.iter().map(|a| table.get_at(*a).map(String::from)).collect())
}

/// Calls `goblin::elf::Symtab::parse` with the class and byte order given
/// and walks the table.  Claimed: the symbols, or the error's text, are the
/// ones named by [`goblin_symbols`].
#[verifier::external_body]
fn read_symbols(buffer: &[u8], offset: u64, count: u64, is_64: bool, little_endian: bool) -> (r: Result<
    Vec<SymbolFields>,
    String,
>)
    ensures
        match r {
            Ok(v) => goblin_symbols(buffer@, offset, count, is_64, little_endian) == Ok::<
                Seq<SymbolFields>,
                Seq<char>,
            >(v@),
            Err(e) => goblin_symbols(buffer@, offset, count, is_64, little_endian) == Err::<
                Seq<SymbolFields>,
                Seq<char>,
            >(e@),
        },
{
    let container = if is_64 { goblin::container::Container::Big } else { goblin::container::Container::Little };
    let endian = if little_endian { goblin::container::Endian::Little } else { goblin::container::Endian::Big };
    let ctx = goblin::container::Ctx::new(container, endian);
    let table = goblin::elf::Symtab::parse(buffer, offset as usize, count as usize, ctx).map_err(|e| e.to_string())?;
    Ok(table.iter().map(|s| SymbolFields {
        name: s.st_name, info: s.st_info, shndx: s.st_shndx, value: s.st_value, size: s.st_size,
    }).collect())
}

// ---------------------------------------------------------------------------
// Which tables are read
// ---------------------------------------------------------------------------

/// The section index that says the real index is in the first section
/// header's link field (`SHN_XINDEX`).
pub const SHN_XINDEX: usize = 0xffff;

/// The section type of a symbol table (`SHT_SYMTAB`).
pub const SHT_SYMTAB: u32 = 2;

/// One name per offset, all missing: what an absent string table gives.
pub open spec fn no_names(n: nat) -> Seq<Option<Seq<char>>> {
    Seq::new(n, |i: int| None::<Seq<char>>)
}

/// The names at the offsets `at` in the string table of section `idx`:
/// `SHN_XINDEX` refers to the first section's link; an index past the last
/// section means no table; a table's section must fit in the file.
pub open spec fn strtab_names(file: Seq<u8>, shdrs: Seq<SectionFields>, idx: usize, at: Seq<usize>) -> Result<
    Seq<Option<Seq<char>>>,
    Seq<char>,
> {
    if idx == SHN_XINDEX && shdrs.len() == 0 {
        Ok(no_names(at.len()))
    } else {
        let j: int = if idx == SHN_XINDEX {
            shdrs[0].link as int
        } else {
            idx as int
        };
        if j >= shdrs.len() {
            Ok(no_names(at.len()))
        } else {
            match goblin_check_size(shdrs[j], file.len()) {
                Err(e) => Err(e),
                Ok(_) => goblin_strtab_names(file, shdrs[j].offset, shdrs[j].size, at),
            }
        }
    }
}

/// The index of the last symbol table section, if any.
pub open spec fn last_symtab(shdrs: Seq<SectionFields>) -> Option<int>
    decreases shdrs.len(),
{
    if shdrs.len() == 0 {
        None
    } else if shdrs.last().sh_type == SHT_SYMTAB {
        Some(shdrs.len() - 1)
    } else {
        last_symtab(shdrs.drop_last())
    }
}

/// The number of entries of a symbol table section (none when its entry
/// size is 0).
pub open spec fn symbol_count(s: SectionFields) -> u64 {
    if s.entsize == 0 {
        0
    } else {
        s.size / s.entsize
    }
}

/// The symbols of the last symbol table, with their names from the string
/// table its link names; none when there is no symbol table.
pub open spec fn symbols_of(file: Seq<u8>, h: HeaderFields, shdrs: Seq<SectionFields>) -> Result<
    (Seq<SymbolFields>, Seq<Option<Seq<char>>>),
    Seq<char>,
> {
    match last_symtab(shdrs) {
        None => Ok((Seq::empty(), Seq::empty())),
        Some(k) => match goblin_symbols(file, shdrs[k].offset, symbol_count(shdrs[k]), h.is_64, h.little_endian) {
            Err(e) => Err(e),
            Ok(syms) => match strtab_names(
                file,
                shdrs,
                shdrs[k].link as usize,
                syms.map_values(|y: SymbolFields| y.name),
            ) {
                Err(e) => Err(e),
                Ok(names) => Ok((syms, names)),
            },
        },
    }
}

/// The layout of the image in `file`: its class and entry point, its
/// section headers named from the section-name table, and its symbols
/// named from their string table; or the first error met, in that order.
pub open spec fn elf_layout_of(file: Seq<u8>) -> Result<ElfLayoutView, Seq<char>> {
    match goblin_header(file) {
        Err(e) => Err(e),
        Ok(h) => match goblin_section_headers(file, h.shoff, h.shnum, h.is_64, h.little_endian) {
            Err(e) => Err(e),
            Ok(shdrs) => match strtab_names(file, shdrs, h.shstrndx as usize, shdrs.map_values(|s: SectionFields| s.name)) {
                Err(e) => Err(e),
                Ok(snames) => match symbols_of(file, h, shdrs) {
                    Err(e) => Err(e),
                    Ok((syms, names)) => Ok(
                        ElfLayoutView {
                            is_64: h.is_64,
                            entry: h.entry,
                            sections: Seq::new(
                                shdrs.len(),
                                |i: int|
                                    RawSectionView {
                                        name: snames[i],
                                        offset: shdrs[i].offset,
                                        size: shdrs[i].size,
                                        address: shdrs[i].address,
                                    },
                            ),
                            symbols: Seq::new(
                                syms.len(),
                                |i: int|
                                    RawSymbolView {
                                        name: names[i],
                                        st_info: syms[i].info,
                                        st_shndx: syms[i].shndx,
                                        st_value: syms[i].value,
                                        st_size: syms[i].size,
                                    },
                            ),
                        },
                    ),
                },
            },
        },
    }
}

// ---------------------------------------------------------------------------
// Reading, in exec code
// ---------------------------------------------------------------------------

/// The names at the offsets `at` in the string table of section `idx` (see
/// [`strtab_names`]).
fn read_table_names(buffer: &[u8], shdrs: &Vec<SectionFields>, idx: usize, at: &Vec<usize>) -> (r: Result<
    Vec<Option<String>>,
    String,
>)
    ensures
        match r {
            Ok(v) => v@.len() == at@.len() && strtab_names(buffer@, shdrs@, idx, at@) == Ok::<
                Seq<Option<Seq<char>>>,
                Seq<char>,
            >(v@.map_values(|n: Option<String>| crate::types::opt_text(n))),
            Err(e) => strtab_names(buffer@, shdrs@, idx, at@) == Err::<Seq<Option<Seq<char>>>, Seq<char>>(e@),
        },
{
    let j: usize = if idx == SHN_XINDEX {
        if shdrs.len() == 0 {
            return Ok(missing_names(at.len()));
        }
        shdrs[0].link as usize
    } else {
        idx
    };
    if j >= shdrs.len() {
        return Ok(missing_names(at.len()));
    }
    let s = shdrs[j];
    match check_section_size(&s, buffer.len()) {
        Err(e) => Err(e),
        Ok(()) => read_strtab_names(buffer, s.offset, s.size, at),
    }
}

/// `n` missing names.
fn missing_names(n: usize) -> (r: Vec<Option<String>>)
    ensures
        r@.len() == n,
        r@.map_values(|x: Option<String>| crate::types::opt_text(x)) == no_names(n as nat),
{
    let mut r: Vec<Option<String>> = Vec::new();
    let mut i: usize = 0;
    while i < n
        invariant
            i <= n,
            r@.len() == i,
            forall|k: int| 0 <= k < i ==> #[trigger] r@[k] is None,
        decreases n - i,
    {
        r.push(None);
        i = i + 1;
    }
    assert(r@.map_values(|x: Option<String>| crate::types::opt_text(x)) =~= no_names(n as nat));
    r
}

/// The index of the last symbol table section (see [`last_symtab`]).
fn find_last_symtab(shdrs: &Vec<SectionFields>) -> (r: Option<usize>)
    ensures
        match r {
            Some(k) => last_symtab(shdrs@) == Some(k as int) && k < shdrs@.len(),
            None => last_symtab(shdrs@) is None,
        },
{
    let mut n: usize = shdrs.len();
    assert(shdrs@.take(n as int) =~= shdrs@);
    while n > 0
        invariant
            n <= shdrs@.len(),
            last_symtab(shdrs@) == last_symtab(shdrs@.take(n as int)),
        decreases n,
    {
        let ghost pre = shdrs@.take(n as int);
        assert(pre.last() == shdrs@[n - 1]);
        assert(pre.drop_last() =~= shdrs@.take(n - 1));
        if shdrs[n - 1].sh_type == SHT_SYMTAB {
            return Some(n - 1);
        }
        n = n - 1;
    }
    None
}

/// Reads the layout of the image in `buffer` (see [`elf_layout_of`]).
pub fn read_elf_layout(buffer: &[u8]) -> (r: Result<ElfLayout, String>)
    ensures
        match r {
            Ok(l) => elf_layout_of(buffer@) == Ok::<ElfLayoutView, Seq<char>>(l@),
            Err(e) => elf_layout_of(buffer@) == Err::<ElfLayoutView, Seq<char>>(e@),
        },
{
    let h = read_header(buffer)?;
    let shdrs = read_section_headers(buffer, h.shoff, h.shnum, h.is_64, h.little_endian)?;
    let mut at: Vec<usize> = Vec::new();
    let mut i: usize = 0;
    while i < shdrs.len()
        invariant
            i <= shdrs@.len(),
            at@ == shdrs@.take(i as int).map_values(|s: SectionFields| s.name),
        decreases shdrs@.len() - i,
    {
        at.push(shdrs[i].name);
        i = i + 1;
        assert(at@ =~= shdrs@.take(i as int).map_values(|s: SectionFields| s.name));
    }
    assert(shdrs@.take(i as int) =~= shdrs@);
    let snames = read_table_names(buffer, &shdrs, h.shstrndx as usize, &at)?;
    let ghost sn = snames@.map_values(|n: Option<String>| crate::types::opt_text(n));
    let (syms, names): (Vec<SymbolFields>, Vec<Option<String>>) = match find_last_symtab(&shdrs) {
        None => {
            let syms: Vec<SymbolFields> = Vec::new();
            let names: Vec<Option<String>> = Vec::new();
            assert(syms@ =~= Seq::<SymbolFields>::empty());
            assert(names@.map_values(|n: Option<String>| crate::types::opt_text(n)) =~= Seq::<Option<Seq<char>>>::empty());
            (syms, names)
        },
        Some(k) => {
            let s = shdrs[k];
            let count: u64 = if s.entsize == 0 {
                0
            } else {
                s.size / s.entsize
            };
            let syms = read_symbols(buffer, s.offset, count, h.is_64, h.little_endian)?;
            let mut sat: Vec<usize> = Vec::new();
            let mut q: usize = 0;
            while q < syms.len()
                invariant
                    q <= syms@.len(),
                    sat@ == syms@.take(q as int).map_values(|y: SymbolFields| y.name),
                decreases syms@.len() - q,
            {
                sat.push(syms[q].name);
                q = q + 1;
                assert(sat@ =~= syms@.take(q as int).map_values(|y: SymbolFields| y.name));
            }
            assert(syms@.take(q as int) =~= syms@);
            assert(s == shdrs@[k as int]);
            assert(count == symbol_count(shdrs@[k as int]));
            let names = read_table_names(buffer, &shdrs, s.link as usize, &sat)?;
            assert(symbols_of(buffer@, h, shdrs@) == Ok::<(Seq<SymbolFields>, Seq<Option<Seq<char>>>), Seq<char>>(
                (syms@, names@.map_values(|n: Option<String>| crate::types::opt_text(n))),
            ));
            (syms, names)
        },
    };
    let ghost nm = names@.map_values(|n: Option<String>| crate::types::opt_text(n));
    assert(symbols_of(buffer@, h, shdrs@) == Ok::<(Seq<SymbolFields>, Seq<Option<Seq<char>>>), Seq<char>>((syms@, nm)));
    assert(names@.len() == syms@.len());
    let mut sections: Vec<RawSection> = Vec::new();
    let mut a: usize = 0;
    while a < shdrs.len()
        invariant
            a <= shdrs@.len(),
            snames@.len() == shdrs@.len(),
            sn == snames@.map_values(|n: Option<String>| crate::types::opt_text(n)),
            sections@.len() == a,
            forall|k: int|
                0 <= k < a ==> #[trigger] sections@[k]@ == (RawSectionView {
                    name: sn[k],
                    offset: shdrs@[k].offset,
                    size: shdrs@[k].size,
                    address: shdrs@[k].address,
                }),
        decreases shdrs@.len() - a,
    {
        let s = shdrs[a];
        let name = match &snames[a] {
            Some(n) => Some(crate::types::copy_string(n)),
            None => None,
        };
        sections.push(RawSection { name, offset: s.offset, size: s.size, address: s.address });
        a = a + 1;
    }
    let mut symbols: Vec<RawSymbol> = Vec::new();
    let mut b: usize = 0;
    while b < syms.len()
        invariant
            b <= syms@.len(),
            names@.len() == syms@.len(),
            nm == names@.map_values(|n: Option<String>| crate::types::opt_text(n)),
            symbols@.len() == b,
            forall|k: int|
                0 <= k < b ==> #[trigger] symbols@[k]@ == (RawSymbolView {
                    name: nm[k],
                    st_info: syms@[k].info,
                    st_shndx: syms@[k].shndx,
                    st_value: syms@[k].value,
                    st_size: syms@[k].size,
                }),
        decreases syms@.len() - b,
    {
        let y = syms[b];
        let name = match &names[b] {
            Some(n) => Some(crate::types::copy_string(n)),
            None => None,
        };
        symbols.push(RawSymbol { name, st_info: y.info, st_shndx: y.shndx, st_value: y.value, st_size: y.size });
        b = b + 1;
    }
    let layout = ElfLayout { is_64: h.is_64, entry: h.entry, sections, symbols };
    assert(layout@.sections =~= Seq::new(
        shdrs@.len(),
        |i: int|
            RawSectionView { name: sn[i], offset: shdrs@[i].offset, size: shdrs@[i].size, address: shdrs@[i].address },
    ));
    assert(layout@.symbols =~= Seq::new(
        syms@.len(),
        |i: int|
            RawSymbolView {
                name: nm[i],
                st_info: syms@[i].info,
                st_shndx: syms@[i].shndx,
                st_value: syms@[i].value,
                st_size: syms@[i].size,
            },
    ));
    Ok(layout)
}

} // verus!
