//! The linked test program as an ELF image: its code and data sections and
//! its symbol table.  `goblin` parses the image; what the harness takes
//! from it is decided, and verified, here.
use crate::error::AsmTestError;
use crate::types::{has_key, insert_entry, keys_distinct, StringMap};
use vstd::prelude::*;

verus! {

/// A section header as `goblin` reports it, with its name resolved in the
/// section-name string table (`None` when the table has no string there).
pub struct RawSection {
    pub name: Option<String>,
    pub offset: u64,
    pub size: u64,
    pub address: u64,
}

/// What a [`RawSection`] holds.
pub struct RawSectionView {
    pub name: Option<Seq<char>>,
    pub offset: u64,
    pub size: u64,
    pub address: u64,
}

impl View for RawSection {
    type V = RawSectionView;

    open spec fn view(&self) -> RawSectionView {
        RawSectionView {
            name: crate::types::opt_text(self.name),
            offset: self.offset,
            size: self.size,
            address: self.address,
        }
    }
}

/// A symbol-table entry as `goblin` reports it, with its name resolved in
/// the symbol string table.
pub struct RawSymbol {
    pub name: Option<String>,
    pub st_info: u8,
    pub st_shndx: usize,
    pub st_value: u64,
    pub st_size: u64,
}

/// What a [`RawSymbol`] holds.
pub struct RawSymbolView {
    pub name: Option<Seq<char>>,
    pub st_info: u8,
    pub st_shndx: usize,
    pub st_value: u64,
    pub st_size: u64,
}

impl View for RawSymbol {
    type V = RawSymbolView;

    open spec fn view(&self) -> RawSymbolView {
        RawSymbolView {
            name: crate::types::opt_text(self.name),
            st_info: self.st_info,
            st_shndx: self.st_shndx,
            st_value: self.st_value,
            st_size: self.st_size,
        }
    }
}

/// What the harness reads of a parsed ELF image: its class, its entry
/// point, its section headers and its symbol table, in file order.
pub struct ElfLayout {
    pub is_64: bool,
    pub entry: u64,
    pub sections: Vec<RawSection>,
    pub symbols: Vec<RawSymbol>,
}

/// What an [`ElfLayout`] holds.
pub struct ElfLayoutView {
    pub is_64: bool,
    pub entry: u64,
    pub sections: Seq<RawSectionView>,
    pub symbols: Seq<RawSymbolView>,
}

impl View for ElfLayout {
    type V = ElfLayoutView;

    open spec fn view(&self) -> ElfLayoutView {
        ElfLayoutView {
            is_64: self.is_64,
            entry: self.entry,
            sections: self.sections@.map_values(|s: RawSection| s@),
            symbols: self.symbols@.map_values(|s: RawSymbol| s@),
        }
    }
}

/// The kind of a symbol.
#[derive(Debug, Clone, Copy, PartialEq, Eq, Structural)]
pub enum SymbolType {
    Function,
    Object,
    Undefined,
    Other,
}

/// The kind of a symbol with info byte `info` defined in section `shndx`:
/// the type in the low four bits of `info` (`STT_FUNC` = 2, `STT_OBJECT` =
/// 1); a `STT_NOTYPE` (0) symbol is undefined when its section index is 0.
pub open spec fn symbol_type_of(info: u8, shndx: usize) -> SymbolType {
    let t = info % 16;
    if t == 2 {
        SymbolType::Function
    } else if t == 1 {
        SymbolType::Object
    } else if t == 0 && shndx == 0 {
        SymbolType::Undefined
    } else {
        SymbolType::Other
    }
}

/// The kind of a symbol (see [`symbol_type_of`]).
pub fn get_symbol_type(sym: &RawSymbol) -> (r: SymbolType)
    ensures
        r == symbol_type_of(sym.st_info, sym.st_shndx),
{
    let info = sym.st_info;
    let t: u8 = info & 0xf;
    assert(info & 0xf == info % 16) by (bit_vector);
    if t == 2 {
        SymbolType::Function
    } else if t == 1 {
        SymbolType::Object
    } else if t == 0 {
        if sym.st_shndx == 0 {
            SymbolType::Undefined
        } else {
            SymbolType::Other
        }
    } else {
        SymbolType::Other
    }
}

/// A symbol of the program.
pub struct SymbolInfo {
    pub name: String,
    pub address: u64,
    pub size: u64,
    pub sym_type: SymbolType,
}

/// What a [`SymbolInfo`] holds.
pub struct SymbolInfoView {
    pub name: Seq<char>,
    pub address: u64,
    pub size: u64,
    pub sym_type: SymbolType,
}

impl View for SymbolInfo {
    type V = SymbolInfoView;

    open spec fn view(&self) -> SymbolInfoView {
        SymbolInfoView { name: self.name@, address: self.address, size: self.size, sym_type: self.sym_type }
    }
}

/// A section of the program with its bytes.
pub struct SectionInfo {
    pub name: String,
    pub offset: usize,
    pub size: usize,
    pub address: u64,
    pub data: Vec<u8>,
}

/// What a [`SectionInfo`] holds.
pub struct SectionInfoView {
    pub name: Seq<char>,
    pub offset: int,
    pub size: int,
    pub address: u64,
    pub data: Seq<u8>,
}

impl View for SectionInfo {
    type V = SectionInfoView;

    open spec fn view(&self) -> SectionInfoView {
        SectionInfoView {
            name: self.name@,
            offset: self.offset as int,
            size: self.size as int,
            address: self.address,
            data: self.data@,
        }
    }
}

/// Whether the bytes a section header describes lie within the file.
pub open spec fn section_fits(file_len: int, s: RawSectionView) -> bool {
    s.offset + s.size <= file_len
}

/// The section a header describes, named `name`, with its bytes taken from
/// the file.
pub open spec fn section_info_of(file: Seq<u8>, name: Seq<char>, s: RawSectionView) -> SectionInfoView {
    SectionInfoView {
        name: name,
        offset: s.offset as int,
        size: s.size as int,
        address: s.address,
        data: file.subrange(s.offset as int, s.offset + s.size),
    }
}

/// The detail of the error for a section that does not fit in the file.
pub open spec fn section_overflow_detail(name: Seq<char>) -> Seq<char> {
    "Malformed entity: 段 "@ + name + " 的偏移或大小超出文件范围"@
}

/// Extracts the section a header describes, named `section_name`; fails
/// when its bytes do not lie within `buffer`.
pub fn extract_section_info(section_header: &RawSection, section_name: &str, buffer: &[u8]) -> (r: Result<SectionInfo, AsmTestError>)
    ensures
        match r {
            Ok(info) => section_fits(buffer@.len() as int, section_header@)
                && info@ == section_info_of(buffer@, section_name@, section_header@),
            Err(e) => !section_fits(buffer@.len() as int, section_header@)
                && (e matches AsmTestError::ElfParse(d) && d@ == section_overflow_detail(section_name@)),
        },
{
    let offset = section_header.offset;
    let size = section_header.size;
    if offset > buffer.len() as u64 || size > buffer.len() as u64 - offset {
        let nc = crate::text::chars_of(section_name);
        return Err(AsmTestError::ElfParse(
            crate::error::describe_around("Malformed entity: 段 ", nc.as_slice(), " 的偏移或大小超出文件范围"),
        ));
    }
    let nc = crate::text::chars_of(section_name);
    let start = offset as usize;
    let end = (offset + size) as usize;
    let mut data: Vec<u8> = Vec::new();
    let mut i: usize = start;
    while i < end
        invariant
            start <= i <= end <= buffer@.len(),
            data@ == buffer@.subrange(start as int, i as int),
        decreases end - i,
    {
        data.push(buffer[i]);
        i = i + 1;
        assert(data@ =~= buffer@.subrange(start as int, i as int));
    }
    Ok(SectionInfo {
        name: crate::text::string_of(nc.as_slice()),
        offset: start,
        size: size as usize,
        address: section_header.address,
        data,
    })
}

/// The code section, data section and symbols read from the program.
pub struct ElfInfo {
    pub code_section: Option<SectionInfo>,
    pub data_section: Option<SectionInfo>,
    /// Symbols by name; a later entry of the symbol table replaces an
    /// earlier one of the same name.
    pub symbols: StringMap<SymbolInfo>,
    pub entry_point: u64,
    pub is_32bit: bool,
}

/// What an [`ElfInfo`] holds.
pub struct ElfInfoView {
    pub code_section: Option<SectionInfoView>,
    pub data_section: Option<SectionInfoView>,
    pub symbols: Seq<(Seq<char>, SymbolInfoView)>,
    pub entry_point: u64,
    pub is_32bit: bool,
}

/// View of an optional section.
pub open spec fn opt_section(o: Option<SectionInfo>) -> Option<SectionInfoView> {
    match o {
        Some(s) => Some(s@),
        None => None,
    }
}

impl View for ElfInfo {
    type V = ElfInfoView;

    open spec fn view(&self) -> ElfInfoView {
        ElfInfoView {
            code_section: opt_section(self.code_section),
            data_section: opt_section(self.data_section),
            symbols: self.symbols@,
            entry_point: self.entry_point,
            is_32bit: self.is_32bit,
        }
    }
}

/// The code and data sections picked from the section headers, in order:
/// a section named `.text` becomes the code section and one named `.data`
/// the data section, a later one replacing an earlier one; the first such
/// section that does not fit in the file stops the scan with its name.
pub open spec fn scan_sections(file: Seq<u8>, secs: Seq<RawSectionView>) -> Result<
    (Option<SectionInfoView>, Option<SectionInfoView>),
    Seq<char>,
>
    decreases secs.len(),
{
    if secs.len() == 0 {
        Ok((None, None))
    } else {
        match scan_sections(file, secs.drop_last()) {
            Err(n) => Err(n),
            Ok(found) => {
                let s = secs.last();
                match s.name {
                    Some(n) => {
                        if n == ".text"@ || n == ".data"@ {
                            if section_fits(file.len() as int, s) {
                                let info = section_info_of(file, n, s);
                                if n == ".text"@ {
                                    Ok((Some(info), found.1))
                                } else {
                                    Ok((found.0, Some(info)))
                                }
                            } else {
                                Err(n)
                            }
                        } else {
                            Ok(found)
                        }
                    },
                    None => Ok(found),
                }
            },
        }
    }
}

/// The symbol a symbol-table entry named `name` describes.
pub open spec fn symbol_info_of(name: Seq<char>, s: RawSymbolView) -> SymbolInfoView {
    SymbolInfoView {
        name: name,
        address: s.st_value,
        size: s.st_size,
        sym_type: symbol_type_of(s.st_info, s.st_shndx),
    }
}

/// The symbols by name: each entry of the symbol table with a non-empty
/// name is stored under that name, in table order.
pub open spec fn symbol_table(syms: Seq<RawSymbolView>) -> Seq<(Seq<char>, SymbolInfoView)>
    decreases syms.len(),
{
    if syms.len() == 0 {
        Seq::empty()
    } else {
        let t = symbol_table(syms.drop_last());
        let s = syms.last();
        match s.name {
            Some(n) => if n.len() > 0 {
                insert_entry(t, n, symbol_info_of(n, s))
            } else {
                t
            },
            None => t,
        }
    }
}

/// What the harness reads of a parsed image: the sections and symbols, the
/// entry point and whether it is a 32-bit image; or the detail of the
/// error for a code or data section that does not fit in the file.
pub open spec fn elf_info_outcome(file: Seq<u8>, layout: ElfLayoutView) -> Result<ElfInfoView, Seq<char>> {
    match scan_sections(file, layout.sections) {
        Err(n) => Err(section_overflow_detail(n)),
        Ok(found) => Ok(
            ElfInfoView {
                code_section: found.0,
                data_section: found.1,
                symbols: symbol_table(layout.symbols),
                entry_point: layout.entry,
                is_32bit: !layout.is_64,
            },
        ),
    }
}

/// Looks up a section by name and extracts it.
fn pick_section(section: &RawSection, buffer: &[u8], code: &mut Option<SectionInfo>, data: &mut Option<SectionInfo>) -> (r: Result<(), AsmTestError>)
    requires
        section@.name is Some,
    ensures
        ({
            let n = section@.name->0;
            if n == ".text"@ || n == ".data"@ {
                if section_fits(buffer@.len() as int, section@) {
                    let info = section_info_of(buffer@, n, section@);
                    r is Ok && if n == ".text"@ {
                        opt_section(*final(code)) == Some(info) && opt_section(*final(data)) == opt_section(*old(data))
                    } else {
                        opt_section(*final(code)) == opt_section(*old(code)) && opt_section(*final(data)) == Some(info)
                    }
                } else {
                    r matches Err(AsmTestError::ElfParse(d)) && d@ == section_overflow_detail(n)
                }
            } else {
                r is Ok && opt_section(*final(code)) == opt_section(*old(code)) && opt_section(*final(data))
                    == opt_section(*old(data))
            }
        }),
{
    let name = match &section.name {
        Some(n) => n,
        None => return Ok(()),
    };
    let nc = crate::text::chars_of(name.as_str());
    let t = crate::text::chars_of(".text");
    let d = crate::text::chars_of(".data");
    proof {
        reveal_strlit(".text");
        reveal_strlit(".data");
    }
    if crate::text::chars_eq(nc.as_slice(), t.as_slice()) {
        let info = extract_section_info(section, name.as_str(), buffer)?;
        *code = Some(info);
        Ok(())
    } else if crate::text::chars_eq(nc.as_slice(), d.as_slice()) {
        let info = extract_section_info(section, name.as_str(), buffer)?;
        *data = Some(info);
        Ok(())
    } else {
        Ok(())
    }
}

/// Reads the sections and symbols of a parsed image (see
/// [`elf_info_outcome`]); `buffer` holds the bytes of the file.
pub fn elf_info_from_layout(buffer: &[u8], layout: &ElfLayout) -> (r: Result<ElfInfo, AsmTestError>)
    ensures
        match elf_info_outcome(buffer@, layout@) {
            Ok(v) => r matches Ok(info) && info@ == v,
            Err(m) => r matches Err(AsmTestError::ElfParse(d)) && d@ == m,
        },
{
    let mut code: Option<SectionInfo> = None;
    let mut data: Option<SectionInfo> = None;
    let ghost secs = layout@.sections;
    let mut i: usize = 0;
    while i < layout.sections.len()
        invariant
            i <= secs.len(),
            secs == layout@.sections,
            scan_sections(buffer@, secs.subrange(0, i as int)) == Ok::<
                (Option<SectionInfoView>, Option<SectionInfoView>),
                Seq<char>,
            >((opt_section(code), opt_section(data))),
        decreases secs.len() - i,
    {
        let section = &layout.sections[i];
        assert(secs.subrange(0, i + 1).drop_last() =~= secs.subrange(0, i as int));
        assert(secs.subrange(0, i + 1).last() == section@);
        match &section.name {
            Some(_) => {
                match pick_section(section, buffer, &mut code, &mut data) {
                    Ok(()) => {},
                    Err(e) => {
                        let ghost n = section@.name->0;
                        assert(scan_sections(buffer@, secs.subrange(0, i + 1)) == Err::<
                            (Option<SectionInfoView>, Option<SectionInfoView>),
                            Seq<char>,
                        >(n));
                        proof {
                            lemma_scan_sections_err_persists(buffer@, secs, i as int + 1);
                        }
                        return Err(e);
                    },
                }
            },
            None => {},
        }
        i = i + 1;
    }
    assert(secs.subrange(0, i as int) =~= secs);
    let symbols = build_symbol_table(&layout.symbols);
    Ok(ElfInfo { code_section: code, data_section: data, symbols, entry_point: layout.entry, is_32bit: !layout.is_64 })
}

/// A scan that stopped on a prefix stops on the whole sequence with the
/// same section.
pub proof fn lemma_scan_sections_err_persists(file: Seq<u8>, secs: Seq<RawSectionView>, k: int)
    requires
        0 <= k <= secs.len(),
        scan_sections(file, secs.subrange(0, k)) is Err,
    ensures
        scan_sections(file, secs) == scan_sections(file, secs.subrange(0, k)),
    decreases secs.len() - k,
{
    if k < secs.len() {
        assert(secs.subrange(0, k + 1).drop_last() =~= secs.subrange(0, k));
        lemma_scan_sections_err_persists(file, secs, k + 1);
    } else {
        assert(secs.subrange(0, k) =~= secs);
    }
}

/// Builds the symbols by name from the symbol table (see [`symbol_table`]).
fn build_symbol_table(syms: &Vec<RawSymbol>) -> (r: StringMap<SymbolInfo>)
    ensures
        r@ == symbol_table(syms@.map_values(|s: RawSymbol| s@)),
        keys_distinct(r@),
{
    let ghost all = syms@.map_values(|s: RawSymbol| s@);
    let mut table: StringMap<SymbolInfo> = StringMap::new();
    let mut i: usize = 0;
    while i < syms.len()
        invariant
            i <= syms@.len(),
            all == syms@.map_values(|s: RawSymbol| s@),
            table@ == symbol_table(all.subrange(0, i as int)),
            keys_distinct(table@),
        decreases syms@.len() - i,
    {
        let s = &syms[i];
        assert(all.subrange(0, i + 1).drop_last() =~= all.subrange(0, i as int));
        assert(all.subrange(0, i + 1).last() == s@);
        match &s.name {
            Some(n) => {
                let nc = crate::text::chars_of(n.as_str());
                if nc.len() > 0 {
                    let info = SymbolInfo {
                        name: crate::types::copy_string(n),
                        address: s.st_value,
                        size: s.st_size,
                        sym_type: get_symbol_type(s),
                    };
                    table.insert(crate::types::copy_string(n), info);
                }
            },
            None => {},
        }
        i = i + 1;
    }
    assert(all.subrange(0, i as int) =~= all);
    table
}

/// Reads the program in `buffer`: `goblin` parses its header, section
/// headers and symbol table (see [`crate::elf_image::elf_layout_of`]; an
/// error of its own becomes [`AsmTestError::ElfParse`] with its text) and the sections and
/// symbols are read from the result (see [`elf_info_outcome`]).
pub fn parse_elf_bytes(buffer: &[u8]) -> (r: Result<ElfInfo, AsmTestError>)
    ensures
        match crate::elf_image::elf_layout_of(buffer@) {
            Err(m) => r matches Err(AsmTestError::ElfParse(d)) && d@ == m,
            Ok(l) => match elf_info_outcome(buffer@, l) {
                Ok(v) => r matches Ok(info) && info@ == v,
                Err(m) => r matches Err(AsmTestError::ElfParse(d)) && d@ == m,
            },
        },
{
    match crate::elf_image::read_elf_layout(buffer) {
        Err(m) => Err(AsmTestError::ElfParse(m)),
        Ok(layout) => elf_info_from_layout(buffer, &layout),
    }
}

/// Whether some entry of the symbol table is named `n`.
pub open spec fn names_symbol(syms: Seq<RawSymbolView>, n: Seq<char>) -> bool {
    exists|j: int| 0 <= j < syms.len() && #[trigger] syms[j].name == Some(n)
}

/// Law: the symbols by name hold each non-empty name of the symbol table
/// exactly once, and each symbol is stored under its own name.
pub proof fn law_symbol_table_by_name(syms: Seq<RawSymbolView>)
    ensures
        keys_distinct(symbol_table(syms)),
        forall|i: int| 0 <= i < symbol_table(syms).len() ==> (#[trigger] symbol_table(syms)[i]).1.name == symbol_table(syms)[i].0
            && symbol_table(syms)[i].0.len() > 0,
        forall|n: Seq<char>| #[trigger] has_key(symbol_table(syms), n) <==> (n.len() > 0 && names_symbol(syms, n)),
    decreases syms.len(),
{
    if syms.len() > 0 {
        let init = syms.drop_last();
        law_symbol_table_by_name(init);
        let t = symbol_table(init);
        let s = syms.last();
        assert forall|n: Seq<char>| names_symbol(init, n) implies names_symbol(syms, n) by {
            let j = choose|j: int| 0 <= j < init.len() && #[trigger] init[j].name == Some(n);
            assert(syms[j] == init[j]);
        }
        assert forall|n: Seq<char>| names_symbol(syms, n) && s.name != Some(n) implies names_symbol(init, n) by {
            let j = choose|j: int| 0 <= j < syms.len() && #[trigger] syms[j].name == Some(n);
            assert(j < init.len());
            assert(syms[j] == init[j]);
        }
        match s.name {
            Some(n) => {
                assert(names_symbol(syms, n)) by {
                    assert(syms[syms.len() - 1].name == Some(n));
                }
                if n.len() > 0 {
                    crate::types::lemma_insert_entry(t, n, symbol_info_of(n, s));
                    let r = symbol_table(syms);
                    assert forall|i: int| 0 <= i < r.len() implies (#[trigger] r[i]).1.name == r[i].0 && r[i].0.len() > 0 by {
                        if r[i].0 != n {
                            let j = choose|j: int| 0 <= j < t.len() && #[trigger] t[j] == r[i];
                            assert(t[j].1.name == t[j].0);
                        }
                    }
                }
            },
            None => {},
        }
    }
}

} // verus!
