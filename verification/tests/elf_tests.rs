use goblin::elf::sym::{STB_GLOBAL, STT_FUNC, STT_NOTYPE, STT_OBJECT};
use goblin::elf::Sym;
use x86_asm_test::elf::{
    elf_info_from_layout, extract_section_info, get_symbol_type, parse_elf_bytes, ElfLayout, RawSection, RawSymbol,
    SymbolType,
};
use x86_asm_test::error::AsmTestError;

fn raw_symbol(sym: &Sym) -> RawSymbol {
    RawSymbol {
        name: None,
        st_info: sym.st_info,
        st_shndx: sym.st_shndx,
        st_value: sym.st_value,
        st_size: sym.st_size,
    }
}

fn u16le(v: &mut Vec<u8>, x: u16) {
    v.extend_from_slice(&x.to_le_bytes());
}

fn u32le(v: &mut Vec<u8>, x: u32) {
    v.extend_from_slice(&x.to_le_bytes());
}

fn u64le(v: &mut Vec<u8>, x: u64) {
    v.extend_from_slice(&x.to_le_bytes());
}

#[allow(clippy::too_many_arguments)]
fn section_header(v: &mut Vec<u8>, name: u32, typ: u32, flags: u64, addr: u64, off: u64, size: u64, link: u32, info: u32, align: u64, entsize: u64) {
    u32le(v, name);
    u32le(v, typ);
    u64le(v, flags);
    u64le(v, addr);
    u64le(v, off);
    u64le(v, size);
    u32le(v, link);
    u32le(v, info);
    u64le(v, align);
    u64le(v, entsize);
}

fn symbol(v: &mut Vec<u8>, name: u32, info: u8, shndx: u16, value: u64, size: u64) {
    u32le(v, name);
    v.push(info);
    v.push(0);
    u16le(v, shndx);
    u64le(v, value);
    u64le(v, size);
}

/// A small 64-bit executable image with `.text`, `.data`, a symbol table
/// (`_start`, `my_data`) and section names; `.text` claims `text_size` bytes.
fn sample_elf(text_size: u64) -> Vec<u8> {
    let mut v: Vec<u8> = Vec::new();
    v.extend_from_slice(&[0x7f, b'E', b'L', b'F', 2, 1, 1, 0, 0, 0, 0, 0, 0, 0, 0, 0]);
    u16le(&mut v, 2);
    u16le(&mut v, 0x3e);
    u32le(&mut v, 1);
    u64le(&mut v, 0x401000);
    u64le(&mut v, 0);
    u64le(&mut v, 0xD0);
    u32le(&mut v, 0);
    u16le(&mut v, 64);
    u16le(&mut v, 56);
    u16le(&mut v, 0);
    u16le(&mut v, 64);
    u16le(&mut v, 6);
    u16le(&mut v, 5);
    assert_eq!(v.len(), 0x40);
    v.extend_from_slice(&[0xb8, 0x01, 0x00, 0x00, 0x00, 0xc3, 0, 0]);
    v.extend_from_slice(&[0x78, 0x56, 0x34, 0x12, 0, 0, 0, 0]);
    assert_eq!(v.len(), 0x50);
    symbol(&mut v, 0, 0, 0, 0, 0);
    symbol(&mut v, 1, (STB_GLOBAL << 4) | STT_FUNC, 1, 0x401000, 6);
    symbol(&mut v, 8, (STB_GLOBAL << 4) | STT_OBJECT, 2, 0x402000, 8);
    assert_eq!(v.len(), 0x98);
    v.extend_from_slice(b"\0_start\0my_data\0");
    assert_eq!(v.len(), 0xA8);
    v.extend_from_slice(b"\0.text\0.data\0.symtab\0.strtab\0.shstrtab\0");
    while v.len() < 0xD0 {
        v.push(0);
    }
    section_header(&mut v, 0, 0, 0, 0, 0, 0, 0, 0, 0, 0);
    section_header(&mut v, 1, 1, 6, 0x401000, 0x40, text_size, 0, 0, 16, 0);
    section_header(&mut v, 7, 1, 3, 0x402000, 0x48, 8, 0, 0, 8, 0);
    section_header(&mut v, 13, 2, 0, 0, 0x50, 72, 4, 1, 8, 24);
    section_header(&mut v, 21, 3, 0, 0, 0x98, 16, 0, 0, 1, 0);
    section_header(&mut v, 29, 3, 0, 0, 0xA8, 39, 0, 0, 1, 0);
    v
}

#[test]
fn test_get_symbol_type() {
    let func_sym = Sym { st_name: 0, st_info: (STB_GLOBAL << 4) | STT_FUNC, st_other: 0, st_shndx: 1, st_value: 0x1000, st_size: 16 };
    assert!(matches!(get_symbol_type(&raw_symbol(&func_sym)), SymbolType::Function));

    let obj_sym = Sym { st_name: 0, st_info: (STB_GLOBAL << 4) | STT_OBJECT, st_other: 0, st_shndx: 1, st_value: 0x2000, st_size: 8 };
    assert!(matches!(get_symbol_type(&raw_symbol(&obj_sym)), SymbolType::Object));

    let undef_sym = Sym { st_name: 0, st_info: (STB_GLOBAL << 4) | STT_NOTYPE, st_other: 0, st_shndx: 0, st_value: 0, st_size: 0 };
    assert!(matches!(get_symbol_type(&raw_symbol(&undef_sym)), SymbolType::Undefined));

    let other_sym = Sym { st_name: 0, st_info: (STB_GLOBAL << 4) | STT_NOTYPE, st_other: 0, st_shndx: 1, st_value: 0x3000, st_size: 4 };
    assert!(matches!(get_symbol_type(&raw_symbol(&other_sym)), SymbolType::Other));
}

#[test]
fn test_parse_empty_elf_file() {
    let result = parse_elf_bytes(&[]);
    assert!(result.is_err());
}

#[test]
fn test_parse_invalid_elf_file() {
    let result = parse_elf_bytes(b"invalid elf content");
    assert!(result.is_err());
}

#[test]
fn test_parse_elf_with_text_section() {
    let buffer = vec![0u8; 128];
    if parse_elf_bytes(&buffer).is_ok() {
        let section_header = RawSection { name: Some(".text".to_string()), offset: 0, size: 32, address: 0x1000 };
        let result = extract_section_info(&section_header, ".text", &buffer);
        assert!(result.is_err());
    }
}

#[test]
fn test_parse_elf_with_data_section() {
    let buffer = vec![0u8; 128];
    if parse_elf_bytes(&buffer).is_ok() {
        let section_header = RawSection { name: Some(".data".to_string()), offset: 0, size: 32, address: 0x2000 };
        let result = extract_section_info(&section_header, ".data", &buffer);
        assert!(result.is_err());
    }
}

#[test]
fn test_parse_symbols() {
    let buffer = vec![0u8; 64];
    if let Ok(info) = parse_elf_bytes(&buffer) {
        assert_eq!(info.symbols.len(), 0);
    }
}

#[test]
fn parse_elf_bytes_reads_sections_and_symbols() {
    let image = sample_elf(6);
    let info = match parse_elf_bytes(&image) {
        Ok(i) => i,
        Err(e) => panic!("{}", e.message()),
    };
    assert!(!info.is_32bit);
    assert_eq!(info.entry_point, 0x401000);
    let code = info.code_section.as_ref().unwrap();
    assert_eq!(code.name, ".text");
    assert_eq!(code.offset, 0x40);
    assert_eq!(code.size, 6);
    assert_eq!(code.address, 0x401000);
    assert_eq!(code.data, vec![0xb8, 0x01, 0x00, 0x00, 0x00, 0xc3]);
    let data = info.data_section.as_ref().unwrap();
    assert_eq!(data.name, ".data");
    assert_eq!(data.address, 0x402000);
    assert_eq!(data.data, vec![0x78, 0x56, 0x34, 0x12, 0, 0, 0, 0]);
    assert_eq!(info.symbols.len(), 2);
    assert!(info.symbols.contains_key("_start"));
    assert!(info.symbols.contains_key("my_data"));
    let start = info.symbols.get("_start").unwrap();
    assert_eq!(start.name, "_start");
    assert_eq!(start.address, 0x401000);
    assert_eq!(start.size, 6);
    assert_eq!(start.sym_type, SymbolType::Function);
    assert_eq!(info.symbols.get("my_data").unwrap().sym_type, SymbolType::Object);
}

#[test]
fn parse_elf_bytes_rejects_text_past_end_of_file() {
    let image = sample_elf(0x1000);
    match parse_elf_bytes(&image) {
        Err(AsmTestError::ElfParse(d)) => assert!(d.contains(".text")),
        Err(e) => panic!("unexpected error {}", e.message()),
        Ok(_) => panic!("accepted a .text section beyond the end of the file"),
    }
}

#[test]
fn extract_section_info_copies_bytes() {
    let buffer: Vec<u8> = (0u8..32).collect();
    let header = RawSection { name: Some(".text".to_string()), offset: 4, size: 8, address: 0x1000 };
    let info = match extract_section_info(&header, ".text", &buffer) {
        Ok(i) => i,
        Err(e) => panic!("{}", e.message()),
    };
    assert_eq!(info.name, ".text");
    assert_eq!(info.offset, 4);
    assert_eq!(info.size, 8);
    assert_eq!(info.address, 0x1000);
    assert_eq!(info.data, vec![4, 5, 6, 7, 8, 9, 10, 11]);
    let whole = RawSection { name: None, offset: 0, size: 32, address: 0 };
    assert!(extract_section_info(&whole, ".data", &buffer).is_ok());
    let past = RawSection { name: None, offset: 30, size: 3, address: 0 };
    assert!(matches!(extract_section_info(&past, ".data", &buffer), Err(AsmTestError::ElfParse(_))));
    let huge = RawSection { name: None, offset: u64::MAX, size: 2, address: 0 };
    assert!(extract_section_info(&huge, ".data", &buffer).is_err());
}

#[test]
fn later_sections_and_symbols_replace_earlier_ones() {
    let buffer: Vec<u8> = (0u8..16).collect();
    let layout = ElfLayout {
        is_64: false,
        entry: 0x8048000,
        sections: vec![
            RawSection { name: Some(".text".to_string()), offset: 0, size: 2, address: 0x100 },
            RawSection { name: None, offset: 100, size: 100, address: 0 },
            RawSection { name: Some(".bss".to_string()), offset: 100, size: 100, address: 0 },
            RawSection { name: Some(".text".to_string()), offset: 2, size: 3, address: 0x200 },
        ],
        symbols: vec![
            RawSymbol { name: Some("f".to_string()), st_info: STT_FUNC, st_shndx: 1, st_value: 1, st_size: 0 },
            RawSymbol { name: Some("".to_string()), st_info: STT_OBJECT, st_shndx: 1, st_value: 2, st_size: 0 },
            RawSymbol { name: None, st_info: STT_OBJECT, st_shndx: 1, st_value: 3, st_size: 0 },
            RawSymbol { name: Some("f".to_string()), st_info: STT_OBJECT, st_shndx: 1, st_value: 4, st_size: 0 },
        ],
    };
    let info = match elf_info_from_layout(&buffer, &layout) {
        Ok(i) => i,
        Err(e) => panic!("{}", e.message()),
    };
    assert!(info.is_32bit);
    assert_eq!(info.entry_point, 0x8048000);
    let code = info.code_section.as_ref().unwrap();
    assert_eq!(code.address, 0x200);
    assert_eq!(code.data, vec![2, 3, 4]);
    assert!(info.data_section.is_none());
    assert_eq!(info.symbols.len(), 1);
    let f = info.symbols.get("f").unwrap();
    assert_eq!(f.address, 4);
    assert_eq!(f.sym_type, SymbolType::Object);
}

#[test]
fn first_oversized_code_or_data_section_is_an_error() {
    let buffer = vec![0u8; 8];
    let layout = ElfLayout {
        is_64: true,
        entry: 0,
        sections: vec![
            RawSection { name: Some(".data".to_string()), offset: 4, size: 8, address: 0 },
            RawSection { name: Some(".text".to_string()), offset: 0, size: 80, address: 0 },
        ],
        symbols: vec![],
    };
    match elf_info_from_layout(&buffer, &layout) {
        Err(AsmTestError::ElfParse(d)) => assert_eq!(d, "Malformed entity: 段 .data 的偏移或大小超出文件范围"),
        _ => panic!("expected an error for .data"),
    }
}

fn set_u16(v: &mut [u8], at: usize, x: u16) {
    v[at..at + 2].copy_from_slice(&x.to_le_bytes());
}

fn set_u64(v: &mut [u8], at: usize, x: u64) {
    v[at..at + 8].copy_from_slice(&x.to_le_bytes());
}

#[test]
fn section_names_missing_when_the_name_table_index_is_past_the_sections() {
    let mut image = sample_elf(6);
    set_u16(&mut image, 0x3E, 9);
    let info = parse_elf_bytes(&image).unwrap();
    assert!(info.code_section.is_none());
    assert!(info.data_section.is_none());
    assert_eq!(info.symbols.len(), 2);
}

#[test]
fn extended_name_table_index_follows_the_first_section_link() {
    let mut image = sample_elf(6);
    set_u16(&mut image, 0x3E, 0xffff);
    let info = parse_elf_bytes(&image).unwrap();
    assert!(info.code_section.is_none());
    assert_eq!(info.symbols.len(), 2);
}

#[test]
fn symbol_table_with_zero_entry_size_holds_no_symbols() {
    let mut image = sample_elf(6);
    set_u64(&mut image, 0xD0 + 3 * 64 + 56, 0);
    let info = parse_elf_bytes(&image).unwrap();
    assert!(info.code_section.is_some());
    assert_eq!(info.symbols.len(), 0);
}

#[test]
fn string_table_past_the_end_of_the_file_is_refused() {
    let mut image = sample_elf(6);
    set_u64(&mut image, 0xD0 + 4 * 64 + 24, 0x10000);
    assert!(matches!(parse_elf_bytes(&image), Err(AsmTestError::ElfParse(_))));
}
