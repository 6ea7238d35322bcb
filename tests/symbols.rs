use wasmonkey::errors::WError;
use wasmonkey::symbols::{
    extract_function_symbols, parse_elf, parse_macho, ElfSymbol, ExtractedSymbol,
    ExtractedSymbols, MachImage, MachSection, MachSymbol, ObjectFile,
};

fn elf(info: u8, name: Option<&str>) -> ElfSymbol {
    ElfSymbol { st_info: info, name: name.map(|s| s.to_string()) }
}

fn padded(s: &str) -> Vec<u8> {
    let mut v = s.as_bytes().to_vec();
    v.resize(16, 0);
    v
}

fn text(offset: u32, size: u64) -> MachSection {
    MachSection { sectname: padded("__text"), segname: padded("__TEXT"), offset, size }
}

fn sym(name: &str, n_type: u8, n_sect: usize, n_value: u64) -> Option<MachSymbol> {
    Some(MachSymbol { name: name.to_string(), n_type, n_sect, n_value })
}

fn names(s: &ExtractedSymbols) -> Vec<String> {
    s.symbols.iter().map(|e| e.name.clone()).collect()
}

#[test]
fn elf_keeps_global_and_weak_functions() {
    let table = vec![
        elf(0x12, Some("global_fn")),
        elf(0x11, Some("object")),
        elf(0x22, Some("weak_fn")),
        elf(0x10, None),
    ];
    let r = parse_elf(&table).unwrap();
    assert_eq!(names(&r), vec!["global_fn".to_string(), "weak_fn".to_string()]);
}

#[test]
fn elf_function_only_former_kept() {
    let table = vec![elf(0x12, Some("f")), elf(0x11, Some("g"))];
    assert_eq!(names(&parse_elf(&table).unwrap()), vec!["f".to_string()]);
}

#[test]
fn elf_keeps_duplicates_in_order() {
    let table = vec![elf(0x22, Some("b")), elf(0x12, Some("a")), elf(0x12, Some("b"))];
    assert_eq!(names(&parse_elf(&table).unwrap()), vec!["b", "a", "b"]);
}

#[test]
fn elf_unreadable_name_fails() {
    let table = vec![elf(0x12, Some("f")), elf(0x12, None)];
    assert!(matches!(parse_elf(&table), Err(WError::ParseError)));
}

#[test]
fn macho_keeps_text_symbols() {
    let image = MachImage {
        sections: vec![
            MachSection { sectname: padded("__data"), segname: padded("__DATA"), offset: 0, size: 0x10000 },
            text(0x1000, 0x100),
        ],
        symbols: Some(vec![
            sym("_inside", 0xf, 1, 0x1000),
            sym("_last_byte", 0xf, 1, 0x10ff),
            sym("_past_end", 0xf, 1, 0x1100),
            sym("_before", 0xf, 1, 0xfff),
            sym("_", 0xf, 1, 0x1010),
            sym("noprefix", 0xf, 1, 0x1010),
            sym("_undefined", 0x1, 1, 0x1010),
            sym("_other_section", 0xf, 2, 0x1010),
        ]),
    };
    let r = parse_macho(&image).unwrap();
    assert_eq!(names(&r), vec!["inside".to_string(), "last_byte".to_string()]);
}

#[test]
fn macho_excludes_symbol_outside_text_range() {
    let image = MachImage {
        sections: vec![text(0x200, 0x10)],
        symbols: Some(vec![sym("_far", 0xf, 1, 0x210), sym("_near", 0xf, 1, 0x20f)]),
    };
    assert_eq!(names(&parse_macho(&image).unwrap()), vec!["near".to_string()]);
}

#[test]
fn macho_unreadable_entry_fails() {
    let image = MachImage {
        sections: vec![text(0, 16)],
        symbols: Some(vec![sym("_a", 0xf, 1, 5), None, sym("_b", 0xf, 1, 6)]),
    };
    assert!(matches!(parse_macho(&image), Err(WError::ParseError)));
}

#[test]
fn macho_without_text_section_fails() {
    let image = MachImage { sections: vec![], symbols: Some(vec![]) };
    assert!(matches!(parse_macho(&image), Err(WError::ParseError)));
}

#[test]
fn macho_without_symbol_table_fails() {
    let image = MachImage { sections: vec![text(0, 16)], symbols: None };
    assert!(matches!(parse_macho(&image), Err(WError::ParseError)));
}

#[test]
fn macho_last_text_section_wins() {
    let image = MachImage {
        sections: vec![text(0, 16), text(100, 16)],
        symbols: Some(vec![sym("_a", 0xf, 1, 5), sym("_b", 0xf, 1, 105)]),
    };
    assert_eq!(names(&parse_macho(&image).unwrap()), vec!["b".to_string()]);
}

#[test]
fn unsupported_object_fails() {
    assert!(matches!(extract_function_symbols(&ObjectFile::Unsupported), Err(WError::Unsupported)));
    let r = extract_function_symbols(&ObjectFile::Elf(vec![elf(0x12, Some("x"))])).unwrap();
    assert_eq!(names(&r), vec!["x".to_string()]);
}

#[test]
fn extracted_symbols_from_vec() {
    let s = ExtractedSymbols::from(vec![ExtractedSymbol { name: "z".to_string() }]);
    assert_eq!(names(&s), vec!["z".to_string()]);
}
