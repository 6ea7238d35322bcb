use crate::errors::WError;
use vstd::prelude::*;

verus! {

#[derive(Debug, Default)]
pub struct ExtractedSymbol {
    pub name: String,
}

#[derive(Debug, Default)]
pub struct ExtractedSymbols {
    pub symbols: Vec<ExtractedSymbol>,
}

impl ExtractedSymbols {
    pub fn from(symbols: Vec<ExtractedSymbol>) -> (r: Self)
        ensures
            r.symbols@ == symbols@,
    {
        ExtractedSymbols { symbols }
    }
}

pub open spec fn names_of(v: Seq<ExtractedSymbol>) -> Seq<Seq<char>> {
    v.map_values(|e: ExtractedSymbol| e.name@)
}

/// An entry of an ELF dynamic symbol table. `name` is what the dynamic string
/// table gives for the entry, `None` where that lookup failed.
#[derive(Debug)]
pub struct ElfSymbol {
    pub st_info: u8,
    pub name: Option<String>,
}

/// A global (0x12) or weak (0x22) function symbol.
pub open spec fn is_elf_function(st_info: u8) -> bool {
    st_info == 0x12 || st_info == 0x22
}

/// Names of the function symbols of `s`, in table order; `None` when the name
/// of one of them could not be read.
pub open spec fn elf_function_names(s: Seq<ElfSymbol>) -> Option<Seq<Seq<char>>>
    decreases s.len(),
{
    if s.len() == 0 {
        Some(Seq::empty())
    } else {
        match elf_function_names(s.drop_last()) {
            None => None,
            Some(p) => if is_elf_function(s.last().st_info) {
                match s.last().name {
                    None => None,
                    Some(n) => Some(p.push(n@)),
                }
            } else {
                Some(p)
            },
        }
    }
}

pub fn parse_elf(dynsyms: &Vec<ElfSymbol>) -> (r: Result<ExtractedSymbols, WError>)
    ensures
        match r {
            Ok(x) => elf_function_names(dynsyms@) == Some(names_of(x.symbols@)),
            Err(e) => elf_function_names(dynsyms@) is None && e is ParseError,
        },
{
    let mut symbols: Vec<ExtractedSymbol> = Vec::new();
    let mut i: usize = 0;
    while i < dynsyms.len()
        invariant
            i <= dynsyms@.len(),
            elf_function_names(dynsyms@.subrange(0, i as int)) == Some(names_of(symbols@)),
        decreases dynsyms@.len() - i,
    {
        proof {
            assert(dynsyms@.subrange(0, i + 1).drop_last() =~= dynsyms@.subrange(0, i as int));
        }
        let sym = &dynsyms[i];
        if sym.st_info == 0x12 || sym.st_info == 0x22 {
            match &sym.name {
                None => {
                    proof {
                        lemma_elf_none_extends(dynsyms@, i as int + 1);
                    }
                    return Err(WError::ParseError);
                },
                Some(n) => {
                    let ghost before = symbols@;
                    symbols.push(ExtractedSymbol { name: n.clone() });
                    proof {
                        assert(names_of(symbols@) =~= names_of(before).push(n@));
                    }
                },
            }
        }
        i += 1;
    }
    proof {
        assert(dynsyms@.subrange(0, i as int) =~= dynsyms@);
    }
    Ok(ExtractedSymbols::from(symbols))
}

proof fn lemma_elf_none_extends(s: Seq<ElfSymbol>, n: int)
    requires
        0 <= n <= s.len(),
        elf_function_names(s.subrange(0, n)) is None,
    ensures
        elf_function_names(s) is None,
    decreases s.len() - n,
{
    if n < s.len() {
        assert(s.subrange(0, n + 1).drop_last() =~= s.subrange(0, n));
        lemma_elf_none_extends(s, n + 1);
    } else {
        assert(s.subrange(0, n) =~= s);
    }
}

/// A section header of a Mach-O segment, names padded with zeros to 16 bytes.
#[derive(Debug)]
pub struct MachSection {
    pub sectname: Vec<u8>,
    pub segname: Vec<u8>,
    pub offset: u32,
    pub size: u64,
}

/// An entry of a Mach-O symbol table.
#[derive(Debug)]
pub struct MachSymbol {
    pub name: String,
    pub n_type: u8,
    pub n_sect: usize,
    pub n_value: u64,
}

/// What the extractor reads of a Mach-O binary. `symbols` is `None` when the
/// binary has no symbol table; an entry is `None` where it could not be read.
#[derive(Debug)]
pub struct MachImage {
    pub sections: Vec<MachSection>,
    pub symbols: Option<Vec<Option<MachSymbol>>>,
}

pub open spec fn text_sectname() -> Seq<u8> {
    seq![0x5fu8, 0x5fu8, 0x74u8, 0x65u8, 0x78u8, 0x74u8, 0u8, 0u8, 0u8, 0u8, 0u8, 0u8, 0u8, 0u8, 0u8, 0u8]
}

pub open spec fn text_segname() -> Seq<u8> {
    seq![0x5fu8, 0x5fu8, 0x54u8, 0x45u8, 0x58u8, 0x54u8, 0u8, 0u8, 0u8, 0u8, 0u8, 0u8, 0u8, 0u8, 0u8, 0u8]
}

pub open spec fn is_text_section(s: MachSection) -> bool {
    s.sectname@ == text_sectname() && s.segname@ == text_segname()
}

/// Offset and size of the last `__TEXT`/`__text` section.
pub open spec fn text_bounds(s: Seq<MachSection>) -> Option<(u32, u64)>
    decreases s.len(),
{
    if s.len() == 0 {
        None
    } else if is_text_section(s.last()) {
        Some((s.last().offset, s.last().size))
    } else {
        text_bounds(s.drop_last())
    }
}

/// A defined symbol (`N_SECT`, 0xf) of section 1, named `_` and more, whose
/// value lies in `[offset, offset + size)`.
pub open spec fn is_text_function(s: MachSymbol, offset: u32, size: u64) -> bool {
    &&& s.n_type == 0xf
    &&& s.n_sect == 1
    &&& s.name@.len() > 1
    &&& s.name@[0] == '_'
    &&& offset <= s.n_value < offset + size
}

/// Names of the text-section function symbols of `s`, in table order, with the
/// leading `_` taken off; `None` when an entry could not be read.
pub open spec fn macho_function_names(s: Seq<Option<MachSymbol>>, offset: u32, size: u64) -> Option<
    Seq<Seq<char>>,
>
    decreases s.len(),
{
    if s.len() == 0 {
        Some(Seq::empty())
    } else {
        match macho_function_names(s.drop_last(), offset, size) {
            None => None,
            Some(p) => match s.last() {
                Some(sym) => if is_text_function(sym, offset, size) {
                    Some(p.push(sym.name@.subrange(1, sym.name@.len() as int)))
                } else {
                    Some(p)
                },
                None => None,
            },
        }
    }
}

proof fn lemma_macho_none_extends(s: Seq<Option<MachSymbol>>, n: int, offset: u32, size: u64)
    requires
        0 <= n <= s.len(),
        macho_function_names(s.subrange(0, n), offset, size) is None,
    ensures
        macho_function_names(s, offset, size) is None,
    decreases s.len() - n,
{
    if n < s.len() {
        assert(s.subrange(0, n + 1).drop_last() =~= s.subrange(0, n));
        lemma_macho_none_extends(s, n + 1, offset, size);
    } else {
        assert(s.subrange(0, n) =~= s);
    }
}

fn bytes_match(a: &Vec<u8>, b: &[u8; 16]) -> (r: bool)
    ensures
        r == (a@ == b@),
{
    if a.len() != 16 {
        return false;
    }
    let mut i: usize = 0;
    while i < 16
        invariant
            a@.len() == 16,
            b@.len() == 16,
            i <= 16,
            a@.subrange(0, i as int) == b@.subrange(0, i as int),
        decreases 16 - i,
    {
        if a[i] != b[i] {
            return false;
        }
        proof {
            assert(a@.subrange(0, i + 1) =~= a@.subrange(0, i as int).push(a@[i as int]));
            assert(b@.subrange(0, i + 1) =~= b@.subrange(0, i as int).push(b@[i as int]));
        }
        i += 1;
    }
    assert(a@ =~= a@.subrange(0, 16));
    assert(b@ =~= b@.subrange(0, 16));
    true
}

fn find_text_section(sections: &Vec<MachSection>) -> (r: Option<(u32, u64)>)
    ensures
        r == text_bounds(sections@),
{
    let sect: [u8; 16] = [0x5f, 0x5f, 0x74, 0x65, 0x78, 0x74, 0, 0, 0, 0, 0, 0, 0, 0, 0, 0];
    let seg: [u8; 16] = [0x5f, 0x5f, 0x54, 0x45, 0x58, 0x54, 0, 0, 0, 0, 0, 0, 0, 0, 0, 0];
    assert(sect@ =~= text_sectname());
    assert(seg@ =~= text_segname());
    let mut i: usize = sections.len();
    assert(sections@.subrange(0, i as int) =~= sections@);
    while i > 0
        invariant
            i <= sections@.len(),
            sect@ == text_sectname(),
            seg@ == text_segname(),
            text_bounds(sections@) == text_bounds(sections@.subrange(0, i as int)),
        decreases i,
    {
        let s = &sections[i - 1];
        proof {
            assert(sections@.subrange(0, i - 1) =~= sections@.subrange(0, i as int).drop_last());
        }
        if bytes_match(&s.sectname, &sect) && bytes_match(&s.segname, &seg) {
            return Some((s.offset, s.size));
        }
        i -= 1;
    }
    None
}

pub fn parse_macho(macho: &MachImage) -> (r: Result<ExtractedSymbols, WError>)
    ensures
        match r {
            Ok(x) => {
                &&& text_bounds(macho.sections@) is Some
                &&& macho.symbols is Some
                &&& macho_function_names(
                    macho.symbols.unwrap()@,
                    text_bounds(macho.sections@).unwrap().0,
                    text_bounds(macho.sections@).unwrap().1,
                ) == Some(names_of(x.symbols@))
            },
            Err(e) => e is ParseError && (text_bounds(macho.sections@) is None
                || macho.symbols is None || macho_function_names(
                macho.symbols.unwrap()@,
                text_bounds(macho.sections@).unwrap().0,
                text_bounds(macho.sections@).unwrap().1,
            ) is None),
        },
{
    let (text_offset, text_size) = match find_text_section(&macho.sections) {
        Some(b) => b,
        None => return Err(WError::ParseError),
    };
    let table = match &macho.symbols {
        Some(t) => t,
        None => return Err(WError::ParseError),
    };
    let mut symbols: Vec<ExtractedSymbol> = Vec::new();
    let mut i: usize = 0;
    while i < table.len()
        invariant
            i <= table@.len(),
            macho.symbols == Some(*table),
            text_bounds(macho.sections@) == Some((text_offset, text_size)),
            macho_function_names(table@.subrange(0, i as int), text_offset, text_size) == Some(
                names_of(symbols@),
            ),
        decreases table@.len() - i,
    {
        proof {
            assert(table@.subrange(0, i + 1).drop_last() =~= table@.subrange(0, i as int));
        }
        if table[i].is_none() {
            proof {
                assert(table@.subrange(0, i + 1).last() == table@[i as int]);
                lemma_macho_none_extends(table@, i as int + 1, text_offset, text_size);
            }
            return Err(WError::ParseError);
        }
        if let Some(sym) = &table[i] {
            let len = sym.name.as_str().unicode_len();
            if sym.n_type == 0xf && sym.n_sect == 1 && len > 1 && sym.name.as_str().get_char(0)
                == '_' && text_offset as u64 <= sym.n_value && sym.n_value - (text_offset as u64)
                < text_size {
                let ghost before = symbols@;
                let name = sym.name.as_str().substring_char(1, len).to_owned();
                symbols.push(ExtractedSymbol { name });
                proof {
                    assert(names_of(symbols@) =~= names_of(before).push(
                        sym.name@.subrange(1, sym.name@.len() as int),
                    ));
                }
            }
        }
        i += 1;
    }
    proof {
        assert(table@.subrange(0, i as int) =~= table@);
    }
    Ok(ExtractedSymbols::from(symbols))
}

/// An object file, as far as the extractor reads it.
#[derive(Debug)]
pub enum ObjectFile {
    Elf(Vec<ElfSymbol>),
    MachO(MachImage),
    Unsupported,
}

/// The function symbols that a native library exports, in table order.
pub fn extract_function_symbols(object: &ObjectFile) -> (r: Result<ExtractedSymbols, WError>)
    ensures
        match object {
            ObjectFile::Elf(s) => match r {
                Ok(x) => elf_function_names(s@) == Some(names_of(x.symbols@)),
                Err(e) => elf_function_names(s@) is None && e is ParseError,
            },
            ObjectFile::MachO(m) => match r {
                Ok(x) => {
                    &&& text_bounds(m.sections@) is Some
                    &&& m.symbols is Some
                    &&& macho_function_names(
                        m.symbols.unwrap()@,
                        text_bounds(m.sections@).unwrap().0,
                        text_bounds(m.sections@).unwrap().1,
                    ) == Some(names_of(x.symbols@))
                },
                Err(e) => e is ParseError && (text_bounds(m.sections@) is None || m.symbols is None
                    || macho_function_names(
                    m.symbols.unwrap()@,
                    text_bounds(m.sections@).unwrap().0,
                    text_bounds(m.sections@).unwrap().1,
                ) is None),
            },
            ObjectFile::Unsupported => r matches Err(WError::Unsupported),
        },
{
    match object {
        ObjectFile::Elf(s) => parse_elf(s),
        ObjectFile::MachO(m) => parse_macho(m),
        ObjectFile::Unsupported => Err(WError::Unsupported),
    }
}

/// The candidate builtin names: the extracted symbols in table order, then the
/// additional names.
pub fn candidate_names(symbols: &ExtractedSymbols, additional: &Vec<String>) -> (r: Vec<String>)
    ensures
        r@.map_values(|n: String| n@) == names_of(symbols.symbols@) + additional@.map_values(
            |n: String| n@,
        ),
{
    let mut r: Vec<String> = Vec::new();
    let mut i: usize = 0;
    while i < symbols.symbols.len()
        invariant
            i <= symbols.symbols@.len(),
            r@.map_values(|n: String| n@) == names_of(symbols.symbols@.subrange(0, i as int)),
        decreases symbols.symbols@.len() - i,
    {
        let ghost before = r@;
        let n = symbols.symbols[i].name.clone();
        r.push(n);
        proof {
            assert(r@.map_values(|n: String| n@) =~= before.map_values(|n: String| n@).push(n@));
            assert(symbols.symbols@.subrange(0, i + 1) =~= symbols.symbols@.subrange(0, i as int).push(
                symbols.symbols@[i as int],
            ));
        }
        i += 1;
        assert(r@.map_values(|n: String| n@) =~= names_of(symbols.symbols@.subrange(0, i as int)));
    }
    assert(symbols.symbols@.subrange(0, i as int) =~= symbols.symbols@);
    let mut j: usize = 0;
    while j < additional.len()
        invariant
            j <= additional@.len(),
            r@.map_values(|n: String| n@) == names_of(symbols.symbols@) + additional@.subrange(
                0,
                j as int,
            ).map_values(|n: String| n@),
        decreases additional@.len() - j,
    {
        let ghost before = r@;
        let n = additional[j].clone();
        r.push(n);
        proof {
            assert(r@.map_values(|n: String| n@) =~= before.map_values(|n: String| n@).push(n@));
            assert(additional@.subrange(0, j + 1) =~= additional@.subrange(0, j as int).push(
                additional@[j as int],
            ));
        }
        j += 1;
        assert(r@.map_values(|n: String| n@) =~= names_of(symbols.symbols@) + additional@.subrange(
            0,
            j as int,
        ).map_values(|n: String| n@));
    }
    assert(additional@.subrange(0, j as int) =~= additional@);
    r
}

} // verus!
