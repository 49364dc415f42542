//! The ELF front end: sections and Dart snapshot symbols of an ELF file.

use vstd::prelude::*;
use super::Architecture;
use super::errors::CoreError;
use super::file::BinaryFile;
use super::sections::{ParsedBinary, SectionInfo, SectionView, section_views, built_by_new};
use crate::text::{hex_seq, owned, push_hex, push_str, str_eq, str_starts_with, starts_with_seq};

verus! {

/// A section header as the ELF file gives it, with its name looked up in
/// the section-name string table (empty where the lookup fails).
#[derive(Debug, Clone)]
pub struct ElfSection {
    pub name: String,
    pub addr: u64,
    pub offset: u64,
    pub size: u64,
    pub flags: u64,
}

/// A dynamic symbol, with its name where the dynamic string table has one.
#[derive(Debug, Clone)]
pub struct ElfSymbol {
    pub name: Option<String>,
    pub value: u64,
    pub size: u64,
}

/// A program header.
#[derive(Debug, Clone, Copy)]
pub struct ElfSegment {
    pub p_type: u32,
    pub vaddr: u64,
    pub memsz: u64,
    pub offset: u64,
}

/// What `goblin` reads of an ELF header: the machine and the entry point,
/// or the text of its parse error.
pub uninterp spec fn elf_header_of(data: Seq<u8>) -> Result<(u16, u64), Seq<char>>;

/// The section headers `goblin` reads (none where parsing fails).
pub uninterp spec fn elf_sections_of(data: Seq<u8>) -> Seq<ElfSection>;

/// The dynamic symbols `goblin` reads (none where parsing fails).
pub uninterp spec fn elf_symbols_of(data: Seq<u8>) -> Seq<ElfSymbol>;

/// The program headers `goblin` reads (none where parsing fails).
pub uninterp spec fn elf_segments_of(data: Seq<u8>) -> Seq<ElfSegment>;

/// `goblin::elf::Elf::parse`, keeping `header.e_machine` and `entry`, or
/// the error's text. The result is named, not restated.
#[verifier::external_body]
fn elf_header(data: &[u8]) -> (r: Result<(u16, u64), String>)
    ensures
        match r {
            Ok(h) => elf_header_of(data@) == Ok::<(u16, u64), Seq<char>>(h),
            Err(e) => elf_header_of(data@) == Err::<(u16, u64), Seq<char>>(e@),
        },
{
    match goblin::elf::Elf::parse(data) {
        Ok(elf) => Ok((elf.header.e_machine, elf.entry)),
        Err(e) => Err(e.to_string()),
    }
}

/// `goblin::elf::Elf::parse`, keeping each section header with its name
/// from `shdr_strtab.get_at` (empty where that fails). The result is named.
#[verifier::external_body]
fn elf_sections(data: &[u8]) -> (r: Vec<ElfSection>)
    ensures
        r@ == elf_sections_of(data@),
{
    match goblin::elf::Elf::parse(data) {
        Ok(elf) => elf.section_headers.iter().map(|sh| ElfSection {
            name: elf.shdr_strtab.get_at(sh.sh_name).unwrap_or("").to_string(),
            addr: sh.sh_addr, offset: sh.sh_offset, size: sh.sh_size, flags: sh.sh_flags,
        }).collect(),
        Err(_) => Vec::new(),
    }
}

/// `goblin::elf::Elf::parse`, keeping each dynamic symbol with its name
/// from `dynstrtab.get_at`. The result is named.
#[verifier::external_body]
fn elf_symbols(data: &[u8]) -> (r: Vec<ElfSymbol>)
    ensures
        r@ == elf_symbols_of(data@),
{
    match goblin::elf::Elf::parse(data) {
        Ok(elf) => elf.dynsyms.iter().map(|s| ElfSymbol {
            name: elf.dynstrtab.get_at(s.st_name).map(|n| n.to_string()), value: s.st_value, size: s.st_size,
        }).collect(),
        Err(_) => Vec::new(),
    }
}

/// `goblin::elf::Elf::parse`, keeping each program header's type, address,
/// memory size and file offset. The result is named.
#[verifier::external_body]
fn elf_segments(data: &[u8]) -> (r: Vec<ElfSegment>)
    ensures
        r@ == elf_segments_of(data@),
{
    match goblin::elf::Elf::parse(data) {
        Ok(elf) => elf.program_headers.iter().map(|ph| ElfSegment {
            p_type: ph.p_type, vaddr: ph.p_vaddr, memsz: ph.p_memsz, offset: ph.p_offset,
        }).collect(),
        Err(_) => Vec::new(),
    }
}

/// The architecture of an ELF `e_machine` (AArch64, ARM, x86-64, i386).
pub open spec fn elf_arch(machine: u16) -> Option<Architecture> {
    if machine == 183 {
        Some(Architecture::Arm64)
    } else if machine == 40 {
        Some(Architecture::Arm32)
    } else if machine == 62 {
        Some(Architecture::X86_64)
    } else if machine == 3 {
        Some(Architecture::X86)
    } else {
        None
    }
}

/// The section an ELF section header describes: executable with
/// `SHF_EXECINSTR`, writable with `SHF_WRITE`.
pub open spec fn elf_section_view(s: ElfSection) -> SectionView {
    SectionView {
        name: s.name@,
        virtual_addr: s.addr,
        file_offset: s.offset,
        size: s.size,
        is_executable: s.flags & 4 != 0,
        is_writable: s.flags & 1 != 0,
    }
}

/// The sections of the first `k` section headers that have a name.
pub open spec fn named_sections(s: Seq<ElfSection>, k: int) -> Seq<SectionView>
    decreases k,
{
    if k <= 0 || k > s.len() {
        Seq::empty()
    } else {
        named_sections(s, k - 1) + if s[k - 1].name@.len() > 0 {
            seq![elf_section_view(s[k - 1])]
        } else {
            Seq::empty()
        }
    }
}

/// The file offset of a virtual address: through the first loadable
/// segment (`PT_LOAD`) among the first `k` that holds it, the sum taken
/// modulo 2^64.
pub open spec fn load_offset(segs: Seq<ElfSegment>, vaddr: u64, k: int) -> Option<u64>
    decreases k,
{
    if k <= 0 || k > segs.len() {
        None
    } else {
        match load_offset(segs, vaddr, k - 1) {
            Some(o) => Some(o),
            None => {
                let ph = segs[k - 1];
                if ph.p_type == 1 && ph.vaddr <= vaddr && vaddr < ph.vaddr + ph.memsz {
                    Some(((vaddr - ph.vaddr) as u64).wrapping_add(ph.offset))
                } else {
                    None
                }
            },
        }
    }
}

/// Whether a section of that name is among `v`.
pub open spec fn has_named(v: Seq<SectionView>, name: Seq<char>) -> bool {
    exists|j: int| 0 <= j < v.len() && (#[trigger] v[j]).name == name
}

/// The sections with the first `k` dynamic symbols added: each symbol whose
/// name starts with `_kDart` and names no section yet becomes a section at
/// its value, read from the file through the loadable segments.
pub open spec fn with_dart_symbols(v: Seq<SectionView>, syms: Seq<ElfSymbol>, segs: Seq<ElfSegment>, k: int) -> Seq<SectionView>
    decreases k,
{
    if k <= 0 || k > syms.len() {
        v
    } else {
        let acc = with_dart_symbols(v, syms, segs, k - 1);
        let s = syms[k - 1];
        match s.name {
            Some(n) => if starts_with_seq(n@, "_kDart"@) && !has_named(acc, n@) {
                acc.push(SectionView {
                    name: n@,
                    virtual_addr: s.value,
                    file_offset: match load_offset(segs, s.value, segs.len() as int) {
                        Some(o) => o,
                        None => s.value,
                    },
                    size: s.size,
                    is_executable: false,
                    is_writable: false,
                })
            } else {
                acc
            },
            None => acc,
        }
    }
}

/// The sections of an ELF file: its named section headers, then its Dart
/// snapshot symbols.
pub open spec fn elf_section_list(secs: Seq<ElfSection>, syms: Seq<ElfSymbol>, segs: Seq<ElfSegment>) -> Seq<SectionView> {
    with_dart_symbols(named_sections(secs, secs.len() as int), syms, segs, syms.len() as int)
}

/// Whether `r` is the outcome of reading an ELF file with the given header,
/// section headers, dynamic symbols and program headers.
pub open spec fn elf_outcome(
    header: Result<(u16, u64), Seq<char>>,
    secs: Seq<ElfSection>,
    syms: Seq<ElfSymbol>,
    segs: Seq<ElfSegment>,
    r: Result<ParsedBinary, CoreError>,
) -> bool {
    match header {
        Err(e) => r matches Err(CoreError::InvalidElf(t)) && t@ == e,
        Ok((machine, entry)) => match elf_arch(machine) {
            None => r matches Err(CoreError::UnsupportedArchitecture(t)) && t@ == "ELF e_machine: 0x"@ + hex_seq(
                machine as nat,
            ),
            Some(arch) => r matches Ok(p) && built_by_new(p, arch, entry) && section_views(p.sections@)
                == elf_section_list(secs, syms, segs),
        },
    }
}

/// The file offset of a virtual address through the loadable segments.
fn vaddr_to_file_offset(segs: &Vec<ElfSegment>, vaddr: u64) -> (r: Option<u64>)
    ensures
        r == load_offset(segs@, vaddr, segs@.len() as int),
{
    let mut i: usize = 0;
    while i < segs.len()
        invariant
            i <= segs@.len(),
            load_offset(segs@, vaddr, i as int) is None,
        decreases segs@.len() - i,
    {
        let ph = segs[i];
        if ph.p_type == 1 && ph.vaddr <= vaddr && vaddr - ph.vaddr < ph.memsz {
            let o = (vaddr - ph.vaddr).wrapping_add(ph.offset);
            proof {
                lemma_load_offset_found(segs@, vaddr, i as int, segs@.len() as int);
            }
            return Some(o);
        }
        i = i + 1;
    }
    None
}

proof fn lemma_load_offset_found(segs: Seq<ElfSegment>, vaddr: u64, i: int, k: int)
    requires
        0 <= i < k <= segs.len(),
        load_offset(segs, vaddr, i) is None,
        load_offset(segs, vaddr, i + 1) is Some,
    ensures
        load_offset(segs, vaddr, k) == load_offset(segs, vaddr, i + 1),
    decreases k,
{
    if k > i + 1 {
        lemma_load_offset_found(segs, vaddr, i, k - 1);
    }
}

/// Whether a section of that name is in the list.
fn has_section_named(v: &Vec<SectionInfo>, name: &str) -> (r: bool)
    ensures
        r == has_named(section_views(v@), name@),
{
    let mut i: usize = 0;
    while i < v.len()
        invariant
            i <= v@.len(),
            forall|j: int| 0 <= j < i ==> v@[j].name@ != name@,
        decreases v@.len() - i,
    {
        if str_eq(v[i].name.as_str(), name) {
            assert(section_views(v@)[i as int].name == name@);
            return true;
        }
        i = i + 1;
    }
    assert forall|j: int| 0 <= j < section_views(v@).len() implies (#[trigger] section_views(v@)[j]).name != name@ by {
        assert(section_views(v@)[j] == v@[j].view());
    }
    false
}

/// Builds the sections and the parsed binary of an ELF file from what its
/// headers hold.
pub fn elf_binary(
    machine: u16,
    entry: u64,
    secs: &Vec<ElfSection>,
    syms: &Vec<ElfSymbol>,
    segs: &Vec<ElfSegment>,
) -> (r: Result<ParsedBinary, CoreError>)
    ensures
        elf_outcome(Ok((machine, entry)), secs@, syms@, segs@, r),
{
    let arch = if machine == 183 {
        Architecture::Arm64
    } else if machine == 40 {
        Architecture::Arm32
    } else if machine == 62 {
        Architecture::X86_64
    } else if machine == 3 {
        Architecture::X86
    } else {
        let mut t = owned("ELF e_machine: 0x");
        push_hex(&mut t, machine as u64);
        return Err(CoreError::UnsupportedArchitecture(t));
    };
    let mut sections: Vec<SectionInfo> = Vec::new();
    let mut i: usize = 0;
    while i < secs.len()
        invariant
            i <= secs@.len(),
            section_views(sections@) == named_sections(secs@, i as int),
        decreases secs@.len() - i,
    {
        let sh = &secs[i];
        let ghost before = section_views(sections@);
        if !sh.name.as_str().is_empty() {
            let info = SectionInfo {
                name: sh.name.clone(),
                virtual_addr: sh.addr,
                file_offset: sh.offset,
                size: sh.size,
                is_executable: sh.flags & 4 != 0,
                is_writable: sh.flags & 1 != 0,
            };
            sections.push(info);
            assert(section_views(sections@) =~= before.push(elf_section_view(secs@[i as int])));
        } else {
            assert(section_views(sections@) =~= before);
        }
        assert(section_views(sections@) =~= named_sections(secs@, i + 1));
        i = i + 1;
    }
    let ghost base = section_views(sections@);
    let mut k: usize = 0;
    while k < syms.len()
        invariant
            k <= syms@.len(),
            section_views(sections@) == with_dart_symbols(base, syms@, segs@, k as int),
        decreases syms@.len() - k,
    {
        let sym = &syms[k];
        let ghost before = section_views(sections@);
        match &sym.name {
            Some(n) => {
                if str_starts_with(n.as_str(), "_kDart") && !has_section_named(&sections, n.as_str()) {
                    let off = match vaddr_to_file_offset(segs, sym.value) {
                        Some(o) => o,
                        None => sym.value,
                    };
                    sections.push(SectionInfo {
                        name: n.clone(),
                        virtual_addr: sym.value,
                        file_offset: off,
                        size: sym.size,
                        is_executable: false,
                        is_writable: false,
                    });
                    assert(section_views(sections@) =~= with_dart_symbols(base, syms@, segs@, k + 1));
                }
            },
            None => {},
        }
        assert(section_views(sections@) =~= with_dart_symbols(base, syms@, segs@, k + 1));
        k = k + 1;
    }
    Ok(ParsedBinary::new(arch, sections, entry))
}

/// Parse an ELF binary and extract sections: its named section headers and
/// the sections its `_kDart` dynamic symbols mark.
pub fn parse_elf(file: &BinaryFile) -> (r: Result<ParsedBinary, CoreError>)
    ensures
        elf_outcome(
            elf_header_of(file.bytes()),
            elf_sections_of(file.bytes()),
            elf_symbols_of(file.bytes()),
            elf_segments_of(file.bytes()),
            r,
        ),
{
    let data = file.data();
    match elf_header(data) {
        Err(e) => Err(CoreError::InvalidElf(e)),
        Ok((machine, entry)) => {
            let secs = elf_sections(data);
            let syms = elf_symbols(data);
            let segs = elf_segments(data);
            elf_binary(machine, entry, &secs, &syms, &segs)
        },
    }
}

} // verus!
