//! The PE front end (Windows desktop Flutter).

use vstd::prelude::*;
use super::Architecture;
use super::errors::CoreError;
use super::file::BinaryFile;
use super::sections::{ParsedBinary, SectionInfo, SectionView, section_views, built_by_new};
use crate::text::{utf8_lossy, utf8_lossy_of};

verus! {

/// A section table entry as the PE file gives it.
#[derive(Debug, Clone)]
pub struct PeSection {
    pub name: Vec<u8>,
    pub virtual_size: u32,
    pub virtual_address: u32,
    pub pointer_to_raw_data: u32,
    pub characteristics: u32,
}

/// What `goblin` reads of a PE file's headers: whether it is 64-bit, its
/// entry point and its image base, or the text of its parse error.
pub uninterp spec fn pe_header_of(data: Seq<u8>) -> Result<(bool, u64, u64), Seq<char>>;

/// The section table `goblin` reads (empty where parsing fails).
pub uninterp spec fn pe_sections_of(data: Seq<u8>) -> Seq<PeSection>;

/// `goblin::pe::PE::parse`, keeping `is_64`, `entry` and `image_base`, or
/// the error's text. The result is named.
#[verifier::external_body]
fn pe_header(data: &[u8]) -> (r: Result<(bool, u64, u64), String>)
    ensures
        match r {
            Ok(h) => pe_header_of(data@) == Ok::<(bool, u64, u64), Seq<char>>(h),
            Err(e) => pe_header_of(data@) == Err::<(bool, u64, u64), Seq<char>>(e@),
        },
{
    match goblin::pe::PE::parse(data) {
        Ok(pe) => Ok((pe.is_64, pe.entry as u64, pe.image_base as u64)),
        Err(e) => Err(e.to_string()),
    }
}

/// `goblin::pe::PE::parse`, keeping each section's raw name and the fields
/// the front end reads. The result is named.
#[verifier::external_body]
fn pe_sections(data: &[u8]) -> (r: Vec<PeSection>)
    ensures
        r@ == pe_sections_of(data@),
{
    match goblin::pe::PE::parse(data) {
        Ok(pe) => pe.sections.iter().map(|s| PeSection {
            name: s.name.to_vec(), virtual_size: s.virtual_size, virtual_address: s.virtual_address,
            pointer_to_raw_data: s.pointer_to_raw_data, characteristics: s.characteristics,
        }).collect(),
        Err(_) => Vec::new(),
    }
}

/// The length of a raw section name: up to its first NUL byte.
pub open spec fn name_len(name: Seq<u8>, k: int) -> int
    decreases name.len() - k,
{
    if k < 0 || k >= name.len() {
        name.len() as int
    } else if name[k] == 0 {
        k
    } else {
        name_len(name, k + 1)
    }
}

/// The section a PE section table entry describes: executable with
/// `IMAGE_SCN_MEM_EXECUTE`, writable with `IMAGE_SCN_MEM_WRITE`, at its
/// address past the image base (modulo 2^64).
pub open spec fn pe_section_view(s: PeSection, image_base: u64) -> SectionView {
    SectionView {
        name: utf8_lossy_of(s.name@.take(name_len(s.name@, 0))),
        virtual_addr: (s.virtual_address as u64).wrapping_add(image_base),
        file_offset: s.pointer_to_raw_data as u64,
        size: s.virtual_size as u64,
        is_executable: s.characteristics & 0x20000000 != 0,
        is_writable: s.characteristics & 0x80000000 != 0,
    }
}

/// Whether `r` is the outcome of reading a PE file with the given header
/// and section table.
pub open spec fn pe_outcome(header: Result<(bool, u64, u64), Seq<char>>, secs: Seq<PeSection>, r: Result<ParsedBinary, CoreError>) -> bool {
    match header {
        Err(e) => r matches Err(CoreError::InvalidPe(t)) && t@ == e,
        Ok((is_64, entry, image_base)) => r matches Ok(p)
            && built_by_new(p, if is_64 { Architecture::X86_64 } else { Architecture::X86 }, entry.wrapping_add(image_base))
            && section_views(p.sections@) == secs.map_values(|s: PeSection| pe_section_view(s, image_base)),
    }
}

/// The length of a raw section name.
fn raw_name_len(name: &Vec<u8>) -> (r: usize)
    ensures
        r == name_len(name@, 0),
        r <= name@.len(),
{
    let mut k: usize = 0;
    while k < name.len() && name[k] != 0
        invariant
            k <= name@.len(),
            name_len(name@, 0) == name_len(name@, k as int),
        decreases name@.len() - k,
    {
        k = k + 1;
    }
    k
}

/// Builds the parsed binary of a PE file from its header and section table.
pub fn pe_binary(is_64: bool, entry: u64, image_base: u64, secs: &Vec<PeSection>) -> (r: Result<ParsedBinary, CoreError>)
    ensures
        pe_outcome(Ok((is_64, entry, image_base)), secs@, r),
{
    let arch = if is_64 { Architecture::X86_64 } else { Architecture::X86 };
    let mut sections: Vec<SectionInfo> = Vec::new();
    let mut i: usize = 0;
    while i < secs.len()
        invariant
            i <= secs@.len(),
            section_views(sections@) == secs@.take(i as int).map_values(|s: PeSection| pe_section_view(s, image_base)),
        decreases secs@.len() - i,
    {
        let s = &secs[i];
        let n = raw_name_len(&s.name);
        let name = utf8_lossy(vstd::slice::slice_subrange(s.name.as_slice(), 0, n));
        assert(s.name@.subrange(0, n as int) =~= s.name@.take(n as int));
        let ghost before = section_views(sections@);
        sections.push(SectionInfo {
            name: name,
            virtual_addr: (s.virtual_address as u64).wrapping_add(image_base),
            file_offset: s.pointer_to_raw_data as u64,
            size: s.virtual_size as u64,
            is_executable: s.characteristics & 0x20000000 != 0,
            is_writable: s.characteristics & 0x80000000 != 0,
        });
        assert(section_views(sections@) =~= before.push(pe_section_view(secs@[i as int], image_base)));
        assert(secs@.take(i + 1).map_values(|s: PeSection| pe_section_view(s, image_base))
            =~= secs@.take(i as int).map_values(|s: PeSection| pe_section_view(s, image_base)).push(
            pe_section_view(secs@[i as int], image_base)));
        i = i + 1;
    }
    assert(secs@.take(i as int) =~= secs@);
    Ok(ParsedBinary::new(arch, sections, entry.wrapping_add(image_base)))
}

/// Parse a PE binary (Windows desktop Flutter) and extract sections.
pub fn parse_pe(file: &BinaryFile) -> (r: Result<ParsedBinary, CoreError>)
    ensures
        pe_outcome(pe_header_of(file.bytes()), pe_sections_of(file.bytes()), r),
{
    let data = file.data();
    match pe_header(data) {
        Err(e) => Err(CoreError::InvalidPe(e)),
        Ok((is_64, entry, image_base)) => {
            let secs = pe_sections(data);
            pe_binary(is_64, entry, image_base, &secs)
        },
    }
}

} // verus!
