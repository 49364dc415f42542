//! The Mach-O front end (iOS `libapp` dylibs), fat binaries included.

use vstd::prelude::*;
use super::Architecture;
use super::errors::CoreError;
use super::file::BinaryFile;
use super::sections::{ParsedBinary, SectionInfo, SectionView, section_views, built_by_new};
use crate::text::{hex_seq, owned, push_hex, push_str};

verus! {

/// A section of a Mach-O segment, with the names and flags the front end
/// reads (a name that cannot be read is empty).
#[derive(Debug, Clone)]
pub struct MachSection {
    pub seg_name: String,
    pub sect_name: String,
    pub addr: u64,
    pub offset: u32,
    pub size: u64,
    pub seg_flags: u32,
}

/// How `goblin::mach::Mach::parse` reads a file: a single binary (`None`),
/// a fat binary with the offset and size of each architecture it lists, or
/// the text of its parse error.
pub uninterp spec fn mach_layout_of(data: Seq<u8>) -> Result<Option<Seq<(u32, u32)>>, Seq<char>>;

/// What `goblin::mach::MachO::parse` reads of a single binary's header: the
/// CPU type and the entry point, or the text of its parse error.
pub uninterp spec fn macho_header_of(data: Seq<u8>) -> Result<(u32, u64), Seq<char>>;

/// The sections of a single binary, segment by segment (none where parsing
/// fails).
pub uninterp spec fn macho_sections_of(data: Seq<u8>) -> Seq<MachSection>;

/// `goblin::mach::Mach::parse`: `None` for a single binary, else the
/// offset and size of each architecture of the fat binary that reads
/// without error. The result is named.
#[verifier::external_body]
fn mach_layout(data: &[u8]) -> (r: Result<Option<Vec<(u32, u32)>>, String>)
    ensures
        match r {
            Ok(None) => mach_layout_of(data@) == Ok::<Option<Seq<(u32, u32)>>, Seq<char>>(None),
            Ok(Some(a)) => mach_layout_of(data@) == Ok::<Option<Seq<(u32, u32)>>, Seq<char>>(Some(a@)),
            Err(e) => mach_layout_of(data@) == Err::<Option<Seq<(u32, u32)>>, Seq<char>>(e@),
        },
{
    match goblin::mach::Mach::parse(data) {
        Ok(goblin::mach::Mach::Binary(_)) => Ok(None),
        Ok(goblin::mach::Mach::Fat(fat)) => Ok(Some(fat.iter_arches().flatten().map(|a| (a.offset, a.size)).collect())),
        Err(e) => Err(e.to_string()),
    }
}

/// `goblin::mach::MachO::parse` at offset 0, keeping the CPU type and the
/// entry point, or the error's text. The result is named.
#[verifier::external_body]
fn macho_header(data: &[u8]) -> (r: Result<(u32, u64), String>)
    ensures
        match r {
            Ok(h) => macho_header_of(data@) == Ok::<(u32, u64), Seq<char>>(h),
            Err(e) => macho_header_of(data@) == Err::<(u32, u64), Seq<char>>(e@),
        },
{
    match goblin::mach::MachO::parse(data, 0) {
        Ok(m) => Ok((m.header.cputype(), m.entry)),
        Err(e) => Err(e.to_string()),
    }
}

/// `goblin::mach::MachO::parse` at offset 0, keeping each section of each
/// segment (`Segment::sections`, none where that fails) with the segment's
/// name and flags. The result is named.
#[verifier::external_body]
fn macho_sections(data: &[u8]) -> (r: Vec<MachSection>)
    ensures
        r@ == macho_sections_of(data@),
{
    match goblin::mach::MachO::parse(data, 0) {
        Ok(m) => m.segments.iter().flat_map(|seg| seg.sections().unwrap_or_default().into_iter().map(move |(s, _)| MachSection {
            seg_name: seg.name().unwrap_or("").to_string(), sect_name: s.name().unwrap_or("").to_string(),
            addr: s.addr, offset: s.offset, size: s.size, seg_flags: seg.flags,
        })).collect(),
        Err(_) => Vec::new(),
    }
}

/// The architecture of a Mach-O CPU type.
pub open spec fn macho_arch(cputype: u32) -> Option<Architecture> {
    if cputype == 0x0100000c {
        Some(Architecture::Arm64)
    } else if cputype == 12 {
        Some(Architecture::Arm32)
    } else if cputype == 0x01000007 {
        Some(Architecture::X86_64)
    } else if cputype == 7 {
        Some(Architecture::X86)
    } else {
        None
    }
}

/// The section a Mach-O section describes: named `segment.section` (just
/// the section where the segment has no name), executable and writable as
/// its segment's flags say.
pub open spec fn mach_section_view(s: MachSection) -> SectionView {
    SectionView {
        name: if s.seg_name@.len() == 0 { s.sect_name@ } else { s.seg_name@ + "."@ + s.sect_name@ },
        virtual_addr: s.addr,
        file_offset: s.offset as u64,
        size: s.size,
        is_executable: s.seg_flags & 4 != 0,
        is_writable: s.seg_flags & 2 != 0,
    }
}

/// Whether `r` is the outcome of reading a single binary with the given
/// header and sections.
pub open spec fn single_outcome(header: (u32, u64), secs: Seq<MachSection>, r: Result<ParsedBinary, CoreError>) -> bool {
    match macho_arch(header.0) {
        None => r matches Err(CoreError::UnsupportedArchitecture(t)) && t@ == "Mach-O cputype: 0x"@ + hex_seq(
            header.0 as nat,
        ),
        Some(arch) => r matches Ok(p) && built_by_new(p, arch, header.1) && section_views(p.sections@)
            == secs.map_values(|s: MachSection| mach_section_view(s)),
    }
}

/// Whether `r` is the outcome of reading the architectures of a fat binary
/// from the `k`-th on: the first one that lies within the file and reads as
/// a Mach-O binary decides when it is arm64 or of an unsupported CPU type;
/// the others are passed over; when none decides, no architecture suits.
pub open spec fn fat_outcome(data: Seq<u8>, arches: Seq<(u32, u32)>, k: int, r: Result<ParsedBinary, CoreError>) -> bool
    decreases arches.len() - k,
{
    if k < 0 || k >= arches.len() {
        r matches Err(CoreError::InvalidMachO(t)) && t@ == "No suitable architecture in fat binary"@
    } else {
        let (off, size) = arches[k];
        let slice = data.subrange(off as int, off + size);
        if off + size <= data.len() && macho_header_of(slice) is Ok {
            let header = macho_header_of(slice)->Ok_0;
            match macho_arch(header.0) {
                Some(Architecture::Arm64) => single_outcome(header, macho_sections_of(slice), r),
                None => single_outcome(header, macho_sections_of(slice), r),
                Some(_) => fat_outcome(data, arches, k + 1, r),
            }
        } else {
            fat_outcome(data, arches, k + 1, r)
        }
    }
}

/// Whether `r` is the outcome of reading a Mach-O file.
pub open spec fn macho_outcome(data: Seq<u8>, r: Result<ParsedBinary, CoreError>) -> bool {
    match mach_layout_of(data) {
        Err(e) => r matches Err(CoreError::InvalidMachO(t)) && t@ == e,
        Ok(None) => match macho_header_of(data) {
            Ok(h) => single_outcome(h, macho_sections_of(data), r),
            Err(e) => r matches Err(CoreError::InvalidMachO(t)) && t@ == e,
        },
        Ok(Some(arches)) => fat_outcome(data, arches, 0, r),
    }
}

/// Builds the parsed binary of a single Mach-O binary from its header and
/// sections.
pub fn macho_binary(cputype: u32, entry: u64, secs: &Vec<MachSection>) -> (r: Result<ParsedBinary, CoreError>)
    ensures
        single_outcome((cputype, entry), secs@, r),
{
    let arch = if cputype == 0x0100000c {
        Architecture::Arm64
    } else if cputype == 12 {
        Architecture::Arm32
    } else if cputype == 0x01000007 {
        Architecture::X86_64
    } else if cputype == 7 {
        Architecture::X86
    } else {
        let mut t = owned("Mach-O cputype: 0x");
        push_hex(&mut t, cputype as u64);
        return Err(CoreError::UnsupportedArchitecture(t));
    };
    let mut sections: Vec<SectionInfo> = Vec::new();
    let mut i: usize = 0;
    while i < secs.len()
        invariant
            i <= secs@.len(),
            section_views(sections@) == secs@.take(i as int).map_values(|s: MachSection| mach_section_view(s)),
        decreases secs@.len() - i,
    {
        let s = &secs[i];
        let name = if s.seg_name.as_str().is_empty() {
            s.sect_name.clone()
        } else {
            let mut n = s.seg_name.clone();
            push_str(&mut n, ".");
            push_str(&mut n, s.sect_name.as_str());
            n
        };
        let ghost before = section_views(sections@);
        sections.push(SectionInfo {
            name: name,
            virtual_addr: s.addr,
            file_offset: s.offset as u64,
            size: s.size,
            is_executable: s.seg_flags & 4 != 0,
            is_writable: s.seg_flags & 2 != 0,
        });
        assert(section_views(sections@) =~= before.push(mach_section_view(secs@[i as int])));
        assert(secs@.take(i + 1).map_values(|s: MachSection| mach_section_view(s))
            =~= secs@.take(i as int).map_values(|s: MachSection| mach_section_view(s)).push(mach_section_view(secs@[i as int])));
        i = i + 1;
    }
    assert(secs@.take(i as int) =~= secs@);
    Ok(ParsedBinary::new(arch, sections, entry))
}

/// Reads a single Mach-O binary.
fn parse_single_macho(data: &[u8]) -> (r: Result<ParsedBinary, CoreError>)
    ensures
        match macho_header_of(data@) {
            Ok(h) => single_outcome(h, macho_sections_of(data@), r),
            Err(e) => r matches Err(CoreError::InvalidMachO(t)) && t@ == e,
        },
{
    match macho_header(data) {
        Ok((cputype, entry)) => {
            let secs = macho_sections(data);
            macho_binary(cputype, entry, &secs)
        },
        Err(e) => Err(CoreError::InvalidMachO(e)),
    }
}

/// Parse a Mach-O binary (iOS libapp.dylib) and extract sections; of a fat
/// binary, the arm64 architecture is taken.
pub fn parse_macho(file: &BinaryFile) -> (r: Result<ParsedBinary, CoreError>)
    ensures
        macho_outcome(file.bytes(), r),
{
    let data = file.data();
    match mach_layout(data) {
        Err(e) => Err(CoreError::InvalidMachO(e)),
        Ok(None) => parse_single_macho(data),
        Ok(Some(arches)) => {
            let mut k: usize = 0;
            while k < arches.len()
                invariant
                    k <= arches@.len(),
                    data@ == file.bytes(),
                    mach_layout_of(data@) == Ok::<Option<Seq<(u32, u32)>>, Seq<char>>(Some(arches@)),
                    forall|r: Result<ParsedBinary, CoreError>| fat_outcome(data@, arches@, k as int, r)
                        ==> #[trigger] fat_outcome(data@, arches@, 0, r),
                decreases arches@.len() - k,
            {
                let (off, size) = arches[k];
                let end: u64 = off as u64 + size as u64;
                if end <= data.len() as u64 {
                    let slice = vstd::slice::slice_subrange(data, off as usize, end as usize);
                    match macho_header(slice) {
                        Ok((cputype, entry)) => {
                            if cputype == 0x0100000c {
                                let secs = macho_sections(slice);
                                return macho_binary(cputype, entry, &secs);
                            }
                            if !(cputype == 12 || cputype == 0x01000007 || cputype == 7) {
                                let secs = macho_sections(slice);
                                return macho_binary(cputype, entry, &secs);
                            }
                        },
                        Err(_) => {},
                    }
                }
                k = k + 1;
            }
            Err(CoreError::InvalidMachO(owned("No suitable architecture in fat binary")))
        },
    }
}

} // verus!
